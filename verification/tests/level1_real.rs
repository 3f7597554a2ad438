use faer_wasm_blas::L1::{dasum, daxpy, drot, dscal, dswap, sasum, saxpy, srot, sscal, sswap};

fn d(v: &[f64]) -> Vec<u64> {
    v.iter().map(|x| x.to_bits()).collect()
}

fn s(v: &[f32]) -> Vec<u32> {
    v.iter().map(|x| x.to_bits()).collect()
}

fn dv(v: &[u64]) -> Vec<f64> {
    v.iter().map(|x| f64::from_bits(*x)).collect()
}

fn sv(v: &[u32]) -> Vec<f32> {
    v.iter().map(|x| f32::from_bits(*x)).collect()
}

#[test]
fn dasum_blocked_and_tail() {
    let x: Vec<f64> = (0..21).map(|i| if i % 2 == 0 { i as f64 } else { -(i as f64) }).collect();
    assert_eq!(f64::from_bits(dasum(&d(&x))), 210.0);
    assert_eq!(dasum(&[]), 0);
    assert_eq!(f64::from_bits(dasum(&d(&[-0.5]))), 0.5);
}

#[test]
fn sasum_blocked_and_tail() {
    let x: Vec<f32> = (0..37).map(|i| -(i as f32)).collect();
    assert_eq!(f32::from_bits(sasum(&s(&x))), 666.0);
}

#[test]
fn axpy_elementwise() {
    let mut y = d(&[1.0, 2.0, 3.0]);
    daxpy(2.0f64.to_bits(), &d(&[1.0, -1.0, 0.5]), &mut y);
    assert_eq!(dv(&y), vec![3.0, 0.0, 4.0]);
    let mut w = s(&[1.0, 2.0]);
    saxpy((-1.0f32).to_bits(), &s(&[4.0, 4.0]), &mut w);
    assert_eq!(sv(&w), vec![-3.0, -2.0]);
}

#[test]
fn scal_and_swap() {
    let mut x = d(&[1.0, -2.0]);
    dscal(0.5f64.to_bits(), &mut x);
    assert_eq!(dv(&x), vec![0.5, -1.0]);
    let mut a = s(&[1.0, 2.0]);
    let mut b = s(&[3.0, 4.0]);
    sscal(2.0f32.to_bits(), &mut a);
    sswap(&mut a, &mut b);
    assert_eq!(sv(&a), vec![3.0, 4.0]);
    assert_eq!(sv(&b), vec![2.0, 4.0]);
    let mut p = d(&[1.0]);
    let mut q = d(&[2.0]);
    dswap(&mut p, &mut q);
    assert_eq!((dv(&p), dv(&q)), (vec![2.0], vec![1.0]));
}

#[test]
fn rot_pairs() {
    let mut x = d(&[1.0, 0.0]);
    let mut y = d(&[0.0, 1.0]);
    drot(&mut x, &mut y, 0.0f64.to_bits(), 1.0f64.to_bits());
    assert_eq!(dv(&x), vec![0.0, 1.0]);
    assert_eq!(dv(&y), vec![-1.0, 0.0]);
    let mut u = s(&[3.0]);
    let mut w = s(&[4.0]);
    srot(&mut u, &mut w, 0.6f32.to_bits(), 0.8f32.to_bits());
    assert_eq!(sv(&u)[0], 0.6f32 * 3.0 + 0.8f32 * 4.0);
    assert_eq!(sv(&w)[0], 0.6f32 * 4.0 - 0.8f32 * 3.0);
}
