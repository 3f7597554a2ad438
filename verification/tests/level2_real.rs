use faer_wasm_blas::L2::{dgemv, dscale_y, dsymv, dsyr, dsyr2, sgemv, sscale_y, ssymv, ssyr, ssyr2};

fn d(v: &[f64]) -> Vec<u64> {
    v.iter().map(|x| x.to_bits()).collect()
}

fn s(v: &[f32]) -> Vec<u32> {
    v.iter().map(|x| x.to_bits()).collect()
}

fn dv(v: &[u64]) -> Vec<f64> {
    v.iter().map(|x| f64::from_bits(*x)).collect()
}

fn sv(v: &[u32]) -> Vec<f32> {
    v.iter().map(|x| f32::from_bits(*x)).collect()
}

#[test]
fn dgemv_and_sgemv() {
    // 2x2 at stride 3: A = [[1, 3], [2, 4]]
    let a = d(&[1.0, 2.0, 9.0, 3.0, 4.0]);
    let mut y = d(&[f64::NAN, 1.0]);
    dgemv(1.0f64.to_bits(), 2, 2, &a, 3, &d(&[1.0, 1.0]), 0.0f64.to_bits(), &mut y);
    assert_eq!(dv(&y), vec![4.0, 6.0]);
    let b = s(&[1.0, 2.0, 9.0, 3.0, 4.0]);
    let mut w = s(&[1.0, 1.0]);
    sgemv(2.0f32.to_bits(), 2, 2, &b, 3, &s(&[1.0, 0.0]), 3.0f32.to_bits(), &mut w);
    assert_eq!(sv(&w), vec![5.0, 7.0]);
}

#[test]
fn scale_y_real_rules() {
    let mut y = d(&[f64::INFINITY, 2.0]);
    dscale_y((-0.0f64).to_bits(), &mut y);
    assert_eq!(y, vec![0, 0]);
    let mut w = s(&[f32::NAN]);
    sscale_y(1.0f32.to_bits(), &mut w);
    assert!(sv(&w)[0].is_nan());
    let mut w = s(&[3.0]);
    sscale_y(0.5f32.to_bits(), &mut w);
    assert_eq!(sv(&w), vec![1.5]);
}

#[test]
fn syr_and_syr2_touch_one_triangle() {
    // 2x2 at stride 2, marker -1 in the lower triangle
    let mut a = d(&[1.0, -1.0, 2.0, 3.0]);
    dsyr(1.0f64.to_bits(), 2, &mut a, 2, true, &d(&[1.0, 2.0]));
    assert_eq!(dv(&a), vec![2.0, -1.0, 4.0, 7.0]);
    let mut b = d(&[1.0, -1.0, 2.0, 3.0]);
    dsyr2(1.0f64.to_bits(), 2, &mut b, 2, false, &d(&[1.0, 0.0]), &d(&[0.0, 1.0]));
    // A += x yᵀ + y xᵀ = [[0,1],[1,0]] on the lower triangle
    assert_eq!(dv(&b), vec![1.0, 0.0, 2.0, 3.0]);
    let mut c = s(&[1.0, 5.0, 5.0, 1.0]);
    ssyr(2.0f32.to_bits(), 2, &mut c, 2, false, &s(&[1.0, 1.0]));
    assert_eq!(sv(&c), vec![3.0, 7.0, 5.0, 3.0]);
    let mut e = s(&[0.0, 5.0, 0.0, 0.0]);
    ssyr2(1.0f32.to_bits(), 2, &mut e, 2, true, &s(&[1.0, 2.0]), &s(&[3.0, 4.0]));
    assert_eq!(sv(&e), vec![6.0, 5.0, 10.0, 16.0]);
}

#[test]
fn symv_uses_one_triangle() {
    // A = [[1, 2], [2, 5]], upper stored, marker 100 below
    let a = d(&[1.0, 100.0, 2.0, 5.0]);
    let mut y = d(&[0.0, 0.0]);
    dsymv(1.0f64.to_bits(), 2, &a, 2, true, &d(&[1.0, 1.0]), 0.0f64.to_bits(), &mut y);
    assert_eq!(dv(&y), vec![3.0, 7.0]);
    let b = s(&[1.0, 2.0, 100.0, 5.0]);
    let mut w = s(&[1.0, 1.0]);
    ssymv(1.0f32.to_bits(), 2, &b, 2, false, &s(&[1.0, 0.0]), 1.0f32.to_bits(), &mut w);
    assert_eq!(sv(&w), vec![2.0, 3.0]);
}
