use faer_wasm_blas::L1::drotg::RotgPlan as DRotgPlan;
use faer_wasm_blas::c32::C32;
use faer_wasm_blas::c64::C64;
use faer_wasm_blas::L1::{
    dcopy, dnrm2_finish, dnrm2_ssq, drotg_finish, drotg_plan, dznrm2_ssq, idamax, isamax, scnrm2_ssq,
    scopy, snrm2_finish, snrm2_ssq,
};
use faer_wasm_blas::L2::{dger, dtrmv, dtrsv, sger, strmv, strsv};

fn d(v: &[f64]) -> Vec<u64> {
    v.iter().map(|x| x.to_bits()).collect()
}

fn s(v: &[f32]) -> Vec<u32> {
    v.iter().map(|x| x.to_bits()).collect()
}

#[test]
fn copies_move_bits() {
    let x = d(&[1.0, f64::NAN, -0.0]);
    let mut y = d(&[0.0; 3]);
    dcopy(&x, &mut y);
    assert_eq!(x, y);
    let xs = s(&[2.5, -1.0]);
    let mut ys = s(&[0.0, 0.0]);
    scopy(&xs, &mut ys);
    assert_eq!(xs, ys);
}

#[test]
fn real_index_of_max() {
    assert_eq!(idamax(&d(&[1.0, -7.0, 3.0, 7.0])), 1);
    assert_eq!(isamax(&s(&[0.0, 0.5, -0.25])), 1);
    assert_eq!(idamax(&[]), 0);
}

#[test]
fn index_of_max_orders_like_floats() {
    // infinities, subnormals and signed zeros compare as values
    let tiny = f64::from_bits(1);
    assert_eq!(idamax(&d(&[-0.0, 0.0, tiny, -tiny])), 2);
    assert_eq!(idamax(&d(&[0.0, -0.0])), 0);
    assert_eq!(idamax(&d(&[1e300, f64::NEG_INFINITY, f64::INFINITY])), 1);
    assert_eq!(idamax(&d(&[2.0, -2.5, 2.25])), 1);
    assert_eq!(isamax(&s(&[1.5, f32::MAX, -f32::MAX, 3.0])), 1);
    assert_eq!(isamax(&s(&[-0.0, 0.0])), 0);
}

#[test]
fn ger_real() {
    // 2x2 at stride 3, padding 9
    let mut a = d(&[1.0, 1.0, 9.0, 1.0, 1.0]);
    dger(2.0f64.to_bits(), 2, 2, &mut a, 3, &d(&[1.0, 2.0]), &d(&[1.0, -1.0]));
    assert_eq!(a, d(&[3.0, 5.0, 9.0, -1.0, -3.0]));
    let mut b = s(&[0.0, 0.0, 0.0, 0.0]);
    sger(1.0f32.to_bits(), 2, 2, &mut b, 2, &s(&[1.0, 2.0]), &s(&[3.0, 4.0]));
    assert_eq!(b, s(&[3.0, 6.0, 4.0, 8.0]));
}

#[test]
fn real_triangular_round_trip() {
    // upper [[2, 1], [0, 4]] at stride 2, lower marker 7
    let a = d(&[2.0, 7.0, 1.0, 4.0]);
    let x0 = d(&[1.0, 0.5]);
    let mut x = x0.clone();
    dtrmv(2, &a, 2, true, false, &mut x);
    assert_eq!(x, d(&[2.5, 2.0]));
    dtrsv(2, &a, 2, true, false, &mut x);
    assert_eq!(x, x0);
    let b = s(&[1.0, 2.0, 7.0, 1.0]);
    let y0 = s(&[1.0, 1.0]);
    let mut y = y0.clone();
    strmv(2, &b, 2, false, true, &mut y);
    assert_eq!(y, s(&[1.0, 3.0]));
    strsv(2, &b, 2, false, true, &mut y);
    assert_eq!(y, y0);
}

#[test]
fn drotg_plans() {
    assert!(matches!(drotg_plan(0, 0), DRotgPlan::Done(_)));
    match drotg_plan(3.0f64.to_bits(), 4.0f64.to_bits()) {
        DRotgPlan::Root { scale, sumsq } => {
            let root = f64::from_bits(sumsq).sqrt();
            let g = drotg_finish(3.0f64.to_bits(), 4.0f64.to_bits(), scale, root.to_bits());
            assert!((f64::from_bits(g.r) - 5.0).abs() < 1e-12);
            assert!((f64::from_bits(g.c) - 0.6).abs() < 1e-12);
        }
        DRotgPlan::Done(_) => panic!("nonzero input needs a root"),
    }
}

#[test]
fn nrm2_plain_sum_and_rescue() {
    // the plain sum of squares is kept with scale 1
    let (scale, ssq) = dnrm2_ssq(&d(&[3.0, 4.0]));
    assert_eq!((f64::from_bits(scale), f64::from_bits(ssq)), (1.0, 25.0));
    assert_eq!(f64::from_bits(dnrm2_finish(scale, 5.0f64.to_bits())), 5.0);
    let (scale, ssq) = dnrm2_ssq(&d(&[0.0, -2.0, -0.0, 1.0]));
    assert_eq!((f64::from_bits(scale), f64::from_bits(ssq)), (1.0, 5.0));
    // twelve elements: eight lanes then a tail of four
    let v: Vec<f64> = (1..=12).map(|i| i as f64).collect();
    let (scale, ssq) = dnrm2_ssq(&d(&v));
    assert_eq!((f64::from_bits(scale), f64::from_bits(ssq)), (1.0, 650.0));
    // zero and empty vectors: scale 0, sum 1
    let (scale, ssq) = dnrm2_ssq(&[]);
    assert_eq!((f64::from_bits(scale), f64::from_bits(ssq)), (0.0, 1.0));
    let (scale, ssq) = dnrm2_ssq(&d(&[0.0, -0.0]));
    assert_eq!((f64::from_bits(scale), f64::from_bits(ssq)), (0.0, 1.0));
    // overflow: rescued with the largest magnitude as scale
    let (scale, ssq) = dnrm2_ssq(&d(&[1e200, -1e200]));
    assert_eq!((f64::from_bits(scale), f64::from_bits(ssq)), (1e200, 2.0));
    // underflow: rescued too
    let (scale, ssq) = dnrm2_ssq(&d(&[1e-200, 2e-200]));
    assert_eq!(f64::from_bits(scale), 2e-200);
    assert_eq!(f64::from_bits(ssq), 0.25 + 1.0);
    // an infinite element: scale infinity, sum 1
    let (scale, ssq) = dnrm2_ssq(&d(&[1.0, f64::NEG_INFINITY]));
    assert_eq!((f64::from_bits(scale), f64::from_bits(ssq)), (f64::INFINITY, 1.0));
    let (scale, ssq) = snrm2_ssq(&s(&[3.0, 4.0]));
    assert_eq!((f32::from_bits(scale), f32::from_bits(ssq)), (1.0, 25.0));
    assert_eq!(f32::from_bits(snrm2_finish(scale, 5.0f32.to_bits())), 5.0);
    let (scale, ssq) = snrm2_ssq(&s(&[1e30, 1e30]));
    assert_eq!((f32::from_bits(scale), f32::from_bits(ssq)), (1e30, 2.0));
}

#[test]
fn complex_nrm2_uses_the_real_view() {
    let x = [C64::new(3.0f64.to_bits(), 4.0f64.to_bits())];
    let (scale, ssq) = dznrm2_ssq(&x);
    assert_eq!((f64::from_bits(scale), f64::from_bits(ssq)), (1.0, 25.0));
    let y = [C32::new(0.0f32.to_bits(), 2.0f32.to_bits()), C32::new(1.0f32.to_bits(), 0.0f32.to_bits())];
    let (scale, ssq) = scnrm2_ssq(&y);
    assert_eq!((f32::from_bits(scale), f32::from_bits(ssq)), (1.0, 5.0));
}
