use faer_wasm_blas::c32::C32;
use faer_wasm_blas::c64::C64;
use faer_wasm_blas::L1::{
    crotg_finish, crotg_plan, ddot, sdot, srotg_finish, srotg_plan, zrotg_finish, zrotg_plan,
    CRotgPlan, Givens, RotgPlan, ZRotgPlan,
};
use faer_wasm_blas::L2::{
    chemv, csscale_y, ctrsv, dgemv_t, dsymv, dtrmv, sgemv_t, ssymv, strsv, zdscale_y, zgemv, zgemv_c,
    zgemv_t, zgerc, zgeru, zhemv, zher2, ztrmv,
};

fn z(re: f64, im: f64) -> C64 {
    C64::new(re.to_bits(), im.to_bits())
}

fn c(re: f32, im: f32) -> C32 {
    C32::new(re.to_bits(), im.to_bits())
}

fn zval(v: C64) -> (f64, f64) {
    (f64::from_bits(v.re), f64::from_bits(v.im))
}

fn d(v: &[f64]) -> Vec<u64> {
    v.iter().map(|x| x.to_bits()).collect()
}

fn s(v: &[f32]) -> Vec<u32> {
    v.iter().map(|x| x.to_bits()).collect()
}

#[test]
fn ddot_and_sdot_exact() {
    let x: Vec<f64> = (0..13).map(|i| i as f64).collect();
    let y: Vec<f64> = (0..13).map(|i| (i % 3) as f64).collect();
    let expect: f64 = (0..13).map(|i| (i * (i % 3)) as f64).sum();
    assert_eq!(f64::from_bits(ddot(&d(&x), &d(&y))), expect);
    let xs: Vec<f32> = (0..21).map(|i| i as f32).collect();
    let ys: Vec<f32> = (0..21).map(|_| 2.0).collect();
    assert_eq!(f32::from_bits(sdot(&s(&xs), &s(&ys))), 420.0);
    assert_eq!(ddot(&[], &[]), 0);
}

#[test]
fn gemv_t_real() {
    // A = [[1, 3], [2, 4]] at stride 2
    let a = d(&[1.0, 2.0, 3.0, 4.0]);
    let mut y = d(&[1.0, 1.0]);
    dgemv_t(1.0f64.to_bits(), 2, 2, &a, 2, &d(&[1.0, 1.0]), 1.0f64.to_bits(), &mut y);
    assert_eq!(y, d(&[4.0, 8.0]));
    let b = s(&[1.0, 2.0, 3.0, 4.0]);
    let mut w = s(&[f32::NAN, 0.0]);
    sgemv_t(2.0f32.to_bits(), 2, 2, &b, 2, &s(&[1.0, 0.0]), 0.0f32.to_bits(), &mut w);
    assert_eq!(w, s(&[2.0, 6.0]));
}

#[test]
fn real_beta_scales_of_complex() {
    let mut y = vec![z(f64::NAN, 1.0), z(2.0, -4.0)];
    zdscale_y(0.0f64.to_bits(), &mut y);
    assert_eq!(y, vec![C64::new(0, 0); 2]);
    let mut y = vec![z(2.0, -4.0)];
    zdscale_y(0.5f64.to_bits(), &mut y);
    assert_eq!(zval(y[0]), (1.0, -2.0));
    let mut w = vec![c(2.0, -4.0)];
    csscale_y(1.0f32.to_bits(), &mut w);
    assert_eq!(w, vec![c(2.0, -4.0)]);
}

#[test]
fn srotg_zero_and_general() {
    assert_eq!(srotg_plan(0, 0x8000_0000), RotgPlan::Done(Givens { c: 1.0f32.to_bits(), s: 0, r: 0 }));
    // (a, b) = (3, -4): r = -5 (sign of the larger-magnitude input)
    let (a, b) = (3.0f32, -4.0f32);
    match srotg_plan(a.to_bits(), b.to_bits()) {
        RotgPlan::Root { scale, sumsq } => {
            let root = f32::from_bits(sumsq).sqrt();
            let g = srotg_finish(a.to_bits(), b.to_bits(), scale, root.to_bits());
            let r = f32::from_bits(g.r);
            assert!((r + 5.0).abs() < 1e-5);
            assert!((f32::from_bits(g.c) + 0.6).abs() < 1e-6);
            assert!((f32::from_bits(g.s) - 0.8).abs() < 1e-6);
        }
        RotgPlan::Done(_) => panic!("nonzero input needs a root"),
    }
}

#[test]
fn zrotg_and_crotg() {
    let b = z(1.0, 2.0);
    assert_eq!(
        zrotg_plan(b, 0, 5.0f64.sqrt().to_bits()),
        ZRotgPlan::Done(faer_wasm_blas::L1::ZGivens { c: 0, s: z(1.0, 0.0), r: b })
    );
    // a = 3, b = 4: c = 0.6, s = 0.8, r = 5
    let a = z(3.0, 0.0);
    let b = z(4.0, 0.0);
    match zrotg_plan(b, 3.0f64.to_bits(), 4.0f64.to_bits()) {
        ZRotgPlan::Root { scale, sumsq } => {
            let root = f64::from_bits(sumsq).sqrt();
            let g = zrotg_finish(a, b, 3.0f64.to_bits(), scale, root.to_bits());
            assert!((f64::from_bits(g.c) - 0.6).abs() < 1e-12);
            assert!((zval(g.s).0 - 0.8).abs() < 1e-12);
            assert!((zval(g.r).0 - 5.0).abs() < 1e-12);
        }
        ZRotgPlan::Done(_) => panic!("nonzero a needs a root"),
    }
    match crotg_plan(c(0.0, 1.0), 1.0f32.to_bits(), 1.0f32.to_bits()) {
        CRotgPlan::Root { scale, sumsq } => {
            let root = f32::from_bits(sumsq).sqrt();
            let g = crotg_finish(c(1.0, 0.0), c(0.0, 1.0), 1.0f32.to_bits(), scale, root.to_bits());
            assert!((f32::from_bits(g.c) - std::f32::consts::FRAC_1_SQRT_2).abs() < 1e-6);
        }
        CRotgPlan::Done(_) => panic!("nonzero a needs a root"),
    }
}

#[test]
fn gerc_is_geru_of_conjugated_y() {
    let x = vec![z(1.0, -2.0), z(0.5, 3.0), z(-1.0, 1.0)];
    let y = vec![z(2.0, 1.0), z(-3.0, 0.5)];
    let y_conj: Vec<C64> = y.iter().map(|v| v.conj()).collect();
    let a0: Vec<C64> = (0..8).map(|k| z(k as f64, -(k as f64))).collect();
    let mut a1 = a0.clone();
    let mut a2 = a0.clone();
    zgerc(z(0.5, 1.5), 3, 2, &mut a1, 4, &x, &y);
    zgeru(z(0.5, 1.5), 3, 2, &mut a2, 4, &x, &y_conj);
    assert_eq!(a1, a2);
    assert_eq!(a1[3], a0[3]);
}

#[test]
fn gemv_c_is_gemv_t_of_conjugated_a() {
    let a: Vec<C64> = (0..9).map(|k| z(1.0 + k as f64, 0.25 * k as f64)).collect();
    let a_conj: Vec<C64> = a.iter().map(|v| v.conj()).collect();
    let x = vec![z(1.0, 1.0), z(-2.0, 0.5), z(0.0, 3.0)];
    let mut y1 = vec![z(1.0, 0.0); 3];
    let mut y2 = y1.clone();
    zgemv_c(z(2.0, -1.0), 3, 3, &a, 3, &x, z(0.5, 0.0), &mut y1);
    zgemv_t(z(2.0, -1.0), 3, 3, &a_conj, 3, &x, z(0.5, 0.0), &mut y2);
    assert_eq!(y1, y2);
}

#[test]
fn beta_zero_ignores_stale_y() {
    let a: Vec<C64> = (0..6).map(|k| z(k as f64, 1.0)).collect();
    let x = vec![z(1.0, 0.0), z(0.0, 1.0), z(1.0, 1.0)];
    let mut y1 = vec![z(f64::NAN, f64::INFINITY), z(f64::NEG_INFINITY, 0.0)];
    let mut y2 = vec![z(0.0, 0.0), z(7.0, 7.0)];
    zgemv(z(1.0, 0.0), 2, 3, &a, 2, &x, z(0.0, -0.0), &mut y1);
    zgemv(z(1.0, 0.0), 2, 3, &a, 2, &x, z(0.0, -0.0), &mut y2);
    assert_eq!(y1, y2);
    assert!(!zval(y1[0]).0.is_nan());
}

#[test]
fn her2_diagonal_stays_real() {
    let mut a: Vec<C64> = (0..9).map(|k| z(k as f64, 3.0)).collect();
    let before = a.clone();
    let x = vec![z(1.0, 2.0), z(-1.0, 0.5), z(0.0, 1.0)];
    let y = vec![z(2.0, 0.0), z(1.0, -1.0), z(3.0, 2.0)];
    zher2(z(0.5, 0.5), 3, &mut a, 3, true, &x, &y);
    for j in 0..3 {
        assert_eq!(a[j * 3 + j].im, 0);
        for i in j + 1..3 {
            assert_eq!(a[j * 3 + i], before[j * 3 + i]);
        }
    }
}

#[test]
fn hemv_ignores_other_triangle_and_diagonal_imaginary_parts() {
    // upper triangle stored, 3x3 at stride 3
    let clean = vec![
        z(2.0, 0.0), z(0.0, 0.0), z(0.0, 0.0),
        z(1.0, 1.0), z(3.0, 0.0), z(0.0, 0.0),
        z(0.5, -2.0), z(-1.0, 1.0), z(4.0, 0.0),
    ];
    let mut noisy = clean.clone();
    for (k, v) in [(1usize, z(9.0, 9.0)), (2, z(f64::NAN, 1.0)), (5, z(-7.0, 3.0))] {
        noisy[k] = v;
    }
    for j in 0..3 {
        noisy[j * 3 + j] = z(f64::from_bits(clean[j * 3 + j].re), 5.0 + j as f64);
    }
    let x = vec![z(1.0, 0.5), z(-2.0, 1.0), z(0.25, 0.0)];
    let mut y1 = vec![z(1.0, 1.0), z(0.0, 2.0), z(3.0, 0.0)];
    let mut y2 = y1.clone();
    zhemv(z(0.5, 1.0), 3, &clean, 3, true, &x, z(2.0, 0.0), &mut y1);
    zhemv(z(0.5, 1.0), 3, &noisy, 3, true, &x, z(2.0, 0.0), &mut y2);
    assert_eq!(y1, y2);
    // A x for the Hermitian A above, alpha = 1, beta = 0: row 0 is
    // 2(1+0.5i) + (1+i)(-2+i) + (0.5-2i)(0.25) = 2 + i - 3 - i + 0.125 - 0.5i
    let mut y3 = vec![z(0.0, 0.0); 3];
    zhemv(z(1.0, 0.0), 3, &noisy, 3, true, &x, z(0.0, 0.0), &mut y3);
    assert_eq!(zval(y3[0]), (-0.875, -0.5));
    let cl: Vec<C32> = clean.iter().map(|v| c(zval(*v).0 as f32, zval(*v).1 as f32)).collect();
    let no: Vec<C32> = noisy.iter().map(|v| c(zval(*v).0 as f32, zval(*v).1 as f32)).collect();
    let xc: Vec<C32> = x.iter().map(|v| c(zval(*v).0 as f32, zval(*v).1 as f32)).collect();
    let mut c1 = vec![c(1.0, 0.0); 3];
    let mut c2 = c1.clone();
    chemv(c(1.0, 0.0), 3, &cl, 3, true, &xc, c(1.0, 0.0), &mut c1);
    chemv(c(1.0, 0.0), 3, &no, 3, true, &xc, c(1.0, 0.0), &mut c2);
    assert_eq!(c1, c2);
}

#[test]
fn symv_ignores_other_triangle() {
    // lower triangle stored, 2x2 at stride 2: [[2, 1], [1, 3]]
    let clean = d(&[2.0, 1.0, 0.0, 3.0]);
    let noisy = d(&[2.0, 1.0, f64::NAN, 3.0]);
    let x = d(&[1.0, 2.0]);
    let mut y1 = d(&[0.0, 0.0]);
    let mut y2 = d(&[5.0, 5.0]);
    dsymv(1.0f64.to_bits(), 2, &clean, 2, false, &x, 0.0f64.to_bits(), &mut y1);
    dsymv(1.0f64.to_bits(), 2, &noisy, 2, false, &x, 0.0f64.to_bits(), &mut y2);
    assert_eq!(y1, y2);
    assert_eq!(y1, d(&[4.0, 7.0]));
    let cs = s(&[2.0, 1.0, 0.0, 3.0]);
    let ns = s(&[2.0, 1.0, -8.0, 3.0]);
    let mut z1 = s(&[0.0, 0.0]);
    let mut z2 = s(&[0.0, 0.0]);
    ssymv(1.0f32.to_bits(), 2, &cs, 2, false, &s(&[1.0, 2.0]), 0.0f32.to_bits(), &mut z1);
    ssymv(1.0f32.to_bits(), 2, &ns, 2, false, &s(&[1.0, 2.0]), 0.0f32.to_bits(), &mut z2);
    assert_eq!(z1, z2);
}

#[test]
fn triangular_ops_ignore_other_triangle_and_unit_diagonal() {
    // upper, unit diagonal: [[1, 2], [0, 1]] x = [1, 1] -> [3, 1]
    let clean = d(&[1.0, 0.0, 2.0, 1.0]);
    let noisy = d(&[f64::NAN, 9.0, 2.0, -4.0]);
    let mut x1 = d(&[1.0, 1.0]);
    let mut x2 = d(&[1.0, 1.0]);
    dtrmv(2, &clean, 2, true, true, &mut x1);
    dtrmv(2, &noisy, 2, true, true, &mut x2);
    assert_eq!(x1, x2);
    assert_eq!(x1, d(&[3.0, 1.0]));
    // lower, unit diagonal solve: [[1, 0], [2, 1]] x = [1, 4] -> [1, 2]
    let cl = s(&[1.0, 2.0, 0.0, 1.0]);
    let no = s(&[7.0, 2.0, f32::NAN, 0.0]);
    let mut y1 = s(&[1.0, 4.0]);
    let mut y2 = s(&[1.0, 4.0]);
    strsv(2, &cl, 2, false, true, &mut y1);
    strsv(2, &no, 2, false, true, &mut y2);
    assert_eq!(y1, y2);
    assert_eq!(y1, s(&[1.0, 2.0]));
    // complex, non-unit: only the other triangle differs
    let za = vec![z(2.0, 0.0), z(0.0, 0.0), z(1.0, 1.0), z(1.0, 0.0)];
    let zb = vec![z(2.0, 0.0), z(f64::NAN, 3.0), z(1.0, 1.0), z(1.0, 0.0)];
    let mut w1 = vec![z(1.0, 0.0), z(0.0, 1.0)];
    let mut w2 = w1.clone();
    ztrmv(2, &za, 2, true, false, &mut w1);
    ztrmv(2, &zb, 2, true, false, &mut w2);
    assert_eq!(w1, w2);
    let ca = vec![c(2.0, 0.0), c(1.0, 0.0), c(0.0, 0.0), c(1.0, 0.0)];
    let cb = vec![c(2.0, 0.0), c(1.0, 0.0), c(-3.0, f32::INFINITY), c(1.0, 0.0)];
    let mut v1 = vec![c(2.0, 0.0), c(3.0, 0.0)];
    let mut v2 = v1.clone();
    ctrsv(2, &ca, 2, false, false, &mut v1);
    ctrsv(2, &cb, 2, false, false, &mut v2);
    assert_eq!(v1, v2);
}
