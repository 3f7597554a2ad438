use faer_wasm_blas::c32::C32;
use faer_wasm_blas::c64::C64;
use faer_wasm_blas::c64::as_re;
use faer_wasm_blas::L1::{
    caxpy, ccopy, cdotc, cdotu, cscal, csrot, csscal, cswap, dzasum, icamax, izamax, scasum, zaxpy,
    zcopy, zdotc, zdotu, zdrot, zdscal, zscal, zswap,
};

fn z(re: f64, im: f64) -> C64 {
    C64::new(re.to_bits(), im.to_bits())
}

fn c(re: f32, im: f32) -> C32 {
    C32::new(re.to_bits(), im.to_bits())
}

fn zval(v: C64) -> (f64, f64) {
    (f64::from_bits(v.re), f64::from_bits(v.im))
}

fn cval(v: C32) -> (f32, f32) {
    (f32::from_bits(v.re), f32::from_bits(v.im))
}

#[test]
fn zcopy_moves_bits() {
    let x = vec![z(1.0, -2.0), C64::new(0x7ff8_0000_0000_0001, 0x8000_0000_0000_0000)];
    let mut y = vec![z(9.0, 9.0), z(8.0, 8.0)];
    zcopy(&x, &mut y);
    assert_eq!(x, y);
}

#[test]
fn ccopy_moves_bits() {
    let x = vec![c(1.5, -2.5), c(3.0, 4.0), c(-0.0, 0.0)];
    let mut y = vec![c(0.0, 0.0); 3];
    ccopy(&x, &mut y);
    assert_eq!(x, y);
}

#[test]
fn zswap_exchanges() {
    let mut x = vec![z(1.0, 2.0), z(3.0, 4.0)];
    let mut y = vec![z(5.0, 6.0), z(7.0, 8.0)];
    zswap(&mut x, &mut y);
    assert_eq!(x, vec![z(5.0, 6.0), z(7.0, 8.0)]);
    assert_eq!(y, vec![z(1.0, 2.0), z(3.0, 4.0)]);
}

#[test]
fn cswap_exchanges() {
    let mut x = vec![c(1.0, 2.0)];
    let mut y = vec![c(-1.0, -2.0)];
    cswap(&mut x, &mut y);
    assert_eq!(x, vec![c(-1.0, -2.0)]);
    assert_eq!(y, vec![c(1.0, 2.0)]);
}

#[test]
fn zaxpy_adds_scaled() {
    // (1+2i)(3+4i) = -5+10i ; + (1+1i) = -4+11i
    let x = vec![z(3.0, 4.0), z(0.0, 1.0)];
    let mut y = vec![z(1.0, 1.0), z(0.5, 0.0)];
    zaxpy(z(1.0, 2.0), &x, &mut y);
    assert_eq!(zval(y[0]), (-4.0, 11.0));
    // (1+2i)(i) = -2+i ; + 0.5 = -1.5 + i
    assert_eq!(zval(y[1]), (-1.5, 1.0));
}

#[test]
fn caxpy_adds_scaled() {
    let x = vec![c(3.0, 4.0), c(1.0, 0.0), c(2.0, 2.0)];
    let mut y = vec![c(1.0, 1.0), c(0.0, 0.0), c(0.0, -1.0)];
    caxpy(c(1.0, 2.0), &x, &mut y);
    assert_eq!(cval(y[0]), (-4.0, 11.0));
    assert_eq!(cval(y[1]), (1.0, 2.0));
    // (1+2i)(2+2i) = 2-4 + (2+4)i = -2+6i ; + (0-1i) = -2+5i
    assert_eq!(cval(y[2]), (-2.0, 5.0));
}

#[test]
fn zscal_scales() {
    let mut x = vec![z(1.0, 1.0), z(2.0, -3.0)];
    zscal(z(0.0, 1.0), &mut x);
    assert_eq!(zval(x[0]), (-1.0, 1.0));
    assert_eq!(zval(x[1]), (3.0, 2.0));
}

#[test]
fn cscal_scales() {
    let mut x = vec![c(1.0, 1.0), c(2.0, -3.0), c(0.5, 0.25)];
    cscal(c(2.0, 0.0), &mut x);
    assert_eq!(cval(x[0]), (2.0, 2.0));
    assert_eq!(cval(x[1]), (4.0, -6.0));
    assert_eq!(cval(x[2]), (1.0, 0.5));
}

#[test]
fn zdot_small_and_blocked() {
    let n = 11;
    let x: Vec<C64> = (0..n).map(|i| z(i as f64, 1.0)).collect();
    let y: Vec<C64> = (0..n).map(|i| z(1.0, i as f64)).collect();
    // xᵀy = Σ (i + i·i?) : (i + 1i)(1 + i·i) = i - i + (i*i + 1) i = 0 + (i²+1)i
    let u = zdotu(&x, &y);
    let expect_im: f64 = (0..n).map(|i| (i * i + 1) as f64).sum();
    assert_eq!(zval(u), (0.0, expect_im));
    // xᴴy = Σ (i - 1i)(1 + i·i) = i + i + (i² - 1) i = 2i + (i²-1)i
    let v = zdotc(&x, &y);
    let expect_re: f64 = (0..n).map(|i| (2 * i) as f64).sum();
    let expect_im2: f64 = (0..n).map(|i| (i * i) as f64 - 1.0).sum();
    assert_eq!(zval(v), (expect_re, expect_im2));
}

#[test]
fn cdot_small_and_blocked() {
    let n = 19;
    let x: Vec<C32> = (0..n).map(|i| c(i as f32, 1.0)).collect();
    let y: Vec<C32> = (0..n).map(|i| c(1.0, i as f32)).collect();
    let u = cdotu(&x, &y);
    let expect_im: f32 = (0..n).map(|i| (i * i + 1) as f32).sum();
    assert_eq!(cval(u), (0.0, expect_im));
    let v = cdotc(&x, &y);
    let expect_re: f32 = (0..n).map(|i| (2 * i) as f32).sum();
    let expect_im2: f32 = (0..n).map(|i| (i * i) as f32 - 1.0).sum();
    assert_eq!(cval(v), (expect_re, expect_im2));
}

#[test]
fn dots_of_empty_are_zero() {
    assert_eq!(zdotu(&[], &[]), C64::new(0, 0));
    assert_eq!(cdotc(&[], &[]), C32::new(0, 0));
}

#[test]
fn izamax_first_maximum() {
    let x = vec![z(1.0, -1.0), z(-3.0, 0.5), z(0.0, 3.5), z(2.0, 1.0)];
    // magnitudes 2, 3.5, 3.5, 3 -> first maximum at 1
    assert_eq!(izamax(&x), 1);
    assert_eq!(izamax(&[]), 0);
    assert_eq!(izamax(&[z(-0.0, 0.0)]), 0);
}

#[test]
fn icamax_first_maximum() {
    let x = vec![c(1.0, 0.0), c(0.0, -2.0), c(1.0, 1.0), c(-4.0, 0.0), c(0.0, 1.0)];
    assert_eq!(icamax(&x), 3);
    assert_eq!(icamax(&[]), 0);
}

#[test]
fn zdrot_rotates_each_part() {
    let mut x = vec![z(1.0, 2.0), z(3.0, -1.0)];
    let mut y = vec![z(0.5, 1.0), z(-2.0, 4.0)];
    // c = 0, s = 1: x <- y, y <- -x
    zdrot(&mut x, &mut y, 0.0f64.to_bits(), 1.0f64.to_bits());
    assert_eq!(zval(x[0]), (0.5, 1.0));
    assert_eq!(zval(x[1]), (-2.0, 4.0));
    assert_eq!(zval(y[0]), (-1.0, -2.0));
    assert_eq!(zval(y[1]), (-3.0, 1.0));
}

#[test]
fn csrot_rotates_each_part() {
    let mut x = vec![c(2.0, 4.0)];
    let mut y = vec![c(6.0, 8.0)];
    csrot(&mut x, &mut y, 0.5f32.to_bits(), 0.5f32.to_bits());
    assert_eq!(cval(x[0]), (4.0, 6.0));
    assert_eq!(cval(y[0]), (2.0, 2.0));
}

#[test]
fn zdscal_and_csscal_scale_both_parts() {
    let mut x = vec![z(1.0, -2.0), z(0.25, 8.0)];
    zdscal(3.0f64.to_bits(), &mut x);
    assert_eq!(zval(x[0]), (3.0, -6.0));
    assert_eq!(zval(x[1]), (0.75, 24.0));
    let mut w = vec![c(1.0, -2.0)];
    csscal((-0.5f32).to_bits(), &mut w);
    assert_eq!(cval(w[0]), (-0.5, 1.0));
}

#[test]
fn dzasum_and_scasum_sum_component_magnitudes() {
    let x: Vec<C64> = (0..7).map(|i| z(-(i as f64), 0.5)).collect();
    // Σ(i + 0.5) for i in 0..7 = 21 + 3.5
    assert_eq!(f64::from_bits(dzasum(&x)), 24.5);
    let w: Vec<C32> = (0..13).map(|i| c(i as f32, -1.0)).collect();
    assert_eq!(f32::from_bits(scasum(&w)), 78.0 + 13.0);
    assert_eq!(dzasum(&[]), 0);
}

#[test]
fn complex_number_operations() {
    let a = z(1.0, 2.0);
    let b = z(3.0, -1.0);
    assert_eq!(zval(a.plus(b)), (4.0, 1.0));
    assert_eq!(zval(a.times(b)), (5.0, 5.0));
    assert_eq!(zval(a.conj()), (1.0, -2.0));
    assert_eq!(zval(a.neg()), (-1.0, -2.0));
    // (5 + 5i) / (3 - i) by Smith's algorithm, |re| >= |im| branch
    let r = -1.0f64 / 3.0;
    let den = 3.0 + (-1.0) * r;
    let expect = ((5.0 + 5.0 * r) / den, (5.0 - 5.0 * r) / den);
    assert_eq!(zval(z(5.0, 5.0).quot(b)), expect);
    assert!((expect.0 - 1.0).abs() < 1e-15 && (expect.1 - 2.0).abs() < 1e-15);
    // |im| > |re| branch: (1 + 2i) / (1 + 2i) = 1
    assert_eq!(zval(a.quot(a)), (1.0, 0.0));
    assert_eq!(f64::from_bits(b.abs1()), 4.0);
    assert_eq!(zval(a.scale(0.5f64.to_bits())), (0.5, 1.0));
    assert!(z(-0.0, 0.0).is_zero());
    assert!(!z(0.0, 1.0).is_zero());
    assert!(z(1.0, -0.0).is_one());
    assert!(!z(1.0, 1.0).is_one());
    let p = c(1.0, 2.0);
    let q = c(3.0, -1.0);
    assert_eq!(cval(p.times(q)), (5.0, 5.0));
    let rs = -1.0f32 / 3.0;
    let dens = 3.0f32 + (-1.0) * rs;
    assert_eq!(cval(c(5.0, 5.0).quot(q)), ((5.0 + 5.0 * rs) / dens, (5.0 - 5.0 * rs) / dens));
    assert_eq!(cval(p.plus(q).conj()), (4.0, -1.0));
}

#[test]
fn as_re_interleaves_parts() {
    let x = vec![z(1.0, 2.0), z(3.0, 4.0)];
    let v = as_re(&x);
    let f: Vec<f64> = v.iter().map(|b| f64::from_bits(*b)).collect();
    assert_eq!(f, vec![1.0, 2.0, 3.0, 4.0]);
}
