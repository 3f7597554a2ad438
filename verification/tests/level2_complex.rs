use faer_wasm_blas::c32::C32;
use faer_wasm_blas::c64::C64;
use faer_wasm_blas::L2::{
    cgemv, cgemv_c, cgemv_t, cgerc, cgeru, chemv, cher, cher2, check_mat, cscale_y, ctrmv, ctrsv,
    zgemv, zgemv_c, zgemv_t, zgerc, zgeru, zhemv, zher, zher2, zscale_y, ztrmv, ztrsv, MatError,
};

fn z(re: f64, im: f64) -> C64 {
    C64::new(re.to_bits(), im.to_bits())
}

fn c(re: f32, im: f32) -> C32 {
    C32::new(re.to_bits(), im.to_bits())
}

fn zval(v: C64) -> (f64, f64) {
    (f64::from_bits(v.re), f64::from_bits(v.im))
}

fn cval(v: C32) -> (f32, f32) {
    (f32::from_bits(v.re), f32::from_bits(v.im))
}

fn zvals(v: &[C64]) -> Vec<(f64, f64)> {
    v.iter().map(|x| zval(*x)).collect()
}

fn cvals(v: &[C32]) -> Vec<(f32, f32)> {
    v.iter().map(|x| cval(*x)).collect()
}

// 2x3 matrix at column stride 3 (one padding row per column, value 99+99i):
// A = [[1, 2i, 3], [i, 1, -1]]
fn zmat23() -> Vec<C64> {
    vec![
        z(1.0, 0.0), z(0.0, 1.0), z(99.0, 99.0),
        z(0.0, 2.0), z(1.0, 0.0), z(99.0, 99.0),
        z(3.0, 0.0), z(-1.0, 0.0),
    ]
}

fn cmat23() -> Vec<C32> {
    zmat23().iter().map(|v| c(zval(*v).0 as f32, zval(*v).1 as f32)).collect()
}

#[test]
fn check_mat_accepts_and_rejects() {
    assert_eq!(check_mat(8, 2, 3, 3), Ok(()));
    assert_eq!(check_mat(7, 2, 3, 3), Err(MatError::StorageTooShort));
    assert_eq!(check_mat(100, 4, 3, 3), Err(MatError::StrideBelowRows));
    assert_eq!(check_mat(0, 2, 0, 5), Ok(()));
    assert_eq!(check_mat(usize::MAX, 2, usize::MAX, usize::MAX), Err(MatError::StorageTooShort));
}

#[test]
fn zscale_y_rules() {
    let nan = C64::new(0x7ff8_0000_0000_0000, 0xfff0_0000_0000_0000);
    let mut y = vec![nan, z(1.0, 2.0)];
    zscale_y(z(-0.0, 0.0), &mut y);
    assert_eq!(y, vec![C64::new(0, 0), C64::new(0, 0)]);
    let mut y = vec![nan, z(1.0, 2.0)];
    zscale_y(z(1.0, 0.0), &mut y);
    assert_eq!(y, vec![nan, z(1.0, 2.0)]);
    let mut y = vec![z(1.0, 2.0)];
    zscale_y(z(0.0, 2.0), &mut y);
    assert_eq!(zvals(&y), vec![(-4.0, 2.0)]);
    let mut w = vec![c(f32::NAN, 1.0)];
    cscale_y(c(0.0, -0.0), &mut w);
    assert_eq!(w, vec![C32::new(0, 0)]);
}

#[test]
fn zgemv_no_transpose() {
    let a = zmat23();
    let x = vec![z(1.0, 0.0), z(0.0, 1.0), z(2.0, 0.0)];
    let mut y = vec![z(f64::NAN, 0.0), z(5.0, 5.0)];
    zgemv(z(1.0, 0.0), 2, 3, &a, 3, &x, z(0.0, 0.0), &mut y);
    // row 0: 1 + 2i*i + 3*2 = 1 - 2 + 6 = 5 ; row 1: i + i - 2 = -2 + 2i
    assert_eq!(zvals(&y), vec![(5.0, 0.0), (-2.0, 2.0)]);
    let mut y2 = vec![z(1.0, 0.0), z(0.0, 1.0)];
    zgemv(z(0.0, 1.0), 2, 3, &a, 3, &x, z(2.0, 0.0), &mut y2);
    // i*(5, -2+2i) + 2*(1, i) = (2 + 5i, -2 - 2i + 2i) = (2+5i, -2)
    assert_eq!(zvals(&y2), vec![(2.0, 5.0), (-2.0, 0.0)]);
}

#[test]
fn zgemv_transposes() {
    let a = zmat23();
    let x = vec![z(1.0, 0.0), z(0.0, 1.0)];
    let mut y = vec![z(1.0, 1.0); 3];
    zgemv_t(z(1.0, 0.0), 2, 3, &a, 3, &x, z(0.0, 0.0), &mut y);
    // col0·x = 1 + i*i = 0 ; col1·x = 2i + i = 3i ; col2·x = 3 - i
    assert_eq!(zvals(&y), vec![(0.0, 0.0), (0.0, 3.0), (3.0, -1.0)]);
    let mut y = vec![z(1.0, 1.0); 3];
    zgemv_c(z(1.0, 0.0), 2, 3, &a, 3, &x, z(1.0, 0.0), &mut y);
    // conj(col0)·x = 1 + (-i)(i) = 2 ; conj(col1)·x = -2i + i = -i ; conj(col2)·x = 3 - i
    assert_eq!(zvals(&y), vec![(3.0, 1.0), (1.0, 0.0), (4.0, 0.0)]);
}

#[test]
fn cgemv_all_forms() {
    let a = cmat23();
    let x3 = vec![c(1.0, 0.0), c(0.0, 1.0), c(2.0, 0.0)];
    let mut y = vec![c(7.0, 7.0), c(7.0, 7.0)];
    cgemv(c(1.0, 0.0), 2, 3, &a, 3, &x3, c(0.0, 0.0), &mut y);
    assert_eq!(cvals(&y), vec![(5.0, 0.0), (-2.0, 2.0)]);
    let x2 = vec![c(1.0, 0.0), c(0.0, 1.0)];
    let mut y = vec![c(0.0, 0.0); 3];
    cgemv_t(c(2.0, 0.0), 2, 3, &a, 3, &x2, c(0.0, 0.0), &mut y);
    assert_eq!(cvals(&y), vec![(0.0, 0.0), (0.0, 6.0), (6.0, -2.0)]);
    let mut y = vec![c(0.0, 0.0); 3];
    cgemv_c(c(1.0, 0.0), 2, 3, &a, 3, &x2, c(0.0, 0.0), &mut y);
    assert_eq!(cvals(&y), vec![(2.0, 0.0), (0.0, -1.0), (3.0, -1.0)]);
}

#[test]
fn zger_updates_columns_only() {
    let mut a = zmat23();
    let x = vec![z(1.0, 0.0), z(0.0, 1.0)];
    let y = vec![z(1.0, 0.0), z(0.0, 1.0), z(1.0, 1.0)];
    zgeru(z(1.0, 0.0), 2, 3, &mut a, 3, &x, &y);
    // a[i,j] += x[i]*y[j]
    assert_eq!(zval(a[0]), (2.0, 0.0));
    assert_eq!(zval(a[1]), (0.0, 2.0));
    assert_eq!(zval(a[3]), (0.0, 3.0));
    assert_eq!(zval(a[4]), (0.0, 0.0));
    assert_eq!(zval(a[6]), (4.0, 1.0));
    assert_eq!(zval(a[7]), (-2.0, 1.0));
    assert_eq!(zval(a[2]), (99.0, 99.0));
    assert_eq!(zval(a[5]), (99.0, 99.0));
    let mut b = zmat23();
    zgerc(z(1.0, 0.0), 2, 3, &mut b, 3, &x, &y);
    // a[i,j] += x[i]*conj(y[j])
    assert_eq!(zval(b[3]), (0.0, 1.0));
    assert_eq!(zval(b[4]), (2.0, 0.0));
    assert_eq!(zval(b[6]), (4.0, -1.0));
    assert_eq!(zval(b[7]), (0.0, 1.0));
    assert_eq!(zval(b[5]), (99.0, 99.0));
}

#[test]
fn cger_updates_columns_only() {
    let mut a = cmat23();
    let x = vec![c(1.0, 0.0), c(0.0, 1.0)];
    let y = vec![c(1.0, 0.0), c(0.0, 1.0), c(1.0, 1.0)];
    cgeru(c(1.0, 0.0), 2, 3, &mut a, 3, &x, &y);
    assert_eq!(cval(a[6]), (4.0, 1.0));
    assert_eq!(cval(a[2]), (99.0, 99.0));
    let mut b = cmat23();
    cgerc(c(1.0, 0.0), 2, 3, &mut b, 3, &x, &y);
    assert_eq!(cval(b[7]), (0.0, 1.0));
    assert_eq!(cval(b[5]), (99.0, 99.0));
}

// 2x2 Hermitian storage at stride 3; both triangles filled with marker
// values so that the untouched triangle can be checked.
fn zherm() -> Vec<C64> {
    vec![z(2.0, 5.0), z(-7.0, -7.0), z(99.0, 99.0), z(1.0, 1.0), z(3.0, 6.0)]
}

#[test]
fn zher2_upper_keeps_hermitian_storage() {
    let mut a = zherm();
    let x = vec![z(1.0, 0.0), z(0.0, 1.0)];
    let y = vec![z(1.0, 1.0), z(2.0, 0.0)];
    zher2(z(1.0, 0.0), 2, &mut a, 3, true, &x, &y);
    // diag 0: 2 + 2 re(x0 conj y0) = 2 + 2 = 4, imaginary part +0
    assert_eq!(a[0], z(4.0, 0.0));
    // diag 1: 3 + 2 re(i * 2) = 3
    assert_eq!(a[4], z(3.0, 0.0));
    // a[0,1] += x0 conj(y1) + y0 conj(x1) = 2 + (1+i)(-i) = 2 + 1 - i = 3 - i
    assert_eq!(zval(a[3]), (4.0, 0.0));
    assert_eq!(zval(a[1]), (-7.0, -7.0));
    assert_eq!(zval(a[2]), (99.0, 99.0));
}

#[test]
fn zher2_lower_and_zher() {
    let mut a = zherm();
    let x = vec![z(1.0, 0.0), z(0.0, 1.0)];
    let y = vec![z(1.0, 1.0), z(2.0, 0.0)];
    zher2(z(1.0, 0.0), 2, &mut a, 3, false, &x, &y);
    // a[1,0] += x1 conj(y0) + y1 conj(x0) = i(1 - i) + 2 = 1 + i + 2 = 3 + i
    assert_eq!(zval(a[1]), (-4.0, -6.0));
    assert_eq!(zval(a[3]), (1.0, 1.0));
    assert_eq!(a[0], z(4.0, 0.0));
    let mut b = zherm();
    zher(2.0f64.to_bits(), 2, &mut b, 3, true, &x);
    // diag: 2 + 2|x0|^2 = 4 ; 3 + 2|x1|^2 = 5 ; a[0,1] += 2 x0 conj(x1) = -2i
    assert_eq!(b[0], z(4.0, 0.0));
    assert_eq!(b[4], z(5.0, 0.0));
    assert_eq!(zval(b[3]), (1.0, -1.0));
    assert_eq!(zval(b[1]), (-7.0, -7.0));
}

#[test]
fn cher2_and_cher() {
    let mut a: Vec<C32> = zherm().iter().map(|v| c(zval(*v).0 as f32, zval(*v).1 as f32)).collect();
    let x = vec![c(1.0, 0.0), c(0.0, 1.0)];
    let y = vec![c(1.0, 1.0), c(2.0, 0.0)];
    cher2(c(1.0, 0.0), 2, &mut a, 3, true, &x, &y);
    assert_eq!(a[0], c(4.0, 0.0));
    assert_eq!(cval(a[3]), (4.0, 0.0));
    assert_eq!(cval(a[1]), (-7.0, -7.0));
    let mut b: Vec<C32> = zherm().iter().map(|v| c(zval(*v).0 as f32, zval(*v).1 as f32)).collect();
    cher(2.0f32.to_bits(), 2, &mut b, 3, false, &x);
    assert_eq!(b[4], c(5.0, 0.0));
    assert_eq!(cval(b[1]), (-7.0, -5.0));
    assert_eq!(cval(b[3]), (1.0, 1.0));
}

#[test]
fn hemv_uses_one_triangle() {
    // A = [[2, 1+i], [1-i, 3]], upper stored; diagonal imaginary parts ignored
    let a = vec![z(2.0, 9.0), z(50.0, 50.0), z(1.0, 1.0), z(3.0, -9.0)];
    let x = vec![z(1.0, 0.0), z(0.0, 1.0)];
    let mut y = vec![z(1.0, 1.0), z(1.0, 1.0)];
    zhemv(z(1.0, 0.0), 2, &a, 2, true, &x, z(0.0, 0.0), &mut y);
    assert_eq!(zvals(&y), vec![(1.0, 1.0), (1.0, 2.0)]);
    // the same matrix, lower stored
    let b = vec![z(2.0, 9.0), z(1.0, -1.0), z(50.0, 50.0), z(3.0, -9.0)];
    let mut y = vec![z(1.0, 1.0), z(1.0, 1.0)];
    zhemv(z(1.0, 0.0), 2, &b, 2, false, &x, z(1.0, 0.0), &mut y);
    assert_eq!(zvals(&y), vec![(2.0, 2.0), (2.0, 3.0)]);
    let ac: Vec<C32> = a.iter().map(|v| c(zval(*v).0 as f32, zval(*v).1 as f32)).collect();
    let xc = vec![c(1.0, 0.0), c(0.0, 1.0)];
    let mut yc = vec![c(0.0, 0.0); 2];
    chemv(c(2.0, 0.0), 2, &ac, 2, true, &xc, c(0.0, 0.0), &mut yc);
    assert_eq!(cvals(&yc), vec![(2.0, 2.0), (2.0, 4.0)]);
}

#[test]
fn trmv_then_trsv_restores() {
    // upper A = [[2, 1, 4], [0, 1, i], [0, 0, 2]] at stride 3
    let a = vec![
        z(2.0, 0.0), z(-5.0, 0.0), z(-5.0, 0.0),
        z(1.0, 0.0), z(1.0, 0.0), z(-5.0, 0.0),
        z(4.0, 0.0), z(0.0, 1.0), z(2.0, 0.0),
    ];
    let x0 = vec![z(1.0, 1.0), z(2.0, 0.0), z(0.0, 1.0)];
    let mut x = x0.clone();
    ztrmv(3, &a, 3, true, false, &mut x);
    // x = A x0 = (2+2i + 2 + 4i, 2 + i*i, 2i) = (4+6i, 1, 2i)
    assert_eq!(zvals(&x), vec![(4.0, 6.0), (1.0, 0.0), (0.0, 2.0)]);
    ztrsv(3, &a, 3, true, false, &mut x);
    assert_eq!(x, x0);
    // lower, unit diagonal: L = [[1,0,0],[-5,1,0],[-5,-5,1]] read from the same storage
    let mut w = x0.clone();
    ztrmv(3, &a, 3, false, true, &mut w);
    assert_eq!(zvals(&w), vec![(1.0, 1.0), (-3.0, -5.0), (-15.0, -4.0)]);
    ztrsv(3, &a, 3, false, true, &mut w);
    assert_eq!(w, x0);
}

#[test]
fn ctrmv_then_ctrsv_restores() {
    let a = vec![c(2.0, 0.0), c(0.0, 0.0), c(1.0, 0.0), c(4.0, 0.0)];
    let x0 = vec![c(1.0, 2.0), c(0.5, 0.0)];
    let mut x = x0.clone();
    ctrmv(2, &a, 2, true, false, &mut x);
    assert_eq!(cvals(&x), vec![(2.5, 4.0), (2.0, 0.0)]);
    ctrsv(2, &a, 2, true, false, &mut x);
    assert_eq!(x, x0);
}
