use faer_wasm_blas::schur_params::{deflation_window_lapack, shift_count_lapack};

#[test]
fn shift_count_by_block_size() {
    assert_eq!(shift_count_lapack(0, 0), 2);
    assert_eq!(shift_count_lapack(0, 29), 2);
    assert_eq!(shift_count_lapack(0, 40), 4);
    assert_eq!(shift_count_lapack(0, 100), 10);
    // 150 / 7 = 21, rounded down to even
    assert_eq!(shift_count_lapack(0, 150), 20);
    // 512 / 9 = 56
    assert_eq!(shift_count_lapack(7, 512), 56);
    // 589 / 9 = 65 -> 64
    assert_eq!(shift_count_lapack(0, 589), 64);
    assert_eq!(shift_count_lapack(0, 1000), 64);
    assert_eq!(shift_count_lapack(0, 5000), 128);
    assert_eq!(shift_count_lapack(0, 100000), 256);
}

#[test]
fn deflation_window_by_block_size() {
    // 500 / 8 = 62
    assert_eq!(deflation_window_lapack(0, 500), 62);
    assert_eq!(deflation_window_lapack(0, 512), 84);
    assert_eq!(deflation_window_lapack(0, 1000), 96);
    assert_eq!(deflation_window_lapack(0, 20), 2);
}
