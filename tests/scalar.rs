use raymath::matrix::Matrix;

#[test]
fn float_compare() {
    assert_ne!(0.1f64 + 0.2f64, 0.3f64);
}

#[test]
fn float_elements_are_kept_exactly() {
    let m = Matrix::new(vec![vec![0.1f64 + 0.2f64]]);
    assert_ne!(*m.get(0, 0), 0.3f64);
    assert_eq!(*m.get(0, 0), 0.1f64 + 0.2f64);
}
