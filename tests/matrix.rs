use raytracer::fixed::{compare_float, Fx};
use raytracer::matrix::{mul_matrix_pointvector, Matrix, MatrixError};
use raytracer::point_vector::PointVector;

fn f(v: f64) -> Fx {
    Fx::from_raw((v * 4294967296.0).round() as i64)
}

fn m(rows: Vec<Vec<f64>>) -> Matrix {
    Matrix::new(rows.into_iter().map(|r| r.into_iter().map(f).collect()).collect()).unwrap()
}

fn pv(x: f64, y: f64, z: f64, w: f64) -> PointVector {
    PointVector::new(f(x), f(y), f(z), f(w))
}

#[test]
fn matrix_test_new() {
    let m = m(vec![vec![1.0, 2.0, 3.0, 4.0], vec![5.5, 6.5, 7.5, 8.5], vec![9.0, 10.0, 11.0, 12.0], vec![13.5, 14.5, 15.5, 16.5]]);
    assert_eq!(m.get(0, 0), f(1.0));
    assert_eq!(m.get(0, 3), f(4.0));
    assert_eq!(m.get(1, 0), f(5.5));
    assert_eq!(m.get(1, 2), f(7.5));
    assert_eq!(m.get(2, 2), f(11.0));
    assert_eq!(m.get(3, 0), f(13.5));
    assert_eq!(m.get(3, 2), f(15.5));
}

#[test]
fn test_new2() {
    let m = m(vec![vec![-3.0, 5.0], vec![1.0, -2.0]]);
    assert_eq!(m.get(0, 0), f(-3.0));
    assert_eq!(m.get(0, 1), f(5.0));
    assert_eq!(m.get(1, 0), f(1.0));
    assert_eq!(m.get(1, 1), f(-2.0));
}

#[test]
fn test_new3() {
    let m = m(vec![vec![-3.0, 5.0, 0.0], vec![1.0, -2.0, -7.0], vec![0.0, 1.0, 1.0]]);
    assert_eq!(m.get(0, 0), f(-3.0));
    assert_eq!(m.get(1, 1), f(-2.0));
    assert_eq!(m.get(2, 2), f(1.0));
}

#[test]
fn new_rejects_jagged_rows() {
    let r = Matrix::new(vec![vec![f(1.0), f(2.0)], vec![f(3.0)]]);
    assert_eq!(r.err(), Some(MatrixError::JaggedRows));
    let empty = Matrix::new(vec![]).unwrap();
    assert_eq!(empty.shape(), (0, 0));
}

#[test]
fn matrix_test_eq() {
    let m1 = m(vec![vec![-3.0, 5.0], vec![1.0, -2.0]]);
    let n = m(vec![vec![-3.0, 5.0], vec![1.0, -2.0]]);
    assert_eq!(m1, n);
}

#[test]
fn test_eq2() {
    let m1 = m(vec![vec![1.0, 2.0, 3.0, 4.0], vec![5.0, 6.0, 7.0, 8.0], vec![9.0, 8.0, 7.0, 6.0], vec![5.0, 4.0, 3.0, 2.0]]);
    let n = m(vec![vec![1.0, 2.0, 3.0, 4.0], vec![5.0, 6.0, 7.0, 8.0], vec![9.0, 8.0, 7.0, 6.0], vec![5.0, 4.0, 3.0, 2.0]]);
    assert_eq!(m1, n);
}

#[test]
fn test_eq3() {
    let m1 = m(vec![vec![1.0, 2.0, 3.0, 4.0], vec![5.0, 6.0, 7.0, 8.0], vec![9.0, 8.0, 7.0, 6.0], vec![5.0, 4.0, 3.0, 2.0]]);
    let n = m(vec![vec![2.0, 3.0, 4.0, 5.0], vec![6.0, 7.0, 8.0, 9.0], vec![8.0, 7.0, 6.0, 5.0], vec![4.0, 3.0, 2.0, 1.0]]);
    assert_ne!(m1, n);
}

#[test]
fn matrix_test_mul() {
    let m1 = m(vec![vec![1.0, 2.0, 3.0, 4.0], vec![5.0, 6.0, 7.0, 8.0], vec![9.0, 8.0, 7.0, 6.0], vec![5.0, 4.0, 3.0, 2.0]]);
    let n = m(vec![vec![-2.0, 1.0, 2.0, 3.0], vec![3.0, 2.0, 1.0, -1.0], vec![4.0, 3.0, 6.0, 5.0], vec![1.0, 2.0, 7.0, 8.0]]);
    let expected = m(vec![vec![20.0, 22.0, 50.0, 48.0], vec![44.0, 54.0, 114.0, 108.0], vec![40.0, 58.0, 110.0, 102.0], vec![16.0, 26.0, 46.0, 42.0]]);
    assert_eq!(m1.multiply(&n), expected);
}

#[test]
fn test_mul_pv() {
    let m1 = m(vec![vec![1.0, 2.0, 3.0, 4.0], vec![2.0, 4.0, 4.0, 2.0], vec![8.0, 6.0, 4.0, 1.0], vec![0.0, 0.0, 0.0, 1.0]]);
    let p = pv(1.0, 2.0, 3.0, 1.0);
    let res = mul_matrix_pointvector(&m1, &p);
    assert_eq!(res, pv(18.0, 24.0, 33.0, 1.0));
}

#[test]
fn test_mul_identity() {
    let id = Matrix::identity(4);
    let m1 = m(vec![vec![0.0, 1.0, 2.0, 4.0], vec![1.0, 2.0, 4.0, 8.0], vec![2.0, 4.0, 8.0, 16.0], vec![4.0, 8.0, 16.0, 32.0]]);
    let p = pv(1.0, 2.0, 3.0, 1.0);
    assert_eq!(id.multiply(&m1), m1);
    assert_eq!(mul_matrix_pointvector(&id, &p), p);
}

#[test]
fn test_transpose() {
    let id = Matrix::identity(4);
    let m1 = m(vec![vec![0.0, 9.0, 3.0, 0.0], vec![9.0, 8.0, 0.0, 8.0], vec![1.0, 8.0, 5.0, 3.0], vec![0.0, 0.0, 5.0, 8.0]]);
    let m_transposed = m(vec![vec![0.0, 9.0, 1.0, 0.0], vec![9.0, 8.0, 8.0, 0.0], vec![3.0, 0.0, 5.0, 5.0], vec![0.0, 8.0, 3.0, 8.0]]);
    assert_eq!(m1.transpose(), m_transposed);
    assert_eq!(id.transpose(), id);
}

#[test]
fn test_determinant() {
    let m1 = m(vec![vec![1.0, 5.0], vec![-3.0, 2.0]]);
    assert_eq!(m1.determinant(), f(17.0))
}

#[test]
fn test_submatrix() {
    let m1 = m(vec![vec![1.0, 5.0, 0.0], vec![-3.0, 2.0, 7.0], vec![0.0, 6.0, -3.0]]);
    assert_eq!(m1.submatrix(0, 2), m(vec![vec![-3.0, 2.0], vec![0.0, 6.0]]));
    let m2 = m(vec![vec![-6.0, 1.0, 1.0, 6.0], vec![-8.0, 5.0, 8.0, 6.0], vec![-1.0, 0.0, 8.0, 2.0], vec![-7.0, 1.0, -1.0, 1.0]]);
    assert_eq!(m2.submatrix(2, 1), m(vec![vec![-6.0, 1.0, 6.0], vec![-8.0, 8.0, 6.0], vec![-7.0, -1.0, 1.0]]));
}

#[test]
fn test_minor() {
    let m1 = m(vec![vec![3.0, 5.0, 0.0], vec![2.0, -1.0, -7.0], vec![6.0, -1.0, 5.0]]);
    assert_eq!(m1.minor(1, 0), f(25.0))
}

#[test]
fn test_cofactor() {
    let m1 = m(vec![vec![3.0, 5.0, 0.0], vec![2.0, -1.0, -7.0], vec![6.0, -1.0, 5.0]]);
    assert_eq!(m1.cofactor(0, 0), f(-12.0));
    assert_eq!(m1.minor(0, 0), f(-12.0));
    assert_eq!(m1.minor(1, 0), f(25.0));
    assert_eq!(m1.cofactor(1, 0), f(-25.0));
}

#[test]
fn test_3d_4d_determinant() {
    let m1 = m(vec![vec![1.0, 2.0, 6.0], vec![-5.0, 8.0, -4.0], vec![2.0, 6.0, 4.0]]);
    assert_eq!(m1.cofactor(0, 0), f(56.0));
    assert_eq!(m1.cofactor(0, 1), f(12.0));
    assert_eq!(m1.cofactor(0, 2), f(-46.0));
    assert_eq!(m1.determinant(), f(-196.0));
    let m2 = m(vec![vec![-2.0, -8.0, 3.0, 5.0], vec![-3.0, 1.0, 7.0, 3.0], vec![1.0, 2.0, -9.0, 6.0], vec![-6.0, 7.0, 7.0, -9.0]]);
    assert_eq!(m2.cofactor(0, 0), f(690.0));
    assert_eq!(m2.cofactor(0, 1), f(447.0));
    assert_eq!(m2.cofactor(0, 2), f(210.0));
    assert_eq!(m2.cofactor(0, 3), f(51.0));
    assert_eq!(m2.determinant(), f(-4071.0));
}

#[test]
fn test_is_invertible() {
    let m1 = m(vec![vec![6.0, 4.0, 4.0, 4.0], vec![5.0, 5.0, 7.0, 6.0], vec![4.0, -9.0, 3.0, -7.0], vec![9.0, 1.0, 7.0, -6.0]]);
    let m2 = m(vec![vec![-4.0, 2.0, -2.0, -3.0], vec![9.0, 6.0, 2.0, 6.0], vec![0.0, -5.0, 1.0, -5.0], vec![0.0, 0.0, 0.0, 0.0]]);
    assert_eq!(m1.determinant(), f(-2120.0));
    assert_eq!(m2.determinant(), f(0.0));
    assert_eq!(m1.is_invertible(), true);
    assert_eq!(m2.is_invertible(), false);
}

#[test]
fn test_inverse() {
    let a = m(vec![vec![-5.0, 2.0, 6.0, -8.0], vec![1.0, -5.0, 1.0, 8.0], vec![7.0, 7.0, -6.0, -7.0], vec![1.0, -3.0, 7.0, 4.0]]);
    let b = a.inverse();
    assert_eq!(a.determinant(), f(532.0));
    assert_eq!(a.cofactor(2, 3), f(-160.0));
    assert!(compare_float(&b.get(3, 2), &f(-160.0 / 532.0)));
    assert_eq!(a.cofactor(3, 2), f(105.0));
    assert!(compare_float(&b.get(2, 3), &f(105.0 / 532.0)));
    assert_eq!(b, m(vec![vec![0.21805, 0.45113, 0.2406, -0.04511], vec![-0.80827, -1.45677, -0.44361, 0.52068], vec![-0.07895, -0.22368, -0.05263, 0.19737], vec![-0.52256, -0.81391, -0.30075, 0.30639]]));
}

#[test]
fn test_inverse2() {
    let a = m(vec![vec![8.0, -5.0, 9.0, 2.0], vec![7.0, 5.0, 6.0, 1.0], vec![-6.0, 0.0, 9.0, 6.0], vec![-3.0, 0.0, -9.0, -4.0]]);
    assert_eq!(a.inverse(), m(vec![vec![-0.15385, -0.15385, -0.28205, -0.53846], vec![-0.07692, 0.12308, 0.02564, 0.03077], vec![0.35897, 0.35897, 0.4359, 0.92308], vec![-0.69231, -0.69231, -0.76923, -1.92308]]));
}

#[test]
fn test_inverse3() {
    let a = m(vec![vec![9.0, 3.0, 0.0, 9.0], vec![-5.0, -2.0, -6.0, -3.0], vec![-4.0, 9.0, 6.0, 4.0], vec![-7.0, 6.0, 6.0, 2.0]]);
    assert_eq!(a.inverse(), m(vec![vec![-0.04074, -0.07778, 0.14444, -0.22222], vec![-0.07778, 0.03333, 0.36667, -0.33333], vec![-0.02901, -0.1463, -0.10926, 0.12963], vec![0.17778, 0.06667, -0.26667, 0.33333]]));
}

#[test]
fn test_inverse4() {
    let a = m(vec![vec![3.0, -9.0, 7.0, 3.0], vec![3.0, -8.0, 2.0, -9.0], vec![-4.0, 4.0, 4.0, 1.0], vec![-6.0, 5.0, -1.0, 1.0]]);
    let b = m(vec![vec![8.0, 2.0, 2.0, 2.0], vec![3.0, -1.0, 7.0, 0.0], vec![7.0, 0.0, 5.0, 4.0], vec![6.0, -2.0, 0.0, 5.0]]);
    let c = a.multiply(&b);
    assert_eq!(c.multiply(&b.inverse()), a)
}

#[test]
fn determinant_of_identity_is_one() {
    for n in 1..=6 {
        assert_eq!(Matrix::identity(n).determinant(), f(1.0));
    }
}

#[test]
fn inverse_undoes_product_with_tuple() {
    let a = m(vec![vec![8.0, -5.0, 9.0, 2.0], vec![7.0, 5.0, 6.0, 1.0], vec![-6.0, 0.0, 9.0, 6.0], vec![-3.0, 0.0, -9.0, -4.0]]);
    let p = pv(1.5, -2.0, 0.25, 1.0);
    let back = mul_matrix_pointvector(&a.inverse(), &mul_matrix_pointvector(&a, &p));
    assert_eq!(back, p);
}

#[test]
fn inverse_of_two_by_two() {
    let a = m(vec![vec![4.0, 7.0], vec![2.0, 6.0]]);
    assert_eq!(a.inverse(), m(vec![vec![0.6, -0.7], vec![-0.2, 0.4]]));
}

#[test]
fn set_overwrites_one_cell() {
    let mut a = Matrix::identity(3);
    a.set(1, 2, f(5.0));
    assert_eq!(a.get(1, 2), f(5.0));
    assert_eq!(a.get(1, 1), f(1.0));
    assert_eq!(a.duplicate(), a);
}
