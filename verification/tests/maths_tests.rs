use bricks::high_freq_computation::{dot_monothreaded, dot_multithreaded};
use bricks::matrix::{Matrix, MatrixError};
use rand::Rng;

fn add(a: f64, b: f64) -> f64 {
    a + b
}

fn mul(a: f64, b: f64) -> f64 {
    a * b
}

#[test]
fn test_matrix_add() {
    let mat1: Matrix<f64> = Matrix::reshape(vec![1.0, 2.0, 3.0, 4.0], 2, 2).unwrap();
    let mat2: Matrix<f64> = Matrix::reshape(vec![1.0, 2.0, 3.0, 4.0], 2, 2).unwrap();

    let res = mat1.plus(&mat2, add).unwrap();

    assert_eq!(2.0, res.get(0).unwrap());
    assert_eq!(4.0, res.get(1).unwrap());
    assert_eq!(6.0, res.get(2).unwrap());
    assert_eq!(8.0, res.get(3).unwrap());
}

#[test]
fn test_add_then_minus_gives_back_operand() {
    // (A + B) - B == A within floating tolerance.
    let a = Matrix::reshape(vec![0.5, -1.25, 3.75, 2.0, 1e-3, -7.5], 3, 2).unwrap();
    let b = Matrix::reshape(vec![1.5, 2.25, -0.75, 4.0, 9.0, 0.125], 3, 2).unwrap();
    let sum = a.plus(&b, add).unwrap();
    let back = sum.minus(&b, |x: f64, y: f64| x - y).unwrap();
    for i in 0..a.len() {
        assert!((back.get(i).unwrap() - a.get(i).unwrap()).abs() < 1e-12);
    }
}

#[test]
fn test_transpose_exact() {
    let a = Matrix::reshape(vec![1.0, 2.0, 3.0, 4.0, 5.0, 6.0], 3, 2).unwrap();
    let t = a.t();
    assert_eq!(t.w, 2);
    assert_eq!(t.h, 3);
    // column j of a becomes row j of t
    assert_eq!(t.get_at(0, 0).unwrap(), 1.0);
    assert_eq!(t.get_at(0, 1).unwrap(), 4.0);
    assert_eq!(t.get_at(1, 0).unwrap(), 2.0);
    assert_eq!(t.get_at(1, 1).unwrap(), 5.0);
    assert_eq!(t.get_at(2, 0).unwrap(), 3.0);
    assert_eq!(t.get_at(2, 1).unwrap(), 6.0);
}

#[test]
fn test_transpose_involution() {
    let mut rng = rand::thread_rng();
    let vals: Vec<f64> = (0..12).map(|_| rng.gen::<f64>()).collect();
    let a = Matrix::reshape(vals.clone(), 4, 3).unwrap();
    let tt = a.t().t();
    assert_eq!(tt.w, a.w);
    assert_eq!(tt.h, a.h);
    for i in 0..a.len() {
        assert_eq!(tt.get(i).unwrap(), a.get(i).unwrap());
    }
}

#[test]
fn test_dot_exact() {
    let a = Matrix::reshape(vec![1.0, 2.0, 3.0, 4.0], 2, 2).unwrap();
    let b = Matrix::reshape(vec![5.0, 6.0, 7.0, 8.0], 2, 2).unwrap();
    let p = a.dot(&b, false, 0.0, add, mul).unwrap();
    assert_eq!(p.get_at(0, 0).unwrap(), 19.0);
    assert_eq!(p.get_at(0, 1).unwrap(), 22.0);
    assert_eq!(p.get_at(1, 0).unwrap(), 43.0);
    assert_eq!(p.get_at(1, 1).unwrap(), 50.0);
}

#[test]
fn test_dot_strategies_agree() {
    // single-threaded and parallel kernels agree bit for bit, over a range
    // of shapes including 1 and asymmetric sizes
    let mut rng = rand::thread_rng();
    for &(n, k, p) in [(1usize, 1usize, 1usize), (1, 5, 1), (3, 1, 4), (4, 2, 5), (6, 7, 2)].iter()
    {
        let a: Vec<f64> = (0..n * k).map(|_| rng.gen::<f64>()).collect();
        let b: Vec<f64> = (0..k * p).map(|_| rng.gen::<f64>()).collect();
        let mono = dot_monothreaded(&a, &b, n, k, p, 0.0, add, mul);
        let multi = dot_multithreaded(&a, &b, n, k, p, 0.0, add, mul);
        assert_eq!(mono, multi);
    }
}

#[test]
fn test_dot_shape_mismatch() {
    let a = Matrix::reshape(vec![1.0, 2.0, 3.0, 4.0], 2, 2).unwrap();
    let b = Matrix::reshape(vec![1.0, 2.0, 3.0], 1, 3).unwrap();
    assert_eq!(a.dot(&b, false, 0.0, add, mul).unwrap_err(), MatrixError::ShapeMismatch);
}

#[test]
fn test_plus_shape_mismatch() {
    let a = Matrix::reshape(vec![1.0, 2.0], 2, 1).unwrap();
    let b = Matrix::reshape(vec![1.0, 2.0], 1, 2).unwrap();
    assert_eq!(a.plus(&b, add).unwrap_err(), MatrixError::ShapeMismatch);
}

#[test]
fn test_reshape_mismatch() {
    assert_eq!(
        Matrix::reshape(vec![1.0, 2.0, 3.0], 2, 2).unwrap_err(),
        MatrixError::ShapeMismatch
    );
}

#[test]
fn test_get_out_of_bounds() {
    let a = Matrix::reshape(vec![1.0, 2.0, 3.0, 4.0], 2, 2).unwrap();
    assert_eq!(a.get(4).unwrap_err(), MatrixError::OutOfBounds);
    assert_eq!(a.get_at(2, 0).unwrap_err(), MatrixError::OutOfBounds);
}

#[test]
fn test_set_out_of_bounds_is_ignored() {
    // strict reads, permissive writes: the failing write changes nothing
    let mut a = Matrix::reshape(vec![1.0, 2.0, 3.0, 4.0], 2, 2).unwrap();
    a.set(10, 99.0);
    a.set_at(5, 5, 99.0);
    for i in 0..4 {
        assert_eq!(a.get(i).unwrap(), (i + 1) as f64);
    }
    a.set(0, 42.0);
    assert_eq!(a.get(0).unwrap(), 42.0);
}

#[test]
fn test_hadamard_and_sum() {
    let a = Matrix::reshape(vec![1.0, 2.0, 3.0], 3, 1).unwrap();
    let b = Matrix::reshape(vec![4.0, 5.0, 6.0], 3, 1).unwrap();
    let h = a.hadamard_dot(&b, mul).unwrap();
    assert_eq!(h.get(0).unwrap(), 4.0);
    assert_eq!(h.get(1).unwrap(), 10.0);
    assert_eq!(h.get(2).unwrap(), 18.0);
    assert_eq!(h.sum(0.0, add), 32.0);
}

#[test]
fn test_scalar_ops() {
    let a = Matrix::reshape(vec![1.0, 2.0], 2, 1).unwrap();
    let p = a.plus_scalar(10.0, add);
    assert_eq!(p.get(0).unwrap(), 11.0);
    assert_eq!(p.get(1).unwrap(), 12.0);
    let m = a.minus_scalar_rhs(1.0, |x: f64, y: f64| x - y);
    assert_eq!(m.get(0).unwrap(), 0.0);
    assert_eq!(m.get(1).unwrap(), 1.0);
    let l = a.minus_scalar_lhs(10.0, |x: f64, y: f64| x - y);
    assert_eq!(l.get(0).unwrap(), 9.0);
    assert_eq!(l.get(1).unwrap(), 8.0);
    let s = a.multiply(3.0, mul);
    assert_eq!(s.get(0).unwrap(), 3.0);
    assert_eq!(s.get(1).unwrap(), 6.0);
}

#[test]
fn test_double_mapping() {
    let a = Matrix::reshape(vec![1.0, 2.0], 2, 1).unwrap();
    let b = Matrix::reshape(vec![3.0, 5.0], 1, 2).unwrap();
    // equal lengths suffice, whatever the shapes
    let d = Matrix::double_mapping(add, &a, &b).unwrap();
    assert_eq!(d.w, 1);
    assert_eq!(d.h, 2);
    assert_eq!(d.get(0).unwrap(), 4.0);
    assert_eq!(d.get(1).unwrap(), 7.0);
    let c = Matrix::reshape(vec![1.0], 1, 1).unwrap();
    assert_eq!(Matrix::double_mapping(add, &a, &c).unwrap_err(), MatrixError::ShapeMismatch);
}

#[test]
fn test_from_and_len() {
    let a: Matrix<f64> = Matrix::from(vec![1.0, 2.0, 3.0]);
    assert_eq!(a.w, 1);
    assert_eq!(a.h, 3);
    assert_eq!(a.len(), 3);
}
