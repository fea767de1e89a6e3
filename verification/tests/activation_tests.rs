use bricks::activations::{ActivationOps, DenseActivation, DerivativeOps, MultilayerActivation};
use bricks::losses::{Loss, LossOps};
use bricks::matrix::{Matrix, MatrixError};

const EPS: f64 = 1e-6;

type Ops2 = fn(f64, f64) -> f64;
type Ops1 = fn(f64) -> f64;
type Ops3 = fn(f64, f64, f64) -> f64;

fn sigmoid(x: f64, eps: f64) -> f64 {
    (1.0 / (1.0 + (-x).exp())).clamp(eps, 1.0 - eps)
}

fn dsigmoid(x: f64, eps: f64) -> f64 {
    let s = 1.0 / (1.0 + (-x).exp());
    (s * (1.0 - s)).clamp(eps, 1.0 - eps)
}

fn forward_ops() -> ActivationOps<f64, Ops2, Ops2, Ops2, Ops2, Ops1, Ops2, Ops3> {
    ActivationOps {
        zero: 0.0,
        sigmoid_fn: sigmoid,
        relu_fn: |x: f64, _eps: f64| if x > 0.0 { x } else { 0.0 },
        leaky_relu_fn: |x: f64, _eps: f64| if x > 0.0 { x * 1e-2 } else { 0.0 },
        tanh_fn: |x: f64, _eps: f64| x.tanh(),
        exp_fn: |x: f64| x.exp(),
        add_fn: |a: f64, b: f64| a + b,
        div_clamp_fn: |x: f64, s: f64, eps: f64| (x / s).clamp(eps, 1.0 - eps),
    }
}

fn derivative_ops() -> DerivativeOps<f64, Ops2, Ops2, Ops2, Ops2, Ops1, Ops2, Ops2, Ops3> {
    DerivativeOps {
        zero: 0.0,
        dsigmoid_fn: dsigmoid,
        drelu_fn: |x: f64, _eps: f64| if x <= 0.0 { 0.0 } else { 1.0 },
        dleaky_relu_fn: |x: f64, _eps: f64| if x <= 0.0 { 0.0 } else { 1e-2 },
        dtanh_fn: |x: f64, _eps: f64| 1.0 - x.tanh().powi(2),
        exp_fn: |x: f64| x.exp(),
        add_fn: |a: f64, b: f64| a + b,
        mul_fn: |a: f64, b: f64| a * b,
        dsoftmax_fn: |x: f64, s: f64, s2: f64| (s * x - x.powi(2)) / s2,
    }
}

#[test]
fn test_sigmoid_output_in_stability_band() {
    let inputs = vec![-1000.0, -5.0, -0.1, 0.0, 0.1, 5.0, 1000.0];
    let n = inputs.len();
    let mut m = Matrix::reshape(inputs, 1, n).unwrap();
    DenseActivation::Sigmoid.apply(&mut m, EPS, &forward_ops());
    for i in 0..n {
        let y = m.get(i).unwrap();
        assert!(y >= EPS && y <= 1.0 - EPS);
    }
}

#[test]
fn test_dsigmoid_matches_product_form() {
    let inputs = vec![-3.0, -0.5, 0.0, 0.5, 3.0];
    let n = inputs.len();
    let mut fwd = Matrix::reshape(inputs.clone(), 1, n).unwrap();
    let mut der = Matrix::reshape(inputs, 1, n).unwrap();
    DenseActivation::Sigmoid.apply(&mut fwd, EPS, &forward_ops());
    DenseActivation::Sigmoid.derivative(&mut der, EPS, &derivative_ops());
    for i in 0..n {
        let s = fwd.get(i).unwrap();
        let d = der.get(i).unwrap();
        assert!((d - (s * (1.0 - s)).clamp(EPS, 1.0 - EPS)).abs() < 1e-9);
    }
}

#[test]
fn test_softmax_sums_to_one() {
    let inputs = vec![0.1, 2.5, -1.0, 0.7];
    let n = inputs.len();
    let mut m = Matrix::reshape(inputs, 1, n).unwrap();
    DenseActivation::Softmax.apply(&mut m, EPS, &forward_ops());
    let mut sum = 0.0;
    for i in 0..n {
        let y = m.get(i).unwrap();
        assert!(y >= EPS && y <= 1.0 - EPS);
        sum += y;
    }
    assert!((sum - 1.0).abs() < 1e-9);
}

#[test]
fn test_relu_and_tanh_maps() {
    let mut m = Matrix::reshape(vec![-2.0, 0.0, 3.0], 1, 3).unwrap();
    DenseActivation::Relu.apply(&mut m, EPS, &forward_ops());
    assert_eq!(m.get(0).unwrap(), 0.0);
    assert_eq!(m.get(1).unwrap(), 0.0);
    assert_eq!(m.get(2).unwrap(), 3.0);
    let mut t = Matrix::reshape(vec![0.0, 1.0], 1, 2).unwrap();
    DenseActivation::Tanh.apply(&mut t, EPS, &forward_ops());
    assert_eq!(t.get(0).unwrap(), 0.0);
    assert!((t.get(1).unwrap() - 1.0f64.tanh()).abs() < 1e-15);
}

#[test]
fn test_dense_activation_names_round_trip() {
    let all = [
        DenseActivation::Sigmoid,
        DenseActivation::Relu,
        DenseActivation::LeakyRelu,
        DenseActivation::Softmax,
        DenseActivation::Tanh,
    ];
    for a in all.iter() {
        assert_eq!(DenseActivation::from_str(a.to_string().as_str()).unwrap(), *a);
    }
    assert!(DenseActivation::from_str("Gelu").is_err());
    assert!(DenseActivation::from_str("").is_err());
}

#[test]
fn test_multilayer_activation_names() {
    assert_eq!(
        MultilayerActivation::from_str("NoActivation").unwrap(),
        MultilayerActivation::NoActivation
    );
    assert_eq!(MultilayerActivation::from_str("Softmax").unwrap(), MultilayerActivation::Softmax);
    assert!(MultilayerActivation::from_str("softmax").is_err());
}

#[test]
fn test_loss_names_round_trip() {
    let all = [Loss::CategoricalCrossEntropy, Loss::CrossEntropy, Loss::MeanSquaredError];
    for l in all.iter() {
        assert_eq!(Loss::from_str(l.to_string().as_str()).unwrap(), *l);
    }
    assert!(Loss::from_str("Hinge").is_err());
}

fn loss_ops() -> LossOps<f64, Ops2, Ops2, Ops2, Ops1, Ops2, Ops2> {
    LossOps {
        zero: 0.0,
        sub_fn: |a: f64, b: f64| a - b,
        mul_fn: |a: f64, b: f64| a * b,
        add_fn: |a: f64, b: f64| a + b,
        half_fn: |x: f64| x * 0.5,
        ce_term_fn: |x: f64, y: f64| {
            let v = if y == 1.0 { -(-x).ln() } else { -(1.0 - x).ln() };
            if v.is_nan() { 0.0 } else { v }
        },
        cce_term_fn: |x: f64, y: f64| {
            let v = if y == 1.0 { (-x).ln() } else { (1.0 - x).ln() };
            if v.is_nan() { 0.0 } else { v }
        },
    }
}

#[test]
fn test_mean_squared_error_exact() {
    let predicted = Matrix::reshape(vec![0.5, 0.25], 1, 2).unwrap();
    let expected = Matrix::reshape(vec![1.0, 0.75], 1, 2).unwrap();
    let e = Loss::MeanSquaredError.compute_error(&predicted, &expected, &loss_ops()).unwrap();
    assert!((e - 0.25).abs() < 1e-15);
}

#[test]
fn test_loss_shape_mismatch() {
    let predicted = Matrix::reshape(vec![0.5, 0.25], 1, 2).unwrap();
    let expected = Matrix::reshape(vec![1.0], 1, 1).unwrap();
    assert_eq!(
        Loss::MeanSquaredError.compute_error(&predicted, &expected, &loss_ops()).unwrap_err(),
        MatrixError::ShapeMismatch
    );
}

#[test]
fn test_differential_error_is_difference() {
    let predicted = Matrix::reshape(vec![0.5, 0.25], 1, 2).unwrap();
    let expected = Matrix::reshape(vec![1.0, 0.75], 1, 2).unwrap();
    for l in [Loss::MeanSquaredError, Loss::CrossEntropy, Loss::CategoricalCrossEntropy].iter() {
        let d = l
            .compute_differential_error(&predicted, &expected, |a: f64, b: f64| a - b)
            .unwrap();
        assert_eq!(d.get(0).unwrap(), -0.5);
        assert_eq!(d.get(1).unwrap(), -0.5);
    }
}

#[test]
fn test_cross_entropy_skips_undefined_terms() {
    // ln of a negative argument is NaN; the term is skipped, not propagated
    let predicted = Matrix::reshape(vec![0.5, 2.0], 1, 2).unwrap();
    let expected = Matrix::reshape(vec![0.0, 0.0], 1, 2).unwrap();
    let e = Loss::CrossEntropy.compute_error(&predicted, &expected, &loss_ops()).unwrap();
    assert!((e - -(0.5f64.ln())).abs() < 1e-12);
}
