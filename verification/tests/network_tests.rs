use bricks::activations::{ActivationOps, DenseActivation, DerivativeOps};
use bricks::dense_network::DenseNetwork;
use bricks::dense_session::{DenseSession, SessionOps};
use bricks::losses::{Loss, LossOps};
use bricks::matrix::{Matrix, MatrixError};
use bricks::shapes::DenseShape;
use rand::Rng;
use rand::SeedableRng;

const EPS: f64 = 1e-6;
const LEARNING_RATE: f64 = 1e-2;

type Ops2 = fn(f64, f64) -> f64;
type Ops1 = fn(f64) -> f64;
type Ops3 = fn(f64, f64, f64) -> f64;
type OpsAvg = fn(f64, usize) -> f64;
type OpsCmp = fn(f64, f64) -> bool;
type XorOps = SessionOps<
    f64,
    Ops2,
    Ops2,
    Ops2,
    Ops2,
    Ops2,
    Ops1,
    Ops2,
    Ops3,
    Ops2,
    Ops2,
    Ops2,
    Ops2,
    Ops1,
    Ops2,
    Ops2,
    Ops3,
    Ops2,
    Ops2,
    Ops2,
    Ops1,
    Ops2,
    Ops2,
    Ops2,
    Ops2,
    Ops2,
    Ops3,
    OpsAvg,
    OpsCmp,
>;

fn session_ops() -> XorOps {
    SessionOps {
        aops: ActivationOps {
            zero: 0.0,
            sigmoid_fn: |x: f64, eps: f64| (1.0 / (1.0 + (-x).exp())).clamp(eps, 1.0 - eps),
            relu_fn: |x: f64, _eps: f64| if x > 0.0 { x } else { 0.0 },
            leaky_relu_fn: |x: f64, _eps: f64| if x > 0.0 { x * 1e-2 } else { 0.0 },
            tanh_fn: |x: f64, _eps: f64| x.tanh(),
            exp_fn: |x: f64| x.exp(),
            add_fn: |a: f64, b: f64| a + b,
            div_clamp_fn: |x: f64, s: f64, eps: f64| (x / s).clamp(eps, 1.0 - eps),
        },
        dops: DerivativeOps {
            zero: 0.0,
            dsigmoid_fn: |x: f64, eps: f64| {
                let s = 1.0 / (1.0 + (-x).exp());
                (s * (1.0 - s)).clamp(eps, 1.0 - eps)
            },
            drelu_fn: |x: f64, _eps: f64| if x <= 0.0 { 0.0 } else { 1.0 },
            dleaky_relu_fn: |x: f64, _eps: f64| if x <= 0.0 { 0.0 } else { 1e-2 },
            dtanh_fn: |x: f64, _eps: f64| 1.0 - x.tanh().powi(2),
            exp_fn: |x: f64| x.exp(),
            add_fn: |a: f64, b: f64| a + b,
            mul_fn: |a: f64, b: f64| a * b,
            dsoftmax_fn: |x: f64, s: f64, s2: f64| (s * x - x.powi(2)) / s2,
        },
        lops: LossOps {
            zero: 0.0,
            sub_fn: |a: f64, b: f64| a - b,
            mul_fn: |a: f64, b: f64| a * b,
            add_fn: |a: f64, b: f64| a + b,
            half_fn: |x: f64| x * 0.5,
            ce_term_fn: |x: f64, y: f64| {
                let v = if y == 1.0 { -(-x).ln() } else { -(1.0 - x).ln() };
                if v.is_nan() { 0.0 } else { v }
            },
            cce_term_fn: |x: f64, y: f64| {
                let v = if y == 1.0 { (-x).ln() } else { (1.0 - x).ln() };
                if v.is_nan() { 0.0 } else { v }
            },
        },
        fm: |a: f64, b: f64| a * b,
        sub_fn: |a: f64, b: f64| a - b,
        hmul: |a: f64, b: f64| a * b,
        mul_fn: |a: f64, b: f64| a * b,
        upd_fn: |w: f64, a: f64, d: f64| w - LEARNING_RATE * (a * d),
        avg_fn: |x: f64, n: usize| x / (n as f64),
        below_fn: |a: f64, b: f64| a < b,
    }
}

fn random_network(
    activations: Vec<DenseActivation>,
    loss: Loss,
    shape: Vec<DenseShape>,
) -> DenseNetwork<f64> {
    let mut rng = rand::thread_rng();
    let mut count = 0;
    for i in 0..shape.len() - 1 {
        count += shape[i].range * shape[i + 1].range + shape[i + 1].range;
    }
    let init: Vec<f64> = (0..count).map(|_| rng.gen::<f64>()).collect();
    DenseNetwork::new(activations, loss, shape, EPS, 0.0, init).unwrap()
}

#[test]
fn test_xor_build() {
    let activations = vec![DenseActivation::Relu, DenseActivation::Tanh];
    let shape = vec![DenseShape::new(2, 1, 1), DenseShape::new(3, 1, 1), DenseShape::new(1, 1, 1)];
    // a fixed seed keeps the run deterministic; not every initialization
    // escapes the flat region of this loss surface
    let mut rng = rand::rngs::StdRng::seed_from_u64(1);
    let mut count = 0;
    for i in 0..shape.len() - 1 {
        count += shape[i].range * shape[i + 1].range + shape[i + 1].range;
    }
    let init: Vec<f64> = (0..count).map(|_| rng.gen::<f64>()).collect();
    let model =
        DenseNetwork::new(activations, Loss::MeanSquaredError, shape, EPS, 0.0, init).unwrap();

    let training_data = vec![
        (Matrix::from(vec![1.0, 0.0]), Matrix::from(vec![1.0])),
        (Matrix::from(vec![0.0, 1.0]), Matrix::from(vec![1.0])),
        (Matrix::from(vec![1.0, 1.0]), Matrix::from(vec![0.0])),
        (Matrix::from(vec![0.0, 0.0]), Matrix::from(vec![0.0])),
    ];
    let testing_data = training_data.clone();

    let mut session = DenseSession::new(
        model,
        1E-2,
        training_data,
        testing_data,
        50000,
        Some(0.005),
        0.0,
        None,
    );

    assert_eq!(session.fit(false, &session_ops()) < 0.05, true);
}

#[test]
fn test_feed_forward_size_mismatch_is_no_op() {
    let activations = vec![DenseActivation::Sigmoid, DenseActivation::Sigmoid];
    let shape = vec![DenseShape::one_d(2), DenseShape::one_d(4), DenseShape::one_d(1)];
    let mut net = random_network(activations, Loss::MeanSquaredError, shape);
    let ops = session_ops();

    let before = net.value();
    let wrong = Matrix::from(vec![1.0, 0.5, 0.25]);
    net.feed_forward(&wrong, false, ops.fm, &ops.aops);
    let after = net.value();
    for i in 0..before.len() {
        assert_eq!(before.get(i).unwrap(), after.get(i).unwrap());
    }

    let right = Matrix::from(vec![1.0, 0.5]);
    net.feed_forward(&right, false, ops.fm, &ops.aops);
    let changed = net.value();
    assert_eq!(changed.h, 1);
}

#[test]
fn test_feed_forward_deterministic_across_strategies() {
    let activations = vec![DenseActivation::Relu, DenseActivation::Sigmoid];
    let shape = vec![DenseShape::one_d(3), DenseShape::one_d(5), DenseShape::one_d(2)];
    let net = random_network(activations, Loss::MeanSquaredError, shape);
    let ops = session_ops();
    let input = Matrix::from(vec![0.3, -0.7, 1.1]);

    let mut a = net.clone();
    a.feed_forward(&input, false, ops.fm, &ops.aops);
    let mut b = net;
    b.feed_forward(&input, true, ops.fm, &ops.aops);
    let va = a.value();
    let vb = b.value();
    assert_eq!(va.len(), vb.len());
    for i in 0..va.len() {
        assert_eq!(va.get(i).unwrap(), vb.get(i).unwrap());
    }
}

#[test]
fn test_network_new_rejects_mismatched_parts() {
    let shape = vec![DenseShape::one_d(2), DenseShape::one_d(1)];
    // one activation is required, none given
    assert_eq!(
        DenseNetwork::<f64>::new(vec![], Loss::MeanSquaredError, shape, EPS, 0.0, vec![0.0; 3])
            .unwrap_err(),
        MatrixError::ShapeMismatch
    );
    let shape2 = vec![DenseShape::one_d(2), DenseShape::one_d(1)];
    // 2*1 weights + 1 bias = 3 values are required, 2 given
    assert_eq!(
        DenseNetwork::<f64>::new(
            vec![DenseActivation::Sigmoid],
            Loss::MeanSquaredError,
            shape2,
            EPS,
            0.0,
            vec![0.0; 2]
        )
        .unwrap_err(),
        MatrixError::ShapeMismatch
    );
}

#[test]
fn test_online_update_step_exact() {
    // a 1-1 network with known coefficients: one forward/backward/update
    // cycle moves the weight by lr * input * delta and the bias by lr * delta
    let ranges = vec![1usize, 1];
    let weights = vec![Matrix::reshape(vec![0.5], 1, 1).unwrap()];
    let biases = vec![Matrix::reshape(vec![0.25], 1, 1).unwrap()];
    let mut net = DenseNetwork::from_parts(
        &ranges,
        vec![DenseActivation::Relu],
        Loss::MeanSquaredError,
        EPS,
        0.0,
        weights,
        biases,
    )
    .unwrap();
    let ops = session_ops();
    let input = Matrix::from(vec![1.0]);
    let target = Matrix::from(vec![0.0]);

    net.feed_forward(&input, false, ops.fm, &ops.aops);
    // raw = 0.5 * 1.0 + 0.25 = 0.75; relu keeps it
    assert_eq!(net.value().get(0).unwrap(), 0.75);
    let delta = net.compute_output_delta(&target, &ops.dops, ops.sub_fn, ops.hmul).unwrap();
    // delta = (0.75 - 0.0) * drelu(0.75) = 0.75
    assert_eq!(delta.get(0).unwrap(), 0.75);
    let deltas = net.feed_backward(
        delta,
        false,
        ops.aops.zero,
        ops.aops.add_fn,
        ops.fm,
        ops.hmul,
        &ops.dops,
    );
    net.update_weights(deltas, LEARNING_RATE, ops.mul_fn, ops.sub_fn, ops.upd_fn);
    assert_eq!(net.weights[0].get(0).unwrap(), 0.5 - LEARNING_RATE * 0.75);
    assert_eq!(net.biases[0].get(0).unwrap(), 0.25 - LEARNING_RATE * 0.75);
}

#[test]
fn test_training_keeps_the_examples() {
    // shuffling reorders the training set but keeps exactly its examples
    let activations = vec![DenseActivation::Relu, DenseActivation::Tanh];
    let shape = vec![DenseShape::one_d(2), DenseShape::one_d(3), DenseShape::one_d(1)];
    let model = random_network(activations, Loss::MeanSquaredError, shape);
    let training_data = vec![
        (Matrix::from(vec![1.0, 0.0]), Matrix::from(vec![1.0])),
        (Matrix::from(vec![0.0, 1.0]), Matrix::from(vec![1.0])),
        (Matrix::from(vec![1.0, 1.0]), Matrix::from(vec![0.0])),
        (Matrix::from(vec![0.0, 0.0]), Matrix::from(vec![0.0])),
    ];
    let mut expected: Vec<(u64, u64)> = training_data
        .iter()
        .map(|(i, _)| (i.get(0).unwrap() as u64, i.get(1).unwrap() as u64))
        .collect();
    expected.sort();
    let mut session =
        DenseSession::new(model, 1E-2, training_data, vec![], 5, None, 0.0, None);
    session.train(false, &session_ops());
    let mut seen: Vec<(u64, u64)> = session
        .training_data
        .iter()
        .map(|(i, _)| (i.get(0).unwrap() as u64, i.get(1).unwrap() as u64))
        .collect();
    seen.sort();
    assert_eq!(seen, expected);
}

#[test]
fn test_batch_training_runs() {
    let activations = vec![DenseActivation::Relu, DenseActivation::Tanh];
    let shape = vec![DenseShape::one_d(2), DenseShape::one_d(3), DenseShape::one_d(1)];
    let model = random_network(activations, Loss::MeanSquaredError, shape);
    let training_data = vec![
        (Matrix::from(vec![1.0, 0.0]), Matrix::from(vec![1.0])),
        (Matrix::from(vec![0.0, 1.0]), Matrix::from(vec![1.0])),
        (Matrix::from(vec![1.0, 1.0]), Matrix::from(vec![0.0])),
        (Matrix::from(vec![0.0, 0.0]), Matrix::from(vec![0.0])),
    ];
    let testing_data = training_data.clone();
    let mut session = DenseSession::new(
        model,
        1E-2,
        training_data,
        testing_data,
        200,
        None,
        0.0,
        Some(2),
    );
    let err = session.fit(false, &session_ops());
    assert!(err.is_finite());
    let net = session.release_network();
    assert_eq!(net.nb_layers, 3);
}
