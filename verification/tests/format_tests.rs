use bricks::activations::{ActivationOps, DenseActivation};
use bricks::data_loader::split_data;
use bricks::dense_network::DenseNetwork;
use bricks::losses::Loss;
use bricks::matrix::Matrix;
use bricks::network_format::{parse_network, render_network, NetworkFormatError};
use bricks::text::{join_with, parse_usize, split_str, str_eq, usize_to_string};
use rand::Rng;

const EPS: f64 = 1e-6;

type Ops2 = fn(f64, f64) -> f64;
type Ops1 = fn(f64) -> f64;
type Ops3 = fn(f64, f64, f64) -> f64;

fn fwd_ops() -> ActivationOps<f64, Ops2, Ops2, Ops2, Ops2, Ops1, Ops2, Ops3> {
    ActivationOps {
        zero: 0.0,
        sigmoid_fn: |x: f64, eps: f64| (1.0 / (1.0 + (-x).exp())).clamp(eps, 1.0 - eps),
        relu_fn: |x: f64, _eps: f64| if x > 0.0 { x } else { 0.0 },
        leaky_relu_fn: |x: f64, _eps: f64| if x > 0.0 { x * 1e-2 } else { 0.0 },
        tanh_fn: |x: f64, _eps: f64| x.tanh(),
        exp_fn: |x: f64| x.exp(),
        add_fn: |a: f64, b: f64| a + b,
        div_clamp_fn: |x: f64, s: f64, eps: f64| (x / s).clamp(eps, 1.0 - eps),
    }
}

#[test]
fn test_usize_decimal_round_trip() {
    for n in [0usize, 7, 10, 123, 4096, usize::MAX] {
        let s = usize_to_string(n);
        assert_eq!(parse_usize(s.as_str()).unwrap(), n);
    }
    assert_eq!(usize_to_string(12345).as_str(), "12345");
    assert!(parse_usize("").is_err());
    assert!(parse_usize("12a").is_err());
    assert!(parse_usize("9999999999999999999999999999").is_err());
}

#[test]
fn test_split_and_join() {
    let toks = split_str("a bb  c", ' ');
    let views: Vec<&str> = toks.iter().map(|t| t.as_str()).collect();
    assert_eq!(views, vec!["a", "bb", "", "c"]);
    assert_eq!(join_with(&toks, " ").as_str(), "a bb  c");
    assert_eq!(split_str("", ' ').len(), 1);
    assert!(str_eq("abc", "abc"));
    assert!(!str_eq("abc", "abd"));
    assert!(!str_eq("abc", "ab"));
}

#[test]
fn test_render_then_parse_round_trip() {
    let ranges = vec![2usize, 3, 1];
    let acts = vec![DenseActivation::Relu, DenseActivation::Tanh];
    let weights = vec![
        vec!["0.1", "0.2", "0.3", "0.4", "0.5", "0.6"],
        vec!["1.5", "-2.5", "0.25"],
    ];
    let biases = vec![vec!["0.7", "0.8", "0.9"], vec!["-1.25"]];
    let w_owned: Vec<Vec<String>> =
        weights.iter().map(|l| l.iter().map(|t| t.to_string()).collect()).collect();
    let b_owned: Vec<Vec<String>> =
        biases.iter().map(|l| l.iter().map(|t| t.to_string()).collect()).collect();

    let text = render_network(&ranges, &acts, &Loss::MeanSquaredError, &w_owned, &b_owned);
    assert_eq!(
        text.as_str(),
        "2 3 1\nRelu Tanh\n0.1 0.2 0.3 0.4 0.5 0.6\n0.7 0.8 0.9\n1.5 -2.5 0.25\n-1.25\nMeanSquaredError"
    );

    let parsed = parse_network(text.as_str()).unwrap();
    assert_eq!(parsed.ranges, ranges);
    assert_eq!(parsed.activations, acts);
    assert_eq!(parsed.loss, Loss::MeanSquaredError);
    assert_eq!(parsed.weights, w_owned);
    assert_eq!(parsed.biases, b_owned);
}

#[test]
fn test_parse_errors_by_kind() {
    assert_eq!(parse_network("").unwrap_err(), NetworkFormatError::Structure);
    assert_eq!(parse_network("2 1\nSigmoid\n0 0\n0").unwrap_err(), NetworkFormatError::Structure);
    assert_eq!(
        parse_network("2 x\nSigmoid\n0 0\n0\nMeanSquaredError").unwrap_err(),
        NetworkFormatError::Number
    );
    assert_eq!(
        parse_network("2 1\nGelu\n0 0\n0\nMeanSquaredError").unwrap_err(),
        NetworkFormatError::Activation
    );
    assert_eq!(
        parse_network("2 1\nSigmoid\n0 0 0\n0\nMeanSquaredError").unwrap_err(),
        NetworkFormatError::Shape
    );
    assert_eq!(
        parse_network("2 1\nSigmoid\n0 0\n0 0\nMeanSquaredError").unwrap_err(),
        NetworkFormatError::Shape
    );
    assert_eq!(
        parse_network("2 1\nSigmoid\n0 0\n0\nHinge").unwrap_err(),
        NetworkFormatError::LossName
    );
    assert!(parse_network("2 1\nSigmoid\n0 0\n0\nMeanSquaredError").is_ok());
}

#[test]
fn test_save_load_forward_identity() {
    // serializing then deserializing yields the same forward-pass output
    let mut rng = rand::thread_rng();
    let ranges = vec![3usize, 4, 2];
    let acts = vec![DenseActivation::Sigmoid, DenseActivation::Tanh];
    let mut count = 0;
    for i in 0..ranges.len() - 1 {
        count += ranges[i] * ranges[i + 1] + ranges[i + 1];
    }
    let init: Vec<f64> = (0..count).map(|_| rng.gen::<f64>()).collect();
    let shapes = vec![
        bricks::shapes::DenseShape::one_d(3),
        bricks::shapes::DenseShape::one_d(4),
        bricks::shapes::DenseShape::one_d(2),
    ];
    let mut net =
        DenseNetwork::new(acts.clone(), Loss::MeanSquaredError, shapes, EPS, 0.0, init).unwrap();

    // render: the scalar coefficients become shortest round-trip decimal
    // tokens, which read back to the identical values
    let w_tokens: Vec<Vec<String>> =
        net.weights.iter().map(|m| m.values.iter().map(|v| v.to_string()).collect()).collect();
    let b_tokens: Vec<Vec<String>> =
        net.biases.iter().map(|m| m.values.iter().map(|v| v.to_string()).collect()).collect();
    let text = render_network(&ranges, &acts, &Loss::MeanSquaredError, &w_tokens, &b_tokens);

    let parsed = parse_network(text.as_str()).unwrap();
    let weights: Vec<Matrix<f64>> = parsed
        .weights
        .iter()
        .enumerate()
        .map(|(i, toks)| {
            let vals: Vec<f64> = toks.iter().map(|t| t.parse::<f64>().unwrap()).collect();
            Matrix::reshape(vals, parsed.ranges[i], parsed.ranges[i + 1]).unwrap()
        })
        .collect();
    let biases: Vec<Matrix<f64>> = parsed
        .biases
        .iter()
        .enumerate()
        .map(|(i, toks)| {
            let vals: Vec<f64> = toks.iter().map(|t| t.parse::<f64>().unwrap()).collect();
            Matrix::reshape(vals, 1, parsed.ranges[i + 1]).unwrap()
        })
        .collect();
    let mut reloaded = DenseNetwork::from_parts(
        &parsed.ranges,
        parsed.activations,
        parsed.loss,
        EPS,
        0.0,
        weights,
        biases,
    )
    .unwrap();

    let input = Matrix::from(vec![0.25, -0.5, 0.75]);
    let ops = fwd_ops();
    net.feed_forward(&input, false, |a: f64, b: f64| a * b, &ops);
    reloaded.feed_forward(&input, false, |a: f64, b: f64| a * b, &ops);
    let a = net.value();
    let b = reloaded.value();
    assert_eq!(a.len(), b.len());
    for i in 0..a.len() {
        assert_eq!(a.get(i).unwrap(), b.get(i).unwrap());
    }
}

#[test]
fn test_split_data_ratio() {
    let data: Vec<(Matrix<f64>, Matrix<f64>)> =
        (0..10).map(|i| (Matrix::from(vec![i as f64]), Matrix::from(vec![0.0]))).collect();
    let (testing, training) = split_data(data, 30);
    assert_eq!(training.len(), 3);
    assert_eq!(testing.len(), 7);
    assert_eq!(training[0].0.get(0).unwrap(), 0.0);
    assert_eq!(testing[0].0.get(0).unwrap(), 3.0);
}
