//! The forward pass, backpropagation and weight update over the per-layer
//! buffers of a dense network.
//!
//! These free functions work on the bare layer vectors so that any network
//! type holding them can delegate here. The scalar arithmetic is supplied by
//! the caller as closures; every contract relates the written buffers to the
//! read ones through those closures' postconditions.

use crate::activations::{
    applied_rel, derivative_rel, lemma_applied_rel_deterministic, ActivationOps, DenseActivation,
    DerivativeOps,
};
use crate::combine::{
    accepts_pairs, accepts_triples, deterministic2, lemma_pointwise_rel_deterministic,
    pointwise_rel, pointwise_scalar_rel,
};
use crate::high_freq_computation::dot_result_rel;
use crate::losses::Loss;
use crate::matrix::{idx2, lemma_idx2_in_range, Matrix, MatrixError};
use vstd::pervasive::unreached;
use vstd::prelude::*;

verus! {

/// The per-layer buffers of a dense network agree in number and shape: one
/// column vector of activated and of raw values per layer, and one weight
/// matrix and bias column per non-input layer, each weight matrix taking
/// layer `i` (its width) to layer `i + 1` (its height).
pub open spec fn layers_wf<T: Copy>(
    values: Seq<Matrix<T>>,
    raw_values: Seq<Matrix<T>>,
    weights: Seq<Matrix<T>>,
    biases: Seq<Matrix<T>>,
    nb_layers: int,
) -> bool {
    &&& nb_layers >= 2
    &&& values.len() == nb_layers
    &&& raw_values.len() == nb_layers
    &&& weights.len() == nb_layers - 1
    &&& biases.len() == nb_layers - 1
    &&& forall|i: int| 0 <= i < nb_layers ==> (#[trigger] values[i]).wf() && values[i].w == 1
    &&& forall|i: int|
        0 <= i < nb_layers ==> (#[trigger] raw_values[i]).wf() && raw_values[i].w == 1
            && raw_values[i].h == values[i].h
    &&& forall|i: int|
        0 <= i < nb_layers - 1 ==> (#[trigger] weights[i]).wf() && weights[i].w == values[i].h
            && weights[i].h == values[i + 1].h
    &&& forall|i: int|
        0 <= i < nb_layers - 1 ==> (#[trigger] biases[i]).wf() && biases[i].w == 1 && biases[i].h
            == values[i + 1].h
}

/// One forward step: the raw values of the next layer are a possible
/// weighted sum of this layer's values plus the bias, and the next layer's
/// values are a possible activation of those raw values.
pub open spec fn forward_layer_rel<
    T,
    FM: Fn(T, T) -> T,
    FS: Fn(T, T) -> T,
    FR: Fn(T, T) -> T,
    FL: Fn(T, T) -> T,
    FT: Fn(T, T) -> T,
    FE: Fn(T) -> T,
    FA: Fn(T, T) -> T,
    FD: Fn(T, T, T) -> T,
>(
    weights_i: Matrix<T>,
    values_i: Matrix<T>,
    bias_i: Matrix<T>,
    act: DenseActivation,
    eps: T,
    ops: ActivationOps<T, FS, FR, FL, FT, FE, FA, FD>,
    fm: FM,
    raw_next: Seq<T>,
    val_next: Seq<T>,
) -> bool {
    exists|d: Seq<T>|
        {
            &&& #[trigger] dot_result_rel(
                ops.add_fn,
                fm,
                weights_i@,
                values_i@,
                weights_i.h as int,
                weights_i.w as int,
                1,
                ops.zero,
                d,
            )
            &&& pointwise_rel(ops.add_fn, d, bias_i@, raw_next)
            &&& applied_rel(act, ops, eps, raw_next, val_next)
        }
}

/// The forward pass: for each layer, raw values are the weighted sum of the
/// previous layer's values plus the bias, and values are the activation of
/// the raw values. Layer 0 is left as it stands.
#[verifier::rlimit(100)]
pub fn feed_forward_generics<
    T: Copy + Send + Sync,
    FM: Fn(T, T) -> T + Copy + Send + Sync,
    FS: Fn(T, T) -> T + Copy,
    FR: Fn(T, T) -> T + Copy,
    FL: Fn(T, T) -> T + Copy,
    FT: Fn(T, T) -> T + Copy,
    FE: Fn(T) -> T + Copy,
    FA: Fn(T, T) -> T + Copy + Send + Sync,
    FD: Fn(T, T, T) -> T + Copy,
>(
    values: &mut Vec<Matrix<T>>,
    raw_values: &mut Vec<Matrix<T>>,
    activations: &Vec<DenseActivation>,
    weights: &Vec<Matrix<T>>,
    biases: &Vec<Matrix<T>>,
    nb_layers: usize,
    eps: T,
    multithreaded: bool,
    fm: FM,
    ops: &ActivationOps<T, FS, FR, FL, FT, FE, FA, FD>,
)
    requires
        layers_wf(old(values)@, old(raw_values)@, weights@, biases@, nb_layers as int),
        activations@.len() == nb_layers - 1,
        ops.wf(),
        accepts_pairs(fm),
    ensures
        layers_wf(final(values)@, final(raw_values)@, weights@, biases@, nb_layers as int),
        final(values)@[0] == old(values)@[0],
        final(raw_values)@[0] == old(raw_values)@[0],
        forall|i: int| 0 <= i < nb_layers ==> (#[trigger] final(values)@[i]).h == old(values)@[i].h,
        forall|i: int|
            0 <= i < nb_layers ==> (#[trigger] final(raw_values)@[i]).h == old(raw_values)@[i].h,
        forall|i: int|
            0 <= i < nb_layers - 1 ==> forward_layer_rel(
                weights@[i],
                #[trigger] final(values)@[i],
                biases@[i],
                activations@[i],
                eps,
                *ops,
                fm,
                final(raw_values)@[i + 1]@,
                final(values)@[i + 1]@,
            ),
{
    let ghost values0 = values@;
    let mut i: usize = 0;
    while i < nb_layers - 1
        invariant
            layers_wf(values@, raw_values@, weights@, biases@, nb_layers as int),
            activations@.len() == nb_layers - 1,
            ops.wf(),
            accepts_pairs(fm),
            i <= nb_layers - 1,
            values@[0] == values0[0],
            raw_values@[0] == old(raw_values)@[0],
            values0 == old(values)@,
            values0.len() == nb_layers,
            old(raw_values)@.len() == nb_layers,
            forall|j: int| 0 <= j < nb_layers ==> (#[trigger] values@[j]).h == values0[j].h,
            forall|j: int|
                0 <= j < nb_layers ==> (#[trigger] raw_values@[j]).h == old(raw_values)@[j].h,
            forall|j: int|
                0 <= j < i ==> forward_layer_rel(
                    weights@[j],
                    #[trigger] values@[j],
                    biases@[j],
                    activations@[j],
                    eps,
                    *ops,
                    fm,
                    raw_values@[j + 1]@,
                    values@[j + 1]@,
                ),
        decreases nb_layers - 1 - i,
    {
        let weighted = match weights[i].dot(&values[i], multithreaded, ops.zero, ops.add_fn, fm) {
            Ok(m) => m,
            Err(_) => unreached(),
        };
        let summed = match weighted.plus(&biases[i], ops.add_fn) {
            Ok(m) => m,
            Err(_) => unreached(),
        };
        let mut mat = summed.duplicate();
        let act = activations[i];
        act.apply(&mut mat, eps, ops);
        let ghost vpre = values@;
        let ghost rpre = raw_values@;
        raw_values[i + 1] = summed;
        values[i + 1] = mat;
        proof {
            assert(vpre[i + 1 as int].h == weights@[i as int].h);
            assert(mat.h == summed.h == weights@[i as int].h);
            assert(values@ =~= vpre.update(i + 1 as int, mat));
            assert(raw_values@ =~= rpre.update(i + 1 as int, summed));
            assert forall|j: int| 0 <= j < nb_layers implies (#[trigger] values@[j]).h
                == values0[j].h by {
                if j != i + 1 {
                    assert(values@[j] == vpre[j]);
                } else {
                    assert(values@[j] == mat);
                    assert(rpre[j].h == vpre[j].h);
                    assert(vpre[j].h == values0[j].h);
                }
            }
            assert forall|j: int| 0 <= j < nb_layers implies (#[trigger] raw_values@[j]).h
                == old(raw_values)@[j].h by {
                if j != i + 1 {
                    assert(raw_values@[j] == rpre[j]);
                } else {
                    assert(raw_values@[j] == summed);
                    assert(rpre[j].h == old(raw_values)@[j].h);
                    assert(rpre[j].h == vpre[j].h);
                    assert(vpre[j].h == values0[j].h);
                }
            }
            assert(forward_layer_rel(
                weights@[i as int],
                values@[i as int],
                biases@[i as int],
                activations@[i as int],
                eps,
                *ops,
                fm,
                raw_values@[i + 1 as int]@,
                values@[i + 1 as int]@,
            ));
        }
        i += 1;
    }
}

/// A forward step through deterministic scalar operations has exactly one
/// outcome.
pub proof fn lemma_forward_layer_deterministic<
    T: Copy,
    FM: Fn(T, T) -> T,
    FS: Fn(T, T) -> T,
    FR: Fn(T, T) -> T,
    FL: Fn(T, T) -> T,
    FT: Fn(T, T) -> T,
    FE: Fn(T) -> T,
    FA: Fn(T, T) -> T,
    FD: Fn(T, T, T) -> T,
>(
    weights_i: Matrix<T>,
    values_i: Matrix<T>,
    bias_i: Matrix<T>,
    act: DenseActivation,
    eps: T,
    ops: ActivationOps<T, FS, FR, FL, FT, FE, FA, FD>,
    fm: FM,
    raw_a: Seq<T>,
    val_a: Seq<T>,
    raw_b: Seq<T>,
    val_b: Seq<T>,
)
    requires
        ops.deterministic(),
        deterministic2(fm),
        forward_layer_rel(weights_i, values_i, bias_i, act, eps, ops, fm, raw_a, val_a),
        forward_layer_rel(weights_i, values_i, bias_i, act, eps, ops, fm, raw_b, val_b),
    ensures
        raw_a == raw_b,
        val_a == val_b,
{
    let d1 = choose|d: Seq<T>|
        {
            &&& #[trigger] dot_result_rel(
                ops.add_fn,
                fm,
                weights_i@,
                values_i@,
                weights_i.h as int,
                weights_i.w as int,
                1,
                ops.zero,
                d,
            )
            &&& pointwise_rel(ops.add_fn, d, bias_i@, raw_a)
            &&& applied_rel(act, ops, eps, raw_a, val_a)
        };
    let d2 = choose|d: Seq<T>|
        {
            &&& #[trigger] dot_result_rel(
                ops.add_fn,
                fm,
                weights_i@,
                values_i@,
                weights_i.h as int,
                weights_i.w as int,
                1,
                ops.zero,
                d,
            )
            &&& pointwise_rel(ops.add_fn, d, bias_i@, raw_b)
            &&& applied_rel(act, ops, eps, raw_b, val_b)
        };
    crate::high_freq_computation::lemma_dot_strategies_agree(
        ops.add_fn,
        fm,
        weights_i@,
        values_i@,
        weights_i.h as int,
        weights_i.w as int,
        1,
        ops.zero,
        d1,
        d2,
    );
    lemma_pointwise_rel_deterministic(ops.add_fn, d1, bias_i@, raw_a, raw_b);
    lemma_applied_rel_deterministic(act, ops, eps, raw_a, val_a, val_b);
}

/// The recursion behind the forward-pass determinism law: agreement of the
/// buffers up to a layer.
proof fn lemma_feed_forward_deterministic_upto<
    T: Copy,
    FM: Fn(T, T) -> T,
    FS: Fn(T, T) -> T,
    FR: Fn(T, T) -> T,
    FL: Fn(T, T) -> T,
    FT: Fn(T, T) -> T,
    FE: Fn(T) -> T,
    FA: Fn(T, T) -> T,
    FD: Fn(T, T, T) -> T,
>(
    weights: Seq<Matrix<T>>,
    biases: Seq<Matrix<T>>,
    activations: Seq<DenseActivation>,
    eps: T,
    ops: ActivationOps<T, FS, FR, FL, FT, FE, FA, FD>,
    fm: FM,
    values_a: Seq<Matrix<T>>,
    raws_a: Seq<Matrix<T>>,
    values_b: Seq<Matrix<T>>,
    raws_b: Seq<Matrix<T>>,
    nb_layers: int,
    upto: int,
)
    requires
        ops.deterministic(),
        deterministic2(fm),
        layers_wf(values_a, raws_a, weights, biases, nb_layers),
        layers_wf(values_b, raws_b, weights, biases, nb_layers),
        activations.len() == nb_layers - 1,
        values_a[0]@ == values_b[0]@,
        forall|i: int|
            0 <= i < nb_layers - 1 ==> forward_layer_rel(
                weights[i],
                #[trigger] values_a[i],
                biases[i],
                activations[i],
                eps,
                ops,
                fm,
                raws_a[i + 1]@,
                values_a[i + 1]@,
            ),
        forall|i: int|
            0 <= i < nb_layers - 1 ==> forward_layer_rel(
                weights[i],
                #[trigger] values_b[i],
                biases[i],
                activations[i],
                eps,
                ops,
                fm,
                raws_b[i + 1]@,
                values_b[i + 1]@,
            ),
        0 <= upto < nb_layers,
    ensures
        forall|i: int| 0 <= i <= upto ==> (#[trigger] values_a[i])@ == values_b[i]@,
        forall|i: int| 1 <= i <= upto ==> (#[trigger] raws_a[i])@ == raws_b[i]@,
    decreases upto,
{
    if upto > 0 {
        lemma_feed_forward_deterministic_upto(
            weights,
            biases,
            activations,
            eps,
            ops,
            fm,
            values_a,
            raws_a,
            values_b,
            raws_b,
            nb_layers,
            upto - 1,
        );
        let k = upto - 1;
        assert(values_a[k]@ == values_b[k]@);
        assert(forward_layer_rel(
            weights[k],
            values_b[k],
            biases[k],
            activations[k],
            eps,
            ops,
            fm,
            raws_b[k + 1]@,
            values_b[k + 1]@,
        ));
        assert(forward_layer_rel(
            weights[k],
            values_a[k],
            biases[k],
            activations[k],
            eps,
            ops,
            fm,
            raws_b[k + 1]@,
            values_b[k + 1]@,
        )) by {
            lemma_forward_layer_rel_view(
                weights[k],
                values_a[k],
                values_b[k],
                biases[k],
                activations[k],
                eps,
                ops,
                fm,
                raws_b[k + 1]@,
                values_b[k + 1]@,
            );
        }
        lemma_forward_layer_deterministic(
            weights[k],
            values_a[k],
            biases[k],
            activations[k],
            eps,
            ops,
            fm,
            raws_a[k + 1]@,
            values_a[k + 1]@,
            raws_b[k + 1]@,
            values_b[k + 1]@,
        );
    }
}

/// The forward step reads only the entries of the layer's value column, so
/// two columns with the same entries step identically.
proof fn lemma_forward_layer_rel_view<
    T: Copy,
    FM: Fn(T, T) -> T,
    FS: Fn(T, T) -> T,
    FR: Fn(T, T) -> T,
    FL: Fn(T, T) -> T,
    FT: Fn(T, T) -> T,
    FE: Fn(T) -> T,
    FA: Fn(T, T) -> T,
    FD: Fn(T, T, T) -> T,
>(
    weights_i: Matrix<T>,
    v1: Matrix<T>,
    v2: Matrix<T>,
    bias_i: Matrix<T>,
    act: DenseActivation,
    eps: T,
    ops: ActivationOps<T, FS, FR, FL, FT, FE, FA, FD>,
    fm: FM,
    raw_next: Seq<T>,
    val_next: Seq<T>,
)
    requires
        v1@ == v2@,
        forward_layer_rel(weights_i, v2, bias_i, act, eps, ops, fm, raw_next, val_next),
    ensures
        forward_layer_rel(weights_i, v1, bias_i, act, eps, ops, fm, raw_next, val_next),
{
    let d = choose|d: Seq<T>|
        {
            &&& #[trigger] dot_result_rel(
                ops.add_fn,
                fm,
                weights_i@,
                v2@,
                weights_i.h as int,
                weights_i.w as int,
                1,
                ops.zero,
                d,
            )
            &&& pointwise_rel(ops.add_fn, d, bias_i@, raw_next)
            &&& applied_rel(act, ops, eps, raw_next, val_next)
        };
    assert(dot_result_rel(
        ops.add_fn,
        fm,
        weights_i@,
        v1@,
        weights_i.h as int,
        weights_i.w as int,
        1,
        ops.zero,
        d,
    ));
}

/// A whole forward pass through deterministic scalar operations has exactly
/// one outcome: two runs over the same weights, biases and activations from
/// the same input can only fill every layer buffer identically, whatever
/// strategy computed them.
pub proof fn lemma_feed_forward_deterministic<
    T: Copy,
    FM: Fn(T, T) -> T,
    FS: Fn(T, T) -> T,
    FR: Fn(T, T) -> T,
    FL: Fn(T, T) -> T,
    FT: Fn(T, T) -> T,
    FE: Fn(T) -> T,
    FA: Fn(T, T) -> T,
    FD: Fn(T, T, T) -> T,
>(
    weights: Seq<Matrix<T>>,
    biases: Seq<Matrix<T>>,
    activations: Seq<DenseActivation>,
    eps: T,
    ops: ActivationOps<T, FS, FR, FL, FT, FE, FA, FD>,
    fm: FM,
    values_a: Seq<Matrix<T>>,
    raws_a: Seq<Matrix<T>>,
    values_b: Seq<Matrix<T>>,
    raws_b: Seq<Matrix<T>>,
    nb_layers: int,
)
    requires
        ops.deterministic(),
        deterministic2(fm),
        layers_wf(values_a, raws_a, weights, biases, nb_layers),
        layers_wf(values_b, raws_b, weights, biases, nb_layers),
        activations.len() == nb_layers - 1,
        values_a[0]@ == values_b[0]@,
        forall|i: int|
            0 <= i < nb_layers - 1 ==> forward_layer_rel(
                weights[i],
                #[trigger] values_a[i],
                biases[i],
                activations[i],
                eps,
                ops,
                fm,
                raws_a[i + 1]@,
                values_a[i + 1]@,
            ),
        forall|i: int|
            0 <= i < nb_layers - 1 ==> forward_layer_rel(
                weights[i],
                #[trigger] values_b[i],
                biases[i],
                activations[i],
                eps,
                ops,
                fm,
                raws_b[i + 1]@,
                values_b[i + 1]@,
            ),
    ensures
        forall|i: int| 0 <= i < nb_layers ==> (#[trigger] values_a[i])@ == values_b[i]@,
        forall|i: int| 1 <= i < nb_layers ==> (#[trigger] raws_a[i])@ == raws_b[i]@,
{
    lemma_feed_forward_deterministic_upto(
        weights,
        biases,
        activations,
        eps,
        ops,
        fm,
        values_a,
        raws_a,
        values_b,
        raws_b,
        nb_layers,
        nb_layers - 1,
    );
}

/// The output-layer delta: the loss differential of the prediction against
/// the target, multiplied entrywise with the activation derivative of the
/// raw output values.
pub open spec fn output_delta_rel<
    T,
    FSub: Fn(T, T) -> T,
    FH: Fn(T, T) -> T,
    FS: Fn(T, T) -> T,
    FR: Fn(T, T) -> T,
    FL: Fn(T, T) -> T,
    FT: Fn(T, T) -> T,
    FE: Fn(T) -> T,
    FA: Fn(T, T) -> T,
    FM: Fn(T, T) -> T,
    FD: Fn(T, T, T) -> T,
>(
    act: DenseActivation,
    value_last: Seq<T>,
    raw_last: Seq<T>,
    target: Seq<T>,
    eps: T,
    dops: DerivativeOps<T, FS, FR, FL, FT, FE, FA, FM, FD>,
    sub_fn: FSub,
    hmul: FH,
    delta: Seq<T>,
) -> bool {
    exists|diff: Seq<T>, dz: Seq<T>|
        {
            &&& #[trigger] pointwise_rel(sub_fn, value_last, target, diff)
            &&& #[trigger] derivative_rel(act, dops, eps, raw_last, dz)
            &&& pointwise_rel(hmul, diff, dz, delta)
        }
}

/// The delta of the output layer: loss differential of the prediction
/// against `output`, entrywise times the activation derivative of the raw
/// output; a target of the wrong shape is rejected.
pub fn compute_output_delta_generics<
    T: Copy,
    FSub: Fn(T, T) -> T + Copy,
    FH: Fn(T, T) -> T + Copy,
    FS: Fn(T, T) -> T + Copy,
    FR: Fn(T, T) -> T + Copy,
    FL: Fn(T, T) -> T + Copy,
    FT: Fn(T, T) -> T + Copy,
    FE: Fn(T) -> T + Copy,
    FA: Fn(T, T) -> T + Copy,
    FM: Fn(T, T) -> T + Copy,
    FD: Fn(T, T, T) -> T + Copy,
>(
    activation: &DenseActivation,
    value: &Matrix<T>,
    raw: &Matrix<T>,
    loss: &Loss,
    output: &Matrix<T>,
    eps: T,
    dops: &DerivativeOps<T, FS, FR, FL, FT, FE, FA, FM, FD>,
    sub_fn: FSub,
    hmul: FH,
) -> (r: Result<Matrix<T>, MatrixError>)
    requires
        value.wf(),
        raw.wf(),
        output.wf(),
        raw.w == value.w,
        raw.h == value.h,
        dops.wf(),
        accepts_pairs(sub_fn),
        accepts_pairs(hmul),
    ensures
        r is Ok <==> (value.w == output.w && value.h == output.h),
        r matches Ok(m) ==> m.wf() && m.w == value.w && m.h == value.h && output_delta_rel(
            *activation,
            value@,
            raw@,
            output@,
            eps,
            *dops,
            sub_fn,
            hmul,
            m@,
        ),
        r matches Err(e) ==> e == MatrixError::ShapeMismatch,
{
    let mut d_z = raw.duplicate();
    activation.derivative(&mut d_z, eps, dops);
    let diff = match loss.compute_differential_error(value, output, sub_fn) {
        Ok(d) => d,
        Err(e) => {
            return Err(e);
        },
    };
    let delta = match diff.hadamard_dot(&d_z, hmul) {
        Ok(d) => d,
        Err(_) => unreached(),
    };
    proof {
        assert(pointwise_rel(sub_fn, value@, output@, diff@));
        assert(derivative_rel(*activation, *dops, eps, raw@, d_z@));
        assert(pointwise_rel(hmul, diff@, d_z@, delta@));
    }
    Ok(delta)
}

/// One backward step for a hidden layer: the delta is the transposed weight
/// matrix of the following layer applied to that layer's delta, entrywise
/// times the activation derivative of this layer's raw values.
pub open spec fn backward_layer_rel<
    T: Copy,
    FA: Fn(T, T) -> T,
    FM: Fn(T, T) -> T,
    FH: Fn(T, T) -> T,
    FS: Fn(T, T) -> T,
    FR: Fn(T, T) -> T,
    FL: Fn(T, T) -> T,
    FT: Fn(T, T) -> T,
    FE: Fn(T) -> T,
    FA2: Fn(T, T) -> T,
    FM2: Fn(T, T) -> T,
    FD: Fn(T, T, T) -> T,
>(
    weights_l: Matrix<T>,
    raw_l: Matrix<T>,
    act: DenseActivation,
    eps: T,
    dops: DerivativeOps<T, FS, FR, FL, FT, FE, FA2, FM2, FD>,
    fa: FA,
    fm: FM,
    hmul: FH,
    zero: T,
    delta_next: Matrix<T>,
    delta_l: Seq<T>,
) -> bool {
    exists|wt: Matrix<T>, prod: Seq<T>, dz: Seq<T>|
        {
            &&& #[trigger] Matrix::is_transpose_of(wt, weights_l)
            &&& #[trigger] dot_result_rel(
                fa,
                fm,
                wt@,
                delta_next@,
                wt.h as int,
                wt.w as int,
                1,
                zero,
                prod,
            )
            &&& #[trigger] derivative_rel(act, dops, eps, raw_l@, dz)
            &&& pointwise_rel(hmul, prod, dz, delta_l)
        }
}

/// Backpropagation through the hidden layers. On entry `deltas` holds the
/// output layer's delta alone; on return `deltas` holds one delta per
/// non-input layer in layer order, each hidden delta derived from the next
/// layer's delta by the backward step.
#[verifier::rlimit(100)]
pub fn back_propagation_generics<
    T: Copy + Send + Sync,
    FA: Fn(T, T) -> T + Copy + Send + Sync,
    FM: Fn(T, T) -> T + Copy + Send + Sync,
    FH: Fn(T, T) -> T + Copy,
    FS: Fn(T, T) -> T + Copy,
    FR: Fn(T, T) -> T + Copy,
    FL: Fn(T, T) -> T + Copy,
    FT: Fn(T, T) -> T + Copy,
    FE: Fn(T) -> T + Copy,
    FA2: Fn(T, T) -> T + Copy,
    FM2: Fn(T, T) -> T + Copy,
    FD: Fn(T, T, T) -> T + Copy,
>(
    deltas: &mut Vec<Matrix<T>>,
    activations: &Vec<DenseActivation>,
    raw_values: &Vec<Matrix<T>>,
    weights: &Vec<Matrix<T>>,
    nb_layers: usize,
    eps: T,
    multithreaded: bool,
    zero: T,
    fa: FA,
    fm: FM,
    hmul: FH,
    dops: &DerivativeOps<T, FS, FR, FL, FT, FE, FA2, FM2, FD>,
)
    requires
        nb_layers >= 2,
        old(deltas)@.len() == 1,
        activations@.len() == nb_layers - 1,
        raw_values@.len() == nb_layers,
        weights@.len() == nb_layers - 1,
        forall|i: int|
            0 <= i < nb_layers ==> (#[trigger] raw_values@[i]).wf() && raw_values@[i].w == 1,
        forall|i: int|
            0 <= i < nb_layers - 1 ==> (#[trigger] weights@[i]).wf() && weights@[i].w
                == raw_values@[i].h && weights@[i].h == raw_values@[i + 1].h,
        old(deltas)@[0].wf(),
        old(deltas)@[0].w == 1,
        old(deltas)@[0].h == raw_values@[nb_layers - 1].h,
        dops.wf(),
        accepts_pairs(fa),
        accepts_pairs(fm),
        accepts_pairs(hmul),
    ensures
        final(deltas)@.len() == nb_layers - 1,
        forall|l: int|
            0 <= l < nb_layers - 1 ==> (#[trigger] final(deltas)@[l]).wf() && final(deltas)@[l].w
                == 1 && final(deltas)@[l].h == raw_values@[l + 1].h,
        final(deltas)@[nb_layers - 2] == old(deltas)@[0],
        forall|l: int|
            1 <= l < nb_layers - 1 ==> backward_layer_rel(
                weights@[l],
                raw_values@[l],
                activations@[l - 1],
                eps,
                *dops,
                fa,
                fm,
                hmul,
                zero,
                #[trigger] final(deltas)@[l],
                final(deltas)@[l - 1]@,
            ),
{
    let ghost out_delta = deltas@[0];
    let mut l: usize = nb_layers - 1;
    while l > 1
        invariant
            nb_layers >= 2,
            1 <= l <= nb_layers - 1,
            activations@.len() == nb_layers - 1,
            raw_values@.len() == nb_layers,
            weights@.len() == nb_layers - 1,
            forall|i: int|
                0 <= i < nb_layers ==> (#[trigger] raw_values@[i]).wf() && raw_values@[i].w == 1,
            forall|i: int|
                0 <= i < nb_layers - 1 ==> (#[trigger] weights@[i]).wf() && weights@[i].w
                    == raw_values@[i].h && weights@[i].h == raw_values@[i + 1].h,
            dops.wf(),
            accepts_pairs(fa),
            accepts_pairs(fm),
            accepts_pairs(hmul),
            deltas@.len() == nb_layers - l,
            deltas@[0] == out_delta,
            out_delta.wf() && out_delta.w == 1 && out_delta.h == raw_values@[nb_layers - 1].h,
            forall|j: int|
                0 <= j < deltas@.len() ==> (#[trigger] deltas@[j]).wf() && deltas@[j].w == 1
                    && deltas@[j].h == raw_values@[if j == 0 {
                    nb_layers - 1
                } else {
                    nb_layers - 1 - j
                }].h,
            forall|j: int|
                1 <= j < deltas@.len() ==> backward_layer_rel(
                    weights@[nb_layers - 1 - j],
                    raw_values@[nb_layers - 1 - j],
                    activations@[nb_layers - 2 - j],
                    eps,
                    *dops,
                    fa,
                    fm,
                    hmul,
                    zero,
                    #[trigger] deltas@[j - 1],
                    deltas@[j]@,
                ),
        decreases l,
    {
        let layer = l - 1;
        let mut d_z = raw_values[layer].duplicate();
        let act = activations[layer - 1];
        act.derivative(&mut d_z, eps, dops);
        let wt = weights[layer].t();
        let last = deltas.len() - 1;
        let prod = match wt.dot(&deltas[last], multithreaded, zero, fa, fm) {
            Ok(m) => m,
            Err(_) => unreached(),
        };
        let delta = match prod.hadamard_dot(&d_z, hmul) {
            Ok(m) => m,
            Err(_) => unreached(),
        };
        deltas.push(delta);
        proof {
            assert(backward_layer_rel(
                weights@[layer as int],
                raw_values@[layer as int],
                activations@[layer - 1],
                eps,
                *dops,
                fa,
                fm,
                hmul,
                zero,
                deltas@[deltas@.len() - 2],
                deltas@[deltas@.len() - 1]@,
            ));
        }
        l = layer;
    }

    // Reverse into layer order: the delta of layer `i + 1` stands at `i`.
    let ghost stacked = deltas@;
    let mut rev: Vec<Matrix<T>> = Vec::new();
    let total = deltas.len();
    while rev.len() < total
        invariant
            stacked.len() == total,
            rev@.len() + deltas@.len() == total,
            deltas@ == stacked.subrange(0, deltas@.len() as int),
            forall|j: int| 0 <= j < rev@.len() ==> rev@[j] == stacked[total - 1 - j],
        decreases total - rev@.len(),
    {
        let next = match deltas.pop() {
            Some(m) => m,
            None => unreached(),
        };
        proof {
            assert(deltas@ =~= stacked.subrange(0, deltas@.len() as int));
        }
        rev.push(next);
    }
    *deltas = rev;
    proof {
        assert forall|l: int| 1 <= l < nb_layers - 1 implies backward_layer_rel(
            weights@[l],
            raw_values@[l],
            activations@[l - 1],
            eps,
            *dops,
            fa,
            fm,
            hmul,
            zero,
            #[trigger] deltas@[l],
            deltas@[l - 1]@,
        ) by {
            let j = total - l;
            assert(deltas@[l] == stacked[j - 1]);
            assert(deltas@[l - 1] == stacked[j]);
            assert(backward_layer_rel(
                weights@[nb_layers - 1 - j],
                raw_values@[nb_layers - 1 - j],
                activations@[nb_layers - 2 - j],
                eps,
                *dops,
                fa,
                fm,
                hmul,
                zero,
                stacked[j - 1],
                stacked[j]@,
            ));
        }
    }
}

/// The bias update of one layer: the delta scaled by the learning rate,
/// subtracted entrywise from the old bias.
pub open spec fn bias_update_rel<T, FMul: Fn(T, T) -> T, FSub: Fn(T, T) -> T>(
    mul_fn: FMul,
    sub_fn: FSub,
    learning_rate: T,
    old_bias: Matrix<T>,
    delta: Matrix<T>,
    new_bias: Seq<T>,
) -> bool {
    exists|scaled: Seq<T>|
        {
            &&& #[trigger] pointwise_scalar_rel(mul_fn, delta@, learning_rate, scaled)
            &&& pointwise_rel(sub_fn, old_bias@, scaled, new_bias)
        }
}

/// The weight update of one layer: every coefficient combined with its
/// layer-input activation and its output delta through the caller's update
/// operation (the outer product, scaled and subtracted).
pub open spec fn weight_update_rel<T: Copy, FU: Fn(T, T, T) -> T>(
    upd_fn: FU,
    old_w: Matrix<T>,
    vals: Matrix<T>,
    delta: Matrix<T>,
    new_w: Seq<T>,
) -> bool {
    &&& new_w.len() == old_w@.len()
    &&& forall|j: int, k: int|
        0 <= j < delta@.len() && 0 <= k < vals@.len() ==> call_ensures(
            upd_fn,
            (old_w@[idx2(j, k, old_w.w as int)], vals@[k], delta@[j]),
            #[trigger] new_w[idx2(j, k, old_w.w as int)],
        )
}

/// The weight update: for each non-input layer the bias moves against its
/// delta and every weight coefficient moves against the product of its
/// input activation and its output delta, both through the caller's
/// operations. Applied only after the whole delta list is in hand.
#[verifier::rlimit(100)]
pub fn update_weights_generics<
    T: Copy,
    FMul: Fn(T, T) -> T + Copy,
    FSub: Fn(T, T) -> T + Copy,
    FU: Fn(T, T, T) -> T + Copy,
>(
    deltas: Vec<Matrix<T>>,
    learning_rate: T,
    values: &Vec<Matrix<T>>,
    weights: &mut Vec<Matrix<T>>,
    biases: &mut Vec<Matrix<T>>,
    nb_layers: usize,
    mul_fn: FMul,
    sub_fn: FSub,
    upd_fn: FU,
)
    requires
        nb_layers >= 2,
        values@.len() == nb_layers,
        old(weights)@.len() == nb_layers - 1,
        old(biases)@.len() == nb_layers - 1,
        deltas@.len() == nb_layers - 1,
        forall|i: int| 0 <= i < nb_layers ==> (#[trigger] values@[i]).wf() && values@[i].w == 1,
        forall|i: int|
            0 <= i < nb_layers - 1 ==> (#[trigger] old(weights)@[i]).wf() && old(weights)@[i].w
                == values@[i].h && old(weights)@[i].h == values@[i + 1].h,
        forall|i: int|
            0 <= i < nb_layers - 1 ==> (#[trigger] old(biases)@[i]).wf() && old(biases)@[i].w == 1
                && old(biases)@[i].h == values@[i + 1].h,
        forall|i: int|
            0 <= i < nb_layers - 1 ==> (#[trigger] deltas@[i]).wf() && deltas@[i].w == 1
                && deltas@[i].h == values@[i + 1].h,
        accepts_pairs(mul_fn),
        accepts_pairs(sub_fn),
        accepts_triples(upd_fn),
    ensures
        final(weights)@.len() == nb_layers - 1,
        final(biases)@.len() == nb_layers - 1,
        forall|l: int|
            0 <= l < nb_layers - 1 ==> (#[trigger] final(weights)@[l]).wf() && final(weights)@[l].w
                == old(weights)@[l].w && final(weights)@[l].h == old(weights)@[l].h,
        forall|l: int|
            0 <= l < nb_layers - 1 ==> (#[trigger] final(biases)@[l]).wf() && final(biases)@[l].w
                == old(biases)@[l].w && final(biases)@[l].h == old(biases)@[l].h,
        forall|l: int|
            0 <= l < nb_layers - 1 ==> bias_update_rel(
                mul_fn,
                sub_fn,
                learning_rate,
                old(biases)@[l],
                deltas@[l],
                (#[trigger] final(biases)@[l])@,
            ),
        forall|l: int|
            0 <= l < nb_layers - 1 ==> weight_update_rel(
                upd_fn,
                old(weights)@[l],
                values@[l],
                deltas@[l],
                (#[trigger] final(weights)@[l])@,
            ),
{
    let mut l: usize = 0;
    while l < nb_layers - 1
        invariant
            nb_layers >= 2,
            l <= nb_layers - 1,
            values@.len() == nb_layers,
            weights@.len() == nb_layers - 1,
            biases@.len() == nb_layers - 1,
            deltas@.len() == nb_layers - 1,
            forall|i: int| 0 <= i < nb_layers ==> (#[trigger] values@[i]).wf() && values@[i].w == 1,
            forall|i: int|
                0 <= i < nb_layers - 1 ==> (#[trigger] old(weights)@[i]).wf() && old(
                    weights,
                )@[i].w == values@[i].h && old(weights)@[i].h == values@[i + 1].h,
            forall|i: int|
                0 <= i < nb_layers - 1 ==> (#[trigger] old(biases)@[i]).wf() && old(biases)@[i].w
                    == 1 && old(biases)@[i].h == values@[i + 1].h,
            forall|i: int|
                0 <= i < nb_layers - 1 ==> (#[trigger] deltas@[i]).wf() && deltas@[i].w == 1
                    && deltas@[i].h == values@[i + 1].h,
            accepts_pairs(mul_fn),
            accepts_pairs(sub_fn),
            accepts_triples(upd_fn),
            forall|i: int| l <= i < nb_layers - 1 ==> #[trigger] weights@[i] == old(weights)@[i],
            forall|i: int| l <= i < nb_layers - 1 ==> #[trigger] biases@[i] == old(biases)@[i],
            forall|i: int|
                0 <= i < l ==> (#[trigger] weights@[i]).wf() && weights@[i].w == old(weights)@[i].w
                    && weights@[i].h == old(weights)@[i].h,
            forall|i: int|
                0 <= i < l ==> (#[trigger] biases@[i]).wf() && biases@[i].w == old(biases)@[i].w
                    && biases@[i].h == old(biases)@[i].h,
            forall|i: int|
                0 <= i < l ==> bias_update_rel(
                    mul_fn,
                    sub_fn,
                    learning_rate,
                    old(biases)@[i],
                    deltas@[i],
                    (#[trigger] biases@[i])@,
                ),
            forall|i: int|
                0 <= i < l ==> weight_update_rel(
                    upd_fn,
                    old(weights)@[i],
                    values@[i],
                    deltas@[i],
                    (#[trigger] weights@[i])@,
                ),
        decreases nb_layers - 1 - l,
    {
        let scaled = deltas[l].multiply(learning_rate, mul_fn);
        let new_bias = match biases[l].minus(&scaled, sub_fn) {
            Ok(m) => m,
            Err(_) => unreached(),
        };
        proof {
            assert(pointwise_scalar_rel(mul_fn, deltas@[l as int]@, learning_rate, scaled@));
        }
        biases[l] = new_bias;

        let rows = weights[l].h;
        let cols = weights[l].w;
        let ghost w_old = weights@[l as int];
        let mut new_vals: Vec<T> = Vec::new();
        let mut j: usize = 0;
        while j < rows
            invariant
                w_old == weights@[l as int],
                l < nb_layers - 1,
                weights@.len() == nb_layers - 1,
                values@.len() == nb_layers,
                deltas@.len() == nb_layers - 1,
                w_old.wf(),
                rows == w_old.h,
                cols == w_old.w,
                values@[l as int].wf() && values@[l as int].w == 1,
                deltas@[l as int].wf() && deltas@[l as int].w == 1,
                deltas@[l as int].h == w_old.h,
                values@[l as int].h == w_old.w,
                accepts_triples(upd_fn),
                j <= rows,
                new_vals@.len() == j * cols,
                forall|jj: int, kk: int|
                    0 <= jj < j && 0 <= kk < cols ==> call_ensures(
                        upd_fn,
                        (
                            w_old@[idx2(jj, kk, cols as int)],
                            values@[l as int]@[kk],
                            deltas@[l as int]@[jj],
                        ),
                        #[trigger] new_vals@[idx2(jj, kk, cols as int)],
                    ),
            decreases rows - j,
        {
            let mut k: usize = 0;
            while k < cols
                invariant
                    w_old == weights@[l as int],
                    l < nb_layers - 1,
                    weights@.len() == nb_layers - 1,
                    values@.len() == nb_layers,
                    deltas@.len() == nb_layers - 1,
                    w_old.wf(),
                    rows == w_old.h,
                    cols == w_old.w,
                    values@[l as int].wf() && values@[l as int].w == 1,
                    deltas@[l as int].wf() && deltas@[l as int].w == 1,
                    deltas@[l as int].h == w_old.h,
                    values@[l as int].h == w_old.w,
                    accepts_triples(upd_fn),
                    j < rows,
                    k <= cols,
                    new_vals@.len() == j * cols + k,
                    forall|jj: int, kk: int|
                        0 <= jj < j && 0 <= kk < cols ==> call_ensures(
                            upd_fn,
                            (
                                w_old@[idx2(jj, kk, cols as int)],
                                values@[l as int]@[kk],
                                deltas@[l as int]@[jj],
                            ),
                            #[trigger] new_vals@[idx2(jj, kk, cols as int)],
                        ),
                    forall|kk: int|
                        0 <= kk < k ==> call_ensures(
                            upd_fn,
                            (
                                w_old@[idx2(j as int, kk, cols as int)],
                                values@[l as int]@[kk],
                                deltas@[l as int]@[j as int],
                            ),
                            #[trigger] new_vals@[idx2(j as int, kk, cols as int)],
                        ),
                decreases cols - k,
            {
                proof {
                    lemma_idx2_in_range(j as int, k as int, rows as int, cols as int);
                    vstd::arithmetic::mul::lemma_mul_is_commutative(rows as int, cols as int);
                    assert forall|jj: int, kk: int|
                        0 <= jj < j && 0 <= kk < cols implies idx2(jj, kk, cols as int) < j
                        * cols by {
                        lemma_idx2_in_range(jj, kk, j as int, cols as int);
                    }
                }
                let a = match values[l].get(k) {
                    Ok(v) => v,
                    Err(_) => unreached(),
                };
                let d = match deltas[l].get(j) {
                    Ok(v) => v,
                    Err(_) => unreached(),
                };
                let wv = match weights[l].get_at(j, k) {
                    Ok(v) => v,
                    Err(_) => unreached(),
                };
                new_vals.push(upd_fn(wv, a, d));
                k += 1;
            }
            j += 1;
            proof {
                assert(j * cols == (j - 1) * cols + cols) by (nonlinear_arith);
            }
        }
        proof {
            vstd::arithmetic::mul::lemma_mul_is_commutative(rows as int, cols as int);
        }
        let new_w = Matrix {
            w: cols,
            h: rows,
            length: weights[l].length,
            values: new_vals,
        };
        weights[l] = new_w;
        l += 1;
    }
}

} // verus!
