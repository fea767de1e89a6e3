//! A dense feed-forward network: per-layer weights, biases and activation
//! selectors, with the forward pass, backpropagation and weight update.

use crate::activations::{ActivationOps, DenseActivation, DerivativeOps};
use crate::combine::{accepts_pairs, accepts_triples};
use crate::losses::Loss;
use crate::matrix::{Matrix, MatrixError};
use crate::network_operations::{
    back_propagation_generics, backward_layer_rel, bias_update_rel, compute_output_delta_generics,
    feed_forward_generics, forward_layer_rel, layers_wf, output_delta_rel, update_weights_generics,
    weight_update_rel,
};
use crate::shapes::DenseShape;
use vstd::prelude::*;

verus! {

/// The number of scalar parameters (weight coefficients, then bias entries,
/// layer by layer) that stand before layer `i` in a network of the given
/// shape list.
pub open spec fn params_before(shape: Seq<DenseShape>, i: int) -> int
    decreases i,
{
    if i <= 0 {
        0
    } else {
        params_before(shape, i - 1) + shape[i - 1].range * shape[i].range + shape[i].range
    }
}

/// The parameter count never shrinks as layers are added.
proof fn lemma_params_before_monotone(shape: Seq<DenseShape>, a: int, b: int)
    requires
        0 <= a <= b < shape.len(),
    ensures
        params_before(shape, a) <= params_before(shape, b),
    decreases b - a,
{
    if a < b {
        lemma_params_before_monotone(shape, a, b - 1);
        assert(shape[b - 1].range * shape[b].range >= 0) by (nonlinear_arith);
    }
}

/// The inputs from which a network can be built: at least two layers, one
/// activation per non-input layer, and exactly one initial value per weight
/// coefficient and bias entry.
pub open spec fn new_ok(
    activations: Seq<DenseActivation>,
    shape: Seq<DenseShape>,
    init_len: int,
) -> bool {
    &&& shape.len() >= 2
    &&& activations.len() == shape.len() - 1
    &&& init_len == params_before(shape, shape.len() - 1)
}

/// A dense feed-forward network. `values` and `raw_values` hold the
/// activated and pre-activation column of every layer from the last forward
/// pass; `epsilon` is the numerical-stability constant handed to every
/// activation application.
#[derive(Clone, Debug)]
pub struct DenseNetwork<T> {
    pub nb_layers: usize,
    pub loss: Loss,
    pub activations: Vec<DenseActivation>,
    pub weights: Vec<Matrix<T>>,
    pub biases: Vec<Matrix<T>>,
    pub raw_values: Vec<Matrix<T>>,
    pub values: Vec<Matrix<T>>,
    pub epsilon: T,
}

impl<T: Copy> DenseNetwork<T> {
    /// The layer buffers agree in number and shape, with one activation
    /// selector per non-input layer.
    pub open spec fn wf(self) -> bool {
        &&& layers_wf(
            self.values@,
            self.raw_values@,
            self.weights@,
            self.biases@,
            self.nb_layers as int,
        )
        &&& self.activations@.len() == self.nb_layers - 1
    }

    /// The flattened unit count of layer `i`.
    pub open spec fn layer_size(self, i: int) -> int {
        self.values@[i].h as int
    }

    /// Builds a network of the given shape: one weight matrix and one bias
    /// column per non-input layer, their entries drawn in order from
    /// `init`, and zeroed value buffers. Rejected unless the activation
    /// count and the initial-value count match the shape list exactly.
    pub fn new(
        activations: Vec<DenseActivation>,
        loss: Loss,
        shape: Vec<DenseShape>,
        epsilon: T,
        zero: T,
        init: Vec<T>,
    ) -> (r: Result<DenseNetwork<T>, MatrixError>)
        ensures
            r is Ok <==> new_ok(activations@, shape@, init@.len() as int),
            r matches Ok(net) ==> {
                &&& net.wf()
                &&& net.nb_layers == shape@.len()
                &&& net.loss == loss
                &&& net.activations@ == activations@
                &&& net.epsilon == epsilon
                &&& forall|i: int| 0 <= i < shape@.len() ==> net.layer_size(i) == shape@[i].range
                &&& forall|i: int, x: int|
                    0 <= i < shape@.len() && 0 <= x < net.values@[i]@.len() ==> (
                    #[trigger] net.values@[i]@[x]) == zero
                &&& forall|i: int, x: int|
                    0 <= i < shape@.len() && 0 <= x < net.raw_values@[i]@.len() ==> (
                    #[trigger] net.raw_values@[i]@[x]) == zero
                &&& forall|i: int|
                    0 <= i < shape@.len() - 1 ==> (#[trigger] net.weights@[i])@ == init@.subrange(
                        params_before(shape@, i),
                        params_before(shape@, i) + shape@[i].range * shape@[i + 1].range,
                    )
                &&& forall|i: int|
                    0 <= i < shape@.len() - 1 ==> (#[trigger] net.biases@[i])@ == init@.subrange(
                        params_before(shape@, i) + shape@[i].range * shape@[i + 1].range,
                        params_before(shape@, i + 1),
                    )
            },
            r matches Err(e) ==> e == MatrixError::ShapeMismatch,
    {
        let nb_layers = shape.len();
        if nb_layers < 2 || activations.len() != nb_layers - 1 {
            return Err(MatrixError::ShapeMismatch);
        }
        let mut values: Vec<Matrix<T>> = Vec::new();
        let mut raw_values: Vec<Matrix<T>> = Vec::new();
        let mut i: usize = 0;
        while i < nb_layers
            invariant
                nb_layers == shape@.len(),
                i <= nb_layers,
                values@.len() == i,
                raw_values@.len() == i,
                forall|j: int|
                    0 <= j < i ==> (#[trigger] values@[j]).wf() && values@[j].w == 1 && values@[j].h
                        == shape@[j].range && values@[j]@.len() == shape@[j].range,
                forall|j: int|
                    0 <= j < i ==> (#[trigger] raw_values@[j]).wf() && raw_values@[j].w == 1
                        && raw_values@[j].h == shape@[j].range && raw_values@[j]@.len()
                        == shape@[j].range,
                forall|j: int, x: int|
                    0 <= j < i && 0 <= x < values@[j]@.len() ==> (#[trigger] values@[j]@[x])
                        == zero,
                forall|j: int, x: int|
                    0 <= j < i && 0 <= x < raw_values@[j]@.len() ==> (#[trigger] raw_values@[j]@[x])
                        == zero,
            decreases nb_layers - i,
        {
            let range = shape[i].range;
            proof {
                assert(1 * range == range);
            }
            values.push(Matrix::new(1, range, zero));
            raw_values.push(Matrix::new(1, range, zero));
            i += 1;
        }

        let mut weights: Vec<Matrix<T>> = Vec::new();
        let mut biases: Vec<Matrix<T>> = Vec::new();
        let mut pos: usize = 0;
        let init_len = init.len();
        let mut l: usize = 0;
        while l < nb_layers - 1
            invariant
                nb_layers == shape@.len(),
                nb_layers >= 2,
                l <= nb_layers - 1,
                init_len == init@.len(),
                pos <= init_len,
                pos == params_before(shape@, l as int),
                weights@.len() == l,
                biases@.len() == l,
                forall|j: int|
                    0 <= j < l ==> (#[trigger] weights@[j]).wf() && weights@[j].w == shape@[j].range
                        && weights@[j].h == shape@[j + 1].range,
                forall|j: int|
                    0 <= j < l ==> (#[trigger] biases@[j]).wf() && biases@[j].w == 1
                        && biases@[j].h == shape@[j + 1].range,
                forall|j: int|
                    0 <= j < l ==> (#[trigger] weights@[j])@ == init@.subrange(
                        params_before(shape@, j),
                        params_before(shape@, j) + shape@[j].range * shape@[j + 1].range,
                    ),
                forall|j: int|
                    0 <= j < l ==> (#[trigger] biases@[j])@ == init@.subrange(
                        params_before(shape@, j) + shape@[j].range * shape@[j + 1].range,
                        params_before(shape@, j + 1),
                    ),
            decreases nb_layers - 1 - l,
        {
            let w_in = shape[l].range;
            let w_out = shape[l + 1].range;
            let wcnt = match w_in.checked_mul(w_out) {
                Some(c) => c,
                None => {
                    proof {
                        lemma_params_before_monotone(shape@, l + 1 as int, nb_layers - 1 as int);
                        assert(params_before(shape@, l + 1 as int) > usize::MAX);
                    }
                    return Err(MatrixError::ShapeMismatch);
                },
            };
            if wcnt > init_len - pos || w_out > init_len - pos - wcnt {
                proof {
                    lemma_params_before_monotone(shape@, l + 1 as int, nb_layers - 1 as int);
                }
                return Err(MatrixError::ShapeMismatch);
            }
            let mut wvals: Vec<T> = Vec::new();
            let mut t: usize = 0;
            while t < wcnt
                invariant
                    t <= wcnt,
                    pos + wcnt <= init_len,
                    init_len == init@.len(),
                    wvals@.len() == t,
                    forall|u: int| 0 <= u < t ==> wvals@[u] == init@[pos + u],
                decreases wcnt - t,
            {
                wvals.push(init[pos + t]);
                t += 1;
            }
            proof {
                assert(wvals@ =~= init@.subrange(pos as int, pos + wcnt as int));
            }
            weights.push(Matrix { w: w_in, h: w_out, length: wcnt, values: wvals });

            let mut bvals: Vec<T> = Vec::new();
            let mut t2: usize = 0;
            while t2 < w_out
                invariant
                    t2 <= w_out,
                    pos + wcnt + w_out <= init_len,
                    init_len == init@.len(),
                    bvals@.len() == t2,
                    forall|u: int| 0 <= u < t2 ==> bvals@[u] == init@[pos + wcnt + u],
                decreases w_out - t2,
            {
                bvals.push(init[pos + wcnt + t2]);
                t2 += 1;
            }
            proof {
                assert(bvals@ =~= init@.subrange(pos + wcnt as int, pos + wcnt + w_out as int));
                assert(1 * w_out == w_out);
            }
            biases.push(Matrix { w: 1, h: w_out, length: w_out, values: bvals });
            pos = pos + wcnt + w_out;
            l += 1;
        }
        if pos != init_len {
            proof {
                assert(params_before(shape@, nb_layers - 1 as int) != init@.len());
            }
            return Err(MatrixError::ShapeMismatch);
        }
        Ok(
            DenseNetwork {
                nb_layers,
                loss,
                activations,
                weights,
                biases,
                raw_values,
                values,
                epsilon,
            },
        )
    }

    /// The delta of the output layer for a training target: the loss
    /// differential of the current prediction against `output`, entrywise
    /// times the activation derivative of the raw output values. A target
    /// whose shape differs from the output layer is rejected.
    pub fn compute_output_delta<
        FSub: Fn(T, T) -> T + Copy,
        FH: Fn(T, T) -> T + Copy,
        FS: Fn(T, T) -> T + Copy,
        FR: Fn(T, T) -> T + Copy,
        FL: Fn(T, T) -> T + Copy,
        FT: Fn(T, T) -> T + Copy,
        FE: Fn(T) -> T + Copy,
        FA: Fn(T, T) -> T + Copy,
        FM: Fn(T, T) -> T + Copy,
        FD: Fn(T, T, T) -> T + Copy,
    >(
        &self,
        output: &Matrix<T>,
        dops: &DerivativeOps<T, FS, FR, FL, FT, FE, FA, FM, FD>,
        sub_fn: FSub,
        hmul: FH,
    ) -> (r: Result<Matrix<T>, MatrixError>)
        requires
            self.wf(),
            output.wf(),
            dops.wf(),
            accepts_pairs(sub_fn),
            accepts_pairs(hmul),
        ensures
            r is Ok <==> (output.w == 1 && output.h == self.layer_size(self.nb_layers - 1)),
            r matches Ok(m) ==> m.wf() && m.w == 1 && m.h == self.layer_size(self.nb_layers - 1)
                && output_delta_rel(
                self.activations@[self.nb_layers - 2],
                self.values@[self.nb_layers - 1]@,
                self.raw_values@[self.nb_layers - 1]@,
                output@,
                self.epsilon,
                *dops,
                sub_fn,
                hmul,
                m@,
            ),
            r matches Err(e) ==> e == MatrixError::ShapeMismatch,
    {
        let last = self.values.len() - 1;
        compute_output_delta_generics(
            &self.activations[last - 1],
            &self.values[last],
            &self.raw_values[last],
            &self.loss,
            output,
            self.epsilon,
            dops,
            sub_fn,
            hmul,
        )
    }

    /// The forward pass: stores the input as layer 0 and, layer by layer,
    /// computes the weighted sum plus bias and its activation. An input that
    /// is not a column of the declared input size changes nothing.
    pub fn feed_forward<
        FM: Fn(T, T) -> T + Copy + Send + Sync,
        FS: Fn(T, T) -> T + Copy,
        FR: Fn(T, T) -> T + Copy,
        FL: Fn(T, T) -> T + Copy,
        FT: Fn(T, T) -> T + Copy,
        FE: Fn(T) -> T + Copy,
        FA: Fn(T, T) -> T + Copy + Send + Sync,
        FD: Fn(T, T, T) -> T + Copy,
    >(
        &mut self,
        input: &Matrix<T>,
        multithreaded: bool,
        fm: FM,
        ops: &ActivationOps<T, FS, FR, FL, FT, FE, FA, FD>,
    ) where T: Send + Sync
        requires
            old(self).wf(),
            input.wf(),
            ops.wf(),
            accepts_pairs(fm),
        ensures
            final(self).wf(),
            (input.h != old(self).layer_size(0) || input.w != 1) ==> *final(self) == *old(self),
            (input.h == old(self).layer_size(0) && input.w == 1) ==> {
                &&& final(self).nb_layers == old(self).nb_layers
                &&& final(self).loss == old(self).loss
                &&& final(self).activations == old(self).activations
                &&& final(self).weights == old(self).weights
                &&& final(self).biases == old(self).biases
                &&& final(self).epsilon == old(self).epsilon
                &&& forall|i: int|
                    0 <= i < final(self).nb_layers ==> final(self).layer_size(i) == old(
                        self,
                    ).layer_size(i)
                &&& final(self).values@[0]@ == input@
                &&& final(self).raw_values@[0]@ == input@
                &&& forall|i: int|
                    0 <= i < final(self).nb_layers - 1 ==> forward_layer_rel(
                        final(self).weights@[i],
                        #[trigger] final(self).values@[i],
                        final(self).biases@[i],
                        final(self).activations@[i],
                        final(self).epsilon,
                        *ops,
                        fm,
                        final(self).raw_values@[i + 1]@,
                        final(self).values@[i + 1]@,
                    )
            },
    {
        let in_size = self.values[0].h;
        if input.h != in_size || input.w != 1 {
            return ;
        }
        self.values[0] = input.duplicate();
        self.raw_values[0] = input.duplicate();
        feed_forward_generics(
            &mut self.values,
            &mut self.raw_values,
            &self.activations,
            &self.weights,
            &self.biases,
            self.nb_layers,
            self.epsilon,
            multithreaded,
            fm,
            ops,
        );
    }

    /// Backpropagation from a given output delta: one delta per non-input
    /// layer, in layer order, each hidden delta derived from the next
    /// layer's delta through the transposed weights and the activation
    /// derivative.
    pub fn feed_backward<
        FAdd: Fn(T, T) -> T + Copy + Send + Sync,
        FMul: Fn(T, T) -> T + Copy + Send + Sync,
        FH: Fn(T, T) -> T + Copy,
        FS: Fn(T, T) -> T + Copy,
        FR: Fn(T, T) -> T + Copy,
        FL: Fn(T, T) -> T + Copy,
        FT: Fn(T, T) -> T + Copy,
        FE: Fn(T) -> T + Copy,
        FA2: Fn(T, T) -> T + Copy,
        FM2: Fn(T, T) -> T + Copy,
        FD: Fn(T, T, T) -> T + Copy,
    >(
        &self,
        output_delta: Matrix<T>,
        multithreaded: bool,
        zero: T,
        fa: FAdd,
        fm: FMul,
        hmul: FH,
        dops: &DerivativeOps<T, FS, FR, FL, FT, FE, FA2, FM2, FD>,
    ) -> (deltas: Vec<Matrix<T>>) where T: Send + Sync
        requires
            self.wf(),
            output_delta.wf(),
            output_delta.w == 1,
            output_delta.h == self.layer_size(self.nb_layers - 1),
            dops.wf(),
            accepts_pairs(fa),
            accepts_pairs(fm),
            accepts_pairs(hmul),
        ensures
            deltas@.len() == self.nb_layers - 1,
            forall|l: int|
                0 <= l < self.nb_layers - 1 ==> (#[trigger] deltas@[l]).wf() && deltas@[l].w == 1
                    && deltas@[l].h == self.layer_size(l + 1),
            deltas@[self.nb_layers - 2] == output_delta,
            forall|l: int|
                1 <= l < self.nb_layers - 1 ==> backward_layer_rel(
                    self.weights@[l],
                    self.raw_values@[l],
                    self.activations@[l - 1],
                    self.epsilon,
                    *dops,
                    fa,
                    fm,
                    hmul,
                    zero,
                    #[trigger] deltas@[l],
                    deltas@[l - 1]@,
                ),
    {
        let mut deltas: Vec<Matrix<T>> = Vec::new();
        deltas.push(output_delta);
        back_propagation_generics(
            &mut deltas,
            &self.activations,
            &self.raw_values,
            &self.weights,
            self.nb_layers,
            self.epsilon,
            multithreaded,
            zero,
            fa,
            fm,
            hmul,
            dops,
        );
        deltas
    }

    /// The weight update: each bias moves against its scaled delta and each
    /// weight coefficient against the product of its input activation and
    /// its output delta, through the caller's operations. The delta list
    /// must be complete before any weight moves.
    pub fn update_weights<
        FMul: Fn(T, T) -> T + Copy,
        FSub: Fn(T, T) -> T + Copy,
        FU: Fn(T, T, T) -> T + Copy,
    >(
        &mut self,
        deltas: Vec<Matrix<T>>,
        learning_rate: T,
        mul_fn: FMul,
        sub_fn: FSub,
        upd_fn: FU,
    )
        requires
            old(self).wf(),
            deltas@.len() == old(self).nb_layers - 1,
            forall|i: int|
                0 <= i < deltas@.len() ==> (#[trigger] deltas@[i]).wf() && deltas@[i].w == 1
                    && deltas@[i].h == old(self).layer_size(i + 1),
            accepts_pairs(mul_fn),
            accepts_pairs(sub_fn),
            accepts_triples(upd_fn),
        ensures
            final(self).wf(),
            final(self).nb_layers == old(self).nb_layers,
            final(self).loss == old(self).loss,
            final(self).activations == old(self).activations,
            final(self).values == old(self).values,
            final(self).raw_values == old(self).raw_values,
            final(self).epsilon == old(self).epsilon,
            forall|l: int|
                0 <= l < old(self).nb_layers - 1 ==> bias_update_rel(
                    mul_fn,
                    sub_fn,
                    learning_rate,
                    old(self).biases@[l],
                    deltas@[l],
                    (#[trigger] final(self).biases@[l])@,
                ),
            forall|l: int|
                0 <= l < old(self).nb_layers - 1 ==> weight_update_rel(
                    upd_fn,
                    old(self).weights@[l],
                    old(self).values@[l],
                    deltas@[l],
                    (#[trigger] final(self).weights@[l])@,
                ),
    {
        update_weights_generics(
            deltas,
            learning_rate,
            &self.values,
            &mut self.weights,
            &mut self.biases,
            self.nb_layers,
            mul_fn,
            sub_fn,
            upd_fn,
        );
    }

    /// Weight matrices and bias columns that fit a shape list: one of each
    /// per non-input layer, the weight matrix taking layer `i` to layer
    /// `i + 1`, the bias a column of layer `i + 1`.
    pub open spec fn parts_ok(
        ranges: Seq<usize>,
        acts: Seq<DenseActivation>,
        ws: Seq<Matrix<T>>,
        bs: Seq<Matrix<T>>,
    ) -> bool {
        &&& ranges.len() >= 2
        &&& acts.len() == ranges.len() - 1
        &&& ws.len() == ranges.len() - 1
        &&& bs.len() == ranges.len() - 1
        &&& forall|i: int|
            0 <= i < ranges.len() - 1 ==> (#[trigger] ws[i]).wf() && ws[i].w == ranges[i]
                && ws[i].h == ranges[i + 1] && bs[i].wf() && bs[i].w == 1 && bs[i].h == ranges[i
                + 1]
    }

    /// Rebuilds a network from its saved parts: the given weight matrices
    /// and bias columns are adopted as they are, the value buffers zeroed.
    /// Rejected exactly when the parts do not fit the shape list.
    pub fn from_parts(
        ranges: &Vec<usize>,
        activations: Vec<DenseActivation>,
        loss: Loss,
        epsilon: T,
        zero: T,
        weights: Vec<Matrix<T>>,
        biases: Vec<Matrix<T>>,
    ) -> (r: Result<DenseNetwork<T>, MatrixError>)
        ensures
            r is Ok <==> DenseNetwork::<T>::parts_ok(ranges@, activations@, weights@, biases@),
            r matches Ok(net) ==> {
                &&& net.wf()
                &&& net.nb_layers == ranges@.len()
                &&& net.loss == loss
                &&& net.activations@ == activations@
                &&& net.epsilon == epsilon
                &&& net.weights@ == weights@
                &&& net.biases@ == biases@
                &&& forall|i: int| 0 <= i < ranges@.len() ==> net.layer_size(i) == ranges@[i]
                &&& forall|i: int, x: int|
                    0 <= i < ranges@.len() && 0 <= x < net.values@[i]@.len() ==> (
                    #[trigger] net.values@[i]@[x]) == zero
                &&& forall|i: int, x: int|
                    0 <= i < ranges@.len() && 0 <= x < net.raw_values@[i]@.len() ==> (
                    #[trigger] net.raw_values@[i]@[x]) == zero
            },
            r matches Err(e) ==> e == MatrixError::ShapeMismatch,
    {
        let nb_layers = ranges.len();
        if nb_layers < 2 || activations.len() != nb_layers - 1 || weights.len() != nb_layers - 1
            || biases.len() != nb_layers - 1 {
            return Err(MatrixError::ShapeMismatch);
        }
        let mut i: usize = 0;
        while i < nb_layers - 1
            invariant
                nb_layers == ranges@.len(),
                nb_layers >= 2,
                weights@.len() == nb_layers - 1,
                biases@.len() == nb_layers - 1,
                i <= nb_layers - 1,
                forall|j: int|
                    0 <= j < i ==> (#[trigger] weights@[j]).wf() && weights@[j].w == ranges@[j]
                        && weights@[j].h == ranges@[j + 1],
                forall|j: int|
                    0 <= j < i ==> (#[trigger] biases@[j]).wf() && biases@[j].w == 1
                        && biases@[j].h == ranges@[j + 1],
            decreases nb_layers - 1 - i,
        {
            let w_len_ok = match weights[i].w.checked_mul(weights[i].h) {
                Some(e) => weights[i].length == e,
                None => false,
            };
            let w_ok = weights[i].w == ranges[i] && weights[i].h == ranges[i + 1] && w_len_ok
                && weights[i].values.len() == weights[i].length;
            let b_len_ok = match biases[i].w.checked_mul(biases[i].h) {
                Some(e) => biases[i].length == e,
                None => false,
            };
            let b_ok = biases[i].w == 1 && biases[i].h == ranges[i + 1] && b_len_ok
                && biases[i].values.len() == biases[i].length;
            if !w_ok || !b_ok {
                return Err(MatrixError::ShapeMismatch);
            }
            proof {
                assert(weights@[i as int].wf());
                assert(biases@[i as int].wf());
                assert(weights@[i as int].w == ranges@[i as int] && weights@[i as int].h
                    == ranges@[i + 1 as int]);
                assert(biases@[i as int].w == 1 && biases@[i as int].h == ranges@[i + 1 as int]);
            }
            i += 1;
        }
        let mut values: Vec<Matrix<T>> = Vec::new();
        let mut raw_values: Vec<Matrix<T>> = Vec::new();
        let mut j: usize = 0;
        while j < nb_layers
            invariant
                nb_layers == ranges@.len(),
                j <= nb_layers,
                values@.len() == j,
                raw_values@.len() == j,
                forall|k: int|
                    0 <= k < j ==> (#[trigger] values@[k]).wf() && values@[k].w == 1
                        && values@[k].h == ranges@[k] && values@[k]@.len() == ranges@[k],
                forall|k: int|
                    0 <= k < j ==> (#[trigger] raw_values@[k]).wf() && raw_values@[k].w == 1
                        && raw_values@[k].h == ranges@[k] && raw_values@[k]@.len() == ranges@[k],
                forall|k: int, x: int|
                    0 <= k < j && 0 <= x < values@[k]@.len() ==> (#[trigger] values@[k]@[x])
                        == zero,
                forall|k: int, x: int|
                    0 <= k < j && 0 <= x < raw_values@[k]@.len() ==> (
                    #[trigger] raw_values@[k]@[x]) == zero,
            decreases nb_layers - j,
        {
            let range = ranges[j];
            proof {
                assert(1 * range == range);
            }
            values.push(Matrix::new(1, range, zero));
            raw_values.push(Matrix::new(1, range, zero));
            j += 1;
        }
        proof {
            assert forall|jj: int| 0 <= jj < nb_layers - 1 implies (#[trigger] weights@[jj]).wf()
                && weights@[jj].w == values@[jj].h && weights@[jj].h == values@[jj + 1].h by {
                assert(weights@[jj].w == ranges@[jj] && weights@[jj].h == ranges@[jj + 1]);
                assert(values@[jj].h == ranges@[jj] && values@[jj + 1].h == ranges@[jj + 1]);
            }
            assert forall|jj: int| 0 <= jj < nb_layers - 1 implies (#[trigger] biases@[jj]).wf()
                && biases@[jj].w == 1 && biases@[jj].h == values@[jj + 1].h by {
                assert(weights@[jj].wf());
                assert(biases@[jj].h == ranges@[jj + 1]);
                assert(values@[jj + 1].h == ranges@[jj + 1]);
            }
            assert(layers_wf(values@, raw_values@, weights@, biases@, nb_layers as int));
        }
        Ok(
            DenseNetwork {
                nb_layers,
                loss,
                activations,
                weights,
                biases,
                raw_values,
                values,
                epsilon,
            },
        )
    }

    /// The network's current prediction: a copy of the last layer's values.
    pub fn value(&self) -> (m: Matrix<T>)
        requires
            self.wf(),
        ensures
            m.wf(),
            m.w == 1,
            m.h == self.layer_size(self.nb_layers - 1),
            m@ == self.values@[self.nb_layers - 1]@,
    {
        self.values[self.nb_layers - 1].duplicate()
    }

    /// The shape of the output layer's buffer, width then height.
    pub fn output_shape(&self) -> (r: (usize, usize))
        requires
            self.wf(),
        ensures
            r.0 == self.values@[self.nb_layers - 1].w,
            r.1 == self.values@[self.nb_layers - 1].h,
    {
        let last = self.values.len() - 1;
        (self.values[last].w, self.values[last].h)
    }
}

} // verus!
