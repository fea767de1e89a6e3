//! A training session: a network, a training set and a held-out test set.
//!
//! Each epoch shuffles the training set and drives the network's
//! forward/backward/update cycle, online (every example) or in mini-batches
//! (deltas accumulated, averaged, then applied); the mean epoch error is
//! held against an optional stopping threshold. Testing runs one forward
//! pass per example and accumulates the loss without touching a weight.

use crate::activations::{ActivationOps, DerivativeOps};
use crate::combine::{accepts_pairs, accepts_triples, pointwise_rel};
use crate::dense_network::DenseNetwork;
use crate::losses::{error_rel, LossOps};
use crate::matrix::Matrix;
use crate::network_operations::{
    backward_layer_rel, bias_update_rel, forward_layer_rel, output_delta_rel, weight_update_rel,
};
use rand::seq::SliceRandom;
use vstd::pervasive::unreached;
use vstd::prelude::*;

verus! {

/// Relies on rand's `SliceRandom::shuffle` with `thread_rng`: the vector is
/// permuted in place, so the multiset of its elements is unchanged.
#[verifier::external_body]
fn shuffle_in_place<A>(v: &mut Vec<A>)
    ensures
        final(v)@.to_multiset() == old(v)@.to_multiset(),
{
    v.shuffle(&mut rand::thread_rng());
}

/// Two sequences with equal multisets have equal length, and every element
/// of one stands somewhere in the other.
proof fn lemma_permutation_members<A>(a: Seq<A>, b: Seq<A>)
    requires
        a.to_multiset() == b.to_multiset(),
    ensures
        a.len() == b.len(),
        forall|i: int| 0 <= i < b.len() ==> a.contains(#[trigger] b[i]),
{
    a.to_multiset_ensures();
    b.to_multiset_ensures();
    assert forall|i: int| 0 <= i < b.len() implies a.contains(#[trigger] b[i]) by {
        assert(b.to_multiset().contains(b[i]));
    }
}

/// A training or testing pair fits the network: a column input of the input
/// layer's size and a column target of the output layer's size.
pub open spec fn pair_ok<T: Copy>(p: (Matrix<T>, Matrix<T>), in_size: int, out_size: int) -> bool {
    &&& p.0.wf()
    &&& p.0.w == 1
    &&& p.0.h == in_size
    &&& p.1.wf()
    &&& p.1.w == 1
    &&& p.1.h == out_size
}

/// Every scalar operation a training session needs, bundled: the activation
/// and derivative operations, the loss operations, the dot-product multiply,
/// the loss differential's subtraction, the entrywise (Hadamard) multiply,
/// the delta scaling, the weight update, the mean of an error sum over an
/// example count, and the strict comparison against the threshold.
///
/// The session's `learning_rate` reaches the bias update as the scalar that
/// `mul_fn` scales each delta by; `upd_fn`, the per-coefficient weight
/// update of a weight, its input activation and its output delta, must
/// carry the same rate itself.
pub struct SessionOps<
    T,
    FM,
    FS,
    FR,
    FL,
    FT,
    FE,
    FA,
    FD,
    DS,
    DR,
    DL,
    DT,
    DE,
    DA,
    DM,
    DD,
    LS,
    LM,
    LA,
    LH,
    LC,
    LX,
    FSub,
    FH,
    FMul,
    FU,
    FAvg,
    FB,
> {
    pub aops: ActivationOps<T, FS, FR, FL, FT, FE, FA, FD>,
    pub dops: DerivativeOps<T, DS, DR, DL, DT, DE, DA, DM, DD>,
    pub lops: LossOps<T, LS, LM, LA, LH, LC, LX>,
    pub fm: FM,
    pub sub_fn: FSub,
    pub hmul: FH,
    pub mul_fn: FMul,
    pub upd_fn: FU,
    pub avg_fn: FAvg,
    pub below_fn: FB,
}

impl<
    T,
    FM: Fn(T, T) -> T,
    FS: Fn(T, T) -> T,
    FR: Fn(T, T) -> T,
    FL: Fn(T, T) -> T,
    FT: Fn(T, T) -> T,
    FE: Fn(T) -> T,
    FA: Fn(T, T) -> T,
    FD: Fn(T, T, T) -> T,
    DS: Fn(T, T) -> T,
    DR: Fn(T, T) -> T,
    DL: Fn(T, T) -> T,
    DT: Fn(T, T) -> T,
    DE: Fn(T) -> T,
    DA: Fn(T, T) -> T,
    DM: Fn(T, T) -> T,
    DD: Fn(T, T, T) -> T,
    LS: Fn(T, T) -> T,
    LM: Fn(T, T) -> T,
    LA: Fn(T, T) -> T,
    LH: Fn(T) -> T,
    LC: Fn(T, T) -> T,
    LX: Fn(T, T) -> T,
    FSub: Fn(T, T) -> T,
    FH: Fn(T, T) -> T,
    FMul: Fn(T, T) -> T,
    FU: Fn(T, T, T) -> T,
    FAvg: Fn(T, usize) -> T,
    FB: Fn(T, T) -> bool,
> SessionOps<
    T,
    FM,
    FS,
    FR,
    FL,
    FT,
    FE,
    FA,
    FD,
    DS,
    DR,
    DL,
    DT,
    DE,
    DA,
    DM,
    DD,
    LS,
    LM,
    LA,
    LH,
    LC,
    LX,
    FSub,
    FH,
    FMul,
    FU,
    FAvg,
    FB,
> {
    /// Every operation accepts every input.
    pub open spec fn wf(self) -> bool {
        &&& self.aops.wf()
        &&& self.dops.wf()
        &&& self.lops.wf()
        &&& accepts_pairs(self.fm)
        &&& accepts_pairs(self.sub_fn)
        &&& accepts_pairs(self.hmul)
        &&& accepts_pairs(self.mul_fn)
        &&& accepts_triples(self.upd_fn)
        &&& forall|x: T, n: usize| #[trigger] call_requires(self.avg_fn, (x, n))
        &&& forall|x: T, y: T| #[trigger] call_requires(self.below_fn, (x, y))
    }
}


/// The network after one forward pass on `input`: architecture and
/// coefficients unchanged, layer 0 holding the input, and every following
/// layer meeting the forward step relation.
pub open spec fn forward_pass_rel<
    T: Copy,
    FM: Fn(T, T) -> T,
    FS: Fn(T, T) -> T,
    FR: Fn(T, T) -> T,
    FL: Fn(T, T) -> T,
    FT: Fn(T, T) -> T,
    FE: Fn(T) -> T,
    FA: Fn(T, T) -> T,
    FD: Fn(T, T, T) -> T,
    DS: Fn(T, T) -> T,
    DR: Fn(T, T) -> T,
    DL: Fn(T, T) -> T,
    DT: Fn(T, T) -> T,
    DE: Fn(T) -> T,
    DA: Fn(T, T) -> T,
    DM: Fn(T, T) -> T,
    DD: Fn(T, T, T) -> T,
    LS: Fn(T, T) -> T,
    LM: Fn(T, T) -> T,
    LA: Fn(T, T) -> T,
    LH: Fn(T) -> T,
    LC: Fn(T, T) -> T,
    LX: Fn(T, T) -> T,
    FSub: Fn(T, T) -> T,
    FH: Fn(T, T) -> T,
    FMul: Fn(T, T) -> T,
    FU: Fn(T, T, T) -> T,
    FAvg: Fn(T, usize) -> T,
    FB: Fn(T, T) -> bool,
>(ops: SessionOps<T, FM, FS, FR, FL, FT, FE, FA, FD, DS, DR, DL, DT, DE, DA, DM, DD, LS, LM, LA, LH, LC, LX, FSub, FH, FMul, FU, FAvg, FB>, net1: DenseNetwork<T>, input: Seq<T>, net2: DenseNetwork<T>) -> bool {
    &&& net2.nb_layers == net1.nb_layers
    &&& net2.loss == net1.loss
    &&& net2.activations == net1.activations
    &&& net2.weights == net1.weights
    &&& net2.biases == net1.biases
    &&& net2.epsilon == net1.epsilon
    &&& forall|i: int|
        0 <= i < net2.nb_layers ==> #[trigger] net2.layer_size(i) == net1.layer_size(i)
    &&& net2.values@[0]@ == input
    &&& net2.raw_values@[0]@ == input
    &&& forall|i: int|
        0 <= i < net2.nb_layers - 1 ==> forward_layer_rel(
            net2.weights@[i],
            #[trigger] net2.values@[i],
            net2.biases@[i],
            net2.activations@[i],
            net2.epsilon,
            ops.aops,
            ops.fm,
            net2.raw_values@[i + 1]@,
            net2.values@[i + 1]@,
        )
}

/// One example's forward pass together with its products: the loss of the
/// prediction against the target and the output layer's delta.
pub open spec fn example_delta_rel<
    T: Copy,
    FM: Fn(T, T) -> T,
    FS: Fn(T, T) -> T,
    FR: Fn(T, T) -> T,
    FL: Fn(T, T) -> T,
    FT: Fn(T, T) -> T,
    FE: Fn(T) -> T,
    FA: Fn(T, T) -> T,
    FD: Fn(T, T, T) -> T,
    DS: Fn(T, T) -> T,
    DR: Fn(T, T) -> T,
    DL: Fn(T, T) -> T,
    DT: Fn(T, T) -> T,
    DE: Fn(T) -> T,
    DA: Fn(T, T) -> T,
    DM: Fn(T, T) -> T,
    DD: Fn(T, T, T) -> T,
    LS: Fn(T, T) -> T,
    LM: Fn(T, T) -> T,
    LA: Fn(T, T) -> T,
    LH: Fn(T) -> T,
    LC: Fn(T, T) -> T,
    LX: Fn(T, T) -> T,
    FSub: Fn(T, T) -> T,
    FH: Fn(T, T) -> T,
    FMul: Fn(T, T) -> T,
    FU: Fn(T, T, T) -> T,
    FAvg: Fn(T, usize) -> T,
    FB: Fn(T, T) -> bool,
>(
    ops: SessionOps<T, FM, FS, FR, FL, FT, FE, FA, FD, DS, DR, DL, DT, DE, DA, DM, DD, LS, LM, LA, LH, LC, LX, FSub, FH, FMul, FU, FAvg, FB>,
    net1: DenseNetwork<T>,
    pair: (Matrix<T>, Matrix<T>),
    net2: DenseNetwork<T>,
    delta: Matrix<T>,
    e: T,
) -> bool {
    &&& forward_pass_rel(ops, net1, pair.0@, net2)
    &&& error_rel(net2.loss, ops.lops, net2.values@[net2.nb_layers - 1]@, pair.1@, e)
    &&& delta.wf()
    &&& delta.w == 1
    &&& delta.h == net2.layer_size(net2.nb_layers - 1)
    &&& output_delta_rel(
        net2.activations@[net2.nb_layers - 2],
        net2.values@[net2.nb_layers - 1]@,
        net2.raw_values@[net2.nb_layers - 1]@,
        pair.1@,
        net2.epsilon,
        ops.dops,
        ops.sub_fn,
        ops.hmul,
        delta@,
    )
}

/// The delta list backpropagation produces from an output delta at the
/// network's current buffers.
pub open spec fn backward_list_rel<
    T: Copy,
    FM: Fn(T, T) -> T,
    FS: Fn(T, T) -> T,
    FR: Fn(T, T) -> T,
    FL: Fn(T, T) -> T,
    FT: Fn(T, T) -> T,
    FE: Fn(T) -> T,
    FA: Fn(T, T) -> T,
    FD: Fn(T, T, T) -> T,
    DS: Fn(T, T) -> T,
    DR: Fn(T, T) -> T,
    DL: Fn(T, T) -> T,
    DT: Fn(T, T) -> T,
    DE: Fn(T) -> T,
    DA: Fn(T, T) -> T,
    DM: Fn(T, T) -> T,
    DD: Fn(T, T, T) -> T,
    LS: Fn(T, T) -> T,
    LM: Fn(T, T) -> T,
    LA: Fn(T, T) -> T,
    LH: Fn(T) -> T,
    LC: Fn(T, T) -> T,
    LX: Fn(T, T) -> T,
    FSub: Fn(T, T) -> T,
    FH: Fn(T, T) -> T,
    FMul: Fn(T, T) -> T,
    FU: Fn(T, T, T) -> T,
    FAvg: Fn(T, usize) -> T,
    FB: Fn(T, T) -> bool,
>(ops: SessionOps<T, FM, FS, FR, FL, FT, FE, FA, FD, DS, DR, DL, DT, DE, DA, DM, DD, LS, LM, LA, LH, LC, LX, FSub, FH, FMul, FU, FAvg, FB>, net: DenseNetwork<T>, output_delta: Matrix<T>, deltas: Seq<Matrix<T>>) -> bool {
    &&& deltas.len() == net.nb_layers - 1
    &&& forall|l: int|
        0 <= l < net.nb_layers - 1 ==> (#[trigger] deltas[l]).wf() && deltas[l].w == 1
            && deltas[l].h == net.layer_size(l + 1)
    &&& deltas[net.nb_layers - 2] == output_delta
    &&& forall|l: int|
        1 <= l < net.nb_layers - 1 ==> backward_layer_rel(
            net.weights@[l],
            net.raw_values@[l],
            net.activations@[l - 1],
            net.epsilon,
            ops.dops,
            ops.aops.add_fn,
            ops.fm,
            ops.hmul,
            ops.aops.zero,
            #[trigger] deltas[l],
            deltas[l - 1]@,
        )
}

/// The network after one weight update with the given delta list: every
/// bias moved against its scaled delta, every weight coefficient against
/// the product of its input activation and its output delta.
pub open spec fn update_rel<
    T: Copy,
    FM: Fn(T, T) -> T,
    FS: Fn(T, T) -> T,
    FR: Fn(T, T) -> T,
    FL: Fn(T, T) -> T,
    FT: Fn(T, T) -> T,
    FE: Fn(T) -> T,
    FA: Fn(T, T) -> T,
    FD: Fn(T, T, T) -> T,
    DS: Fn(T, T) -> T,
    DR: Fn(T, T) -> T,
    DL: Fn(T, T) -> T,
    DT: Fn(T, T) -> T,
    DE: Fn(T) -> T,
    DA: Fn(T, T) -> T,
    DM: Fn(T, T) -> T,
    DD: Fn(T, T, T) -> T,
    LS: Fn(T, T) -> T,
    LM: Fn(T, T) -> T,
    LA: Fn(T, T) -> T,
    LH: Fn(T) -> T,
    LC: Fn(T, T) -> T,
    LX: Fn(T, T) -> T,
    FSub: Fn(T, T) -> T,
    FH: Fn(T, T) -> T,
    FMul: Fn(T, T) -> T,
    FU: Fn(T, T, T) -> T,
    FAvg: Fn(T, usize) -> T,
    FB: Fn(T, T) -> bool,
>(
    ops: SessionOps<T, FM, FS, FR, FL, FT, FE, FA, FD, DS, DR, DL, DT, DE, DA, DM, DD, LS, LM, LA, LH, LC, LX, FSub, FH, FMul, FU, FAvg, FB>,
    learning_rate: T,
    net1: DenseNetwork<T>,
    deltas: Seq<Matrix<T>>,
    net2: DenseNetwork<T>,
) -> bool {
    &&& net2.nb_layers == net1.nb_layers
    &&& net2.loss == net1.loss
    &&& net2.activations == net1.activations
    &&& net2.values == net1.values
    &&& net2.raw_values == net1.raw_values
    &&& net2.epsilon == net1.epsilon
    &&& forall|l: int|
        0 <= l < net1.nb_layers - 1 ==> bias_update_rel(
            ops.mul_fn,
            ops.sub_fn,
            learning_rate,
            net1.biases@[l],
            deltas[l],
            (#[trigger] net2.biases@[l])@,
        )
    &&& forall|l: int|
        0 <= l < net1.nb_layers - 1 ==> weight_update_rel(
            ops.upd_fn,
            net1.weights@[l],
            net1.values@[l],
            deltas[l],
            (#[trigger] net2.weights@[l])@,
        )
}

/// One online training step on one example: forward pass, its output delta
/// backpropagated, the weights updated exactly once.
pub open spec fn online_step_rel<
    T: Copy,
    FM: Fn(T, T) -> T,
    FS: Fn(T, T) -> T,
    FR: Fn(T, T) -> T,
    FL: Fn(T, T) -> T,
    FT: Fn(T, T) -> T,
    FE: Fn(T) -> T,
    FA: Fn(T, T) -> T,
    FD: Fn(T, T, T) -> T,
    DS: Fn(T, T) -> T,
    DR: Fn(T, T) -> T,
    DL: Fn(T, T) -> T,
    DT: Fn(T, T) -> T,
    DE: Fn(T) -> T,
    DA: Fn(T, T) -> T,
    DM: Fn(T, T) -> T,
    DD: Fn(T, T, T) -> T,
    LS: Fn(T, T) -> T,
    LM: Fn(T, T) -> T,
    LA: Fn(T, T) -> T,
    LH: Fn(T) -> T,
    LC: Fn(T, T) -> T,
    LX: Fn(T, T) -> T,
    FSub: Fn(T, T) -> T,
    FH: Fn(T, T) -> T,
    FMul: Fn(T, T) -> T,
    FU: Fn(T, T, T) -> T,
    FAvg: Fn(T, usize) -> T,
    FB: Fn(T, T) -> bool,
>(
    ops: SessionOps<T, FM, FS, FR, FL, FT, FE, FA, FD, DS, DR, DL, DT, DE, DA, DM, DD, LS, LM, LA, LH, LC, LX, FSub, FH, FMul, FU, FAvg, FB>,
    learning_rate: T,
    pair: (Matrix<T>, Matrix<T>),
    net1: DenseNetwork<T>,
    net2: DenseNetwork<T>,
    e: T,
) -> bool {
    exists|mid: DenseNetwork<T>, delta: Matrix<T>, deltas: Seq<Matrix<T>>|
        {
            &&& #[trigger] example_delta_rel(ops, net1, pair, mid, delta, e)
            &&& #[trigger] backward_list_rel(ops, mid, delta, deltas)
            &&& update_rel(ops, learning_rate, mid, deltas, net2)
        }
}

/// The first `upto` examples of an epoch trained online in order, the
/// per-example losses folded left into the epoch error.
pub open spec fn online_run_rel<
    T: Copy,
    FM: Fn(T, T) -> T,
    FS: Fn(T, T) -> T,
    FR: Fn(T, T) -> T,
    FL: Fn(T, T) -> T,
    FT: Fn(T, T) -> T,
    FE: Fn(T) -> T,
    FA: Fn(T, T) -> T,
    FD: Fn(T, T, T) -> T,
    DS: Fn(T, T) -> T,
    DR: Fn(T, T) -> T,
    DL: Fn(T, T) -> T,
    DT: Fn(T, T) -> T,
    DE: Fn(T) -> T,
    DA: Fn(T, T) -> T,
    DM: Fn(T, T) -> T,
    DD: Fn(T, T, T) -> T,
    LS: Fn(T, T) -> T,
    LM: Fn(T, T) -> T,
    LA: Fn(T, T) -> T,
    LH: Fn(T) -> T,
    LC: Fn(T, T) -> T,
    LX: Fn(T, T) -> T,
    FSub: Fn(T, T) -> T,
    FH: Fn(T, T) -> T,
    FMul: Fn(T, T) -> T,
    FU: Fn(T, T, T) -> T,
    FAvg: Fn(T, usize) -> T,
    FB: Fn(T, T) -> bool,
>(
    ops: SessionOps<T, FM, FS, FR, FL, FT, FE, FA, FD, DS, DR, DL, DT, DE, DA, DM, DD, LS, LM, LA, LH, LC, LX, FSub, FH, FMul, FU, FAvg, FB>,
    learning_rate: T,
    data: Seq<(Matrix<T>, Matrix<T>)>,
    upto: int,
    net1: DenseNetwork<T>,
    net2: DenseNetwork<T>,
    err: T,
) -> bool
    decreases upto,
{
    if upto <= 0 {
        net2 == net1 && err == ops.lops.zero
    } else {
        exists|mid: DenseNetwork<T>, e_prev: T, e: T|
            #![trigger online_step_rel(ops, learning_rate, data[upto - 1], mid, net2, e), call_ensures(ops.lops.add_fn, (e_prev, e), err)]
            {
                &&& online_run_rel(ops, learning_rate, data, upto - 1, net1, mid, e_prev)
                &&& online_step_rel(ops, learning_rate, data[upto - 1], mid, net2, e)
                &&& call_ensures(ops.lops.add_fn, (e_prev, e), err)
            }
    }
}

/// The stop check fired: the mean of the epoch error over the example count
/// undercuts the threshold.
pub open spec fn check_stop_rel<
    T: Copy,
    FM: Fn(T, T) -> T,
    FS: Fn(T, T) -> T,
    FR: Fn(T, T) -> T,
    FL: Fn(T, T) -> T,
    FT: Fn(T, T) -> T,
    FE: Fn(T) -> T,
    FA: Fn(T, T) -> T,
    FD: Fn(T, T, T) -> T,
    DS: Fn(T, T) -> T,
    DR: Fn(T, T) -> T,
    DL: Fn(T, T) -> T,
    DT: Fn(T, T) -> T,
    DE: Fn(T) -> T,
    DA: Fn(T, T) -> T,
    DM: Fn(T, T) -> T,
    DD: Fn(T, T, T) -> T,
    LS: Fn(T, T) -> T,
    LM: Fn(T, T) -> T,
    LA: Fn(T, T) -> T,
    LH: Fn(T) -> T,
    LC: Fn(T, T) -> T,
    LX: Fn(T, T) -> T,
    FSub: Fn(T, T) -> T,
    FH: Fn(T, T) -> T,
    FMul: Fn(T, T) -> T,
    FU: Fn(T, T, T) -> T,
    FAvg: Fn(T, usize) -> T,
    FB: Fn(T, T) -> bool,
>(ops: SessionOps<T, FM, FS, FR, FL, FT, FE, FA, FD, DS, DR, DL, DT, DE, DA, DM, DD, LS, LM, LA, LH, LC, LX, FSub, FH, FMul, FU, FAvg, FB>, threshold: T, err: T, n: usize) -> bool {
    exists|ratio: T|
        #[trigger] call_ensures(ops.avg_fn, (err, n), ratio) && call_ensures(
            ops.below_fn,
            (ratio, threshold),
            true,
        )
}

/// The epoch continued: when stopping is configured, the mean did not
/// undercut the threshold.
pub open spec fn check_continue_rel<
    T: Copy,
    FM: Fn(T, T) -> T,
    FS: Fn(T, T) -> T,
    FR: Fn(T, T) -> T,
    FL: Fn(T, T) -> T,
    FT: Fn(T, T) -> T,
    FE: Fn(T) -> T,
    FA: Fn(T, T) -> T,
    FD: Fn(T, T, T) -> T,
    DS: Fn(T, T) -> T,
    DR: Fn(T, T) -> T,
    DL: Fn(T, T) -> T,
    DT: Fn(T, T) -> T,
    DE: Fn(T) -> T,
    DA: Fn(T, T) -> T,
    DM: Fn(T, T) -> T,
    DD: Fn(T, T, T) -> T,
    LS: Fn(T, T) -> T,
    LM: Fn(T, T) -> T,
    LA: Fn(T, T) -> T,
    LH: Fn(T) -> T,
    LC: Fn(T, T) -> T,
    LX: Fn(T, T) -> T,
    FSub: Fn(T, T) -> T,
    FH: Fn(T, T) -> T,
    FMul: Fn(T, T) -> T,
    FU: Fn(T, T, T) -> T,
    FAvg: Fn(T, usize) -> T,
    FB: Fn(T, T) -> bool,
>(ops: SessionOps<T, FM, FS, FR, FL, FT, FE, FA, FD, DS, DR, DL, DT, DE, DA, DM, DD, LS, LM, LA, LH, LC, LX, FSub, FH, FMul, FU, FAvg, FB>, stop: bool, threshold: T, err: T, n: usize) -> bool {
    stop ==> exists|ratio: T|
        #[trigger] call_ensures(ops.avg_fn, (err, n), ratio) && call_ensures(
            ops.below_fn,
            (ratio, threshold),
            false,
        )
}

/// `k` full online epochs: each shuffles the training data, trains every
/// example once in the shuffled order, and passes the continuation check.
pub open spec fn online_epochs_rel<
    T: Copy,
    FM: Fn(T, T) -> T,
    FS: Fn(T, T) -> T,
    FR: Fn(T, T) -> T,
    FL: Fn(T, T) -> T,
    FT: Fn(T, T) -> T,
    FE: Fn(T) -> T,
    FA: Fn(T, T) -> T,
    FD: Fn(T, T, T) -> T,
    DS: Fn(T, T) -> T,
    DR: Fn(T, T) -> T,
    DL: Fn(T, T) -> T,
    DT: Fn(T, T) -> T,
    DE: Fn(T) -> T,
    DA: Fn(T, T) -> T,
    DM: Fn(T, T) -> T,
    DD: Fn(T, T, T) -> T,
    LS: Fn(T, T) -> T,
    LM: Fn(T, T) -> T,
    LA: Fn(T, T) -> T,
    LH: Fn(T) -> T,
    LC: Fn(T, T) -> T,
    LX: Fn(T, T) -> T,
    FSub: Fn(T, T) -> T,
    FH: Fn(T, T) -> T,
    FMul: Fn(T, T) -> T,
    FU: Fn(T, T, T) -> T,
    FAvg: Fn(T, usize) -> T,
    FB: Fn(T, T) -> bool,
>(
    ops: SessionOps<T, FM, FS, FR, FL, FT, FE, FA, FD, DS, DR, DL, DT, DE, DA, DM, DD, LS, LM, LA, LH, LC, LX, FSub, FH, FMul, FU, FAvg, FB>,
    learning_rate: T,
    stop: bool,
    threshold: T,
    k: int,
    net1: DenseNetwork<T>,
    data1: Seq<(Matrix<T>, Matrix<T>)>,
    net2: DenseNetwork<T>,
    data2: Seq<(Matrix<T>, Matrix<T>)>,
) -> bool
    decreases k,
{
    if k <= 0 {
        net2 == net1 && data2 == data1
    } else {
        exists|nm: DenseNetwork<T>, dm: Seq<(Matrix<T>, Matrix<T>)>, err: T|
            #![trigger online_run_rel(ops, learning_rate, data2, data2.len() as int, nm, net2, err), dm.to_multiset()]
            {
                &&& online_epochs_rel(
                    ops,
                    learning_rate,
                    stop,
                    threshold,
                    k - 1,
                    net1,
                    data1,
                    nm,
                    dm,
                )
                &&& data2.to_multiset() == dm.to_multiset()
                &&& online_run_rel(ops, learning_rate, data2, data2.len() as int, nm, net2, err)
                &&& check_continue_rel(ops, stop, threshold, err, data2.len() as usize)
            }
    }
}

/// Online training that stopped early: `k - 1` continuing epochs, then one
/// epoch whose mean error undercut the threshold.
pub open spec fn online_stopped_rel<
    T: Copy,
    FM: Fn(T, T) -> T,
    FS: Fn(T, T) -> T,
    FR: Fn(T, T) -> T,
    FL: Fn(T, T) -> T,
    FT: Fn(T, T) -> T,
    FE: Fn(T) -> T,
    FA: Fn(T, T) -> T,
    FD: Fn(T, T, T) -> T,
    DS: Fn(T, T) -> T,
    DR: Fn(T, T) -> T,
    DL: Fn(T, T) -> T,
    DT: Fn(T, T) -> T,
    DE: Fn(T) -> T,
    DA: Fn(T, T) -> T,
    DM: Fn(T, T) -> T,
    DD: Fn(T, T, T) -> T,
    LS: Fn(T, T) -> T,
    LM: Fn(T, T) -> T,
    LA: Fn(T, T) -> T,
    LH: Fn(T) -> T,
    LC: Fn(T, T) -> T,
    LX: Fn(T, T) -> T,
    FSub: Fn(T, T) -> T,
    FH: Fn(T, T) -> T,
    FMul: Fn(T, T) -> T,
    FU: Fn(T, T, T) -> T,
    FAvg: Fn(T, usize) -> T,
    FB: Fn(T, T) -> bool,
>(
    ops: SessionOps<T, FM, FS, FR, FL, FT, FE, FA, FD, DS, DR, DL, DT, DE, DA, DM, DD, LS, LM, LA, LH, LC, LX, FSub, FH, FMul, FU, FAvg, FB>,
    learning_rate: T,
    threshold: T,
    k: int,
    net1: DenseNetwork<T>,
    data1: Seq<(Matrix<T>, Matrix<T>)>,
    net2: DenseNetwork<T>,
    data2: Seq<(Matrix<T>, Matrix<T>)>,
) -> bool {
    exists|nm: DenseNetwork<T>, dm: Seq<(Matrix<T>, Matrix<T>)>, err: T|
        {
            &&& #[trigger] online_epochs_rel(
                ops,
                learning_rate,
                true,
                threshold,
                k - 1,
                net1,
                data1,
                nm,
                dm,
            )
            &&& data2.to_multiset() == dm.to_multiset()
            &&& #[trigger] online_run_rel(
                ops,
                learning_rate,
                data2,
                data2.len() as int,
                nm,
                net2,
                err,
            )
            &&& check_stop_rel(ops, threshold, err, data2.len() as usize)
        }
}

/// The whole online training: either every epoch of the budget ran, each
/// passing its continuation check, or a stopping threshold was configured
/// and some epoch's mean error undercut it, ending training there.
pub open spec fn online_trained_rel<
    T: Copy,
    FM: Fn(T, T) -> T,
    FS: Fn(T, T) -> T,
    FR: Fn(T, T) -> T,
    FL: Fn(T, T) -> T,
    FT: Fn(T, T) -> T,
    FE: Fn(T) -> T,
    FA: Fn(T, T) -> T,
    FD: Fn(T, T, T) -> T,
    DS: Fn(T, T) -> T,
    DR: Fn(T, T) -> T,
    DL: Fn(T, T) -> T,
    DT: Fn(T, T) -> T,
    DE: Fn(T) -> T,
    DA: Fn(T, T) -> T,
    DM: Fn(T, T) -> T,
    DD: Fn(T, T, T) -> T,
    LS: Fn(T, T) -> T,
    LM: Fn(T, T) -> T,
    LA: Fn(T, T) -> T,
    LH: Fn(T) -> T,
    LC: Fn(T, T) -> T,
    LX: Fn(T, T) -> T,
    FSub: Fn(T, T) -> T,
    FH: Fn(T, T) -> T,
    FMul: Fn(T, T) -> T,
    FU: Fn(T, T, T) -> T,
    FAvg: Fn(T, usize) -> T,
    FB: Fn(T, T) -> bool,
>(
    ops: SessionOps<T, FM, FS, FR, FL, FT, FE, FA, FD, DS, DR, DL, DT, DE, DA, DM, DD, LS, LM, LA, LH, LC, LX, FSub, FH, FMul, FU, FAvg, FB>,
    s1: DenseSession<T>,
    net2: DenseNetwork<T>,
    data2: Seq<(Matrix<T>, Matrix<T>)>,
) -> bool {
    exists|k: int|
        #![trigger online_epochs_rel(ops, s1.learning_rate, s1.stop_on_threshold, s1.threshold, k, s1.network, s1.training_data@, net2, data2)]
        #![trigger online_stopped_rel(ops, s1.learning_rate, s1.threshold, k, s1.network, s1.training_data@, net2, data2)]
        {
            &&& 0 <= k <= s1.epoch
            &&& ((k == s1.epoch && online_epochs_rel(
                ops,
                s1.learning_rate,
                s1.stop_on_threshold,
                s1.threshold,
                k,
                s1.network,
                s1.training_data@,
                net2,
                data2,
            )) || (1 <= k && s1.stop_on_threshold && online_stopped_rel(
                ops,
                s1.learning_rate,
                s1.threshold,
                k,
                s1.network,
                s1.training_data@,
                net2,
                data2,
            )))
        }
}

/// Entrywise combination of a buffer with one example count through the
/// caller's averaging operation.
pub open spec fn pointwise_count_rel<T, F: Fn(T, usize) -> T>(
    f: F,
    xs: Seq<T>,
    n: usize,
    out: Seq<T>,
) -> bool {
    &&& out.len() == xs.len()
    &&& forall|i: int| 0 <= i < xs.len() ==> call_ensures(f, (xs[i], n), #[trigger] out[i])
}

/// One mini-batch training step on one example: the example's output delta
/// joins the accumulator; once the batch is full, the accumulated delta is
/// averaged over the batch size, backpropagated, the weights updated once,
/// and the accumulator and counter reset; otherwise nothing else moves.
pub open spec fn batch_step_rel<
    T: Copy,
    FM: Fn(T, T) -> T,
    FS: Fn(T, T) -> T,
    FR: Fn(T, T) -> T,
    FL: Fn(T, T) -> T,
    FT: Fn(T, T) -> T,
    FE: Fn(T) -> T,
    FA: Fn(T, T) -> T,
    FD: Fn(T, T, T) -> T,
    DS: Fn(T, T) -> T,
    DR: Fn(T, T) -> T,
    DL: Fn(T, T) -> T,
    DT: Fn(T, T) -> T,
    DE: Fn(T) -> T,
    DA: Fn(T, T) -> T,
    DM: Fn(T, T) -> T,
    DD: Fn(T, T, T) -> T,
    LS: Fn(T, T) -> T,
    LM: Fn(T, T) -> T,
    LA: Fn(T, T) -> T,
    LH: Fn(T) -> T,
    LC: Fn(T, T) -> T,
    LX: Fn(T, T) -> T,
    FSub: Fn(T, T) -> T,
    FH: Fn(T, T) -> T,
    FMul: Fn(T, T) -> T,
    FU: Fn(T, T, T) -> T,
    FAvg: Fn(T, usize) -> T,
    FB: Fn(T, T) -> bool,
>(
    ops: SessionOps<T, FM, FS, FR, FL, FT, FE, FA, FD, DS, DR, DL, DT, DE, DA, DM, DD, LS, LM, LA, LH, LC, LX, FSub, FH, FMul, FU, FAvg, FB>,
    learning_rate: T,
    minibatch: usize,
    pair: (Matrix<T>, Matrix<T>),
    net1: DenseNetwork<T>,
    acc1: Matrix<T>,
    cnt1: int,
    net2: DenseNetwork<T>,
    acc2: Matrix<T>,
    cnt2: int,
    e: T,
) -> bool {
    exists|mid: DenseNetwork<T>, delta: Matrix<T>, summed: Matrix<T>|
        {
            &&& #[trigger] example_delta_rel(ops, net1, pair, mid, delta, e)
            &&& summed.wf()
            &&& summed.w == delta.w
            &&& summed.h == delta.h
            &&& #[trigger] pointwise_rel(ops.aops.add_fn, delta@, acc1@, summed@)
            &&& if cnt1 + 1 >= minibatch {
                exists|averaged: Matrix<T>, deltas: Seq<Matrix<T>>|
                    {
                        &&& averaged.wf()
                        &&& averaged.w == summed.w
                        &&& averaged.h == summed.h
                        &&& #[trigger] pointwise_count_rel(
                            ops.avg_fn,
                            summed@,
                            minibatch,
                            averaged@,
                        )
                        &&& #[trigger] backward_list_rel(ops, mid, averaged, deltas)
                        &&& update_rel(ops, learning_rate, mid, deltas, net2)
                        &&& cnt2 == 0
                        &&& acc2.wf()
                        &&& acc2.w == summed.w
                        &&& acc2.h == summed.h
                        &&& forall|x: int| 0 <= x < acc2@.len() ==> #[trigger] acc2@[x] == ops.aops.zero
                    }
            } else {
                &&& net2 == mid
                &&& acc2 == summed
                &&& cnt2 == cnt1 + 1
            }
        }
}

/// The first `upto` examples of a mini-batch epoch, the per-example losses
/// folded left into the epoch error, the accumulator and counter threaded
/// through.
pub open spec fn batch_run_rel<
    T: Copy,
    FM: Fn(T, T) -> T,
    FS: Fn(T, T) -> T,
    FR: Fn(T, T) -> T,
    FL: Fn(T, T) -> T,
    FT: Fn(T, T) -> T,
    FE: Fn(T) -> T,
    FA: Fn(T, T) -> T,
    FD: Fn(T, T, T) -> T,
    DS: Fn(T, T) -> T,
    DR: Fn(T, T) -> T,
    DL: Fn(T, T) -> T,
    DT: Fn(T, T) -> T,
    DE: Fn(T) -> T,
    DA: Fn(T, T) -> T,
    DM: Fn(T, T) -> T,
    DD: Fn(T, T, T) -> T,
    LS: Fn(T, T) -> T,
    LM: Fn(T, T) -> T,
    LA: Fn(T, T) -> T,
    LH: Fn(T) -> T,
    LC: Fn(T, T) -> T,
    LX: Fn(T, T) -> T,
    FSub: Fn(T, T) -> T,
    FH: Fn(T, T) -> T,
    FMul: Fn(T, T) -> T,
    FU: Fn(T, T, T) -> T,
    FAvg: Fn(T, usize) -> T,
    FB: Fn(T, T) -> bool,
>(
    ops: SessionOps<T, FM, FS, FR, FL, FT, FE, FA, FD, DS, DR, DL, DT, DE, DA, DM, DD, LS, LM, LA, LH, LC, LX, FSub, FH, FMul, FU, FAvg, FB>,
    learning_rate: T,
    minibatch: usize,
    data: Seq<(Matrix<T>, Matrix<T>)>,
    upto: int,
    net1: DenseNetwork<T>,
    acc1: Matrix<T>,
    cnt1: int,
    net2: DenseNetwork<T>,
    acc2: Matrix<T>,
    cnt2: int,
    err: T,
) -> bool
    decreases upto,
{
    if upto <= 0 {
        net2 == net1 && acc2 == acc1 && cnt2 == cnt1 && err == ops.lops.zero
    } else {
        exists|netm: DenseNetwork<T>, accm: Matrix<T>, cntm: int, e_prev: T, e: T|
            #![trigger batch_step_rel(ops, learning_rate, minibatch, data[upto - 1], netm, accm, cntm, net2, acc2, cnt2, e), call_ensures(ops.lops.add_fn, (e_prev, e), err)]
            {
                &&& batch_run_rel(
                    ops,
                    learning_rate,
                    minibatch,
                    data,
                    upto - 1,
                    net1,
                    acc1,
                    cnt1,
                    netm,
                    accm,
                    cntm,
                    e_prev,
                )
                &&& batch_step_rel(
                    ops,
                    learning_rate,
                    minibatch,
                    data[upto - 1],
                    netm,
                    accm,
                    cntm,
                    net2,
                    acc2,
                    cnt2,
                    e,
                )
                &&& call_ensures(ops.lops.add_fn, (e_prev, e), err)
            }
    }
}

/// `k` full mini-batch epochs: each shuffles, trains every example, and
/// passes the continuation check; accumulator and counter persist across
/// epochs.
pub open spec fn batch_epochs_rel<
    T: Copy,
    FM: Fn(T, T) -> T,
    FS: Fn(T, T) -> T,
    FR: Fn(T, T) -> T,
    FL: Fn(T, T) -> T,
    FT: Fn(T, T) -> T,
    FE: Fn(T) -> T,
    FA: Fn(T, T) -> T,
    FD: Fn(T, T, T) -> T,
    DS: Fn(T, T) -> T,
    DR: Fn(T, T) -> T,
    DL: Fn(T, T) -> T,
    DT: Fn(T, T) -> T,
    DE: Fn(T) -> T,
    DA: Fn(T, T) -> T,
    DM: Fn(T, T) -> T,
    DD: Fn(T, T, T) -> T,
    LS: Fn(T, T) -> T,
    LM: Fn(T, T) -> T,
    LA: Fn(T, T) -> T,
    LH: Fn(T) -> T,
    LC: Fn(T, T) -> T,
    LX: Fn(T, T) -> T,
    FSub: Fn(T, T) -> T,
    FH: Fn(T, T) -> T,
    FMul: Fn(T, T) -> T,
    FU: Fn(T, T, T) -> T,
    FAvg: Fn(T, usize) -> T,
    FB: Fn(T, T) -> bool,
>(
    ops: SessionOps<T, FM, FS, FR, FL, FT, FE, FA, FD, DS, DR, DL, DT, DE, DA, DM, DD, LS, LM, LA, LH, LC, LX, FSub, FH, FMul, FU, FAvg, FB>,
    learning_rate: T,
    minibatch: usize,
    stop: bool,
    threshold: T,
    k: int,
    net1: DenseNetwork<T>,
    acc1: Matrix<T>,
    cnt1: int,
    data1: Seq<(Matrix<T>, Matrix<T>)>,
    net2: DenseNetwork<T>,
    acc2: Matrix<T>,
    cnt2: int,
    data2: Seq<(Matrix<T>, Matrix<T>)>,
) -> bool
    decreases k,
{
    if k <= 0 {
        net2 == net1 && acc2 == acc1 && cnt2 == cnt1 && data2 == data1
    } else {
        exists|nm: DenseNetwork<T>, am: Matrix<T>, cm: int, dm: Seq<(Matrix<T>, Matrix<T>)>, err: T|
            #![trigger batch_run_rel(ops, learning_rate, minibatch, data2, data2.len() as int, nm, am, cm, net2, acc2, cnt2, err), dm.to_multiset()]
            {
                &&& batch_epochs_rel(
                    ops,
                    learning_rate,
                    minibatch,
                    stop,
                    threshold,
                    k - 1,
                    net1,
                    acc1,
                    cnt1,
                    data1,
                    nm,
                    am,
                    cm,
                    dm,
                )
                &&& data2.to_multiset() == dm.to_multiset()
                &&& batch_run_rel(
                    ops,
                    learning_rate,
                    minibatch,
                    data2,
                    data2.len() as int,
                    nm,
                    am,
                    cm,
                    net2,
                    acc2,
                    cnt2,
                    err,
                )
                &&& check_continue_rel(ops, stop, threshold, err, data2.len() as usize)
            }
    }
}

/// Mini-batch training that stopped early: `k - 1` continuing epochs, then
/// one epoch whose mean error undercut the threshold.
pub open spec fn batch_stopped_rel<
    T: Copy,
    FM: Fn(T, T) -> T,
    FS: Fn(T, T) -> T,
    FR: Fn(T, T) -> T,
    FL: Fn(T, T) -> T,
    FT: Fn(T, T) -> T,
    FE: Fn(T) -> T,
    FA: Fn(T, T) -> T,
    FD: Fn(T, T, T) -> T,
    DS: Fn(T, T) -> T,
    DR: Fn(T, T) -> T,
    DL: Fn(T, T) -> T,
    DT: Fn(T, T) -> T,
    DE: Fn(T) -> T,
    DA: Fn(T, T) -> T,
    DM: Fn(T, T) -> T,
    DD: Fn(T, T, T) -> T,
    LS: Fn(T, T) -> T,
    LM: Fn(T, T) -> T,
    LA: Fn(T, T) -> T,
    LH: Fn(T) -> T,
    LC: Fn(T, T) -> T,
    LX: Fn(T, T) -> T,
    FSub: Fn(T, T) -> T,
    FH: Fn(T, T) -> T,
    FMul: Fn(T, T) -> T,
    FU: Fn(T, T, T) -> T,
    FAvg: Fn(T, usize) -> T,
    FB: Fn(T, T) -> bool,
>(
    ops: SessionOps<T, FM, FS, FR, FL, FT, FE, FA, FD, DS, DR, DL, DT, DE, DA, DM, DD, LS, LM, LA, LH, LC, LX, FSub, FH, FMul, FU, FAvg, FB>,
    learning_rate: T,
    minibatch: usize,
    threshold: T,
    k: int,
    net1: DenseNetwork<T>,
    acc1: Matrix<T>,
    cnt1: int,
    data1: Seq<(Matrix<T>, Matrix<T>)>,
    net2: DenseNetwork<T>,
    acc2: Matrix<T>,
    cnt2: int,
    data2: Seq<(Matrix<T>, Matrix<T>)>,
) -> bool {
    exists|nm: DenseNetwork<T>, am: Matrix<T>, cm: int, dm: Seq<(Matrix<T>, Matrix<T>)>, err: T|
        {
            &&& #[trigger] batch_epochs_rel(
                ops,
                learning_rate,
                minibatch,
                true,
                threshold,
                k - 1,
                net1,
                acc1,
                cnt1,
                data1,
                nm,
                am,
                cm,
                dm,
            )
            &&& data2.to_multiset() == dm.to_multiset()
            &&& #[trigger] batch_run_rel(
                ops,
                learning_rate,
                minibatch,
                data2,
                data2.len() as int,
                nm,
                am,
                cm,
                net2,
                acc2,
                cnt2,
                err,
            )
            &&& check_stop_rel(ops, threshold, err, data2.len() as usize)
        }
}

/// The whole mini-batch training: from a zeroed accumulator and counter,
/// either every epoch of the budget ran, each passing its continuation
/// check, or a stopping threshold was configured and some epoch's mean
/// error undercut it; a final partial batch is never applied.
pub open spec fn batch_trained_rel<
    T: Copy,
    FM: Fn(T, T) -> T,
    FS: Fn(T, T) -> T,
    FR: Fn(T, T) -> T,
    FL: Fn(T, T) -> T,
    FT: Fn(T, T) -> T,
    FE: Fn(T) -> T,
    FA: Fn(T, T) -> T,
    FD: Fn(T, T, T) -> T,
    DS: Fn(T, T) -> T,
    DR: Fn(T, T) -> T,
    DL: Fn(T, T) -> T,
    DT: Fn(T, T) -> T,
    DE: Fn(T) -> T,
    DA: Fn(T, T) -> T,
    DM: Fn(T, T) -> T,
    DD: Fn(T, T, T) -> T,
    LS: Fn(T, T) -> T,
    LM: Fn(T, T) -> T,
    LA: Fn(T, T) -> T,
    LH: Fn(T) -> T,
    LC: Fn(T, T) -> T,
    LX: Fn(T, T) -> T,
    FSub: Fn(T, T) -> T,
    FH: Fn(T, T) -> T,
    FMul: Fn(T, T) -> T,
    FU: Fn(T, T, T) -> T,
    FAvg: Fn(T, usize) -> T,
    FB: Fn(T, T) -> bool,
>(
    ops: SessionOps<T, FM, FS, FR, FL, FT, FE, FA, FD, DS, DR, DL, DT, DE, DA, DM, DD, LS, LM, LA, LH, LC, LX, FSub, FH, FMul, FU, FAvg, FB>,
    s1: DenseSession<T>,
    net2: DenseNetwork<T>,
    data2: Seq<(Matrix<T>, Matrix<T>)>,
) -> bool {
    exists|acc0: Matrix<T>, k: int, accf: Matrix<T>, cntf: int|
        #![trigger batch_epochs_rel(ops, s1.learning_rate, s1.minibatch, s1.stop_on_threshold, s1.threshold, k, s1.network, acc0, 0, s1.training_data@, net2, accf, cntf, data2)]
        #![trigger batch_stopped_rel(ops, s1.learning_rate, s1.minibatch, s1.threshold, k, s1.network, acc0, 0, s1.training_data@, net2, accf, cntf, data2)]
        {
            &&& acc0.wf()
            &&& acc0.w == 1
            &&& acc0.h == s1.out_size()
            &&& forall|x: int| 0 <= x < acc0@.len() ==> #[trigger] acc0@[x] == ops.aops.zero
            &&& 0 <= k <= s1.epoch
            &&& ((k == s1.epoch && batch_epochs_rel(
                ops,
                s1.learning_rate,
                s1.minibatch,
                s1.stop_on_threshold,
                s1.threshold,
                k,
                s1.network,
                acc0,
                0,
                s1.training_data@,
                net2,
                accf,
                cntf,
                data2,
            )) || (1 <= k && s1.stop_on_threshold && batch_stopped_rel(
                ops,
                s1.learning_rate,
                s1.minibatch,
                s1.threshold,
                k,
                s1.network,
                acc0,
                0,
                s1.training_data@,
                net2,
                accf,
                cntf,
                data2,
            )))
        }
}

/// What training leaves behind: the online chain when the mini-batch size
/// is one, the mini-batch chain otherwise.
pub open spec fn trained_rel<
    T: Copy,
    FM: Fn(T, T) -> T,
    FS: Fn(T, T) -> T,
    FR: Fn(T, T) -> T,
    FL: Fn(T, T) -> T,
    FT: Fn(T, T) -> T,
    FE: Fn(T) -> T,
    FA: Fn(T, T) -> T,
    FD: Fn(T, T, T) -> T,
    DS: Fn(T, T) -> T,
    DR: Fn(T, T) -> T,
    DL: Fn(T, T) -> T,
    DT: Fn(T, T) -> T,
    DE: Fn(T) -> T,
    DA: Fn(T, T) -> T,
    DM: Fn(T, T) -> T,
    DD: Fn(T, T, T) -> T,
    LS: Fn(T, T) -> T,
    LM: Fn(T, T) -> T,
    LA: Fn(T, T) -> T,
    LH: Fn(T) -> T,
    LC: Fn(T, T) -> T,
    LX: Fn(T, T) -> T,
    FSub: Fn(T, T) -> T,
    FH: Fn(T, T) -> T,
    FMul: Fn(T, T) -> T,
    FU: Fn(T, T, T) -> T,
    FAvg: Fn(T, usize) -> T,
    FB: Fn(T, T) -> bool,
>(
    ops: SessionOps<T, FM, FS, FR, FL, FT, FE, FA, FD, DS, DR, DL, DT, DE, DA, DM, DD, LS, LM, LA, LH, LC, LX, FSub, FH, FMul, FU, FAvg, FB>,
    s1: DenseSession<T>,
    net2: DenseNetwork<T>,
    data2: Seq<(Matrix<T>, Matrix<T>)>,
) -> bool {
    if s1.minibatch == 1 {
        online_trained_rel(ops, s1, net2, data2)
    } else {
        batch_trained_rel(ops, s1, net2, data2)
    }
}

/// One test step: a forward pass on the example and the loss of the
/// prediction against its target. No weight moves.
pub open spec fn test_step_rel<
    T: Copy,
    FM: Fn(T, T) -> T,
    FS: Fn(T, T) -> T,
    FR: Fn(T, T) -> T,
    FL: Fn(T, T) -> T,
    FT: Fn(T, T) -> T,
    FE: Fn(T) -> T,
    FA: Fn(T, T) -> T,
    FD: Fn(T, T, T) -> T,
    DS: Fn(T, T) -> T,
    DR: Fn(T, T) -> T,
    DL: Fn(T, T) -> T,
    DT: Fn(T, T) -> T,
    DE: Fn(T) -> T,
    DA: Fn(T, T) -> T,
    DM: Fn(T, T) -> T,
    DD: Fn(T, T, T) -> T,
    LS: Fn(T, T) -> T,
    LM: Fn(T, T) -> T,
    LA: Fn(T, T) -> T,
    LH: Fn(T) -> T,
    LC: Fn(T, T) -> T,
    LX: Fn(T, T) -> T,
    FSub: Fn(T, T) -> T,
    FH: Fn(T, T) -> T,
    FMul: Fn(T, T) -> T,
    FU: Fn(T, T, T) -> T,
    FAvg: Fn(T, usize) -> T,
    FB: Fn(T, T) -> bool,
>(
    ops: SessionOps<T, FM, FS, FR, FL, FT, FE, FA, FD, DS, DR, DL, DT, DE, DA, DM, DD, LS, LM, LA, LH, LC, LX, FSub, FH, FMul, FU, FAvg, FB>,
    pair: (Matrix<T>, Matrix<T>),
    net1: DenseNetwork<T>,
    net2: DenseNetwork<T>,
    e: T,
) -> bool {
    &&& forward_pass_rel(ops, net1, pair.0@, net2)
    &&& error_rel(net2.loss, ops.lops, net2.values@[net2.nb_layers - 1]@, pair.1@, e)
}

/// The first `upto` test examples evaluated in order, their losses folded
/// left into the total.
pub open spec fn test_run_rel<
    T: Copy,
    FM: Fn(T, T) -> T,
    FS: Fn(T, T) -> T,
    FR: Fn(T, T) -> T,
    FL: Fn(T, T) -> T,
    FT: Fn(T, T) -> T,
    FE: Fn(T) -> T,
    FA: Fn(T, T) -> T,
    FD: Fn(T, T, T) -> T,
    DS: Fn(T, T) -> T,
    DR: Fn(T, T) -> T,
    DL: Fn(T, T) -> T,
    DT: Fn(T, T) -> T,
    DE: Fn(T) -> T,
    DA: Fn(T, T) -> T,
    DM: Fn(T, T) -> T,
    DD: Fn(T, T, T) -> T,
    LS: Fn(T, T) -> T,
    LM: Fn(T, T) -> T,
    LA: Fn(T, T) -> T,
    LH: Fn(T) -> T,
    LC: Fn(T, T) -> T,
    LX: Fn(T, T) -> T,
    FSub: Fn(T, T) -> T,
    FH: Fn(T, T) -> T,
    FMul: Fn(T, T) -> T,
    FU: Fn(T, T, T) -> T,
    FAvg: Fn(T, usize) -> T,
    FB: Fn(T, T) -> bool,
>(
    ops: SessionOps<T, FM, FS, FR, FL, FT, FE, FA, FD, DS, DR, DL, DT, DE, DA, DM, DD, LS, LM, LA, LH, LC, LX, FSub, FH, FMul, FU, FAvg, FB>,
    data: Seq<(Matrix<T>, Matrix<T>)>,
    upto: int,
    net1: DenseNetwork<T>,
    net2: DenseNetwork<T>,
    err: T,
) -> bool
    decreases upto,
{
    if upto <= 0 {
        net2 == net1 && err == ops.lops.zero
    } else {
        exists|mid: DenseNetwork<T>, e_prev: T, e: T|
            #![trigger test_step_rel(ops, data[upto - 1], mid, net2, e), call_ensures(ops.lops.add_fn, (e_prev, e), err)]
            {
                &&& test_run_rel(ops, data, upto - 1, net1, mid, e_prev)
                &&& test_step_rel(ops, data[upto - 1], mid, net2, e)
                &&& call_ensures(ops.lops.add_fn, (e_prev, e), err)
            }
    }
}

/// What testing returns: the fold of the per-example losses of one forward
/// pass per test example, in order.
pub open spec fn tested_rel<
    T: Copy,
    FM: Fn(T, T) -> T,
    FS: Fn(T, T) -> T,
    FR: Fn(T, T) -> T,
    FL: Fn(T, T) -> T,
    FT: Fn(T, T) -> T,
    FE: Fn(T) -> T,
    FA: Fn(T, T) -> T,
    FD: Fn(T, T, T) -> T,
    DS: Fn(T, T) -> T,
    DR: Fn(T, T) -> T,
    DL: Fn(T, T) -> T,
    DT: Fn(T, T) -> T,
    DE: Fn(T) -> T,
    DA: Fn(T, T) -> T,
    DM: Fn(T, T) -> T,
    DD: Fn(T, T, T) -> T,
    LS: Fn(T, T) -> T,
    LM: Fn(T, T) -> T,
    LA: Fn(T, T) -> T,
    LH: Fn(T) -> T,
    LC: Fn(T, T) -> T,
    LX: Fn(T, T) -> T,
    FSub: Fn(T, T) -> T,
    FH: Fn(T, T) -> T,
    FMul: Fn(T, T) -> T,
    FU: Fn(T, T, T) -> T,
    FAvg: Fn(T, usize) -> T,
    FB: Fn(T, T) -> bool,
>(ops: SessionOps<T, FM, FS, FR, FL, FT, FE, FA, FD, DS, DR, DL, DT, DE, DA, DM, DD, LS, LM, LA, LH, LC, LX, FSub, FH, FMul, FU, FAvg, FB>, s1: DenseSession<T>, net2: DenseNetwork<T>, err: T) -> bool {
    test_run_rel(ops, s1.testing_data@, s1.testing_data@.len() as int, s1.network, net2, err)
}


/// One more online example extends an epoch's run.
proof fn lemma_online_run_push<
    T: Copy,
    FM: Fn(T, T) -> T,
    FS: Fn(T, T) -> T,
    FR: Fn(T, T) -> T,
    FL: Fn(T, T) -> T,
    FT: Fn(T, T) -> T,
    FE: Fn(T) -> T,
    FA: Fn(T, T) -> T,
    FD: Fn(T, T, T) -> T,
    DS: Fn(T, T) -> T,
    DR: Fn(T, T) -> T,
    DL: Fn(T, T) -> T,
    DT: Fn(T, T) -> T,
    DE: Fn(T) -> T,
    DA: Fn(T, T) -> T,
    DM: Fn(T, T) -> T,
    DD: Fn(T, T, T) -> T,
    LS: Fn(T, T) -> T,
    LM: Fn(T, T) -> T,
    LA: Fn(T, T) -> T,
    LH: Fn(T) -> T,
    LC: Fn(T, T) -> T,
    LX: Fn(T, T) -> T,
    FSub: Fn(T, T) -> T,
    FH: Fn(T, T) -> T,
    FMul: Fn(T, T) -> T,
    FU: Fn(T, T, T) -> T,
    FAvg: Fn(T, usize) -> T,
    FB: Fn(T, T) -> bool,
>(
    ops: SessionOps<T, FM, FS, FR, FL, FT, FE, FA, FD, DS, DR, DL, DT, DE, DA, DM, DD, LS, LM, LA, LH, LC, LX, FSub, FH, FMul, FU, FAvg, FB>,
    learning_rate: T,
    data: Seq<(Matrix<T>, Matrix<T>)>,
    upto: int,
    net1: DenseNetwork<T>,
    mid: DenseNetwork<T>,
    e_prev: T,
    net2: DenseNetwork<T>,
    e: T,
    err: T,
)
    requires
        0 <= upto < data.len(),
        online_run_rel(ops, learning_rate, data, upto, net1, mid, e_prev),
        online_step_rel(ops, learning_rate, data[upto], mid, net2, e),
        call_ensures(ops.lops.add_fn, (e_prev, e), err),
    ensures
        online_run_rel(ops, learning_rate, data, upto + 1, net1, net2, err),
{
    assert(online_run_rel(ops, learning_rate, data, upto + 1, net1, net2, err)) by {
        assert(online_run_rel(ops, learning_rate, data, (upto + 1) - 1, net1, mid, e_prev));
        assert(online_step_rel(ops, learning_rate, data[(upto + 1) - 1], mid, net2, e));
        assert(call_ensures(ops.lops.add_fn, (e_prev, e), err));
    }
}

/// One more continuing epoch extends the online epoch chain.
proof fn lemma_online_epochs_push<
    T: Copy,
    FM: Fn(T, T) -> T,
    FS: Fn(T, T) -> T,
    FR: Fn(T, T) -> T,
    FL: Fn(T, T) -> T,
    FT: Fn(T, T) -> T,
    FE: Fn(T) -> T,
    FA: Fn(T, T) -> T,
    FD: Fn(T, T, T) -> T,
    DS: Fn(T, T) -> T,
    DR: Fn(T, T) -> T,
    DL: Fn(T, T) -> T,
    DT: Fn(T, T) -> T,
    DE: Fn(T) -> T,
    DA: Fn(T, T) -> T,
    DM: Fn(T, T) -> T,
    DD: Fn(T, T, T) -> T,
    LS: Fn(T, T) -> T,
    LM: Fn(T, T) -> T,
    LA: Fn(T, T) -> T,
    LH: Fn(T) -> T,
    LC: Fn(T, T) -> T,
    LX: Fn(T, T) -> T,
    FSub: Fn(T, T) -> T,
    FH: Fn(T, T) -> T,
    FMul: Fn(T, T) -> T,
    FU: Fn(T, T, T) -> T,
    FAvg: Fn(T, usize) -> T,
    FB: Fn(T, T) -> bool,
>(
    ops: SessionOps<T, FM, FS, FR, FL, FT, FE, FA, FD, DS, DR, DL, DT, DE, DA, DM, DD, LS, LM, LA, LH, LC, LX, FSub, FH, FMul, FU, FAvg, FB>,
    learning_rate: T,
    stop: bool,
    threshold: T,
    k: int,
    net1: DenseNetwork<T>,
    data1: Seq<(Matrix<T>, Matrix<T>)>,
    nm: DenseNetwork<T>,
    dm: Seq<(Matrix<T>, Matrix<T>)>,
    net2: DenseNetwork<T>,
    data2: Seq<(Matrix<T>, Matrix<T>)>,
    err: T,
)
    requires
        0 <= k,
        online_epochs_rel(ops, learning_rate, stop, threshold, k, net1, data1, nm, dm),
        data2.to_multiset() == dm.to_multiset(),
        online_run_rel(ops, learning_rate, data2, data2.len() as int, nm, net2, err),
        check_continue_rel(ops, stop, threshold, err, data2.len() as usize),
    ensures
        online_epochs_rel(ops, learning_rate, stop, threshold, k + 1, net1, data1, net2, data2),
{
    assert(online_epochs_rel(
        ops,
        learning_rate,
        stop,
        threshold,
        k + 1,
        net1,
        data1,
        net2,
        data2,
    )) by {
        assert(online_epochs_rel(
            ops,
            learning_rate,
            stop,
            threshold,
            (k + 1) - 1,
            net1,
            data1,
            nm,
            dm,
        ));
        assert(online_run_rel(ops, learning_rate, data2, data2.len() as int, nm, net2, err));
        assert(check_continue_rel(ops, stop, threshold, err, data2.len() as usize));
    }
}

/// An epoch whose mean error undercuts the threshold ends the online chain.
proof fn lemma_online_stopped_intro<
    T: Copy,
    FM: Fn(T, T) -> T,
    FS: Fn(T, T) -> T,
    FR: Fn(T, T) -> T,
    FL: Fn(T, T) -> T,
    FT: Fn(T, T) -> T,
    FE: Fn(T) -> T,
    FA: Fn(T, T) -> T,
    FD: Fn(T, T, T) -> T,
    DS: Fn(T, T) -> T,
    DR: Fn(T, T) -> T,
    DL: Fn(T, T) -> T,
    DT: Fn(T, T) -> T,
    DE: Fn(T) -> T,
    DA: Fn(T, T) -> T,
    DM: Fn(T, T) -> T,
    DD: Fn(T, T, T) -> T,
    LS: Fn(T, T) -> T,
    LM: Fn(T, T) -> T,
    LA: Fn(T, T) -> T,
    LH: Fn(T) -> T,
    LC: Fn(T, T) -> T,
    LX: Fn(T, T) -> T,
    FSub: Fn(T, T) -> T,
    FH: Fn(T, T) -> T,
    FMul: Fn(T, T) -> T,
    FU: Fn(T, T, T) -> T,
    FAvg: Fn(T, usize) -> T,
    FB: Fn(T, T) -> bool,
>(
    ops: SessionOps<T, FM, FS, FR, FL, FT, FE, FA, FD, DS, DR, DL, DT, DE, DA, DM, DD, LS, LM, LA, LH, LC, LX, FSub, FH, FMul, FU, FAvg, FB>,
    learning_rate: T,
    threshold: T,
    k: int,
    net1: DenseNetwork<T>,
    data1: Seq<(Matrix<T>, Matrix<T>)>,
    nm: DenseNetwork<T>,
    dm: Seq<(Matrix<T>, Matrix<T>)>,
    net2: DenseNetwork<T>,
    data2: Seq<(Matrix<T>, Matrix<T>)>,
    err: T,
)
    requires
        0 <= k,
        online_epochs_rel(ops, learning_rate, true, threshold, k, net1, data1, nm, dm),
        data2.to_multiset() == dm.to_multiset(),
        online_run_rel(ops, learning_rate, data2, data2.len() as int, nm, net2, err),
        check_stop_rel(ops, threshold, err, data2.len() as usize),
    ensures
        online_stopped_rel(ops, learning_rate, threshold, k + 1, net1, data1, net2, data2),
{
    assert(online_stopped_rel(ops, learning_rate, threshold, k + 1, net1, data1, net2, data2))
        by {
        assert(online_epochs_rel(
            ops,
            learning_rate,
            true,
            threshold,
            (k + 1) - 1,
            net1,
            data1,
            nm,
            dm,
        ));
        assert(online_run_rel(ops, learning_rate, data2, data2.len() as int, nm, net2, err));
        assert(check_stop_rel(ops, threshold, err, data2.len() as usize));
    }
}

/// One more mini-batch example extends an epoch's run.
proof fn lemma_batch_run_push<
    T: Copy,
    FM: Fn(T, T) -> T,
    FS: Fn(T, T) -> T,
    FR: Fn(T, T) -> T,
    FL: Fn(T, T) -> T,
    FT: Fn(T, T) -> T,
    FE: Fn(T) -> T,
    FA: Fn(T, T) -> T,
    FD: Fn(T, T, T) -> T,
    DS: Fn(T, T) -> T,
    DR: Fn(T, T) -> T,
    DL: Fn(T, T) -> T,
    DT: Fn(T, T) -> T,
    DE: Fn(T) -> T,
    DA: Fn(T, T) -> T,
    DM: Fn(T, T) -> T,
    DD: Fn(T, T, T) -> T,
    LS: Fn(T, T) -> T,
    LM: Fn(T, T) -> T,
    LA: Fn(T, T) -> T,
    LH: Fn(T) -> T,
    LC: Fn(T, T) -> T,
    LX: Fn(T, T) -> T,
    FSub: Fn(T, T) -> T,
    FH: Fn(T, T) -> T,
    FMul: Fn(T, T) -> T,
    FU: Fn(T, T, T) -> T,
    FAvg: Fn(T, usize) -> T,
    FB: Fn(T, T) -> bool,
>(
    ops: SessionOps<T, FM, FS, FR, FL, FT, FE, FA, FD, DS, DR, DL, DT, DE, DA, DM, DD, LS, LM, LA, LH, LC, LX, FSub, FH, FMul, FU, FAvg, FB>,
    learning_rate: T,
    minibatch: usize,
    data: Seq<(Matrix<T>, Matrix<T>)>,
    upto: int,
    net1: DenseNetwork<T>,
    acc1: Matrix<T>,
    cnt1: int,
    netm: DenseNetwork<T>,
    accm: Matrix<T>,
    cntm: int,
    e_prev: T,
    net2: DenseNetwork<T>,
    acc2: Matrix<T>,
    cnt2: int,
    e: T,
    err: T,
)
    requires
        0 <= upto < data.len(),
        batch_run_rel(
            ops,
            learning_rate,
            minibatch,
            data,
            upto,
            net1,
            acc1,
            cnt1,
            netm,
            accm,
            cntm,
            e_prev,
        ),
        batch_step_rel(
            ops,
            learning_rate,
            minibatch,
            data[upto],
            netm,
            accm,
            cntm,
            net2,
            acc2,
            cnt2,
            e,
        ),
        call_ensures(ops.lops.add_fn, (e_prev, e), err),
    ensures
        batch_run_rel(
            ops,
            learning_rate,
            minibatch,
            data,
            upto + 1,
            net1,
            acc1,
            cnt1,
            net2,
            acc2,
            cnt2,
            err,
        ),
{
    assert(batch_run_rel(
        ops,
        learning_rate,
        minibatch,
        data,
        upto + 1,
        net1,
        acc1,
        cnt1,
        net2,
        acc2,
        cnt2,
        err,
    )) by {
        assert(batch_run_rel(
            ops,
            learning_rate,
            minibatch,
            data,
            (upto + 1) - 1,
            net1,
            acc1,
            cnt1,
            netm,
            accm,
            cntm,
            e_prev,
        ));
        assert(batch_step_rel(
            ops,
            learning_rate,
            minibatch,
            data[(upto + 1) - 1],
            netm,
            accm,
            cntm,
            net2,
            acc2,
            cnt2,
            e,
        ));
        assert(call_ensures(ops.lops.add_fn, (e_prev, e), err));
    }
}

/// One more continuing epoch extends the mini-batch epoch chain.
proof fn lemma_batch_epochs_push<
    T: Copy,
    FM: Fn(T, T) -> T,
    FS: Fn(T, T) -> T,
    FR: Fn(T, T) -> T,
    FL: Fn(T, T) -> T,
    FT: Fn(T, T) -> T,
    FE: Fn(T) -> T,
    FA: Fn(T, T) -> T,
    FD: Fn(T, T, T) -> T,
    DS: Fn(T, T) -> T,
    DR: Fn(T, T) -> T,
    DL: Fn(T, T) -> T,
    DT: Fn(T, T) -> T,
    DE: Fn(T) -> T,
    DA: Fn(T, T) -> T,
    DM: Fn(T, T) -> T,
    DD: Fn(T, T, T) -> T,
    LS: Fn(T, T) -> T,
    LM: Fn(T, T) -> T,
    LA: Fn(T, T) -> T,
    LH: Fn(T) -> T,
    LC: Fn(T, T) -> T,
    LX: Fn(T, T) -> T,
    FSub: Fn(T, T) -> T,
    FH: Fn(T, T) -> T,
    FMul: Fn(T, T) -> T,
    FU: Fn(T, T, T) -> T,
    FAvg: Fn(T, usize) -> T,
    FB: Fn(T, T) -> bool,
>(
    ops: SessionOps<T, FM, FS, FR, FL, FT, FE, FA, FD, DS, DR, DL, DT, DE, DA, DM, DD, LS, LM, LA, LH, LC, LX, FSub, FH, FMul, FU, FAvg, FB>,
    learning_rate: T,
    minibatch: usize,
    stop: bool,
    threshold: T,
    k: int,
    net1: DenseNetwork<T>,
    acc1: Matrix<T>,
    cnt1: int,
    data1: Seq<(Matrix<T>, Matrix<T>)>,
    nm: DenseNetwork<T>,
    am: Matrix<T>,
    cm: int,
    dm: Seq<(Matrix<T>, Matrix<T>)>,
    net2: DenseNetwork<T>,
    acc2: Matrix<T>,
    cnt2: int,
    data2: Seq<(Matrix<T>, Matrix<T>)>,
    err: T,
)
    requires
        0 <= k,
        batch_epochs_rel(
            ops,
            learning_rate,
            minibatch,
            stop,
            threshold,
            k,
            net1,
            acc1,
            cnt1,
            data1,
            nm,
            am,
            cm,
            dm,
        ),
        data2.to_multiset() == dm.to_multiset(),
        batch_run_rel(
            ops,
            learning_rate,
            minibatch,
            data2,
            data2.len() as int,
            nm,
            am,
            cm,
            net2,
            acc2,
            cnt2,
            err,
        ),
        check_continue_rel(ops, stop, threshold, err, data2.len() as usize),
    ensures
        batch_epochs_rel(
            ops,
            learning_rate,
            minibatch,
            stop,
            threshold,
            k + 1,
            net1,
            acc1,
            cnt1,
            data1,
            net2,
            acc2,
            cnt2,
            data2,
        ),
{
    assert(batch_epochs_rel(
        ops,
        learning_rate,
        minibatch,
        stop,
        threshold,
        k + 1,
        net1,
        acc1,
        cnt1,
        data1,
        net2,
        acc2,
        cnt2,
        data2,
    )) by {
        assert(batch_epochs_rel(
            ops,
            learning_rate,
            minibatch,
            stop,
            threshold,
            (k + 1) - 1,
            net1,
            acc1,
            cnt1,
            data1,
            nm,
            am,
            cm,
            dm,
        ));
        assert(batch_run_rel(
            ops,
            learning_rate,
            minibatch,
            data2,
            data2.len() as int,
            nm,
            am,
            cm,
            net2,
            acc2,
            cnt2,
            err,
        ));
        assert(check_continue_rel(ops, stop, threshold, err, data2.len() as usize));
    }
}

/// An epoch whose mean error undercuts the threshold ends the mini-batch
/// chain.
proof fn lemma_batch_stopped_intro<
    T: Copy,
    FM: Fn(T, T) -> T,
    FS: Fn(T, T) -> T,
    FR: Fn(T, T) -> T,
    FL: Fn(T, T) -> T,
    FT: Fn(T, T) -> T,
    FE: Fn(T) -> T,
    FA: Fn(T, T) -> T,
    FD: Fn(T, T, T) -> T,
    DS: Fn(T, T) -> T,
    DR: Fn(T, T) -> T,
    DL: Fn(T, T) -> T,
    DT: Fn(T, T) -> T,
    DE: Fn(T) -> T,
    DA: Fn(T, T) -> T,
    DM: Fn(T, T) -> T,
    DD: Fn(T, T, T) -> T,
    LS: Fn(T, T) -> T,
    LM: Fn(T, T) -> T,
    LA: Fn(T, T) -> T,
    LH: Fn(T) -> T,
    LC: Fn(T, T) -> T,
    LX: Fn(T, T) -> T,
    FSub: Fn(T, T) -> T,
    FH: Fn(T, T) -> T,
    FMul: Fn(T, T) -> T,
    FU: Fn(T, T, T) -> T,
    FAvg: Fn(T, usize) -> T,
    FB: Fn(T, T) -> bool,
>(
    ops: SessionOps<T, FM, FS, FR, FL, FT, FE, FA, FD, DS, DR, DL, DT, DE, DA, DM, DD, LS, LM, LA, LH, LC, LX, FSub, FH, FMul, FU, FAvg, FB>,
    learning_rate: T,
    minibatch: usize,
    threshold: T,
    k: int,
    net1: DenseNetwork<T>,
    acc1: Matrix<T>,
    cnt1: int,
    data1: Seq<(Matrix<T>, Matrix<T>)>,
    nm: DenseNetwork<T>,
    am: Matrix<T>,
    cm: int,
    dm: Seq<(Matrix<T>, Matrix<T>)>,
    net2: DenseNetwork<T>,
    acc2: Matrix<T>,
    cnt2: int,
    data2: Seq<(Matrix<T>, Matrix<T>)>,
    err: T,
)
    requires
        0 <= k,
        batch_epochs_rel(
            ops,
            learning_rate,
            minibatch,
            true,
            threshold,
            k,
            net1,
            acc1,
            cnt1,
            data1,
            nm,
            am,
            cm,
            dm,
        ),
        data2.to_multiset() == dm.to_multiset(),
        batch_run_rel(
            ops,
            learning_rate,
            minibatch,
            data2,
            data2.len() as int,
            nm,
            am,
            cm,
            net2,
            acc2,
            cnt2,
            err,
        ),
        check_stop_rel(ops, threshold, err, data2.len() as usize),
    ensures
        batch_stopped_rel(
            ops,
            learning_rate,
            minibatch,
            threshold,
            k + 1,
            net1,
            acc1,
            cnt1,
            data1,
            net2,
            acc2,
            cnt2,
            data2,
        ),
{
    assert(batch_stopped_rel(
        ops,
        learning_rate,
        minibatch,
        threshold,
        k + 1,
        net1,
        acc1,
        cnt1,
        data1,
        net2,
        acc2,
        cnt2,
        data2,
    )) by {
        assert(batch_epochs_rel(
            ops,
            learning_rate,
            minibatch,
            true,
            threshold,
            (k + 1) - 1,
            net1,
            acc1,
            cnt1,
            data1,
            nm,
            am,
            cm,
            dm,
        ));
        assert(batch_run_rel(
            ops,
            learning_rate,
            minibatch,
            data2,
            data2.len() as int,
            nm,
            am,
            cm,
            net2,
            acc2,
            cnt2,
            err,
        ));
        assert(check_stop_rel(ops, threshold, err, data2.len() as usize));
    }
}

/// One more test example extends the evaluation run.
proof fn lemma_test_run_push<
    T: Copy,
    FM: Fn(T, T) -> T,
    FS: Fn(T, T) -> T,
    FR: Fn(T, T) -> T,
    FL: Fn(T, T) -> T,
    FT: Fn(T, T) -> T,
    FE: Fn(T) -> T,
    FA: Fn(T, T) -> T,
    FD: Fn(T, T, T) -> T,
    DS: Fn(T, T) -> T,
    DR: Fn(T, T) -> T,
    DL: Fn(T, T) -> T,
    DT: Fn(T, T) -> T,
    DE: Fn(T) -> T,
    DA: Fn(T, T) -> T,
    DM: Fn(T, T) -> T,
    DD: Fn(T, T, T) -> T,
    LS: Fn(T, T) -> T,
    LM: Fn(T, T) -> T,
    LA: Fn(T, T) -> T,
    LH: Fn(T) -> T,
    LC: Fn(T, T) -> T,
    LX: Fn(T, T) -> T,
    FSub: Fn(T, T) -> T,
    FH: Fn(T, T) -> T,
    FMul: Fn(T, T) -> T,
    FU: Fn(T, T, T) -> T,
    FAvg: Fn(T, usize) -> T,
    FB: Fn(T, T) -> bool,
>(
    ops: SessionOps<T, FM, FS, FR, FL, FT, FE, FA, FD, DS, DR, DL, DT, DE, DA, DM, DD, LS, LM, LA, LH, LC, LX, FSub, FH, FMul, FU, FAvg, FB>,
    data: Seq<(Matrix<T>, Matrix<T>)>,
    upto: int,
    net1: DenseNetwork<T>,
    mid: DenseNetwork<T>,
    e_prev: T,
    net2: DenseNetwork<T>,
    e: T,
    err: T,
)
    requires
        0 <= upto < data.len(),
        test_run_rel(ops, data, upto, net1, mid, e_prev),
        test_step_rel(ops, data[upto], mid, net2, e),
        call_ensures(ops.lops.add_fn, (e_prev, e), err),
    ensures
        test_run_rel(ops, data, upto + 1, net1, net2, err),
{
    assert(test_run_rel(ops, data, upto + 1, net1, net2, err)) by {
        assert(test_run_rel(ops, data, (upto + 1) - 1, net1, mid, e_prev));
        assert(test_step_rel(ops, data[(upto + 1) - 1], mid, net2, e));
        assert(call_ensures(ops.lops.add_fn, (e_prev, e), err));
    }
}

/// A session over a dense network: the data sets, the learning rate, the
/// epoch budget, the optional stopping threshold on the mean epoch error,
/// and the mini-batch size (1 trains online).
pub struct DenseSession<T> {
    pub network: DenseNetwork<T>,
    pub training_data: Vec<(Matrix<T>, Matrix<T>)>,
    pub testing_data: Vec<(Matrix<T>, Matrix<T>)>,
    pub learning_rate: T,
    pub epoch: usize,
    pub threshold: T,
    pub stop_on_threshold: bool,
    pub minibatch: usize,
}

impl<T: Copy> DenseSession<T> {
    /// The input layer's size, which every example must match.
    pub open spec fn in_size(self) -> int {
        self.network.layer_size(0)
    }

    /// The output layer's size, which every target must match.
    pub open spec fn out_size(self) -> int {
        self.network.layer_size(self.network.nb_layers as int - 1)
    }

    /// The network is well formed, every pair of both data sets fits it,
    /// and the mini-batch size is at least one.
    pub open spec fn wf(self) -> bool {
        &&& self.network.wf()
        &&& self.minibatch >= 1
        &&& forall|i: int|
            0 <= i < self.training_data@.len() ==> pair_ok(
                #[trigger] self.training_data@[i],
                self.in_size(),
                self.out_size(),
            )
        &&& forall|i: int|
            0 <= i < self.testing_data@.len() ==> pair_ok(
                #[trigger] self.testing_data@[i],
                self.in_size(),
                self.out_size(),
            )
    }

    /// Builds a session. A stopping threshold is in force exactly when one
    /// is given; a missing mini-batch size trains online.
    pub fn new(
        network: DenseNetwork<T>,
        learning_rate: T,
        training_data: Vec<(Matrix<T>, Matrix<T>)>,
        testing_data: Vec<(Matrix<T>, Matrix<T>)>,
        epoch: usize,
        threshold: Option<T>,
        default_threshold: T,
        minibatch: Option<usize>,
    ) -> (s: DenseSession<T>)
        ensures
            s.network == network,
            s.training_data == training_data,
            s.testing_data == testing_data,
            s.learning_rate == learning_rate,
            s.epoch == epoch,
            s.stop_on_threshold == threshold is Some,
            threshold matches Some(t) ==> s.threshold == t,
            threshold is None ==> s.threshold == default_threshold,
            minibatch matches Some(m) ==> s.minibatch == m,
            minibatch is None ==> s.minibatch == 1,
    {
        let (t, stop_on_threshold) = match threshold {
            Some(t) => (t, true),
            None => (default_threshold, false),
        };
        let minibatch = match minibatch {
            Some(m) => m,
            None => 1,
        };
        DenseSession {
            network,
            learning_rate,
            training_data,
            testing_data,
            epoch,
            threshold: t,
            stop_on_threshold,
            minibatch,
        }
    }

    /// Hands the trained network back, consuming the session.
    pub fn release_network(self) -> (n: DenseNetwork<T>)
        ensures
            n == self.network,
    {
        self.network
    }
}


impl<T: Copy + Send + Sync> DenseSession<T> {
    /// The session's configuration and the network's architecture are the
    /// same in both states: only buffers, weights and data order may differ.
    pub open spec fn same_config(self, other: DenseSession<T>) -> bool {
        &&& self.learning_rate == other.learning_rate
        &&& self.epoch == other.epoch
        &&& self.threshold == other.threshold
        &&& self.stop_on_threshold == other.stop_on_threshold
        &&& self.minibatch == other.minibatch
        &&& self.network.nb_layers == other.network.nb_layers
        &&& self.network.loss == other.network.loss
        &&& self.network.activations == other.network.activations
        &&& forall|i: int|
            0 <= i < self.network.nb_layers ==> self.network.layer_size(i)
                == other.network.layer_size(i)
    }

    /// One forward pass on training example `index`: the example's error and
    /// the output layer's delta. No weight moves.
    #[verifier::rlimit(100)]
    fn compute_delta<
        FM: Fn(T, T) -> T + Copy + Send + Sync,
        FS: Fn(T, T) -> T + Copy,
        FR: Fn(T, T) -> T + Copy,
        FL: Fn(T, T) -> T + Copy,
        FT: Fn(T, T) -> T + Copy,
        FE: Fn(T) -> T + Copy,
        FA: Fn(T, T) -> T + Copy + Send + Sync,
        FD: Fn(T, T, T) -> T + Copy,
        DS: Fn(T, T) -> T + Copy,
        DR: Fn(T, T) -> T + Copy,
        DL: Fn(T, T) -> T + Copy,
        DT: Fn(T, T) -> T + Copy,
        DE: Fn(T) -> T + Copy,
        DA: Fn(T, T) -> T + Copy,
        DM: Fn(T, T) -> T + Copy,
        DD: Fn(T, T, T) -> T + Copy,
        LS: Fn(T, T) -> T + Copy,
        LM: Fn(T, T) -> T + Copy,
        LA: Fn(T, T) -> T + Copy,
        LH: Fn(T) -> T + Copy,
        LC: Fn(T, T) -> T + Copy,
        LX: Fn(T, T) -> T + Copy,
        FSub: Fn(T, T) -> T + Copy,
        FH: Fn(T, T) -> T + Copy,
        FMul: Fn(T, T) -> T + Copy,
        FU: Fn(T, T, T) -> T + Copy,
        FAvg: Fn(T, usize) -> T + Copy,
        FB: Fn(T, T) -> bool + Copy,
    >(&mut self, index: usize, multithreaded: bool, ops: &SessionOps<T, FM, FS, FR, FL, FT, FE, FA, FD, DS, DR, DL, DT, DE, DA, DM, DD, LS, LM, LA, LH, LC, LX, FSub, FH, FMul, FU, FAvg, FB>) -> (r: (Matrix<T>, T))
        requires
            old(self).wf(),
            index < old(self).training_data@.len(),
            ops.wf(),
        ensures
            final(self).wf(),
            final(self).same_config(*old(self)),
            final(self).training_data == old(self).training_data,
            final(self).testing_data == old(self).testing_data,
            final(self).network.weights == old(self).network.weights,
            final(self).network.biases == old(self).network.biases,
            r.0.wf(),
            r.0.w == 1,
            r.0.h == old(self).out_size(),
            example_delta_rel(
                *ops,
                old(self).network,
                old(self).training_data@[index as int],
                final(self).network,
                r.0,
                r.1,
            ),
    {
        proof {
            assert(pair_ok(
                self.training_data@[index as int],
                self.in_size(),
                self.out_size(),
            ));
        }
        let input = self.training_data[index].0.duplicate();
        let output = self.training_data[index].1.duplicate();
        self.network.feed_forward(&input, multithreaded, ops.fm, &ops.aops);
        let val = self.network.value();
        let error = match self.network.loss.compute_error(&val, &output, &ops.lops) {
            Ok(e) => e,
            Err(_) => unreached(),
        };
        let delta = match self.network.compute_output_delta(
            &output,
            &ops.dops,
            ops.sub_fn,
            ops.hmul,
        ) {
            Ok(d) => d,
            Err(_) => unreached(),
        };
        proof {
            let pair = old(self).training_data@[index as int];
            assert(forward_pass_rel(*ops, old(self).network, pair.0@, self.network));
            assert(error_rel(
                self.network.loss,
                ops.lops,
                self.network.values@[self.network.nb_layers - 1]@,
                pair.1@,
                error,
            ));
            assert(output_delta_rel(
                self.network.activations@[self.network.nb_layers - 2],
                self.network.values@[self.network.nb_layers - 1]@,
                self.network.raw_values@[self.network.nb_layers - 1]@,
                pair.1@,
                self.network.epsilon,
                ops.dops,
                ops.sub_fn,
                ops.hmul,
                delta@,
            ));
        }
        (delta, error)
    }

    /// Online training: per epoch, shuffle the training set and run one
    /// forward/backward/update cycle per example; stop early exactly when a
    /// configured threshold is undercut by the mean epoch error.
    #[verifier::rlimit(100)]
    fn online_training<
        FM: Fn(T, T) -> T + Copy + Send + Sync,
        FS: Fn(T, T) -> T + Copy,
        FR: Fn(T, T) -> T + Copy,
        FL: Fn(T, T) -> T + Copy,
        FT: Fn(T, T) -> T + Copy,
        FE: Fn(T) -> T + Copy,
        FA: Fn(T, T) -> T + Copy + Send + Sync,
        FD: Fn(T, T, T) -> T + Copy,
        DS: Fn(T, T) -> T + Copy,
        DR: Fn(T, T) -> T + Copy,
        DL: Fn(T, T) -> T + Copy,
        DT: Fn(T, T) -> T + Copy,
        DE: Fn(T) -> T + Copy,
        DA: Fn(T, T) -> T + Copy,
        DM: Fn(T, T) -> T + Copy,
        DD: Fn(T, T, T) -> T + Copy,
        LS: Fn(T, T) -> T + Copy,
        LM: Fn(T, T) -> T + Copy,
        LA: Fn(T, T) -> T + Copy,
        LH: Fn(T) -> T + Copy,
        LC: Fn(T, T) -> T + Copy,
        LX: Fn(T, T) -> T + Copy,
        FSub: Fn(T, T) -> T + Copy,
        FH: Fn(T, T) -> T + Copy,
        FMul: Fn(T, T) -> T + Copy,
        FU: Fn(T, T, T) -> T + Copy,
        FAvg: Fn(T, usize) -> T + Copy,
        FB: Fn(T, T) -> bool + Copy,
    >(&mut self, multithreaded: bool, ops: &SessionOps<T, FM, FS, FR, FL, FT, FE, FA, FD, DS, DR, DL, DT, DE, DA, DM, DD, LS, LM, LA, LH, LC, LX, FSub, FH, FMul, FU, FAvg, FB>)
        requires
            old(self).wf(),
            ops.wf(),
        ensures
            final(self).wf(),
            final(self).same_config(*old(self)),
            final(self).training_data@.to_multiset() == old(self).training_data@.to_multiset(),
            final(self).testing_data == old(self).testing_data,
            online_trained_rel(*ops, *old(self), final(self).network, final(self).training_data@),
    {
        let epochs = self.epoch;
        let mut ep: usize = 0;
        while ep < epochs
            invariant_except_break
                online_epochs_rel(
                    *ops,
                    old(self).learning_rate,
                    old(self).stop_on_threshold,
                    old(self).threshold,
                    ep as int,
                    old(self).network,
                    old(self).training_data@,
                    self.network,
                    self.training_data@,
                ),
            invariant
                self.wf(),
                ops.wf(),
                ep <= epochs,
                epochs == old(self).epoch,
                self.same_config(*old(self)),
                self.training_data@.to_multiset() == old(self).training_data@.to_multiset(),
                self.testing_data == old(self).testing_data,
            ensures
                self.wf(),
                self.same_config(*old(self)),
                self.training_data@.to_multiset() == old(self).training_data@.to_multiset(),
                self.testing_data == old(self).testing_data,
                online_trained_rel(*ops, *old(self), self.network, self.training_data@),
            decreases epochs - ep,
        {
            let ghost nm = self.network;
            let ghost dm = self.training_data@;
            let ghost pre = self.training_data@;
            shuffle_in_place(&mut self.training_data);
            proof {
                lemma_permutation_members(pre, self.training_data@);
                assert forall|i: int| 0 <= i < self.training_data@.len() implies pair_ok(
                    #[trigger] self.training_data@[i],
                    self.in_size(),
                    self.out_size(),
                ) by {
                    let e = self.training_data@[i];
                    let j = choose|j: int| 0 <= j < pre.len() && pre[j] == e;
                    assert(pair_ok(pre[j], self.in_size(), self.out_size()));
                }
            }
            let ghost sh = self.training_data@;
            let mut err_sum = ops.lops.zero;
            let n = self.training_data.len();
            let mut i: usize = 0;
            while i < n
                invariant
                    self.wf(),
                    ops.wf(),
                    i <= n,
                    n == self.training_data@.len(),
                    self.training_data@ == sh,
                    self.same_config(*old(self)),
                    self.testing_data == old(self).testing_data,
                    sh.to_multiset() == old(self).training_data@.to_multiset(),
                    online_run_rel(
                        *ops,
                        old(self).learning_rate,
                        sh,
                        i as int,
                        nm,
                        self.network,
                        err_sum,
                    ),
                decreases n - i,
            {
                let ghost net_pre = self.network;
                let (delta, error) = self.compute_delta(i, multithreaded, ops);
                let ghost mid = self.network;
                let ghost gdelta = delta;
                let deltas = self.network.feed_backward(
                    delta,
                    multithreaded,
                    ops.aops.zero,
                    ops.aops.add_fn,
                    ops.fm,
                    ops.hmul,
                    &ops.dops,
                );
                let ghost gdeltas = deltas@;
                self.network.update_weights(
                    deltas,
                    self.learning_rate,
                    ops.mul_fn,
                    ops.sub_fn,
                    ops.upd_fn,
                );
                let next = (ops.lops.add_fn)(err_sum, error);
                proof {
                    assert(backward_list_rel(*ops, mid, gdelta, gdeltas));
                    assert(update_rel(*ops, old(self).learning_rate, mid, gdeltas, self.network));
                    assert(online_step_rel(
                        *ops,
                        old(self).learning_rate,
                        sh[i as int],
                        net_pre,
                        self.network,
                        error,
                    ));
                    lemma_online_run_push(
                        *ops,
                        old(self).learning_rate,
                        sh,
                        i as int,
                        nm,
                        net_pre,
                        err_sum,
                        self.network,
                        error,
                        next,
                    );
                }
                err_sum = next;
                i += 1;
            }
            if self.stop_on_threshold {
                let ratio = (ops.avg_fn)(err_sum, n);
                if (ops.below_fn)(ratio, self.threshold) {
                    proof {
                        assert(check_stop_rel(*ops, old(self).threshold, err_sum, n));
                        lemma_online_stopped_intro(
                            *ops,
                            old(self).learning_rate,
                            old(self).threshold,
                            ep as int,
                            old(self).network,
                            old(self).training_data@,
                            nm,
                            dm,
                            self.network,
                            self.training_data@,
                            err_sum,
                        );
                        assert(online_trained_rel(
                            *ops,
                            *old(self),
                            self.network,
                            self.training_data@,
                        ));
                    }
                    break;
                }
                proof {
                    assert(check_continue_rel(
                        *ops,
                        old(self).stop_on_threshold,
                        old(self).threshold,
                        err_sum,
                        n,
                    ));
                }
            }
            proof {
                assert(check_continue_rel(
                    *ops,
                    old(self).stop_on_threshold,
                    old(self).threshold,
                    err_sum,
                    n,
                ));
                lemma_online_epochs_push(
                    *ops,
                    old(self).learning_rate,
                    old(self).stop_on_threshold,
                    old(self).threshold,
                    ep as int,
                    old(self).network,
                    old(self).training_data@,
                    nm,
                    dm,
                    self.network,
                    self.training_data@,
                    err_sum,
                );
            }
            ep += 1;
        }
        proof {
            if ep >= epochs {
                assert(online_trained_rel(*ops, *old(self), self.network, self.training_data@));
            }
        }
    }

    /// Mini-batch training: output deltas accumulate over each batch, are
    /// averaged once the batch is full, and only then propagated backward
    /// and applied, the accumulator resetting after every update; stop
    /// early exactly when a configured threshold is undercut by the mean
    /// epoch error.
    #[verifier::rlimit(100)]
    fn batch_training<
        FM: Fn(T, T) -> T + Copy + Send + Sync,
        FS: Fn(T, T) -> T + Copy,
        FR: Fn(T, T) -> T + Copy,
        FL: Fn(T, T) -> T + Copy,
        FT: Fn(T, T) -> T + Copy,
        FE: Fn(T) -> T + Copy,
        FA: Fn(T, T) -> T + Copy + Send + Sync,
        FD: Fn(T, T, T) -> T + Copy,
        DS: Fn(T, T) -> T + Copy,
        DR: Fn(T, T) -> T + Copy,
        DL: Fn(T, T) -> T + Copy,
        DT: Fn(T, T) -> T + Copy,
        DE: Fn(T) -> T + Copy,
        DA: Fn(T, T) -> T + Copy,
        DM: Fn(T, T) -> T + Copy,
        DD: Fn(T, T, T) -> T + Copy,
        LS: Fn(T, T) -> T + Copy,
        LM: Fn(T, T) -> T + Copy,
        LA: Fn(T, T) -> T + Copy,
        LH: Fn(T) -> T + Copy,
        LC: Fn(T, T) -> T + Copy,
        LX: Fn(T, T) -> T + Copy,
        FSub: Fn(T, T) -> T + Copy,
        FH: Fn(T, T) -> T + Copy,
        FMul: Fn(T, T) -> T + Copy,
        FU: Fn(T, T, T) -> T + Copy,
        FAvg: Fn(T, usize) -> T + Copy,
        FB: Fn(T, T) -> bool + Copy,
    >(&mut self, multithreaded: bool, ops: &SessionOps<T, FM, FS, FR, FL, FT, FE, FA, FD, DS, DR, DL, DT, DE, DA, DM, DD, LS, LM, LA, LH, LC, LX, FSub, FH, FMul, FU, FAvg, FB>)
        requires
            old(self).wf(),
            ops.wf(),
        ensures
            final(self).wf(),
            final(self).same_config(*old(self)),
            final(self).training_data@.to_multiset() == old(self).training_data@.to_multiset(),
            final(self).testing_data == old(self).testing_data,
            batch_trained_rel(*ops, *old(self), final(self).network, final(self).training_data@),
    {
        let (w, h) = self.network.output_shape();
        proof {
            assert(1 * h == h);
        }
        let mut batch_delta: Matrix<T> = Matrix::new(w, h, ops.aops.zero);
        let ghost acc0 = batch_delta;
        let mut batch_counter: usize = 0;
        let epochs = self.epoch;
        let mut ep: usize = 0;
        while ep < epochs
            invariant_except_break
                batch_epochs_rel(
                    *ops,
                    old(self).learning_rate,
                    old(self).minibatch,
                    old(self).stop_on_threshold,
                    old(self).threshold,
                    ep as int,
                    old(self).network,
                    acc0,
                    0,
                    old(self).training_data@,
                    self.network,
                    batch_delta,
                    batch_counter as int,
                    self.training_data@,
                ),
            invariant
                self.wf(),
                ops.wf(),
                ep <= epochs,
                epochs == old(self).epoch,
                self.same_config(*old(self)),
                self.training_data@.to_multiset() == old(self).training_data@.to_multiset(),
                self.testing_data == old(self).testing_data,
                w == 1,
                h == self.out_size(),
                acc0.wf() && acc0.w == 1 && acc0.h == old(self).out_size(),
                forall|x: int| 0 <= x < acc0@.len() ==> #[trigger] acc0@[x] == ops.aops.zero,
                batch_delta.wf(),
                batch_delta.w == 1,
                batch_delta.h == self.out_size(),
                batch_counter < self.minibatch,
            ensures
                self.wf(),
                self.same_config(*old(self)),
                self.training_data@.to_multiset() == old(self).training_data@.to_multiset(),
                self.testing_data == old(self).testing_data,
                batch_trained_rel(*ops, *old(self), self.network, self.training_data@),
            decreases epochs - ep,
        {
            let ghost nm = self.network;
            let ghost dm = self.training_data@;
            let ghost ae = batch_delta;
            let ghost ce = batch_counter as int;
            let ghost pre = self.training_data@;
            shuffle_in_place(&mut self.training_data);
            proof {
                lemma_permutation_members(pre, self.training_data@);
                assert forall|i: int| 0 <= i < self.training_data@.len() implies pair_ok(
                    #[trigger] self.training_data@[i],
                    self.in_size(),
                    self.out_size(),
                ) by {
                    let e = self.training_data@[i];
                    let j = choose|j: int| 0 <= j < pre.len() && pre[j] == e;
                    assert(pair_ok(pre[j], self.in_size(), self.out_size()));
                }
            }
            let ghost sh = self.training_data@;
            let mut err_sum = ops.lops.zero;
            let n = self.training_data.len();
            let mut i: usize = 0;
            while i < n
                invariant
                    self.wf(),
                    ops.wf(),
                    i <= n,
                    n == self.training_data@.len(),
                    self.training_data@ == sh,
                    self.same_config(*old(self)),
                    self.testing_data == old(self).testing_data,
                    sh.to_multiset() == old(self).training_data@.to_multiset(),
                    w == 1,
                    h == self.out_size(),
                    batch_delta.wf(),
                    batch_delta.w == 1,
                    batch_delta.h == self.out_size(),
                    batch_counter < self.minibatch,
                    batch_run_rel(
                        *ops,
                        old(self).learning_rate,
                        old(self).minibatch,
                        sh,
                        i as int,
                        nm,
                        ae,
                        ce,
                        self.network,
                        batch_delta,
                        batch_counter as int,
                        err_sum,
                    ),
                decreases n - i,
            {
                let ghost net_pre = self.network;
                let ghost acc_pre = batch_delta;
                let ghost cnt_pre = batch_counter as int;
                let (output_delta, error) = self.compute_delta(i, multithreaded, ops);
                let ghost mid = self.network;
                let ghost gdelta = output_delta;
                batch_delta = match output_delta.plus(&batch_delta, ops.aops.add_fn) {
                    Ok(m) => m,
                    Err(_) => unreached(),
                };
                let ghost summed = batch_delta;
                batch_counter = batch_counter + 1;
                let next = (ops.lops.add_fn)(err_sum, error);
                if batch_counter >= self.minibatch {
                    batch_delta.map2(ops.avg_fn, self.minibatch);
                    let ghost avgd = batch_delta;
                    let deltas = self.network.feed_backward(
                        batch_delta,
                        multithreaded,
                        ops.aops.zero,
                        ops.aops.add_fn,
                        ops.fm,
                        ops.hmul,
                        &ops.dops,
                    );
                    let ghost gdeltas = deltas@;
                    self.network.update_weights(
                        deltas,
                        self.learning_rate,
                        ops.mul_fn,
                        ops.sub_fn,
                        ops.upd_fn,
                    );
                    batch_counter = 0;
                    proof {
                        assert(1 * h == h);
                    }
                    batch_delta = Matrix::new(w, h, ops.aops.zero);
                    proof {
                        assert(pointwise_rel(ops.aops.add_fn, gdelta@, acc_pre@, summed@));
                        assert(pointwise_count_rel(
                            ops.avg_fn,
                            summed@,
                            old(self).minibatch,
                            avgd@,
                        ));
                        assert(backward_list_rel(*ops, mid, avgd, gdeltas));
                        assert(update_rel(
                            *ops,
                            old(self).learning_rate,
                            mid,
                            gdeltas,
                            self.network,
                        ));
                        assert(batch_step_rel(
                            *ops,
                            old(self).learning_rate,
                            old(self).minibatch,
                            sh[i as int],
                            net_pre,
                            acc_pre,
                            cnt_pre,
                            self.network,
                            batch_delta,
                            0,
                            error,
                        ));
                    }
                } else {
                    proof {
                        assert(pointwise_rel(ops.aops.add_fn, gdelta@, acc_pre@, summed@));
                        assert(batch_step_rel(
                            *ops,
                            old(self).learning_rate,
                            old(self).minibatch,
                            sh[i as int],
                            net_pre,
                            acc_pre,
                            cnt_pre,
                            self.network,
                            batch_delta,
                            cnt_pre + 1,
                            error,
                        ));
                    }
                }
                proof {
                    lemma_batch_run_push(
                        *ops,
                        old(self).learning_rate,
                        old(self).minibatch,
                        sh,
                        i as int,
                        nm,
                        ae,
                        ce,
                        net_pre,
                        acc_pre,
                        cnt_pre,
                        err_sum,
                        self.network,
                        batch_delta,
                        batch_counter as int,
                        error,
                        next,
                    );
                }
                err_sum = next;
                i += 1;
            }
            if self.stop_on_threshold {
                let ratio = (ops.avg_fn)(err_sum, n);
                if (ops.below_fn)(ratio, self.threshold) {
                    proof {
                        assert(check_stop_rel(*ops, old(self).threshold, err_sum, n));
                        lemma_batch_stopped_intro(
                            *ops,
                            old(self).learning_rate,
                            old(self).minibatch,
                            old(self).threshold,
                            ep as int,
                            old(self).network,
                            acc0,
                            0,
                            old(self).training_data@,
                            nm,
                            ae,
                            ce,
                            dm,
                            self.network,
                            batch_delta,
                            batch_counter as int,
                            self.training_data@,
                            err_sum,
                        );
                        assert(batch_trained_rel(
                            *ops,
                            *old(self),
                            self.network,
                            self.training_data@,
                        ));
                    }
                    break;
                }
                proof {
                    assert(check_continue_rel(
                        *ops,
                        old(self).stop_on_threshold,
                        old(self).threshold,
                        err_sum,
                        n,
                    ));
                }
            }
            proof {
                assert(check_continue_rel(
                    *ops,
                    old(self).stop_on_threshold,
                    old(self).threshold,
                    err_sum,
                    n,
                ));
                lemma_batch_epochs_push(
                    *ops,
                    old(self).learning_rate,
                    old(self).minibatch,
                    old(self).stop_on_threshold,
                    old(self).threshold,
                    ep as int,
                    old(self).network,
                    acc0,
                    0,
                    old(self).training_data@,
                    nm,
                    ae,
                    ce,
                    dm,
                    self.network,
                    batch_delta,
                    batch_counter as int,
                    self.training_data@,
                    err_sum,
                );
            }
            ep += 1;
        }
        proof {
            if ep >= epochs {
                assert(batch_trained_rel(*ops, *old(self), self.network, self.training_data@));
            }
        }
    }

    /// Runs the configured training: online when the mini-batch size is 1,
    /// mini-batch training otherwise.
    pub fn train<
        FM: Fn(T, T) -> T + Copy + Send + Sync,
        FS: Fn(T, T) -> T + Copy,
        FR: Fn(T, T) -> T + Copy,
        FL: Fn(T, T) -> T + Copy,
        FT: Fn(T, T) -> T + Copy,
        FE: Fn(T) -> T + Copy,
        FA: Fn(T, T) -> T + Copy + Send + Sync,
        FD: Fn(T, T, T) -> T + Copy,
        DS: Fn(T, T) -> T + Copy,
        DR: Fn(T, T) -> T + Copy,
        DL: Fn(T, T) -> T + Copy,
        DT: Fn(T, T) -> T + Copy,
        DE: Fn(T) -> T + Copy,
        DA: Fn(T, T) -> T + Copy,
        DM: Fn(T, T) -> T + Copy,
        DD: Fn(T, T, T) -> T + Copy,
        LS: Fn(T, T) -> T + Copy,
        LM: Fn(T, T) -> T + Copy,
        LA: Fn(T, T) -> T + Copy,
        LH: Fn(T) -> T + Copy,
        LC: Fn(T, T) -> T + Copy,
        LX: Fn(T, T) -> T + Copy,
        FSub: Fn(T, T) -> T + Copy,
        FH: Fn(T, T) -> T + Copy,
        FMul: Fn(T, T) -> T + Copy,
        FU: Fn(T, T, T) -> T + Copy,
        FAvg: Fn(T, usize) -> T + Copy,
        FB: Fn(T, T) -> bool + Copy,
    >(&mut self, multithreaded: bool, ops: &SessionOps<T, FM, FS, FR, FL, FT, FE, FA, FD, DS, DR, DL, DT, DE, DA, DM, DD, LS, LM, LA, LH, LC, LX, FSub, FH, FMul, FU, FAvg, FB>)
        requires
            old(self).wf(),
            ops.wf(),
        ensures
            final(self).wf(),
            final(self).same_config(*old(self)),
            final(self).training_data@.to_multiset() == old(self).training_data@.to_multiset(),
            final(self).testing_data == old(self).testing_data,
            trained_rel(*ops, *old(self), final(self).network, final(self).training_data@),
    {
        if self.minibatch == 1 {
            self.online_training(multithreaded, ops);
        } else {
            self.batch_training(multithreaded, ops);
        }
    }

    /// One forward pass per test example, the per-example losses folded in
    /// order into the returned total; no weight moves.
    #[verifier::rlimit(100)]
    pub fn test<
        FM: Fn(T, T) -> T + Copy + Send + Sync,
        FS: Fn(T, T) -> T + Copy,
        FR: Fn(T, T) -> T + Copy,
        FL: Fn(T, T) -> T + Copy,
        FT: Fn(T, T) -> T + Copy,
        FE: Fn(T) -> T + Copy,
        FA: Fn(T, T) -> T + Copy + Send + Sync,
        FD: Fn(T, T, T) -> T + Copy,
        DS: Fn(T, T) -> T + Copy,
        DR: Fn(T, T) -> T + Copy,
        DL: Fn(T, T) -> T + Copy,
        DT: Fn(T, T) -> T + Copy,
        DE: Fn(T) -> T + Copy,
        DA: Fn(T, T) -> T + Copy,
        DM: Fn(T, T) -> T + Copy,
        DD: Fn(T, T, T) -> T + Copy,
        LS: Fn(T, T) -> T + Copy,
        LM: Fn(T, T) -> T + Copy,
        LA: Fn(T, T) -> T + Copy,
        LH: Fn(T) -> T + Copy,
        LC: Fn(T, T) -> T + Copy,
        LX: Fn(T, T) -> T + Copy,
        FSub: Fn(T, T) -> T + Copy,
        FH: Fn(T, T) -> T + Copy,
        FMul: Fn(T, T) -> T + Copy,
        FU: Fn(T, T, T) -> T + Copy,
        FAvg: Fn(T, usize) -> T + Copy,
        FB: Fn(T, T) -> bool + Copy,
    >(&mut self, multithreaded: bool, ops: &SessionOps<T, FM, FS, FR, FL, FT, FE, FA, FD, DS, DR, DL, DT, DE, DA, DM, DD, LS, LM, LA, LH, LC, LX, FSub, FH, FMul, FU, FAvg, FB>) -> (err: T)
        requires
            old(self).wf(),
            ops.wf(),
        ensures
            final(self).wf(),
            final(self).same_config(*old(self)),
            final(self).training_data == old(self).training_data,
            final(self).testing_data == old(self).testing_data,
            final(self).network.weights == old(self).network.weights,
            final(self).network.biases == old(self).network.biases,
            tested_rel(*ops, *old(self), final(self).network, err),
    {
        let mut err = ops.lops.zero;
        let n = self.testing_data.len();
        let mut i: usize = 0;
        while i < n
            invariant
                self.wf(),
                ops.wf(),
                i <= n,
                n == self.testing_data@.len(),
                self.same_config(*old(self)),
                self.training_data == old(self).training_data,
                self.testing_data == old(self).testing_data,
                self.network.weights == old(self).network.weights,
                self.network.biases == old(self).network.biases,
                test_run_rel(
                    *ops,
                    old(self).testing_data@,
                    i as int,
                    old(self).network,
                    self.network,
                    err,
                ),
            decreases n - i,
        {
            proof {
                assert(pair_ok(self.testing_data@[i as int], self.in_size(), self.out_size()));
            }
            let ghost net_pre = self.network;
            let input = self.testing_data[i].0.duplicate();
            let output = self.testing_data[i].1.duplicate();
            self.network.feed_forward(&input, multithreaded, ops.fm, &ops.aops);
            let val = self.network.value();
            let error = match self.network.loss.compute_error(&val, &output, &ops.lops) {
                Ok(e) => e,
                Err(_) => unreached(),
            };
            let next = (ops.lops.add_fn)(err, error);
            proof {
                let pair = old(self).testing_data@[i as int];
                assert(forward_pass_rel(*ops, net_pre, pair.0@, self.network));
                assert(error_rel(
                    self.network.loss,
                    ops.lops,
                    self.network.values@[self.network.nb_layers - 1]@,
                    pair.1@,
                    error,
                ));
                assert(test_step_rel(*ops, pair, net_pre, self.network, error));
                lemma_test_run_push(
                    *ops,
                    old(self).testing_data@,
                    i as int,
                    old(self).network,
                    net_pre,
                    err,
                    self.network,
                    error,
                    next,
                );
            }
            err = next;
            i += 1;
        }
        err
    }

    /// Trains, then measures the total loss over the held-out test set: the
    /// training chain from the old state reaches an intermediate network,
    /// and the returned total folds that network's per-example test losses.
    pub fn fit<
        FM: Fn(T, T) -> T + Copy + Send + Sync,
        FS: Fn(T, T) -> T + Copy,
        FR: Fn(T, T) -> T + Copy,
        FL: Fn(T, T) -> T + Copy,
        FT: Fn(T, T) -> T + Copy,
        FE: Fn(T) -> T + Copy,
        FA: Fn(T, T) -> T + Copy + Send + Sync,
        FD: Fn(T, T, T) -> T + Copy,
        DS: Fn(T, T) -> T + Copy,
        DR: Fn(T, T) -> T + Copy,
        DL: Fn(T, T) -> T + Copy,
        DT: Fn(T, T) -> T + Copy,
        DE: Fn(T) -> T + Copy,
        DA: Fn(T, T) -> T + Copy,
        DM: Fn(T, T) -> T + Copy,
        DD: Fn(T, T, T) -> T + Copy,
        LS: Fn(T, T) -> T + Copy,
        LM: Fn(T, T) -> T + Copy,
        LA: Fn(T, T) -> T + Copy,
        LH: Fn(T) -> T + Copy,
        LC: Fn(T, T) -> T + Copy,
        LX: Fn(T, T) -> T + Copy,
        FSub: Fn(T, T) -> T + Copy,
        FH: Fn(T, T) -> T + Copy,
        FMul: Fn(T, T) -> T + Copy,
        FU: Fn(T, T, T) -> T + Copy,
        FAvg: Fn(T, usize) -> T + Copy,
        FB: Fn(T, T) -> bool + Copy,
    >(&mut self, multithreaded: bool, ops: &SessionOps<T, FM, FS, FR, FL, FT, FE, FA, FD, DS, DR, DL, DT, DE, DA, DM, DD, LS, LM, LA, LH, LC, LX, FSub, FH, FMul, FU, FAvg, FB>) -> (err: T)
        requires
            old(self).wf(),
            ops.wf(),
        ensures
            final(self).wf(),
            final(self).same_config(*old(self)),
            final(self).training_data@.to_multiset() == old(self).training_data@.to_multiset(),
            final(self).testing_data == old(self).testing_data,
            exists|tn: DenseNetwork<T>, td: Seq<(Matrix<T>, Matrix<T>)>|
                {
                    &&& #[trigger] trained_rel(*ops, *old(self), tn, td)
                    &&& final(self).training_data@ == td
                    &&& test_run_rel(
                        *ops,
                        old(self).testing_data@,
                        old(self).testing_data@.len() as int,
                        tn,
                        final(self).network,
                        err,
                    )
                },
    {
        self.train(multithreaded, ops);
        let ghost tn = self.network;
        let ghost td = self.training_data@;
        let r = self.test(multithreaded, ops);
        proof {
            assert(trained_rel(*ops, *old(self), tn, td));
            assert(test_run_rel(
                *ops,
                old(self).testing_data@,
                old(self).testing_data@.len() as int,
                tn,
                self.network,
                r,
            ));
        }
        r
    }
}

} // verus!
