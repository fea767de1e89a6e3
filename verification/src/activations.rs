//! Activation selectors: closed enumerations of the activation functions a
//! layer can carry, with their textual names.
//!
//! The scalar formulas themselves are supplied by the caller; the selectors
//! fix which formula a layer uses and how a name decodes to a selector.

use crate::combine::{
    accepts_all, accepts_pairs, accepts_triples, combine_rel, deterministic1, deterministic2,
    deterministic3, lemma_combine_rel_deterministic,
};
use crate::matrix::Matrix;
use crate::text::str_eq;
use vstd::prelude::*;

verus! {

/// The scalar operations an activation application needs, supplied by the
/// caller: one map per per-scalar activation (each of the scalar and the
/// stability constant), and the pieces of the matrix-wide softmax
/// (exponentiation, addition for the sum, and the clamped division of an
/// entry by the sum).
pub struct ActivationOps<T, FS, FR, FL, FT, FE, FA, FD> {
    pub zero: T,
    pub sigmoid_fn: FS,
    pub relu_fn: FR,
    pub leaky_relu_fn: FL,
    pub tanh_fn: FT,
    pub exp_fn: FE,
    pub add_fn: FA,
    pub div_clamp_fn: FD,
}

impl<
    T,
    FS: Fn(T, T) -> T,
    FR: Fn(T, T) -> T,
    FL: Fn(T, T) -> T,
    FT: Fn(T, T) -> T,
    FE: Fn(T) -> T,
    FA: Fn(T, T) -> T,
    FD: Fn(T, T, T) -> T,
> ActivationOps<T, FS, FR, FL, FT, FE, FA, FD> {
    /// Every operation accepts every input.
    pub open spec fn wf(self) -> bool {
        &&& accepts_pairs(self.sigmoid_fn)
        &&& accepts_pairs(self.relu_fn)
        &&& accepts_pairs(self.leaky_relu_fn)
        &&& accepts_pairs(self.tanh_fn)
        &&& accepts_all(self.exp_fn)
        &&& accepts_pairs(self.add_fn)
        &&& accepts_triples(self.div_clamp_fn)
    }

    /// Every operation relates each input to at most one output.
    pub open spec fn deterministic(self) -> bool {
        &&& deterministic2(self.sigmoid_fn)
        &&& deterministic2(self.relu_fn)
        &&& deterministic2(self.leaky_relu_fn)
        &&& deterministic2(self.tanh_fn)
        &&& deterministic1(self.exp_fn)
        &&& deterministic2(self.add_fn)
        &&& deterministic3(self.div_clamp_fn)
    }
}

/// `after` is a possible application of the activation `a` to `before` with
/// stability constant `eps`: the per-scalar activations map entry by entry,
/// and softmax exponentiates every entry, folds the exponentials into a sum,
/// and divides each exponential by that sum (clamped).
pub open spec fn applied_rel<
    T,
    FS: Fn(T, T) -> T,
    FR: Fn(T, T) -> T,
    FL: Fn(T, T) -> T,
    FT: Fn(T, T) -> T,
    FE: Fn(T) -> T,
    FA: Fn(T, T) -> T,
    FD: Fn(T, T, T) -> T,
>(
    a: DenseActivation,
    ops: ActivationOps<T, FS, FR, FL, FT, FE, FA, FD>,
    eps: T,
    before: Seq<T>,
    after: Seq<T>,
) -> bool {
    &&& after.len() == before.len()
    &&& match a {
        DenseActivation::Sigmoid => forall|i: int|
            0 <= i < before.len() ==> call_ensures(
                ops.sigmoid_fn,
                (before[i], eps),
                #[trigger] after[i],
            ),
        DenseActivation::Relu => forall|i: int|
            0 <= i < before.len() ==> call_ensures(
                ops.relu_fn,
                (before[i], eps),
                #[trigger] after[i],
            ),
        DenseActivation::LeakyRelu => forall|i: int|
            0 <= i < before.len() ==> call_ensures(
                ops.leaky_relu_fn,
                (before[i], eps),
                #[trigger] after[i],
            ),
        DenseActivation::Tanh => forall|i: int|
            0 <= i < before.len() ==> call_ensures(
                ops.tanh_fn,
                (before[i], eps),
                #[trigger] after[i],
            ),
        DenseActivation::Softmax => exists|expd: Seq<T>, s: T|
            {
                &&& expd.len() == before.len()
                &&& forall|i: int|
                    0 <= i < before.len() ==> call_ensures(
                        ops.exp_fn,
                        (before[i],),
                        #[trigger] expd[i],
                    )
                &&& #[trigger] combine_rel(ops.add_fn, expd, ops.zero, s)
                &&& forall|i: int|
                    0 <= i < before.len() ==> call_ensures(
                        ops.div_clamp_fn,
                        (expd[i], s, eps),
                        #[trigger] after[i],
                    )
            },
    }
}

/// The activation functions a dense layer can carry.
#[derive(Clone, Copy, Debug, PartialEq, Eq, Structural)]
pub enum DenseActivation {
    Sigmoid,
    Relu,
    LeakyRelu,
    Softmax,
    Tanh,
}

impl DenseActivation {
    /// The textual name of the selector.
    pub open spec fn name(self) -> Seq<char> {
        match self {
            DenseActivation::Sigmoid => "Sigmoid"@,
            DenseActivation::Relu => "Relu"@,
            DenseActivation::LeakyRelu => "LeakyRelu"@,
            DenseActivation::Softmax => "Softmax"@,
            DenseActivation::Tanh => "Tanh"@,
        }
    }

    /// How a name decodes: exactly the five names above are accepted.
    pub open spec fn of_name(s: Seq<char>) -> Result<DenseActivation, ()> {
        if s == "Sigmoid"@ {
            Ok(DenseActivation::Sigmoid)
        } else if s == "Relu"@ {
            Ok(DenseActivation::Relu)
        } else if s == "LeakyRelu"@ {
            Ok(DenseActivation::LeakyRelu)
        } else if s == "Softmax"@ {
            Ok(DenseActivation::Softmax)
        } else if s == "Tanh"@ {
            Ok(DenseActivation::Tanh)
        } else {
            Err(())
        }
    }

    pub fn from_str(input: &str) -> (r: Result<DenseActivation, ()>)
        ensures
            r == DenseActivation::of_name(input@),
    {
        if str_eq(input, "Sigmoid") {
            Ok(DenseActivation::Sigmoid)
        } else if str_eq(input, "Relu") {
            Ok(DenseActivation::Relu)
        } else if str_eq(input, "LeakyRelu") {
            Ok(DenseActivation::LeakyRelu)
        } else if str_eq(input, "Softmax") {
            Ok(DenseActivation::Softmax)
        } else if str_eq(input, "Tanh") {
            Ok(DenseActivation::Tanh)
        } else {
            Err(())
        }
    }

    pub fn to_string(&self) -> (r: String)
        ensures
            r@ == self.name(),
    {
        match self {
            DenseActivation::Sigmoid => "Sigmoid".to_owned(),
            DenseActivation::Relu => "Relu".to_owned(),
            DenseActivation::LeakyRelu => "LeakyRelu".to_owned(),
            DenseActivation::Softmax => "Softmax".to_owned(),
            DenseActivation::Tanh => "Tanh".to_owned(),
        }
    }
}

impl DenseActivation {
    /// Applies the selected activation to every entry of `mat` (matrix-wide
    /// for softmax), with stability constant `eps`.
    pub fn apply<
        T: Copy,
        FS: Fn(T, T) -> T + Copy,
        FR: Fn(T, T) -> T + Copy,
        FL: Fn(T, T) -> T + Copy,
        FT: Fn(T, T) -> T + Copy,
        FE: Fn(T) -> T + Copy,
        FA: Fn(T, T) -> T + Copy,
        FD: Fn(T, T, T) -> T + Copy,
    >(
        &self,
        mat: &mut Matrix<T>,
        eps: T,
        ops: &ActivationOps<T, FS, FR, FL, FT, FE, FA, FD>,
    )
        requires
            old(mat).wf(),
            ops.wf(),
        ensures
            final(mat).wf(),
            final(mat).w == old(mat).w,
            final(mat).h == old(mat).h,
            applied_rel(*self, *ops, eps, old(mat)@, final(mat)@),
    {
        match self {
            DenseActivation::Sigmoid => mat.map2(ops.sigmoid_fn, eps),
            DenseActivation::Relu => mat.map2(ops.relu_fn, eps),
            DenseActivation::LeakyRelu => mat.map2(ops.leaky_relu_fn, eps),
            DenseActivation::Softmax => softmax_matrix(mat, eps, ops),
            DenseActivation::Tanh => mat.map2(ops.tanh_fn, eps),
        }
    }

    /// Applies the derivative of the selected activation to every entry of
    /// `mat` (matrix-wide for softmax), with stability constant `eps`.
    pub fn derivative<
        T: Copy,
        FS: Fn(T, T) -> T + Copy,
        FR: Fn(T, T) -> T + Copy,
        FL: Fn(T, T) -> T + Copy,
        FT: Fn(T, T) -> T + Copy,
        FE: Fn(T) -> T + Copy,
        FA: Fn(T, T) -> T + Copy,
        FM: Fn(T, T) -> T + Copy,
        FD: Fn(T, T, T) -> T + Copy,
    >(
        &self,
        mat: &mut Matrix<T>,
        eps: T,
        dops: &DerivativeOps<T, FS, FR, FL, FT, FE, FA, FM, FD>,
    )
        requires
            old(mat).wf(),
            dops.wf(),
        ensures
            final(mat).wf(),
            final(mat).w == old(mat).w,
            final(mat).h == old(mat).h,
            derivative_rel(*self, *dops, eps, old(mat)@, final(mat)@),
    {
        match self {
            DenseActivation::Sigmoid => mat.map2(dops.dsigmoid_fn, eps),
            DenseActivation::Relu => mat.map2(dops.drelu_fn, eps),
            DenseActivation::LeakyRelu => mat.map2(dops.dleaky_relu_fn, eps),
            DenseActivation::Softmax => dsoftmax_matrix(mat, eps, dops),
            DenseActivation::Tanh => mat.map2(dops.dtanh_fn, eps),
        }
    }
}

/// An activation application through deterministic operations has exactly
/// one outcome.
pub proof fn lemma_applied_rel_deterministic<
    T,
    FS: Fn(T, T) -> T,
    FR: Fn(T, T) -> T,
    FL: Fn(T, T) -> T,
    FT: Fn(T, T) -> T,
    FE: Fn(T) -> T,
    FA: Fn(T, T) -> T,
    FD: Fn(T, T, T) -> T,
>(
    a: DenseActivation,
    ops: ActivationOps<T, FS, FR, FL, FT, FE, FA, FD>,
    eps: T,
    before: Seq<T>,
    after1: Seq<T>,
    after2: Seq<T>,
)
    requires
        ops.deterministic(),
        applied_rel(a, ops, eps, before, after1),
        applied_rel(a, ops, eps, before, after2),
    ensures
        after1 == after2,
{
    match a {
        DenseActivation::Softmax => {
            let (expd1, s1) = choose|expd: Seq<T>, s: T|
                {
                    &&& expd.len() == before.len()
                    &&& forall|i: int|
                        0 <= i < before.len() ==> call_ensures(
                            ops.exp_fn,
                            (before[i],),
                            #[trigger] expd[i],
                        )
                    &&& #[trigger] combine_rel(ops.add_fn, expd, ops.zero, s)
                    &&& forall|i: int|
                        0 <= i < before.len() ==> call_ensures(
                            ops.div_clamp_fn,
                            (expd[i], s, eps),
                            #[trigger] after1[i],
                        )
                };
            let (expd2, s2) = choose|expd: Seq<T>, s: T|
                {
                    &&& expd.len() == before.len()
                    &&& forall|i: int|
                        0 <= i < before.len() ==> call_ensures(
                            ops.exp_fn,
                            (before[i],),
                            #[trigger] expd[i],
                        )
                    &&& #[trigger] combine_rel(ops.add_fn, expd, ops.zero, s)
                    &&& forall|i: int|
                        0 <= i < before.len() ==> call_ensures(
                            ops.div_clamp_fn,
                            (expd[i], s, eps),
                            #[trigger] after2[i],
                        )
                };
            assert forall|i: int| 0 <= i < before.len() implies expd1[i] == expd2[i] by {
                assert(call_ensures(ops.exp_fn, (before[i],), expd1[i]));
                assert(call_ensures(ops.exp_fn, (before[i],), expd2[i]));
            }
            assert(expd1 =~= expd2);
            lemma_combine_rel_deterministic(ops.add_fn, expd1, ops.zero, s1, s2);
            assert forall|i: int| 0 <= i < after1.len() implies after1[i] == after2[i] by {
                assert(call_ensures(ops.div_clamp_fn, (expd1[i], s1, eps), after1[i]));
                assert(call_ensures(ops.div_clamp_fn, (expd1[i], s1, eps), after2[i]));
            }
            assert(after1 =~= after2);
        },
        DenseActivation::Sigmoid => {
            assert forall|i: int| 0 <= i < after1.len() implies after1[i] == after2[i] by {
                assert(call_ensures(ops.sigmoid_fn, (before[i], eps), after1[i]));
                assert(call_ensures(ops.sigmoid_fn, (before[i], eps), after2[i]));
            }
            assert(after1 =~= after2);
        },
        DenseActivation::Relu => {
            assert forall|i: int| 0 <= i < after1.len() implies after1[i] == after2[i] by {
                assert(call_ensures(ops.relu_fn, (before[i], eps), after1[i]));
                assert(call_ensures(ops.relu_fn, (before[i], eps), after2[i]));
            }
            assert(after1 =~= after2);
        },
        DenseActivation::LeakyRelu => {
            assert forall|i: int| 0 <= i < after1.len() implies after1[i] == after2[i] by {
                assert(call_ensures(ops.leaky_relu_fn, (before[i], eps), after1[i]));
                assert(call_ensures(ops.leaky_relu_fn, (before[i], eps), after2[i]));
            }
            assert(after1 =~= after2);
        },
        DenseActivation::Tanh => {
            assert forall|i: int| 0 <= i < after1.len() implies after1[i] == after2[i] by {
                assert(call_ensures(ops.tanh_fn, (before[i], eps), after1[i]));
                assert(call_ensures(ops.tanh_fn, (before[i], eps), after2[i]));
            }
            assert(after1 =~= after2);
        },
    }
}

/// The matrix-wide softmax: exponentiate every entry, fold the exponentials
/// into a sum, divide each exponential by the sum (clamped).
fn softmax_matrix<
    T: Copy,
    FS: Fn(T, T) -> T + Copy,
    FR: Fn(T, T) -> T + Copy,
    FL: Fn(T, T) -> T + Copy,
    FT: Fn(T, T) -> T + Copy,
    FE: Fn(T) -> T + Copy,
    FA: Fn(T, T) -> T + Copy,
    FD: Fn(T, T, T) -> T + Copy,
>(mat: &mut Matrix<T>, eps: T, ops: &ActivationOps<T, FS, FR, FL, FT, FE, FA, FD>)
    requires
        old(mat).wf(),
        ops.wf(),
    ensures
        final(mat).wf(),
        final(mat).w == old(mat).w,
        final(mat).h == old(mat).h,
        applied_rel(DenseActivation::Softmax, *ops, eps, old(mat)@, final(mat)@),
{
    mat.map(ops.exp_fn);
    let ghost expd = mat@;
    let s = mat.sum(ops.zero, ops.add_fn);
    mat.map3(ops.div_clamp_fn, s, eps);
    proof {
        assert(expd.len() == old(mat)@.len());
        assert(combine_rel(ops.add_fn, expd, ops.zero, s));
    }
}

/// The scalar operations a derivative application needs: one map per
/// per-scalar derivative, and the pieces of the matrix-wide softmax
/// derivative (exponentiation, addition, multiplication for the squared sum,
/// and the per-entry Jacobian-diagonal formula of an exponential, the sum
/// and the squared sum).
pub struct DerivativeOps<T, FS, FR, FL, FT, FE, FA, FM, FD> {
    pub zero: T,
    pub dsigmoid_fn: FS,
    pub drelu_fn: FR,
    pub dleaky_relu_fn: FL,
    pub dtanh_fn: FT,
    pub exp_fn: FE,
    pub add_fn: FA,
    pub mul_fn: FM,
    pub dsoftmax_fn: FD,
}

impl<
    T,
    FS: Fn(T, T) -> T,
    FR: Fn(T, T) -> T,
    FL: Fn(T, T) -> T,
    FT: Fn(T, T) -> T,
    FE: Fn(T) -> T,
    FA: Fn(T, T) -> T,
    FM: Fn(T, T) -> T,
    FD: Fn(T, T, T) -> T,
> DerivativeOps<T, FS, FR, FL, FT, FE, FA, FM, FD> {
    /// Every operation accepts every input.
    pub open spec fn wf(self) -> bool {
        &&& accepts_pairs(self.dsigmoid_fn)
        &&& accepts_pairs(self.drelu_fn)
        &&& accepts_pairs(self.dleaky_relu_fn)
        &&& accepts_pairs(self.dtanh_fn)
        &&& accepts_all(self.exp_fn)
        &&& accepts_pairs(self.add_fn)
        &&& accepts_pairs(self.mul_fn)
        &&& accepts_triples(self.dsoftmax_fn)
    }
}

/// `after` is a possible application of the derivative of activation `a` to
/// `before`: per-scalar derivatives map entry by entry; the softmax
/// derivative exponentiates, sums, squares the sum, and maps each
/// exponential with the sum and the squared sum.
pub open spec fn derivative_rel<
    T,
    FS: Fn(T, T) -> T,
    FR: Fn(T, T) -> T,
    FL: Fn(T, T) -> T,
    FT: Fn(T, T) -> T,
    FE: Fn(T) -> T,
    FA: Fn(T, T) -> T,
    FM: Fn(T, T) -> T,
    FD: Fn(T, T, T) -> T,
>(
    a: DenseActivation,
    dops: DerivativeOps<T, FS, FR, FL, FT, FE, FA, FM, FD>,
    eps: T,
    before: Seq<T>,
    after: Seq<T>,
) -> bool {
    &&& after.len() == before.len()
    &&& match a {
        DenseActivation::Sigmoid => forall|i: int|
            0 <= i < before.len() ==> call_ensures(
                dops.dsigmoid_fn,
                (before[i], eps),
                #[trigger] after[i],
            ),
        DenseActivation::Relu => forall|i: int|
            0 <= i < before.len() ==> call_ensures(
                dops.drelu_fn,
                (before[i], eps),
                #[trigger] after[i],
            ),
        DenseActivation::LeakyRelu => forall|i: int|
            0 <= i < before.len() ==> call_ensures(
                dops.dleaky_relu_fn,
                (before[i], eps),
                #[trigger] after[i],
            ),
        DenseActivation::Tanh => forall|i: int|
            0 <= i < before.len() ==> call_ensures(
                dops.dtanh_fn,
                (before[i], eps),
                #[trigger] after[i],
            ),
        DenseActivation::Softmax => exists|expd: Seq<T>, s: T, s2: T|
            {
                &&& expd.len() == before.len()
                &&& forall|i: int|
                    0 <= i < before.len() ==> call_ensures(
                        dops.exp_fn,
                        (before[i],),
                        #[trigger] expd[i],
                    )
                &&& #[trigger] combine_rel(dops.add_fn, expd, dops.zero, s)
                &&& #[trigger] call_ensures(dops.mul_fn, (s, s), s2)
                &&& forall|i: int|
                    0 <= i < before.len() ==> call_ensures(
                        dops.dsoftmax_fn,
                        (expd[i], s, s2),
                        #[trigger] after[i],
                    )
            },
    }
}

/// The matrix-wide softmax derivative: exponentiate, sum, square the sum,
/// then map every exponential with the sum and the squared sum.
fn dsoftmax_matrix<
    T: Copy,
    FS: Fn(T, T) -> T + Copy,
    FR: Fn(T, T) -> T + Copy,
    FL: Fn(T, T) -> T + Copy,
    FT: Fn(T, T) -> T + Copy,
    FE: Fn(T) -> T + Copy,
    FA: Fn(T, T) -> T + Copy,
    FM: Fn(T, T) -> T + Copy,
    FD: Fn(T, T, T) -> T + Copy,
>(mat: &mut Matrix<T>, eps: T, dops: &DerivativeOps<T, FS, FR, FL, FT, FE, FA, FM, FD>)
    requires
        old(mat).wf(),
        dops.wf(),
    ensures
        final(mat).wf(),
        final(mat).w == old(mat).w,
        final(mat).h == old(mat).h,
        derivative_rel(DenseActivation::Softmax, *dops, eps, old(mat)@, final(mat)@),
{
    mat.map(dops.exp_fn);
    let ghost expd = mat@;
    let s = mat.sum(dops.zero, dops.add_fn);
    let s2 = (dops.mul_fn)(s, s);
    mat.map3(dops.dsoftmax_fn, s, s2);
    proof {
        assert(expd.len() == old(mat)@.len());
        assert(combine_rel(dops.add_fn, expd, dops.zero, s));
        assert(call_ensures(dops.mul_fn, (s, s), s2));
    }
}

/// The five names are pairwise distinct, so a selector's name decodes back
/// to the selector itself.
pub proof fn lemma_dense_activation_name_round_trip(a: DenseActivation)
    ensures
        DenseActivation::of_name(a.name()) == Ok::<DenseActivation, ()>(a),
{
    reveal_strlit("Sigmoid");
    reveal_strlit("Relu");
    reveal_strlit("LeakyRelu");
    reveal_strlit("Softmax");
    reveal_strlit("Tanh");
    assert("Sigmoid"@[1] != "Softmax"@[1]);
    assert("Relu"@[0] != "Tanh"@[0]);
}

/// No selector name holds a space or a newline.
pub proof fn lemma_dense_activation_name_clean(a: DenseActivation)
    ensures
        forall|j: int| 0 <= j < a.name().len() ==> a.name()[j] != ' ' && a.name()[j] != '\n',
{
    reveal_strlit("Sigmoid");
    assert forall|j: int| 0 <= j < "Sigmoid"@.len() implies "Sigmoid"@[j] != ' ' && "Sigmoid"@[j] != '\n' by {
        if j == 0 {
            } else if j == 1 {
            } else if j == 2 {
            } else if j == 3 {
            } else if j == 4 {
            } else if j == 5 {
            } else if j == 6 {
            } else {
            }
    }
    reveal_strlit("Relu");
    assert forall|j: int| 0 <= j < "Relu"@.len() implies "Relu"@[j] != ' ' && "Relu"@[j] != '\n' by {
        if j == 0 {
            } else if j == 1 {
            } else if j == 2 {
            } else if j == 3 {
            } else {
            }
    }
    reveal_strlit("LeakyRelu");
    assert forall|j: int| 0 <= j < "LeakyRelu"@.len() implies "LeakyRelu"@[j] != ' ' && "LeakyRelu"@[j] != '\n' by {
        if j == 0 {
            } else if j == 1 {
            } else if j == 2 {
            } else if j == 3 {
            } else if j == 4 {
            } else if j == 5 {
            } else if j == 6 {
            } else if j == 7 {
            } else if j == 8 {
            } else {
            }
    }
    reveal_strlit("Softmax");
    assert forall|j: int| 0 <= j < "Softmax"@.len() implies "Softmax"@[j] != ' ' && "Softmax"@[j] != '\n' by {
        if j == 0 {
            } else if j == 1 {
            } else if j == 2 {
            } else if j == 3 {
            } else if j == 4 {
            } else if j == 5 {
            } else if j == 6 {
            } else {
            }
    }
    reveal_strlit("Tanh");
    assert forall|j: int| 0 <= j < "Tanh"@.len() implies "Tanh"@[j] != ' ' && "Tanh"@[j] != '\n' by {
        if j == 0 {
            } else if j == 1 {
            } else if j == 2 {
            } else if j == 3 {
            } else {
            }
    }
}

/// The activation functions a multilayer-perceptron layer can carry.
#[derive(Clone, Copy, Debug, PartialEq, Eq, Structural)]
pub enum MultilayerActivation {
    NoActivation,
    Sigmoid,
    Relu,
    LeakyRelu,
    Softmax,
    Tanh,
}

impl MultilayerActivation {
    /// The textual name of the selector.
    pub open spec fn name(self) -> Seq<char> {
        match self {
            MultilayerActivation::NoActivation => "NoActivation"@,
            MultilayerActivation::Sigmoid => "Sigmoid"@,
            MultilayerActivation::Relu => "Relu"@,
            MultilayerActivation::LeakyRelu => "LeakyRelu"@,
            MultilayerActivation::Softmax => "Softmax"@,
            MultilayerActivation::Tanh => "Tanh"@,
        }
    }

    /// How a name decodes: exactly the six names above are accepted.
    pub open spec fn of_name(s: Seq<char>) -> Result<MultilayerActivation, ()> {
        if s == "NoActivation"@ {
            Ok(MultilayerActivation::NoActivation)
        } else if s == "Sigmoid"@ {
            Ok(MultilayerActivation::Sigmoid)
        } else if s == "Relu"@ {
            Ok(MultilayerActivation::Relu)
        } else if s == "LeakyRelu"@ {
            Ok(MultilayerActivation::LeakyRelu)
        } else if s == "Softmax"@ {
            Ok(MultilayerActivation::Softmax)
        } else if s == "Tanh"@ {
            Ok(MultilayerActivation::Tanh)
        } else {
            Err(())
        }
    }

    pub fn from_str(input: &str) -> (r: Result<MultilayerActivation, ()>)
        ensures
            r == MultilayerActivation::of_name(input@),
    {
        if str_eq(input, "NoActivation") {
            Ok(MultilayerActivation::NoActivation)
        } else if str_eq(input, "Sigmoid") {
            Ok(MultilayerActivation::Sigmoid)
        } else if str_eq(input, "Relu") {
            Ok(MultilayerActivation::Relu)
        } else if str_eq(input, "LeakyRelu") {
            Ok(MultilayerActivation::LeakyRelu)
        } else if str_eq(input, "Softmax") {
            Ok(MultilayerActivation::Softmax)
        } else if str_eq(input, "Tanh") {
            Ok(MultilayerActivation::Tanh)
        } else {
            Err(())
        }
    }
}

/// The six names are pairwise distinct, so a selector's name decodes back
/// to the selector itself.
pub proof fn lemma_multilayer_activation_name_round_trip(a: MultilayerActivation)
    ensures
        MultilayerActivation::of_name(a.name()) == Ok::<MultilayerActivation, ()>(a),
{
    reveal_strlit("NoActivation");
    reveal_strlit("Sigmoid");
    reveal_strlit("Relu");
    reveal_strlit("LeakyRelu");
    reveal_strlit("Softmax");
    reveal_strlit("Tanh");
    assert("NoActivation"@.len() == 12);
    assert("Sigmoid"@.len() == 7);
    assert("Relu"@.len() == 4);
    assert("LeakyRelu"@.len() == 9);
    assert("Softmax"@.len() == 7);
    assert("Tanh"@.len() == 4);
    assert("Sigmoid"@[1] != "Softmax"@[1]);
    assert("Relu"@[0] != "Tanh"@[0]);
}

} // verus!
