//! Loss selectors: the closed enumeration of the loss functions a network
//! can carry, with their textual names.

use crate::combine::{accepts_all, accepts_pairs, combine_rel, pointwise_rel};
use crate::matrix::{Matrix, MatrixError};
use crate::text::str_eq;
use vstd::pervasive::unreached;
use vstd::prelude::*;

verus! {

/// The scalar operations a loss computation needs, supplied by the caller:
/// subtraction and multiplication for the squared-error path, addition for
/// the sums, the halving of the squared sum, and the two per-entry
/// cross-entropy terms (each of a predicted and an expected entry, with the
/// undefined-logarithm case mapped to a harmless term).
pub struct LossOps<T, FSub, FMul, FA, FH, FCE, FCC> {
    pub zero: T,
    pub sub_fn: FSub,
    pub mul_fn: FMul,
    pub add_fn: FA,
    pub half_fn: FH,
    pub ce_term_fn: FCE,
    pub cce_term_fn: FCC,
}

impl<
    T,
    FSub: Fn(T, T) -> T,
    FMul: Fn(T, T) -> T,
    FA: Fn(T, T) -> T,
    FH: Fn(T) -> T,
    FCE: Fn(T, T) -> T,
    FCC: Fn(T, T) -> T,
> LossOps<T, FSub, FMul, FA, FH, FCE, FCC> {
    /// Every operation accepts every input.
    pub open spec fn wf(self) -> bool {
        &&& accepts_pairs(self.sub_fn)
        &&& accepts_pairs(self.mul_fn)
        &&& accepts_pairs(self.add_fn)
        &&& accepts_all(self.half_fn)
        &&& accepts_pairs(self.ce_term_fn)
        &&& accepts_pairs(self.cce_term_fn)
    }
}

/// `e` is a possible error of the prediction `vals` against `exps` under
/// loss `l`: half the summed squared differences for the squared-error loss,
/// or the folded per-entry terms for the two cross-entropy losses.
pub open spec fn error_rel<
    T,
    FSub: Fn(T, T) -> T,
    FMul: Fn(T, T) -> T,
    FA: Fn(T, T) -> T,
    FH: Fn(T) -> T,
    FCE: Fn(T, T) -> T,
    FCC: Fn(T, T) -> T,
>(
    l: Loss,
    ops: LossOps<T, FSub, FMul, FA, FH, FCE, FCC>,
    vals: Seq<T>,
    exps: Seq<T>,
    e: T,
) -> bool {
    match l {
        Loss::MeanSquaredError => exists|d: Seq<T>, sq: Seq<T>, s: T|
            {
                &&& #[trigger] pointwise_rel(ops.sub_fn, exps, vals, d)
                &&& #[trigger] pointwise_rel(ops.mul_fn, d, d, sq)
                &&& #[trigger] combine_rel(ops.add_fn, sq, ops.zero, s)
                &&& call_ensures(ops.half_fn, (s,), e)
            },
        Loss::CrossEntropy => exists|terms: Seq<T>|
            {
                &&& #[trigger] pointwise_rel(ops.ce_term_fn, vals, exps, terms)
                &&& combine_rel(ops.add_fn, terms, ops.zero, e)
            },
        Loss::CategoricalCrossEntropy => exists|terms: Seq<T>|
            {
                &&& #[trigger] pointwise_rel(ops.cce_term_fn, vals, exps, terms)
                &&& combine_rel(ops.add_fn, terms, ops.zero, e)
            },
    }
}

/// The loss functions a network can carry.
#[derive(Clone, Copy, Debug, PartialEq, Eq, Structural)]
pub enum Loss {
    CategoricalCrossEntropy,
    CrossEntropy,
    MeanSquaredError,
}

impl Loss {
    /// The textual name of the selector.
    pub open spec fn name(self) -> Seq<char> {
        match self {
            Loss::CategoricalCrossEntropy => "CategoricalCrossEntropy"@,
            Loss::CrossEntropy => "CrossEntropy"@,
            Loss::MeanSquaredError => "MeanSquaredError"@,
        }
    }

    /// How a name decodes: exactly the three names above are accepted.
    pub open spec fn of_name(s: Seq<char>) -> Result<Loss, ()> {
        if s == "CrossEntropy"@ {
            Ok(Loss::CrossEntropy)
        } else if s == "CategoricalCrossEntropy"@ {
            Ok(Loss::CategoricalCrossEntropy)
        } else if s == "MeanSquaredError"@ {
            Ok(Loss::MeanSquaredError)
        } else {
            Err(())
        }
    }

    pub fn from_str(input: &str) -> (r: Result<Loss, ()>)
        ensures
            r == Loss::of_name(input@),
    {
        if str_eq(input, "CrossEntropy") {
            Ok(Loss::CrossEntropy)
        } else if str_eq(input, "CategoricalCrossEntropy") {
            Ok(Loss::CategoricalCrossEntropy)
        } else if str_eq(input, "MeanSquaredError") {
            Ok(Loss::MeanSquaredError)
        } else {
            Err(())
        }
    }

    pub fn to_string(&self) -> (r: String)
        ensures
            r@ == self.name(),
    {
        match self {
            Loss::CategoricalCrossEntropy => "CategoricalCrossEntropy".to_owned(),
            Loss::CrossEntropy => "CrossEntropy".to_owned(),
            Loss::MeanSquaredError => "MeanSquaredError".to_owned(),
        }
    }
}

impl Loss {
    /// The scalar error of a prediction against an expectation, under the
    /// selected loss; operands of different shape are rejected.
    pub fn compute_error<
        T: Copy,
        FSub: Fn(T, T) -> T + Copy,
        FMul: Fn(T, T) -> T + Copy,
        FA: Fn(T, T) -> T + Copy,
        FH: Fn(T) -> T + Copy,
        FCE: Fn(T, T) -> T + Copy,
        FCC: Fn(T, T) -> T + Copy,
    >(
        &self,
        values: &Matrix<T>,
        expected: &Matrix<T>,
        ops: &LossOps<T, FSub, FMul, FA, FH, FCE, FCC>,
    ) -> (r: Result<T, MatrixError>)
        requires
            values.wf(),
            expected.wf(),
            ops.wf(),
        ensures
            r is Ok <==> (values.w == expected.w && values.h == expected.h),
            r matches Ok(e) ==> error_rel(*self, *ops, values@, expected@, e),
            r matches Err(er) ==> er == MatrixError::ShapeMismatch,
    {
        match self {
            Loss::MeanSquaredError => {
                let d = match expected.minus(values, ops.sub_fn) {
                    Ok(d) => d,
                    Err(e) => {
                        return Err(e);
                    },
                };
                let sq = match d.hadamard_dot(&d, ops.mul_fn) {
                    Ok(sq) => sq,
                    Err(_) => {
                        return unreached();
                    },
                };
                let s = sq.sum(ops.zero, ops.add_fn);
                let e = (ops.half_fn)(s);
                proof {
                    assert(pointwise_rel(ops.sub_fn, expected@, values@, d@));
                    assert(pointwise_rel(ops.mul_fn, d@, d@, sq@));
                    assert(combine_rel(ops.add_fn, sq@, ops.zero, s));
                    assert(call_ensures(ops.half_fn, (s,), e));
                }
                Ok(e)
            },
            Loss::CrossEntropy => {
                let terms = match values.zip_with(expected, ops.ce_term_fn) {
                    Ok(t) => t,
                    Err(e) => {
                        return Err(e);
                    },
                };
                let e = terms.sum(ops.zero, ops.add_fn);
                proof {
                    assert(pointwise_rel(ops.ce_term_fn, values@, expected@, terms@));
                    assert(combine_rel(ops.add_fn, terms@, ops.zero, e));
                }
                Ok(e)
            },
            Loss::CategoricalCrossEntropy => {
                let terms = match values.zip_with(expected, ops.cce_term_fn) {
                    Ok(t) => t,
                    Err(e) => {
                        return Err(e);
                    },
                };
                let e = terms.sum(ops.zero, ops.add_fn);
                proof {
                    assert(pointwise_rel(ops.cce_term_fn, values@, expected@, terms@));
                    assert(combine_rel(ops.add_fn, terms@, ops.zero, e));
                }
                Ok(e)
            },
        }
    }

    /// The differential of the loss at a prediction: the entrywise
    /// difference `predicted - expected` for every selector, the
    /// simplification this engine pairs with its activations (not the exact
    /// analytic cross-entropy gradient); operands of different shape are
    /// rejected.
    pub fn compute_differential_error<T: Copy, FSub: Fn(T, T) -> T + Copy>(
        &self,
        values: &Matrix<T>,
        expected: &Matrix<T>,
        sub_fn: FSub,
    ) -> (r: Result<Matrix<T>, MatrixError>)
        requires
            values.wf(),
            expected.wf(),
            accepts_pairs(sub_fn),
        ensures
            r is Ok <==> (values.w == expected.w && values.h == expected.h),
            r matches Ok(m) ==> m.wf() && m.w == values.w && m.h == values.h && m@.len()
                == values@.len() && (forall|i: int|
                0 <= i < values@.len() ==> call_ensures(
                    sub_fn,
                    (values@[i], expected@[i]),
                    #[trigger] m@[i],
                )),
            r matches Err(er) ==> er == MatrixError::ShapeMismatch,
    {
        values.minus(expected, sub_fn)
    }
}

/// The three names are pairwise distinct, so a selector's name decodes back
/// to the selector itself.
pub proof fn lemma_loss_name_round_trip(l: Loss)
    ensures
        Loss::of_name(l.name()) == Ok::<Loss, ()>(l),
{
    reveal_strlit("CategoricalCrossEntropy");
    reveal_strlit("CrossEntropy");
    reveal_strlit("MeanSquaredError");
    assert("CategoricalCrossEntropy"@.len() == 23);
    assert("CrossEntropy"@.len() == 12);
    assert("MeanSquaredError"@.len() == 16);
}

/// No selector name holds a space or a newline.
pub proof fn lemma_loss_name_clean(a: Loss)
    ensures
        forall|j: int| 0 <= j < a.name().len() ==> a.name()[j] != ' ' && a.name()[j] != '\n',
{
    reveal_strlit("CategoricalCrossEntropy");
    assert forall|j: int| 0 <= j < "CategoricalCrossEntropy"@.len() implies "CategoricalCrossEntropy"@[j] != ' ' && "CategoricalCrossEntropy"@[j] != '\n' by {
        if j == 0 {
            } else if j == 1 {
            } else if j == 2 {
            } else if j == 3 {
            } else if j == 4 {
            } else if j == 5 {
            } else if j == 6 {
            } else if j == 7 {
            } else if j == 8 {
            } else if j == 9 {
            } else if j == 10 {
            } else if j == 11 {
            } else if j == 12 {
            } else if j == 13 {
            } else if j == 14 {
            } else if j == 15 {
            } else if j == 16 {
            } else if j == 17 {
            } else if j == 18 {
            } else if j == 19 {
            } else if j == 20 {
            } else if j == 21 {
            } else if j == 22 {
            } else {
            }
    }
    reveal_strlit("CrossEntropy");
    assert forall|j: int| 0 <= j < "CrossEntropy"@.len() implies "CrossEntropy"@[j] != ' ' && "CrossEntropy"@[j] != '\n' by {
        if j == 0 {
            } else if j == 1 {
            } else if j == 2 {
            } else if j == 3 {
            } else if j == 4 {
            } else if j == 5 {
            } else if j == 6 {
            } else if j == 7 {
            } else if j == 8 {
            } else if j == 9 {
            } else if j == 10 {
            } else if j == 11 {
            } else {
            }
    }
    reveal_strlit("MeanSquaredError");
    assert forall|j: int| 0 <= j < "MeanSquaredError"@.len() implies "MeanSquaredError"@[j] != ' ' && "MeanSquaredError"@[j] != '\n' by {
        if j == 0 {
            } else if j == 1 {
            } else if j == 2 {
            } else if j == 3 {
            } else if j == 4 {
            } else if j == 5 {
            } else if j == 6 {
            } else if j == 7 {
            } else if j == 8 {
            } else if j == 9 {
            } else if j == 10 {
            } else if j == 11 {
            } else if j == 12 {
            } else if j == 13 {
            } else if j == 14 {
            } else if j == 15 {
            } else {
            }
    }
}

} // verus!
