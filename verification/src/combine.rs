//! Accumulation over a caller-supplied binary scalar operation.
//!
//! The engine never computes with scalars itself, so a left-to-right fold of
//! a buffer (a sum, a dot-product entry) is described by a relation: `r` is a
//! possible outcome of folding `s` into `acc` through the closure `f`. When
//! `f` relates every input pair to exactly one output, the fold has exactly
//! one outcome.

use vstd::prelude::*;

verus! {

/// The closure accepts every pair of scalars.
pub open spec fn accepts_pairs<T, F: Fn(T, T) -> T>(f: F) -> bool {
    forall|x: T, y: T| #[trigger] call_requires(f, (x, y))
}

/// The closure accepts every single scalar.
pub open spec fn accepts_all<T, F: Fn(T) -> T>(f: F) -> bool {
    forall|x: T| #[trigger] call_requires(f, (x,))
}

/// The closure accepts every triple of scalars.
pub open spec fn accepts_triples<T, F: Fn(T, T, T) -> T>(f: F) -> bool {
    forall|x: T, y: T, z: T| #[trigger] call_requires(f, (x, y, z))
}

/// `out` combines `xs` and `ys` entry by entry through the closure.
pub open spec fn pointwise_rel<T, F: Fn(T, T) -> T>(
    f: F,
    xs: Seq<T>,
    ys: Seq<T>,
    out: Seq<T>,
) -> bool {
    &&& out.len() == xs.len()
    &&& ys.len() == xs.len()
    &&& forall|i: int| 0 <= i < xs.len() ==> call_ensures(f, (xs[i], ys[i]), #[trigger] out[i])
}

/// `out` combines every entry of `xs` with the one scalar `c` through the
/// closure.
pub open spec fn pointwise_scalar_rel<T, F: Fn(T, T) -> T>(
    f: F,
    xs: Seq<T>,
    c: T,
    out: Seq<T>,
) -> bool {
    &&& out.len() == xs.len()
    &&& forall|i: int| 0 <= i < xs.len() ==> call_ensures(f, (xs[i], c), #[trigger] out[i])
}

/// The closure relates each input pair to at most one output.
pub open spec fn deterministic2<T, F: Fn(T, T) -> T>(f: F) -> bool {
    forall|x: T, y: T, r1: T, r2: T|
        #[trigger] call_ensures(f, (x, y), r1) && #[trigger] call_ensures(f, (x, y), r2) ==> r1
            == r2
}

/// The closure relates each input to at most one output.
pub open spec fn deterministic1<T, F: Fn(T) -> T>(f: F) -> bool {
    forall|x: T, r1: T, r2: T|
        #[trigger] call_ensures(f, (x,), r1) && #[trigger] call_ensures(f, (x,), r2) ==> r1 == r2
}

/// The closure relates each input triple to at most one output.
pub open spec fn deterministic3<T, F: Fn(T, T, T) -> T>(f: F) -> bool {
    forall|x: T, y: T, z: T, r1: T, r2: T|
        #[trigger] call_ensures(f, (x, y, z), r1) && #[trigger] call_ensures(f, (x, y, z), r2)
            ==> r1 == r2
}

/// An entrywise combination through a deterministic operation has exactly
/// one outcome.
pub proof fn lemma_pointwise_rel_deterministic<T, F: Fn(T, T) -> T>(
    f: F,
    xs: Seq<T>,
    ys: Seq<T>,
    o1: Seq<T>,
    o2: Seq<T>,
)
    requires
        deterministic2(f),
        pointwise_rel(f, xs, ys, o1),
        pointwise_rel(f, xs, ys, o2),
    ensures
        o1 == o2,
{
    assert forall|i: int| 0 <= i < o1.len() implies o1[i] == o2[i] by {
        assert(call_ensures(f, (xs[i], ys[i]), o1[i]));
        assert(call_ensures(f, (xs[i], ys[i]), o2[i]));
    }
    assert(o1 =~= o2);
}

/// `r` is a possible outcome of folding `s` into `acc` from the left:
/// `f(...f(f(acc, s[0]), s[1])..., s[len-1])`.
pub open spec fn combine_rel<T, F: Fn(T, T) -> T>(f: F, s: Seq<T>, acc: T, r: T) -> bool
    decreases s.len(),
{
    if s.len() <= 0 {
        r == acc
    } else {
        exists|mid: T|
            #[trigger] call_ensures(f, (acc, s[0]), mid) && combine_rel(f, s.skip(1), mid, r)
    }
}

/// Extending the folded buffer by one entry extends the fold by one call.
pub proof fn lemma_combine_rel_push<T, F: Fn(T, T) -> T>(
    f: F,
    s: Seq<T>,
    acc: T,
    m: T,
    x: T,
    r: T,
)
    requires
        combine_rel(f, s, acc, m),
        call_ensures(f, (m, x), r),
    ensures
        combine_rel(f, s.push(x), acc, r),
    decreases s.len(),
{
    if s.len() == 0 {
        assert(acc == m);
        assert(s.push(x)[0] == x);
        assert(s.push(x).skip(1) =~= Seq::<T>::empty());
        assert(combine_rel(f, s.push(x).skip(1), r, r));
    } else {
        let mid = choose|mid: T|
            #[trigger] call_ensures(f, (acc, s[0]), mid) && combine_rel(f, s.skip(1), mid, m);
        lemma_combine_rel_push(f, s.skip(1), mid, m, x, r);
        assert(s.push(x).skip(1) =~= s.skip(1).push(x));
        assert(s.push(x)[0] == s[0]);
    }
}

/// A fold through a deterministic operation has exactly one outcome.
pub proof fn lemma_combine_rel_deterministic<T, F: Fn(T, T) -> T>(
    f: F,
    s: Seq<T>,
    acc: T,
    r1: T,
    r2: T,
)
    requires
        deterministic2(f),
        combine_rel(f, s, acc, r1),
        combine_rel(f, s, acc, r2),
    ensures
        r1 == r2,
    decreases s.len(),
{
    if s.len() > 0 {
        let mid1 = choose|mid: T|
            #[trigger] call_ensures(f, (acc, s[0]), mid) && combine_rel(f, s.skip(1), mid, r1);
        let mid2 = choose|mid: T|
            #[trigger] call_ensures(f, (acc, s[0]), mid) && combine_rel(f, s.skip(1), mid, r2);
        assert(mid1 == mid2);
        lemma_combine_rel_deterministic(f, s.skip(1), mid1, r1, r2);
    }
}

} // verus!
