//! The dot-product kernel.
//!
//! Two interchangeable strategies compute the matrix product of an `n x k`
//! and a `k x p` buffer: a triple loop on the calling thread, and a parallel
//! strategy that fans the rows out across a worker pool, collects the partial
//! rows tagged with their origin index, and reassembles them in original
//! order. Both strategies meet the same entry relation, and when the scalar
//! operations are deterministic the two can only return identical buffers.

use crate::combine::{
    accepts_pairs, combine_rel, deterministic2, lemma_combine_rel_deterministic,
    lemma_combine_rel_push,
};
use crate::matrix::{idx2, lemma_idx2_in_range, lemma_idx2_injective, lemma_idx2_decompose};
use rayon::iter::{IntoParallelIterator, ParallelIterator};
use vstd::prelude::*;
use vstd::set_lib::{lemma_len_subset, lemma_int_range, set_int_range};

verus! {

/// Row `i` of an `n x k` row-major buffer.
pub open spec fn row_of<T>(a: Seq<T>, k: int, i: int) -> Seq<T> {
    a.subrange(i * k, i * k + k)
}

/// Column `j` of a `k x p` row-major buffer.
pub open spec fn col_of<T>(b: Seq<T>, p: int, k: int, j: int) -> Seq<T> {
    Seq::new(k as nat, |l: int| b[idx2(l, j, p)])
}

/// `prods` pairs `xs` and `ys` entry by entry through the multiplication.
pub open spec fn products_rel<T, FM: Fn(T, T) -> T>(
    fm: FM,
    xs: Seq<T>,
    ys: Seq<T>,
    prods: Seq<T>,
) -> bool {
    &&& prods.len() == xs.len()
    &&& ys.len() == xs.len()
    &&& forall|l: int|
        0 <= l < xs.len() ==> call_ensures(fm, (xs[l], ys[l]), #[trigger] prods[l])
}

/// `r` is a possible value of the dot product of `xs` and `ys`: every entry
/// pair multiplied, the products folded into `zero` from the left.
pub open spec fn dot_entry_rel<T, FA: Fn(T, T) -> T, FM: Fn(T, T) -> T>(
    fa: FA,
    fm: FM,
    xs: Seq<T>,
    ys: Seq<T>,
    zero: T,
    r: T,
) -> bool {
    exists|prods: Seq<T>|
        #[trigger] products_rel(fm, xs, ys, prods) && combine_rel(fa, prods, zero, r)
}

/// `r` is a possible `n x p` product of the buffers `a` (`n x k`) and `b`
/// (`k x p`): every entry meets the dot relation of its row and column.
pub open spec fn dot_result_rel<T, FA: Fn(T, T) -> T, FM: Fn(T, T) -> T>(
    fa: FA,
    fm: FM,
    a: Seq<T>,
    b: Seq<T>,
    n: int,
    k: int,
    p: int,
    zero: T,
    r: Seq<T>,
) -> bool {
    &&& r.len() == n * p
    &&& forall|i: int, j: int|
        0 <= i < n && 0 <= j < p ==> dot_entry_rel(
            fa,
            fm,
            row_of(a, k, i),
            col_of(b, p, k, j),
            zero,
            #[trigger] r[idx2(i, j, p)],
        )
}

/// One output entry: the products of row `i` of `a` and column `j` of `b`,
/// folded into `zero` from the left.
fn dot_entry<T: Copy, FA: Fn(T, T) -> T + Copy, FM: Fn(T, T) -> T + Copy>(
    a: &Vec<T>,
    b: &Vec<T>,
    n: usize,
    k: usize,
    p: usize,
    i: usize,
    j: usize,
    zero: T,
    fa: FA,
    fm: FM,
) -> (r: T)
    requires
        a@.len() == n * k,
        b@.len() == k * p,
        i < n,
        j < p,
        accepts_pairs(fa),
        accepts_pairs(fm),
    ensures
        dot_entry_rel(fa, fm, row_of(a@, k as int, i as int), col_of(b@, p as int, k as int, j as int), zero, r),
{
    let a_len = a.len();
    let b_len = b.len();
    let mut acc: T = zero;
    let ghost mut prods: Seq<T> = Seq::empty();
    let mut l: usize = 0;
    while l < k
        invariant
            a@.len() == n * k,
            b@.len() == k * p,
            a@.len() == a_len,
            b@.len() == b_len,
            i < n,
            j < p,
            l <= k,
            accepts_pairs(fa),
            accepts_pairs(fm),
            prods.len() == l,
            forall|m: int|
                0 <= m < l ==> call_ensures(
                    fm,
                    (a@[idx2(i as int, m, k as int)], b@[idx2(m, j as int, p as int)]),
                    #[trigger] prods[m],
                ),
            combine_rel(fa, prods, zero, acc),
        decreases k - l,
    {
        proof {
            lemma_idx2_in_range(i as int, l as int, n as int, k as int);
            lemma_idx2_in_range(l as int, j as int, k as int, p as int);
        }
        let x = a[i * k + l];
        let y = b[l * p + j];
        let prod = fm(x, y);
        let next = fa(acc, prod);
        proof {
            lemma_combine_rel_push(fa, prods, zero, acc, prod, next);
            prods = prods.push(prod);
        }
        acc = next;
        l += 1;
    }
    proof {
        let xs = row_of(a@, k as int, i as int);
        let ys = col_of(b@, p as int, k as int, j as int);
        assert(i * k + k <= n * k) by (nonlinear_arith)
            requires
                0 <= i < n && 0 <= k,
        ;
        assert(i * k >= 0) by (nonlinear_arith)
            requires
                i >= 0 && k >= 0,
        ;
        assert forall|m: int| 0 <= m < k implies xs[m] == a@[idx2(i as int, m, k as int)] by {}
        assert(products_rel(fm, xs, ys, prods));
    }
    acc
}

/// One output row: the dot of row `i` of `a` against every column of `b`.
fn compute_rows_of_sums<T: Copy, FA: Fn(T, T) -> T + Copy, FM: Fn(T, T) -> T + Copy>(
    a: &Vec<T>,
    b: &Vec<T>,
    n: usize,
    k: usize,
    p: usize,
    i: usize,
    zero: T,
    fa: FA,
    fm: FM,
) -> (row: Vec<T>)
    requires
        a@.len() == n * k,
        b@.len() == k * p,
        i < n,
        accepts_pairs(fa),
        accepts_pairs(fm),
    ensures
        row@.len() == p,
        forall|j: int|
            0 <= j < p ==> dot_entry_rel(
                fa,
                fm,
                row_of(a@, k as int, i as int),
                col_of(b@, p as int, k as int, j),
                zero,
                #[trigger] row@[j],
            ),
{
    let mut row: Vec<T> = Vec::new();
    let mut j: usize = 0;
    while j < p
        invariant
            a@.len() == n * k,
            b@.len() == k * p,
            i < n,
            j <= p,
            accepts_pairs(fa),
            accepts_pairs(fm),
            row@.len() == j,
            forall|jj: int|
                0 <= jj < j ==> dot_entry_rel(
                    fa,
                    fm,
                    row_of(a@, k as int, i as int),
                    col_of(b@, p as int, k as int, jj),
                    zero,
                    #[trigger] row@[jj],
                ),
        decreases p - j,
    {
        row.push(dot_entry(a, b, n, k, p, i, j, zero, fa, fm));
        j += 1;
    }
    row
}

/// The single-threaded strategy: a triple loop over rows, columns and the
/// shared extent.
pub fn dot_monothreaded<T: Copy, FA: Fn(T, T) -> T + Copy, FM: Fn(T, T) -> T + Copy>(
    a: &Vec<T>,
    b: &Vec<T>,
    n: usize,
    k: usize,
    p: usize,
    zero: T,
    fa: FA,
    fm: FM,
) -> (r: Vec<T>)
    requires
        a@.len() == n * k,
        b@.len() == k * p,
        n * p <= usize::MAX,
        accepts_pairs(fa),
        accepts_pairs(fm),
    ensures
        dot_result_rel(fa, fm, a@, b@, n as int, k as int, p as int, zero, r@),
{
    let mut r: Vec<T> = Vec::new();
    let mut i: usize = 0;
    while i < n
        invariant
            a@.len() == n * k,
            b@.len() == k * p,
            n * p <= usize::MAX,
            i <= n,
            accepts_pairs(fa),
            accepts_pairs(fm),
            r@.len() == i * p,
            forall|ii: int, jj: int|
                0 <= ii < i && 0 <= jj < p ==> dot_entry_rel(
                    fa,
                    fm,
                    row_of(a@, k as int, ii),
                    col_of(b@, p as int, k as int, jj),
                    zero,
                    #[trigger] r@[idx2(ii, jj, p as int)],
                ),
        decreases n - i,
    {
        let row = compute_rows_of_sums(a, b, n, k, p, i, zero, fa, fm);
        let ghost r_before = r@;
        let mut j: usize = 0;
        while j < p
            invariant
                i < n,
                j <= p,
                row@.len() == p,
                r@.len() == i * p + j,
                r@ == r_before + row@.subrange(0, j as int),
                r_before.len() == i * p,
            decreases p - j,
        {
            r.push(row[j]);
            proof {
                assert(r@ =~= r_before + row@.subrange(0, j + 1 as int));
            }
            j += 1;
        }
        proof {
            assert(row@.subrange(0, p as int) =~= row@);
            assert(r@ == r_before + row@);
            assert((i + 1) * p == i * p + p) by (nonlinear_arith);
            assert forall|ii: int, jj: int| 0 <= ii < i + 1 && 0 <= jj < p implies dot_entry_rel(
                fa,
                fm,
                row_of(a@, k as int, ii),
                col_of(b@, p as int, k as int, jj),
                zero,
                #[trigger] r@[idx2(ii, jj, p as int)],
            ) by {
                lemma_idx2_in_range(ii, jj, i + 1, p as int);
                if ii < i {
                    lemma_idx2_in_range(ii, jj, i as int, p as int);
                    assert(r@[idx2(ii, jj, p as int)] == r_before[idx2(ii, jj, p as int)]);
                } else {
                    assert(idx2(ii, jj, p as int) == i * p + jj);
                    assert(r@[idx2(ii, jj, p as int)] == row@[jj]);
                }
            }
        }
        i += 1;
    }
    proof {
        assert(r@.len() == n * p);
    }
    r
}

/// Relies on rayon's parallel iterator over the indices `0..n`, mapped and
/// collected to a vector: the collection holds, for each index `i`, one pair
/// `(i, f(i))`, each tag once; nothing is assumed about their order, which
/// the worker pool's scheduling picks.
#[verifier::external_body]
fn par_tagged_rows<R: Send, F: Fn(usize) -> R + Send + Sync>(n: usize, f: F) -> (r: Vec<
    (usize, R),
>)
    requires
        forall|i: usize| i < n ==> call_requires(f, (i,)),
    ensures
        r@.len() == n,
        forall|t: int|
            0 <= t < r@.len() ==> (#[trigger] r@[t]).0 < n && call_ensures(f, (r@[t].0,), r@[t].1),
        forall|t1: int, t2: int|
            0 <= t1 < t2 < r@.len() ==> (#[trigger] r@[t1]).0 != (#[trigger] r@[t2]).0,
{
    (0..n).into_par_iter().map(|i| (i, f(i))).collect()
}

/// Tags that are pairwise distinct and all below `n`, in a collection of
/// length `n`, cover every index below `n`.
proof fn lemma_distinct_tags_cover(tags: Seq<int>, n: int)
    requires
        tags.len() == n,
        forall|t: int| 0 <= t < n ==> 0 <= #[trigger] tags[t] < n,
        forall|t1: int, t2: int| 0 <= t1 < t2 < n ==> tags[t1] != tags[t2],
    ensures
        forall|v: int| 0 <= v < n ==> #[trigger] tags.contains(v),
{
    assert(tags.no_duplicates()) by {
        assert forall|t1: int, t2: int|
            0 <= t1 < tags.len() && 0 <= t2 < tags.len() && t1 != t2 implies tags[t1]
            != tags[t2] by {
            if t1 < t2 {
            } else {
            }
        }
    }
    tags.unique_seq_to_set();
    let s = tags.to_set();
    let full = set_int_range(0, n);
    lemma_int_range(0, n);
    assert forall|v: int| 0 <= v < n implies #[trigger] tags.contains(v) by {
        if !tags.contains(v) {
            assert(s.subset_of(full.remove(v))) by {
                assert forall|x: int| s.contains(x) implies full.remove(v).contains(x) by {
                    let t = choose|t: int| 0 <= t < tags.len() && tags[t] == x;
                    assert(0 <= x < n);
                    assert(x != v);
                }
            }
            lemma_len_subset(s, full.remove(v));
            assert(full.remove(v).len() == n - 1);
            assert(false);
        }
    }
}

/// The parallel strategy: each row is computed by a worker, the tagged rows
/// are collected in whatever order the pool returns them, and the result is
/// reassembled in origin order.
pub fn dot_multithreaded<
    T: Copy + Send + Sync,
    FA: Fn(T, T) -> T + Copy + Send + Sync,
    FM: Fn(T, T) -> T + Copy + Send + Sync,
>(
    a: &Vec<T>,
    b: &Vec<T>,
    n: usize,
    k: usize,
    p: usize,
    zero: T,
    fa: FA,
    fm: FM,
) -> (r: Vec<T>)
    requires
        a@.len() == n * k,
        b@.len() == k * p,
        n * p <= usize::MAX,
        accepts_pairs(fa),
        accepts_pairs(fm),
    ensures
        dot_result_rel(fa, fm, a@, b@, n as int, k as int, p as int, zero, r@),
{
    let row_kernel = |i: usize| -> (row: Vec<T>)
        requires
            a@.len() == n * k,
            b@.len() == k * p,
            i < n,
            accepts_pairs(fa),
            accepts_pairs(fm),
        ensures
            row@.len() == p,
            forall|j: int|
                0 <= j < p ==> dot_entry_rel(
                    fa,
                    fm,
                    row_of(a@, k as int, i as int),
                    col_of(b@, p as int, k as int, j),
                    zero,
                    #[trigger] row@[j],
                ),
        { compute_rows_of_sums(a, b, n, k, p, i, zero, fa, fm) };
    let tagged = par_tagged_rows(n, row_kernel);

    // Reassemble: place each tagged row at its origin index.
    let mut r: Vec<T> = Vec::new();
    let np: usize = n.checked_mul(p).unwrap_or(usize::MAX);
    proof {
        assert(n * p == np || np == usize::MAX);
    }
    let mut z: usize = 0;
    while z < np
        invariant
            np == n * p,
            z <= np,
            r@.len() == z,
            forall|x: int| 0 <= x < z ==> r@[x] == zero,
        decreases np - z,
    {
        r.push(zero);
        z += 1;
    }
    let mut t: usize = 0;
    while t < n
        invariant
            n * p <= usize::MAX,
            t <= n,
            r@.len() == n * p,
            tagged@.len() == n,
            forall|tt: int|
                0 <= tt < n ==> (#[trigger] tagged@[tt]).0 < n && tagged@[tt].1@.len() == p && (
                forall|j: int|
                    0 <= j < p ==> dot_entry_rel(
                        fa,
                        fm,
                        row_of(a@, k as int, tagged@[tt].0 as int),
                        col_of(b@, p as int, k as int, j),
                        zero,
                        #[trigger] tagged@[tt].1@[j],
                    )),
            forall|t1: int, t2: int|
                0 <= t1 < t2 < n ==> (#[trigger] tagged@[t1]).0 != (#[trigger] tagged@[t2]).0,
            forall|tt: int, j: int|
                0 <= tt < t && 0 <= j < p ==> r@[idx2(tagged@[tt].0 as int, j, p as int)] == (
                #[trigger] tagged@[tt].1@[j]),
        decreases n - t,
    {
        let tag: usize = tagged[t].0;
        let mut j: usize = 0;
        while j < p
            invariant
                n * p <= usize::MAX,
                t < n,
                j <= p,
                r@.len() == n * p,
                tagged@.len() == n,
                tag == tagged@[t as int].0,
                tag < n,
                tagged@[t as int].1@.len() == p,
                forall|tt: int| 0 <= tt < n ==> (#[trigger] tagged@[tt]).0 < n,
                forall|tt: int, jj: int|
                    0 <= tt < t && 0 <= jj < p ==> r@[idx2(tagged@[tt].0 as int, jj, p as int)]
                        == (#[trigger] tagged@[tt].1@[jj]),
                forall|t1: int, t2: int|
                    0 <= t1 < t2 < n ==> (#[trigger] tagged@[t1]).0 != (#[trigger] tagged@[t2]).0,
                forall|jj: int|
                    0 <= jj < j ==> r@[idx2(tag as int, jj, p as int)] == tagged@[t as int].1@[jj],
            decreases p - j,
        {
            proof {
                lemma_idx2_in_range(tag as int, j as int, n as int, p as int);
            }
            let v = tagged[t].1[j];
            let slot: usize = tag * p + j;
            r[slot] = v;
            proof {
                assert forall|tt: int, jj: int|
                    0 <= tt < t && 0 <= jj < p implies r@[idx2(
                    tagged@[tt].0 as int,
                    jj,
                    p as int,
                )] == (#[trigger] tagged@[tt].1@[jj]) by {
                    lemma_idx2_in_range(tagged@[tt].0 as int, jj, n as int, p as int);
                    if idx2(tagged@[tt].0 as int, jj, p as int) == idx2(
                        tag as int,
                        j as int,
                        p as int,
                    ) {
                        lemma_idx2_injective(
                            tagged@[tt].0 as int,
                            jj,
                            tag as int,
                            j as int,
                            n as int,
                            p as int,
                        );
                        assert(tagged@[tt].0 != tag);
                        assert(false);
                    }
                }
            }
            j += 1;
        }
        t += 1;
    }
    proof {
        let tags = Seq::new(n as nat, |tt: int| tagged@[tt].0 as int);
        lemma_distinct_tags_cover(tags, n as int);
        assert forall|i: int, j: int| 0 <= i < n && 0 <= j < p implies dot_entry_rel(
            fa,
            fm,
            row_of(a@, k as int, i),
            col_of(b@, p as int, k as int, j),
            zero,
            #[trigger] r@[idx2(i, j, p as int)],
        ) by {
            assert(tags.contains(i));
            let tt = choose|tt: int| 0 <= tt < tags.len() && tags[tt] == i;
            assert(tagged@[tt].0 == i);
            assert(r@[idx2(i, j, p as int)] == tagged@[tt].1@[j]);
        }
    }
    r
}

/// With deterministic scalar operations, any two results of the dot-product
/// relation for the same operands are identical: in particular the
/// single-threaded and the parallel strategy agree entry for entry.
pub proof fn lemma_dot_strategies_agree<T, FA: Fn(T, T) -> T, FM: Fn(T, T) -> T>(
    fa: FA,
    fm: FM,
    a: Seq<T>,
    b: Seq<T>,
    n: int,
    k: int,
    p: int,
    zero: T,
    r1: Seq<T>,
    r2: Seq<T>,
)
    requires
        0 <= n,
        0 <= p,
        deterministic2(fa),
        deterministic2(fm),
        dot_result_rel(fa, fm, a, b, n, k, p, zero, r1),
        dot_result_rel(fa, fm, a, b, n, k, p, zero, r2),
    ensures
        r1 == r2,
{
    assert forall|x: int| 0 <= x < r1.len() implies r1[x] == r2[x] by {
        assert(0 < n * p);
        assert(0 < p) by (nonlinear_arith)
            requires
                0 < n * p && 0 <= p,
        ;
        lemma_idx2_decompose(x, n, p);
        let i = x / p;
        let j = x % p;
        let xs = row_of(a, k, i);
        let ys = col_of(b, p, k, j);
        assert(dot_entry_rel(fa, fm, xs, ys, zero, r1[idx2(i, j, p)]));
        assert(dot_entry_rel(fa, fm, xs, ys, zero, r2[idx2(i, j, p)]));
        let prods1 = choose|prods: Seq<T>|
            #[trigger] products_rel(fm, xs, ys, prods) && combine_rel(fa, prods, zero, r1[idx2(i, j, p)]);
        let prods2 = choose|prods: Seq<T>|
            #[trigger] products_rel(fm, xs, ys, prods) && combine_rel(fa, prods, zero, r2[idx2(i, j, p)]);
        assert forall|l: int| 0 <= l < prods1.len() implies prods1[l] == prods2[l] by {
            assert(call_ensures(fm, (xs[l], ys[l]), prods1[l]));
            assert(call_ensures(fm, (xs[l], ys[l]), prods2[l]));
        }
        assert(prods1 =~= prods2);
        lemma_combine_rel_deterministic(fa, prods1, zero, r1[idx2(i, j, p)], r2[idx2(i, j, p)]);
    }
    assert(r1 =~= r2);
}

} // verus!
