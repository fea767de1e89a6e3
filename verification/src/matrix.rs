//! Dense matrices over an abstract scalar.
//!
//! A matrix is a rectangular buffer of scalars of some `Copy` type `T` in
//! row-major order. The engine never computes with the scalars itself: every
//! arithmetic combination is supplied by the caller as a closure, and the
//! contracts relate each entry of a result to the operand entries through the
//! closure's postcondition.
//!
//! Bounds policy: strict reads (`get`, `get_at` return an error out of range)
//! and permissive writes (`set`, `set_at` ignore an out-of-range index); the
//! algebraic operations reject operands of mismatched shape with an error.

use crate::combine::{accepts_pairs, combine_rel, lemma_combine_rel_push};
use crate::high_freq_computation::dot_result_rel;
use vstd::prelude::*;

verus! {

/// Failures of matrix construction and algebra.
#[derive(Clone, Copy, Debug, PartialEq, Eq, Structural)]
pub enum MatrixError {
    /// Operand dimensions disagree for an algebraic operation.
    ShapeMismatch,
    /// A strict read was asked for an index beyond the buffer.
    OutOfBounds,
}

/// The linear position of entry (`row`, `col`) in a row-major buffer of the
/// given width.
pub open spec fn idx2(row: int, col: int, width: int) -> int {
    row * width + col
}

/// Entry (`row`, `col`) lies inside a buffer of `height` rows of `width`
/// entries, and rows do not run into each other.
pub proof fn lemma_idx2_in_range(row: int, col: int, height: int, width: int)
    requires
        0 <= row < height,
        0 <= col < width,
    ensures
        0 <= idx2(row, col, width) < height * width,
{
    assert(0 <= row * width + col < height * width) by (nonlinear_arith)
        requires
            0 <= row < height && 0 <= col < width,
    ;
}

/// Two distinct in-range positions have distinct linear indices.
pub proof fn lemma_idx2_injective(r1: int, c1: int, r2: int, c2: int, height: int, width: int)
    requires
        0 <= r1 < height,
        0 <= c1 < width,
        0 <= r2 < height,
        0 <= c2 < width,
        idx2(r1, c1, width) == idx2(r2, c2, width),
    ensures
        r1 == r2 && c1 == c2,
{
    assert(r1 == r2 && c1 == c2) by (nonlinear_arith)
        requires
            0 <= r1 < height && 0 <= c1 < width && 0 <= r2 < height && 0 <= c2 < width && r1 * width
                + c1 == r2 * width + c2,
    ;
}

/// Every linear index decomposes into a unique in-range position.
pub proof fn lemma_idx2_decompose(i: int, height: int, width: int)
    requires
        0 <= i < height * width,
        0 < width,
    ensures
        0 <= i / width < height,
        0 <= i % width < width,
        i == idx2(i / width, i % width, width),
{
    assert(0 <= i / width < height && 0 <= i % width < width && i == (i / width) * width + (
    i % width)) by (nonlinear_arith)
        requires
            0 <= i < height * width && 0 < width,
    ;
}

/// A rectangular buffer of scalars: `w` columns, `h` rows, entries stored in
/// row-major order.
#[derive(Clone, Debug)]
pub struct Matrix<T> {
    pub w: usize,
    pub h: usize,
    pub length: usize,
    pub values: Vec<T>,
}

impl<T> View for Matrix<T> {
    type V = Seq<T>;

    open spec fn view(&self) -> Seq<T> {
        self.values@
    }
}

impl<T: Copy> Matrix<T> {
    /// The stored length agrees with the shape and with the buffer.
    pub open spec fn wf(self) -> bool {
        &&& self.length == self.w * self.h
    &&& self.values@.len() == self.length
    }

    /// A matrix of the given shape with every entry equal to `fill`.
    pub fn new(w: usize, h: usize, fill: T) -> (m: Matrix<T>)
        requires
            w * h <= usize::MAX,
        ensures
            m.wf(),
            m.w == w,
            m.h == h,
            m@.len() == w * h,
            forall|i: int| 0 <= i < m@.len() ==> m@[i] == fill,
    {
        let size: usize = w * h;
        let mut vec: Vec<T> = Vec::new();
        let mut i: usize = 0;
        while i < size
            invariant
                i <= size,
                vec@.len() == i,
                forall|j: int| 0 <= j < i ==> vec@[j] == fill,
            decreases size - i,
        {
            vec.push(fill);
            i += 1;
        }
        Matrix { w, h, length: size, values: vec }
    }

    /// A column vector holding the given values.
    pub fn from(vec: Vec<T>) -> (m: Matrix<T>)
        ensures
            m.wf(),
            m.w == 1,
            m.h == vec@.len(),
            m@ == vec@,
    {
        let length = vec.len();
        Matrix { w: 1, h: length, length, values: vec }
    }

    /// Wraps an existing flat buffer in the given shape; the length must
    /// match exactly.
    pub fn reshape(values: Vec<T>, w: usize, h: usize) -> (r: Result<Matrix<T>, MatrixError>)
        ensures
            values@.len() == w * h <==> r is Ok,
            r matches Ok(m) ==> m.wf() && m.w == w && m.h == h && m@ == values@,
            r matches Err(e) ==> e == MatrixError::ShapeMismatch,
    {
        let length = values.len();
        let matches_shape = match w.checked_mul(h) {
            Some(size) => length == size,
            None => false,
        };
        if matches_shape {
            Ok(Matrix { w, h, length, values })
        } else {
            Err(MatrixError::ShapeMismatch)
        }
    }

    /// The number of entries.
    pub fn len(&self) -> (l: usize)
        requires
            self.wf(),
        ensures
            l == self@.len(),
    {
        self.length
    }

    /// Strict linear read: the entry at `i`, or an error if `i` is out of
    /// range.
    pub fn get(&self, i: usize) -> (r: Result<T, MatrixError>)
        requires
            self.wf(),
        ensures
            i < self@.len() ==> r == Ok::<T, MatrixError>(self@[i as int]),
            i >= self@.len() ==> r == Err::<T, MatrixError>(MatrixError::OutOfBounds),
    {
        if i < self.length {
            Ok(self.values[i])
        } else {
            Err(MatrixError::OutOfBounds)
        }
    }

    /// Strict two-dimensional read at row `y`, column `x`: the linear index
    /// `y * w + x` must lie inside the buffer.
    pub fn get_at(&self, y: usize, x: usize) -> (r: Result<T, MatrixError>)
        requires
            self.wf(),
        ensures
            idx2(y as int, x as int, self.w as int) < self@.len() ==> r == Ok::<
                T,
                MatrixError,
            >(self@[idx2(y as int, x as int, self.w as int)]),
            idx2(y as int, x as int, self.w as int) >= self@.len() ==> r == Err::<
                T,
                MatrixError,
            >(MatrixError::OutOfBounds),
    {
        match y.checked_mul(self.w) {
            Some(base) => match base.checked_add(x) {
                Some(i) => self.get(i),
                None => Err(MatrixError::OutOfBounds),
            },
            None => Err(MatrixError::OutOfBounds),
        }
    }

    /// Permissive linear write: an out-of-range index changes nothing.
    pub fn set(&mut self, i: usize, value: T)
        requires
            old(self).wf(),
        ensures
            final(self).wf(),
            final(self).w == old(self).w,
            final(self).h == old(self).h,
            i < old(self)@.len() ==> final(self)@ == old(self)@.update(i as int, value),
            i >= old(self)@.len() ==> final(self)@ == old(self)@,
    {
        if i < self.length {
            self.values[i] = value;
        }
    }

    /// Permissive two-dimensional write at row `y`, column `x`.
    pub fn set_at(&mut self, y: usize, x: usize, value: T)
        requires
            old(self).wf(),
        ensures
            final(self).wf(),
            final(self).w == old(self).w,
            final(self).h == old(self).h,
            idx2(y as int, x as int, old(self).w as int) < old(self)@.len() ==> final(self)@
                == old(self)@.update(idx2(y as int, x as int, old(self).w as int), value),
            idx2(y as int, x as int, old(self).w as int) >= old(self)@.len() ==> final(self)@
                == old(self)@,
    {
        match y.checked_mul(self.w) {
            Some(base) => match base.checked_add(x) {
                Some(i) => self.set(i, value),
                None => {
                },
            },
            None => {
            },
        }
    }

    /// An entry-for-entry copy.
    pub fn duplicate(&self) -> (m: Matrix<T>)
        requires
            self.wf(),
        ensures
            m.wf(),
            m.w == self.w,
            m.h == self.h,
            m@ == self@,
    {
        let mut vec: Vec<T> = Vec::new();
        let mut i: usize = 0;
        while i < self.length
            invariant
                self.wf(),
                i <= self.length,
                vec@.len() == i,
                forall|j: int| 0 <= j < i ==> vec@[j] == self@[j],
            decreases self.length - i,
        {
            vec.push(self.values[i]);
            i += 1;
        }
        proof {
            assert(vec@ =~= self@);
        }
        Matrix { w: self.w, h: self.h, length: self.length, values: vec }
    }

    /// `m` is the transpose of `a`: the shapes are swapped and entry
    /// (`r`, `c`) of `a` stands at (`c`, `r`) of `m`.
    pub open spec fn is_transpose_of(m: Matrix<T>, a: Matrix<T>) -> bool {
        &&& m.wf()
        &&& a.wf()
        &&& m.w == a.h
        &&& m.h == a.w
        &&& forall|r: int, c: int|
            0 <= r < a.h && 0 <= c < a.w ==> m@[idx2(c, r, a.h as int)] == a@[idx2(
                r,
                c,
                a.w as int,
            )]
    }

    /// The transpose: a new `h x w` matrix with the entries mirrored across
    /// the diagonal.
    pub fn t(&self) -> (m: Matrix<T>)
        requires
            self.wf(),
        ensures
            Matrix::is_transpose_of(m, *self),
    {
        let w = self.w;
        let h = self.h;
        let mut vec: Vec<T> = Vec::new();
        let mut c: usize = 0;
        proof {
            vstd::arithmetic::mul::lemma_mul_is_commutative(w as int, h as int);
        }
        while c < w
            invariant
                self.wf(),
                w == self.w,
                h == self.h,
                c <= w,
                h * w == w * h,
                vec@.len() == c * h,
                forall|cc: int, rr: int|
                    0 <= cc < c && 0 <= rr < h ==> vec@[idx2(cc, rr, h as int)] == self@[idx2(
                        rr,
                        cc,
                        w as int,
                    )],
            decreases w - c,
        {
            let mut r: usize = 0;
            while r < h
                invariant
                    self.wf(),
                    w == self.w,
                    h == self.h,
                    c < w,
                    r <= h,
                    h * w == w * h,
                    vec@.len() == c * h + r,
                    forall|cc: int, rr: int|
                        0 <= cc < c && 0 <= rr < h ==> vec@[idx2(cc, rr, h as int)] == self@[idx2(
                            rr,
                            cc,
                            w as int,
                        )],
                    forall|rr: int|
                        0 <= rr < r ==> vec@[idx2(c as int, rr, h as int)] == self@[idx2(
                            rr,
                            c as int,
                            w as int,
                        )],
                decreases h - r,
            {
                proof {
                    lemma_idx2_in_range(r as int, c as int, h as int, w as int);
                    lemma_idx2_in_range(c as int, r as int, w as int, h as int);
                    assert forall|cc: int, rr: int| 0 <= cc < c && 0 <= rr < h implies idx2(
                        cc,
                        rr,
                        h as int,
                    ) < c * h by {
                        lemma_idx2_in_range(cc, rr, c as int, h as int);
                    }
                }
                let i: usize = r * w + c;
                vec.push(self.values[i]);
                r += 1;
            }
            c += 1;
            proof {
                assert(c * h == (c - 1) * h + h) by (nonlinear_arith);
            }
        }
        let m = Matrix { w: h, h: w, length: self.length, values: vec };
        proof {
            assert(m.wf());
        }
        m
    }
}

impl<T: Copy> Matrix<T> {
    /// Replaces every entry by an application of `f` to it.
    pub fn map<F: Fn(T) -> T>(&mut self, f: F)
        requires
            old(self).wf(),
            forall|x: T| #[trigger] call_requires(f, (x,)),
        ensures
            final(self).wf(),
            final(self).w == old(self).w,
            final(self).h == old(self).h,
            final(self)@.len() == old(self)@.len(),
            forall|i: int|
                0 <= i < old(self)@.len() ==> call_ensures(
                    f,
                    (old(self)@[i],),
                    #[trigger] final(self)@[i],
                ),
    {
        let ghost orig = *self;
        let mut i: usize = 0;
        while i < self.length
            invariant
                self.wf(),
                self.w == orig.w,
                self.h == orig.h,
                self.length == orig.length,
                self@.len() == orig@.len(),
                i <= self.length,
                forall|x: T| #[trigger] call_requires(f, (x,)),
                forall|j: int| 0 <= j < i ==> call_ensures(f, (orig@[j],), #[trigger] self@[j]),
                forall|j: int| i <= j < self@.len() ==> self@[j] == orig@[j],
            decreases self.length - i,
        {
            let x = self.values[i];
            self.values[i] = f(x);
            i += 1;
        }
    }

    /// Replaces every entry `x` by an application of `f` to `(x, arg)`.
    pub fn map2<A: Copy, F: Fn(T, A) -> T>(&mut self, f: F, arg: A)
        requires
            old(self).wf(),
            forall|x: T| #[trigger] call_requires(f, (x, arg)),
        ensures
            final(self).wf(),
            final(self).w == old(self).w,
            final(self).h == old(self).h,
            final(self)@.len() == old(self)@.len(),
            forall|i: int|
                0 <= i < old(self)@.len() ==> call_ensures(
                    f,
                    (old(self)@[i], arg),
                    #[trigger] final(self)@[i],
                ),
    {
        let ghost orig = *self;
        let mut i: usize = 0;
        while i < self.length
            invariant
                self.wf(),
                self.w == orig.w,
                self.h == orig.h,
                self.length == orig.length,
                self@.len() == orig@.len(),
                i <= self.length,
                forall|x: T| #[trigger] call_requires(f, (x, arg)),
                forall|j: int|
                    0 <= j < i ==> call_ensures(f, (orig@[j], arg), #[trigger] self@[j]),
                forall|j: int| i <= j < self@.len() ==> self@[j] == orig@[j],
            decreases self.length - i,
        {
            let x = self.values[i];
            self.values[i] = f(x, arg);
            i += 1;
        }
    }

    /// Replaces every entry `x` by an application of `f` to `(x, arg1, arg2)`.
    pub fn map3<A: Copy, B: Copy, F: Fn(T, A, B) -> T>(&mut self, f: F, arg1: A, arg2: B)
        requires
            old(self).wf(),
            forall|x: T| #[trigger] call_requires(f, (x, arg1, arg2)),
        ensures
            final(self).wf(),
            final(self).w == old(self).w,
            final(self).h == old(self).h,
            final(self)@.len() == old(self)@.len(),
            forall|i: int|
                0 <= i < old(self)@.len() ==> call_ensures(
                    f,
                    (old(self)@[i], arg1, arg2),
                    #[trigger] final(self)@[i],
                ),
    {
        let ghost orig = *self;
        let mut i: usize = 0;
        while i < self.length
            invariant
                self.wf(),
                self.w == orig.w,
                self.h == orig.h,
                self.length == orig.length,
                self@.len() == orig@.len(),
                i <= self.length,
                forall|x: T| #[trigger] call_requires(f, (x, arg1, arg2)),
                forall|j: int|
                    0 <= j < i ==> call_ensures(f, (orig@[j], arg1, arg2), #[trigger] self@[j]),
                forall|j: int| i <= j < self@.len() ==> self@[j] == orig@[j],
            decreases self.length - i,
        {
            let x = self.values[i];
            self.values[i] = f(x, arg1, arg2);
            i += 1;
        }
    }

    /// Combines two matrices of identical shape entry by entry through `f`;
    /// operands of different shape are rejected.
    pub fn zip_with<F: Fn(T, T) -> T>(&self, other: &Matrix<T>, f: F) -> (r: Result<
        Matrix<T>,
        MatrixError,
    >)
        requires
            self.wf(),
            other.wf(),
            accepts_pairs(f),
        ensures
            r is Ok <==> (self.w == other.w && self.h == other.h),
            r matches Ok(m) ==> m.wf() && m.w == self.w && m.h == self.h && m@.len() == self@.len()
                && (forall|i: int|
                0 <= i < self@.len() ==> call_ensures(f, (self@[i], other@[i]), #[trigger] m@[i])),
            r matches Err(e) ==> e == MatrixError::ShapeMismatch,
    {
        if self.w != other.w || self.h != other.h {
            return Err(MatrixError::ShapeMismatch);
        }
        let mut vec: Vec<T> = Vec::new();
        let mut i: usize = 0;
        while i < self.length
            invariant
                self.wf(),
                other.wf(),
                self.w == other.w,
                self.h == other.h,
                other@.len() == self@.len(),
                accepts_pairs(f),
                i <= self.length,
                vec@.len() == i,
                forall|j: int|
                    0 <= j < i ==> call_ensures(f, (self@[j], other@[j]), #[trigger] vec@[j]),
            decreases self.length - i,
        {
            vec.push(f(self.values[i], other.values[i]));
            i += 1;
        }
        Ok(Matrix { w: self.w, h: self.h, length: self.length, values: vec })
    }

    /// Entrywise sum of two matrices of identical shape, through the
    /// caller's addition.
    pub fn plus<F: Fn(T, T) -> T>(&self, other: &Matrix<T>, f: F) -> (r: Result<
        Matrix<T>,
        MatrixError,
    >)
        requires
            self.wf(),
            other.wf(),
            accepts_pairs(f),
        ensures
            r is Ok <==> (self.w == other.w && self.h == other.h),
            r matches Ok(m) ==> m.wf() && m.w == self.w && m.h == self.h && m@.len() == self@.len()
                && (forall|i: int|
                0 <= i < self@.len() ==> call_ensures(
                    f,
                    (self@[i], other@[i]),
                    #[trigger] m@[i],
                )),
            r matches Err(e) ==> e == MatrixError::ShapeMismatch,
    {
        self.zip_with(other, f)
    }

    /// Entrywise difference of two matrices of identical shape, through the
    /// caller's subtraction.
    pub fn minus<F: Fn(T, T) -> T>(&self, other: &Matrix<T>, f: F) -> (r: Result<
        Matrix<T>,
        MatrixError,
    >)
        requires
            self.wf(),
            other.wf(),
            accepts_pairs(f),
        ensures
            r is Ok <==> (self.w == other.w && self.h == other.h),
            r matches Ok(m) ==> m.wf() && m.w == self.w && m.h == self.h && m@.len() == self@.len()
                && (forall|i: int|
                0 <= i < self@.len() ==> call_ensures(
                    f,
                    (self@[i], other@[i]),
                    #[trigger] m@[i],
                )),
            r matches Err(e) ==> e == MatrixError::ShapeMismatch,
    {
        self.zip_with(other, f)
    }

    /// Entrywise (Hadamard) product of two matrices of identical shape,
    /// through the caller's multiplication.
    pub fn hadamard_dot<F: Fn(T, T) -> T>(&self, other: &Matrix<T>, f: F) -> (r: Result<
        Matrix<T>,
        MatrixError,
    >)
        requires
            self.wf(),
            other.wf(),
            accepts_pairs(f),
        ensures
            r is Ok <==> (self.w == other.w && self.h == other.h),
            r matches Ok(m) ==> m.wf() && m.w == self.w && m.h == self.h && m@.len() == self@.len()
                && (forall|i: int|
                0 <= i < self@.len() ==> call_ensures(
                    f,
                    (self@[i], other@[i]),
                    #[trigger] m@[i],
                )),
            r matches Err(e) ==> e == MatrixError::ShapeMismatch,
    {
        self.zip_with(other, f)
    }

    /// Combines two buffers of equal length entry by entry into a column
    /// vector; operands of different length are rejected.
    pub fn double_mapping<F: Fn(T, T) -> T>(f: F, a: &Matrix<T>, b: &Matrix<T>) -> (r: Result<
        Matrix<T>,
        MatrixError,
    >)
        requires
            a.wf(),
            b.wf(),
            accepts_pairs(f),
        ensures
            r is Ok <==> a@.len() == b@.len(),
            r matches Ok(m) ==> m.wf() && m.w == 1 && m.h == a@.len() && m@.len() == a@.len() && (
            forall|i: int|
                0 <= i < a@.len() ==> call_ensures(f, (a@[i], b@[i]), #[trigger] m@[i])),
            r matches Err(e) ==> e == MatrixError::ShapeMismatch,
    {
        if a.length != b.length {
            return Err(MatrixError::ShapeMismatch);
        }
        let mut vec: Vec<T> = Vec::new();
        let mut i: usize = 0;
        while i < a.length
            invariant
                a.wf(),
                b.wf(),
                b@.len() == a@.len(),
                accepts_pairs(f),
                i <= a.length,
                vec@.len() == i,
                forall|j: int| 0 <= j < i ==> call_ensures(f, (a@[j], b@[j]), #[trigger] vec@[j]),
            decreases a.length - i,
        {
            vec.push(f(a.values[i], b.values[i]));
            i += 1;
        }
        Ok(Matrix { w: 1, h: a.length, length: a.length, values: vec })
    }

    /// A new matrix with `f` applied to `(entry, other)` for every entry.
    pub fn plus_scalar<F: Fn(T, T) -> T>(&self, other: T, f: F) -> (m: Matrix<T>)
        requires
            self.wf(),
            forall|x: T| #[trigger] call_requires(f, (x, other)),
        ensures
            m.wf(),
            m.w == self.w,
            m.h == self.h,
            m@.len() == self@.len(),
            forall|i: int|
                0 <= i < self@.len() ==> call_ensures(f, (self@[i], other), #[trigger] m@[i]),
    {
        let mut m = self.duplicate();
        m.map2(f, other);
        m
    }

    /// A new matrix with `f` applied to `(entry, other)` for every entry:
    /// the scalar stands on the right of the caller's subtraction.
    pub fn minus_scalar_rhs<F: Fn(T, T) -> T>(&self, other: T, f: F) -> (m: Matrix<T>)
        requires
            self.wf(),
            forall|x: T| #[trigger] call_requires(f, (x, other)),
        ensures
            m.wf(),
            m.w == self.w,
            m.h == self.h,
            m@.len() == self@.len(),
            forall|i: int|
                0 <= i < self@.len() ==> call_ensures(f, (self@[i], other), #[trigger] m@[i]),
    {
        let mut m = self.duplicate();
        m.map2(f, other);
        m
    }

    /// A new matrix with `f` applied to `(other, entry)` for every entry:
    /// the scalar stands on the left of the caller's subtraction.
    pub fn minus_scalar_lhs<F: Fn(T, T) -> T>(&self, other: T, f: F) -> (m: Matrix<T>)
        requires
            self.wf(),
            forall|x: T| #[trigger] call_requires(f, (other, x)),
        ensures
            m.wf(),
            m.w == self.w,
            m.h == self.h,
            m@.len() == self@.len(),
            forall|i: int|
                0 <= i < self@.len() ==> call_ensures(f, (other, self@[i]), #[trigger] m@[i]),
    {
        let mut vec: Vec<T> = Vec::new();
        let mut i: usize = 0;
        while i < self.length
            invariant
                self.wf(),
                forall|x: T| #[trigger] call_requires(f, (other, x)),
                i <= self.length,
                vec@.len() == i,
                forall|j: int|
                    0 <= j < i ==> call_ensures(f, (other, self@[j]), #[trigger] vec@[j]),
            decreases self.length - i,
        {
            vec.push(f(other, self.values[i]));
            i += 1;
        }
        Matrix { w: self.w, h: self.h, length: self.length, values: vec }
    }

    /// A new matrix with `f` applied to `(entry, other)` for every entry.
    pub fn multiply<F: Fn(T, T) -> T>(&self, other: T, f: F) -> (m: Matrix<T>)
        requires
            self.wf(),
            forall|x: T| #[trigger] call_requires(f, (x, other)),
        ensures
            m.wf(),
            m.w == self.w,
            m.h == self.h,
            m@.len() == self@.len(),
            forall|i: int|
                0 <= i < self@.len() ==> call_ensures(f, (self@[i], other), #[trigger] m@[i]),
    {
        let mut m = self.duplicate();
        m.map2(f, other);
        m
    }

    /// Folds all entries into `zero` from the left through the caller's
    /// addition.
    pub fn sum<F: Fn(T, T) -> T>(&self, zero: T, f: F) -> (r: T)
        requires
            self.wf(),
            accepts_pairs(f),
        ensures
            combine_rel(f, self@, zero, r),
    {
        let mut acc: T = zero;
        let mut i: usize = 0;
        while i < self.length
            invariant
                self.wf(),
                accepts_pairs(f),
                i <= self.length,
                combine_rel(f, self@.subrange(0, i as int), zero, acc),
            decreases self.length - i,
        {
            let x = self.values[i];
            let next = f(acc, x);
            proof {
                lemma_combine_rel_push(f, self@.subrange(0, i as int), zero, acc, x, next);
                assert(self@.subrange(0, i + 1 as int) =~= self@.subrange(0, i as int).push(
                    self@[i as int],
                ));
            }
            acc = next;
            i += 1;
        }
        proof {
            assert(self@.subrange(0, self@.len() as int) =~= self@);
        }
        acc
    }
}

impl<T: Copy + Send + Sync> Matrix<T> {
    /// The matrix product `self * other`, requiring `self.w == other.h`:
    /// entry (`i`, `j`) folds the products of row `i` of `self` and column
    /// `j` of `other` into `zero`. The flag picks the single-threaded or the
    /// parallel kernel; both meet the same relation.
    pub fn dot<FA: Fn(T, T) -> T + Copy + Send + Sync, FM: Fn(T, T) -> T + Copy + Send + Sync>(
        &self,
        other: &Matrix<T>,
        multithreaded: bool,
        zero: T,
        fa: FA,
        fm: FM,
    ) -> (r: Result<Matrix<T>, MatrixError>)
        requires
            self.wf(),
            other.wf(),
            accepts_pairs(fa),
            accepts_pairs(fm),
        ensures
            r is Ok <==> (self.w == other.h && self.h * other.w <= usize::MAX),
            r matches Ok(m) ==> m.wf() && m.w == other.w && m.h == self.h && dot_result_rel(
                fa,
                fm,
                self@,
                other@,
                self.h as int,
                self.w as int,
                other.w as int,
                zero,
                m@,
            ),
            r matches Err(e) ==> e == MatrixError::ShapeMismatch,
    {
        if self.w != other.h {
            return Err(MatrixError::ShapeMismatch);
        }
        let n = self.h;
        let k = self.w;
        let p = other.w;
        match n.checked_mul(p) {
            None => Err(MatrixError::ShapeMismatch),
            Some(np) => {
                proof {
                    vstd::arithmetic::mul::lemma_mul_is_commutative(self.w as int, self.h as int);
                    vstd::arithmetic::mul::lemma_mul_is_commutative(other.w as int, other.h as int);
                    assert(self@.len() == n * k);
                    assert(other@.len() == k * p);
                }
                let vals = if multithreaded {
                    crate::high_freq_computation::dot_multithreaded(
                        &self.values,
                        &other.values,
                        n,
                        k,
                        p,
                        zero,
                        fa,
                        fm,
                    )
                } else {
                    crate::high_freq_computation::dot_monothreaded(
                        &self.values,
                        &other.values,
                        n,
                        k,
                        p,
                        zero,
                        fa,
                        fm,
                    )
                };
                proof {
                    vstd::arithmetic::mul::lemma_mul_is_commutative(p as int, n as int);
                }
                Ok(Matrix { w: p, h: n, length: np, values: vals })
            },
        }
    }
}

/// Transposing twice gives the original matrix back: shape and entries.
pub proof fn lemma_transpose_involution<T: Copy>(a: Matrix<T>, b: Matrix<T>, c: Matrix<T>)
    requires
        Matrix::is_transpose_of(b, a),
        Matrix::is_transpose_of(c, b),
    ensures
        c.w == a.w,
        c.h == a.h,
        c@ == a@,
{
    assert forall|i: int| 0 <= i < a@.len() implies c@[i] == a@[i] by {
        if a.w > 0 {
            lemma_idx2_decompose(i, a.h as int, a.w as int);
            let r = i / (a.w as int);
            let cc = i % (a.w as int);
            assert(b@[idx2(cc, r, a.h as int)] == a@[idx2(r, cc, a.w as int)]);
            assert(c@[idx2(r, cc, a.w as int)] == b@[idx2(cc, r, a.h as int)]);
        } else {
            assert(a.w * a.h == 0) by (nonlinear_arith)
                requires
                    a.w == 0,
            ;
        }
    }
    assert(a@.len() == a.w * a.h);
    assert(c@.len() == c.w * c.h);
    assert(c@ =~= a@);
}

} // verus!
