//! Small verified helpers on strings: equality, decimal numbers, splitting
//! and joining on a separator character.

use vstd::prelude::*;
use vstd::string::{StrSliceExecFns, StringExecFns};

verus! {

/// The decimal digit character for a value below ten.
pub open spec fn dec_digit(d: int) -> char {
    if d == 0 {
        '0'
    } else if d == 1 {
        '1'
    } else if d == 2 {
        '2'
    } else if d == 3 {
        '3'
    } else if d == 4 {
        '4'
    } else if d == 5 {
        '5'
    } else if d == 6 {
        '6'
    } else if d == 7 {
        '7'
    } else if d == 8 {
        '8'
    } else {
        '9'
    }
}

/// The decimal rendering of a nonnegative number, most significant digit
/// first, without leading zeros (zero itself is "0").
pub open spec fn dec_of(n: int) -> Seq<char>
    decreases n,
{
    if n < 10 {
        seq![dec_digit(n)]
    } else {
        dec_of(n / 10).push(dec_digit(n % 10))
    }
}

/// A decimal digit character.
pub open spec fn is_dec_digit(c: char) -> bool {
    '0' <= c && c <= '9'
}

/// The value of a decimal digit character.
pub open spec fn dec_val(c: char) -> int {
    c as int - '0' as int
}

/// A nonempty string of decimal digits.
pub open spec fn digits_ok(s: Seq<char>) -> bool {
    s.len() > 0 && forall|i: int| 0 <= i < s.len() ==> is_dec_digit(#[trigger] s[i])
}

/// The number a string of decimal digits denotes.
pub open spec fn val_of(s: Seq<char>) -> int
    decreases s.len(),
{
    if s.len() == 0 {
        0
    } else {
        val_of(s.drop_last()) * 10 + dec_val(s.last())
    }
}

/// The digit characters of a digit list, in list order.
pub open spec fn chars_of_digits(ds: Seq<usize>) -> Seq<char> {
    ds.map_values(|d: usize| dec_digit(d as int))
}

/// The one-character string of a decimal digit.
fn digit_str(d: usize) -> (s: &'static str)
    requires
        d < 10,
    ensures
        s@ =~= seq![dec_digit(d as int)],
{
    proof {
        reveal_strlit("0");
        reveal_strlit("1");
        reveal_strlit("2");
        reveal_strlit("3");
        reveal_strlit("4");
        reveal_strlit("5");
        reveal_strlit("6");
        reveal_strlit("7");
        reveal_strlit("8");
        reveal_strlit("9");
    }
    if d == 0 {
        "0"
    } else if d == 1 {
        "1"
    } else if d == 2 {
        "2"
    } else if d == 3 {
        "3"
    } else if d == 4 {
        "4"
    } else if d == 5 {
        "5"
    } else if d == 6 {
        "6"
    } else if d == 7 {
        "7"
    } else if d == 8 {
        "8"
    } else {
        "9"
    }
}

/// Renders a number in decimal, most significant digit first.
pub fn usize_to_string(n: usize) -> (s: String)
    ensures
        s@ == dec_of(n as int),
{
    let mut digits: Vec<usize> = Vec::new();
    let mut m = n;
    digits.push(m % 10);
    m = m / 10;
    while m > 0
        invariant
            m >= 0,
            digits@.len() >= 1,
            forall|i: int| 0 <= i < digits@.len() ==> #[trigger] digits@[i] < 10,
            m > 0 ==> dec_of(n as int) =~= dec_of(m as int) + chars_of_digits(digits@).reverse(),
            m == 0 ==> dec_of(n as int) =~= chars_of_digits(digits@).reverse(),
        decreases m,
    {
        let d = m % 10;
        let ghost pre = digits@;
        digits.push(d);
        let m2 = m / 10;
        proof {
            assert(chars_of_digits(digits@).reverse() =~= seq![dec_digit(d as int)]
                + chars_of_digits(pre).reverse());
            if m2 > 0 {
                assert(dec_of(m as int) == dec_of(m as int / 10).push(dec_digit(m as int % 10)));
                assert(dec_of(m as int) + chars_of_digits(pre).reverse() =~= dec_of(m2 as int) + (
                seq![dec_digit(d as int)] + chars_of_digits(pre).reverse()));
            } else {
                assert(dec_of(m as int) =~= seq![dec_digit(d as int)]);
            }
        }
        m = m2;
    }
    let total = digits.len();
    let mut s = String::new();
    let mut k: usize = 0;
    while k < total
        invariant
            total == digits@.len(),
            k <= total,
            forall|i: int| 0 <= i < digits@.len() ==> #[trigger] digits@[i] < 10,
            s@ =~= chars_of_digits(digits@).reverse().take(k as int),
        decreases total - k,
    {
        let piece = digit_str(digits[total - 1 - k]);
        s.append(piece);
        proof {
            assert(s@ =~= chars_of_digits(digits@).reverse().take(k + 1 as int));
        }
        k += 1;
    }
    proof {
        assert(chars_of_digits(digits@).reverse().take(total as int) =~= chars_of_digits(
            digits@,
        ).reverse());
    }
    s
}

/// Parses a decimal number: accepted exactly when the string is a nonempty
/// run of digits whose value fits the machine word.
pub fn parse_usize(s: &str) -> (r: Result<usize, ()>)
    ensures
        r is Ok <==> (digits_ok(s@) && val_of(s@) <= usize::MAX),
        r matches Ok(n) ==> n == val_of(s@),
{
    let len = s.unicode_len();
    if len == 0 {
        return Err(());
    }
    let mut acc: usize = 0;
    let mut i: usize = 0;
    while i < len
        invariant
            len == s@.len(),
            i <= len,
            forall|j: int| 0 <= j < i ==> is_dec_digit(#[trigger] s@[j]),
            acc == val_of(s@.take(i as int)),
        decreases len - i,
    {
        let c = s.get_char(i);
        let cv = c as u32;
        if cv < 48 || cv > 57 {
            proof {
                assert(!is_dec_digit(s@[i as int]));
                if digits_ok(s@) {
                    assert(is_dec_digit(s@[i as int]));
                }
            }
            return Err(());
        }
        let d = (cv - 48) as usize;
        let next = match acc.checked_mul(10) {
            Some(t) => t.checked_add(d),
            None => None,
        };
        match next {
            Some(v) => {
                proof {
                    assert(s@.take(i + 1 as int).drop_last() =~= s@.take(i as int));
                    assert(s@.take(i + 1 as int).last() == s@[i as int]);
                }
                acc = v;
            },
            None => {
                proof {
                    assert(s@.take(i + 1 as int).drop_last() =~= s@.take(i as int));
                    assert(val_of(s@.take(i + 1 as int)) > usize::MAX);
                    if digits_ok(s@) {
                        lemma_val_of_prefix_le(s@, i + 1 as int);
                    }
                }
                return Err(());
            },
        }
        i += 1;
    }
    proof {
        assert(s@.take(len as int) =~= s@);
    }
    Ok(acc)
}

/// A digit string's value is at least the value of any of its prefixes.
proof fn lemma_val_of_prefix_le(s: Seq<char>, i: int)
    requires
        0 <= i <= s.len(),
        forall|j: int| 0 <= j < i ==> is_dec_digit(#[trigger] s[j]),
        forall|j: int| i <= j < s.len() ==> is_dec_digit(#[trigger] s[j]),
    ensures
        val_of(s.take(i)) <= val_of(s),
        val_of(s) >= 0,
    decreases s.len() - i,
{
    if i == s.len() {
        assert(s.take(i) =~= s);
        lemma_val_of_nonneg(s);
    } else {
        lemma_val_of_prefix_le(s, i + 1);
        lemma_val_of_nonneg(s.take(i));
        assert(s.take(i + 1).drop_last() =~= s.take(i));
        assert(s.take(i + 1).last() == s[i]);
        assert(val_of(s.take(i + 1)) == val_of(s.take(i)) * 10 + dec_val(s[i]));
        assert(val_of(s.take(i)) * 10 >= val_of(s.take(i))) by (nonlinear_arith)
            requires
                val_of(s.take(i)) >= 0,
        ;
    }
}

/// A digit string's value is nonnegative.
proof fn lemma_val_of_nonneg(s: Seq<char>)
    requires
        forall|j: int| 0 <= j < s.len() ==> is_dec_digit(#[trigger] s[j]),
    ensures
        val_of(s) >= 0,
    decreases s.len(),
{
    if s.len() > 0 {
        lemma_val_of_nonneg(s.drop_last());
        assert(val_of(s.drop_last()) * 10 >= 0) by (nonlinear_arith)
            requires
                val_of(s.drop_last()) >= 0,
        ;
    }
}

/// Rendering a number and reading the digits back gives the number: the
/// decimal form is a digit run denoting exactly its source.
pub proof fn lemma_val_of_dec_of(n: int)
    requires
        n >= 0,
    ensures
        digits_ok(dec_of(n)),
        val_of(dec_of(n)) == n,
    decreases n,
{
    if n < 10 {
        assert(dec_of(n) =~= seq![dec_digit(n)]);
        assert(dec_of(n).drop_last() =~= Seq::<char>::empty());
        assert(val_of(Seq::<char>::empty()) == 0);
        assert(dec_of(n).last() == dec_digit(n));
        assert(val_of(dec_of(n)) == val_of(dec_of(n).drop_last()) * 10 + dec_val(dec_of(n).last()));
        assert(is_dec_digit(dec_digit(n)) && dec_val(dec_digit(n)) == n) by {
            if n == 0 {
            } else if n == 1 {
            } else if n == 2 {
            } else if n == 3 {
            } else if n == 4 {
            } else if n == 5 {
            } else if n == 6 {
            } else if n == 7 {
            } else if n == 8 {
            } else {
            }
        }
    } else {
        lemma_val_of_dec_of(n / 10);
        let d = n % 10;
        assert(0 <= d < 10);
        assert(is_dec_digit(dec_digit(d)) && dec_val(dec_digit(d)) == d) by {
            if d == 0 {
            } else if d == 1 {
            } else if d == 2 {
            } else if d == 3 {
            } else if d == 4 {
            } else if d == 5 {
            } else if d == 6 {
            } else if d == 7 {
            } else if d == 8 {
            } else {
            }
        }
        assert(dec_of(n) == dec_of(n / 10).push(dec_digit(d)));
        assert(dec_of(n).drop_last() =~= dec_of(n / 10));
        assert(dec_of(n).last() == dec_digit(d));
        assert(val_of(dec_of(n)) == (n / 10) * 10 + d);
        assert((n / 10) * 10 + n % 10 == n) by (nonlinear_arith)
            requires
                n >= 0,
        ;
        assert forall|i: int| 0 <= i < dec_of(n).len() implies is_dec_digit(
            #[trigger] dec_of(n)[i],
        ) by {
            if i < dec_of(n).len() - 1 {
                assert(dec_of(n)[i] == dec_of(n / 10)[i]);
            }
        }
    }
}

/// The views of a list of owned strings.
pub open spec fn token_views(ts: Seq<String>) -> Seq<Seq<char>> {
    ts.map_values(|t: String| t@)
}

/// Splitting on a separator, as Rust's `split` does it: the pieces between
/// separator occurrences, in order, empty pieces kept. There is always at
/// least one piece.
pub open spec fn split_spec(s: Seq<char>, sep: char) -> Seq<Seq<char>>
    decreases s.len(),
{
    if s.len() == 0 {
        seq![Seq::<char>::empty()]
    } else if s.last() == sep {
        split_spec(s.drop_last(), sep).push(Seq::<char>::empty())
    } else {
        let r = split_spec(s.drop_last(), sep);
        r.update(r.len() - 1, r.last().push(s.last()))
    }
}

/// A split has one more piece than the string has separators; never none.
pub proof fn lemma_split_spec_len(s: Seq<char>, sep: char)
    ensures
        split_spec(s, sep).len() >= 1,
    decreases s.len(),
{
    if s.len() > 0 {
        lemma_split_spec_len(s.drop_last(), sep);
    }
}

/// Splits a string on a separator character, empty pieces kept.
pub fn split_str(s: &str, sep: char) -> (r: Vec<String>)
    ensures
        token_views(r@) == split_spec(s@, sep),
{
    let len = s.unicode_len();
    let mut tokens: Vec<String> = Vec::new();
    let mut start: usize = 0;
    let mut i: usize = 0;
    proof {
        assert(s@.subrange(0, 0) =~= Seq::<char>::empty());
        assert(token_views(tokens@) =~= Seq::<Seq<char>>::empty());
        assert(split_spec(s@.take(0), sep) =~= token_views(tokens@).push(s@.subrange(0, 0)));
    }
    while i < len
        invariant
            len == s@.len(),
            start <= i <= len,
            split_spec(s@.take(i as int), sep) =~= token_views(tokens@).push(
                s@.subrange(start as int, i as int),
            ),
        decreases len - i,
    {
        let c = s.get_char(i);
        proof {
            assert(s@.take(i + 1 as int).drop_last() =~= s@.take(i as int));
            assert(s@.take(i + 1 as int).last() == s@[i as int]);
            lemma_split_spec_len(s@.take(i as int), sep);
        }
        if c == sep {
            let tok = s.substring_char(start, i).to_owned();
            let ghost pre = tokens@;
            tokens.push(tok);
            proof {
                assert(token_views(tokens@) =~= token_views(pre).push(tok@));
                assert(s@.subrange(i + 1 as int, i + 1 as int) =~= Seq::<char>::empty());
                assert(split_spec(s@.take(i + 1 as int), sep) =~= token_views(tokens@).push(
                    s@.subrange(i + 1 as int, i + 1 as int),
                ));
            }
            start = i + 1;
        } else {
            proof {
                assert(s@.subrange(start as int, i as int).push(s@[i as int]) =~= s@.subrange(
                    start as int,
                    i + 1 as int,
                ));
                assert(split_spec(s@.take(i + 1 as int), sep) =~= token_views(tokens@).push(
                    s@.subrange(start as int, i + 1 as int),
                ));
            }
        }
        i += 1;
    }
    let tok = s.substring_char(start, len).to_owned();
    let ghost pre = tokens@;
    tokens.push(tok);
    proof {
        assert(s@.take(len as int) =~= s@);
        assert(s@.subrange(start as int, len as int) == tok@);
        assert(token_views(tokens@) =~= token_views(pre).push(tok@));
        assert(token_views(tokens@) =~= split_spec(s@, sep));
    }
    tokens
}

/// Joining pieces with a separator between neighbours.
pub open spec fn join_spec(ts: Seq<Seq<char>>, sep: char) -> Seq<char>
    decreases ts.len(),
{
    if ts.len() == 0 {
        Seq::<char>::empty()
    } else if ts.len() == 1 {
        ts[0]
    } else {
        join_spec(ts.drop_last(), sep).push(sep) + ts.last()
    }
}

/// Joins owned strings with a one-character separator between neighbours.
pub fn join_with(ts: &Vec<String>, sep_str: &str) -> (r: String)
    requires
        sep_str@.len() == 1,
    ensures
        r@ == join_spec(token_views(ts@), sep_str@[0]),
{
    let mut r = String::new();
    let n = ts.len();
    let mut i: usize = 0;
    while i < n
        invariant
            sep_str@.len() == 1,
            n == ts@.len(),
            i <= n,
            i == 0 ==> r@ =~= Seq::<char>::empty(),
            i > 0 ==> r@ =~= join_spec(token_views(ts@).take(i as int), sep_str@[0]),
        decreases n - i,
    {
        let ghost before = r@;
        if i > 0 {
            r.append(sep_str);
        }
        r.append(ts[i].as_str());
        proof {
            let tv = token_views(ts@);
            assert(tv.take(i + 1 as int).drop_last() =~= tv.take(i as int));
            assert(tv.take(i + 1 as int).last() == tv[i as int]);
            if i > 0 {
                assert(r@ =~= join_spec(tv.take(i as int), sep_str@[0]).push(sep_str@[0])
                    + tv[i as int]);
                assert(join_spec(tv.take(i + 1 as int), sep_str@[0]) == join_spec(
                    tv.take(i + 1 as int).drop_last(),
                    sep_str@[0],
                ).push(sep_str@[0]) + tv.take(i + 1 as int).last());
            } else {
                assert(tv.take(1) =~= seq![tv[0]]);
                assert(r@ =~= tv[0]);
            }
        }
        i += 1;
    }
    proof {
        if n > 0 {
            assert(token_views(ts@).take(n as int) =~= token_views(ts@));
        }
    }
    r
}

/// A join of pieces that lack a character, on a separator other than it,
/// lacks that character too.
pub proof fn lemma_join_free(ts: Seq<Seq<char>>, sep: char, c: char)
    requires
        c != sep,
        forall|i: int, j: int|
            0 <= i < ts.len() && 0 <= j < ts[i].len() ==> #[trigger] ts[i][j] != c,
    ensures
        forall|k: int|
            0 <= k < join_spec(ts, sep).len() ==> #[trigger] join_spec(ts, sep)[k] != c,
    decreases ts.len(),
{
    if ts.len() <= 1 {
    } else {
        let ts0 = ts.drop_last();
        assert(forall|i: int, j: int|
            0 <= i < ts0.len() && 0 <= j < ts0[i].len() ==> #[trigger] ts0[i][j] != c);
        lemma_join_free(ts0, sep, c);
        let a = join_spec(ts0, sep);
        let t = ts.last();
        assert(join_spec(ts, sep) == a.push(sep) + t);
        assert forall|k: int| 0 <= k < join_spec(ts, sep).len() implies #[trigger] join_spec(
            ts,
            sep,
        )[k] != c by {
            if k < a.len() {
                assert(join_spec(ts, sep)[k] == a[k]);
            } else if k == a.len() {
                assert(join_spec(ts, sep)[k] == sep);
            } else {
                assert(join_spec(ts, sep)[k] == t[k - a.len() - 1]);
            }
        }
    }
}

/// Appending separator-free text to a string extends its last piece.
proof fn lemma_split_spec_append(a: Seq<char>, t: Seq<char>, sep: char)
    requires
        forall|i: int| 0 <= i < t.len() ==> t[i] != sep,
    ensures
        split_spec(a + t, sep) =~= split_spec(a, sep).update(
            split_spec(a, sep).len() - 1,
            split_spec(a, sep).last() + t,
        ),
    decreases t.len(),
{
    lemma_split_spec_len(a, sep);
    if t.len() == 0 {
        assert(a + t =~= a);
        let r = split_spec(a, sep);
        assert(r.last() + t =~= r.last());
        assert(r.update(r.len() - 1, r.last()) =~= r);
    } else {
        let t0 = t.drop_last();
        let c = t.last();
        lemma_split_spec_append(a, t0, sep);
        assert(a + t =~= (a + t0).push(c));
        assert((a + t).len() > 0 && (a + t).last() == c && c != sep);
        assert((a + t).drop_last() =~= a + t0);
        let r = split_spec(a, sep);
        let r0 = split_spec(a + t0, sep);
        lemma_split_spec_len(a + t0, sep);
        assert(r0 =~= r.update(r.len() - 1, r.last() + t0));
        assert(r0.len() == r.len());
        assert(split_spec(a + t, sep) == r0.update(r0.len() - 1, r0.last().push(c)));
        assert(r0.last() == r.last() + t0);
        assert((r.last() + t0).push(c) =~= r.last() + t);
        assert(r0.update(r0.len() - 1, r.last() + t) =~= r.update(r.len() - 1, r.last() + t));
    }
}

/// Splitting undoes joining: joining pieces that hold no separator and
/// splitting the result gives the pieces back.
pub proof fn lemma_split_join(ts: Seq<Seq<char>>, sep: char)
    requires
        ts.len() >= 1,
        forall|i: int, j: int|
            0 <= i < ts.len() && 0 <= j < ts[i].len() ==> #[trigger] ts[i][j] != sep,
    ensures
        split_spec(join_spec(ts, sep), sep) == ts,
    decreases ts.len(),
{
    if ts.len() == 1 {
        assert(join_spec(ts, sep) == ts[0]);
        assert(Seq::<char>::empty() + ts[0] =~= ts[0]);
        assert(forall|j: int| 0 <= j < ts[0].len() ==> #[trigger] ts[0][j] != sep);
        lemma_split_spec_append(Seq::<char>::empty(), ts[0], sep);
        let e = split_spec(Seq::<char>::empty(), sep);
        assert(e =~= seq![Seq::<char>::empty()]);
        assert(e.last() + ts[0] =~= ts[0]);
        assert(split_spec(ts[0], sep) =~= seq![ts[0]]);
        assert(split_spec(join_spec(ts, sep), sep) =~= ts);
    } else {
        let ts0 = ts.drop_last();
        let t = ts.last();
        assert(forall|i: int, j: int|
            0 <= i < ts0.len() && 0 <= j < ts0[i].len() ==> #[trigger] ts0[i][j] != sep);
        lemma_split_join(ts0, sep);
        let a = join_spec(ts0, sep);
        assert(join_spec(ts, sep) == a.push(sep) + t);
        assert(a.push(sep).len() > 0 && a.push(sep).last() == sep);
        assert(a.push(sep).drop_last() =~= a);
        lemma_split_spec_len(a, sep);
        assert(split_spec(a.push(sep), sep) == split_spec(a, sep).push(Seq::<char>::empty()));
        assert(forall|j: int| 0 <= j < t.len() ==> #[trigger] t[j] != sep);
        lemma_split_spec_append(a.push(sep), t, sep);
        let rs = split_spec(a.push(sep), sep);
        assert(rs =~= ts0.push(Seq::<char>::empty()));
        assert(rs.last() + t =~= t);
        assert(split_spec(a.push(sep) + t, sep) =~= rs.update(rs.len() - 1, rs.last() + t));
        assert(rs.update(rs.len() - 1, rs.last() + t) =~= ts0.push(t));
        assert(ts0.push(t) =~= ts);
    }
}

/// Character-wise equality of two string slices, decided against their views.
pub fn str_eq(a: &str, b: &str) -> (r: bool)
    ensures
        r == (a@ == b@),
{
    let la = a.unicode_len();
    let lb = b.unicode_len();
    if la != lb {
        proof {
            if a@ == b@ {
                assert(a@.len() == b@.len());
            }
        }
        return false;
    }
    let mut i: usize = 0;
    while i < la
        invariant
            i <= la,
            la == a@.len(),
            la == b@.len(),
            forall|j: int| 0 <= j < i ==> a@[j] == b@[j],
        decreases la - i,
    {
        let ca = a.get_char(i);
        let cb = b.get_char(i);
        if ca != cb {
            proof {
                if a@ == b@ {
                    assert(a@[i as int] == b@[i as int]);
                }
            }
            return false;
        }
        i += 1;
    }
    proof {
        assert(a@ =~= b@);
    }
    true
}

} // verus!
