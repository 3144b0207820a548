//! The natural order of file names, as a mathematical definition over the
//! UTF-8 bytes of a name, and the facts about it that sorting relies on.
//!
//! A name is read as a sequence of parts: every maximal run of ASCII digits
//! is one number, every other byte is a single character. Two names are
//! compared part by part: numbers by their value, characters by their
//! ASCII-lowercased byte, and a number sorts before any character.
use std::cmp::Ordering;
use vstd::prelude::*;

verus! {

/// An ASCII decimal digit.
pub open spec fn is_digit(c: u8) -> bool {
    48 <= c && c <= 57
}

/// The value of a single digit byte.
pub open spec fn digit_value(c: u8) -> nat {
    (c - 48) as nat
}

/// The byte with ASCII upper-case letters mapped to lower case.
pub open spec fn ascii_lower(c: u8) -> u8 {
    if 65 <= c && c <= 90 {
        (c + 32) as u8
    } else {
        c
    }
}

/// Ten to the power `n`.
pub open spec fn pow10(n: nat) -> nat
    decreases n,
{
    if n == 0 {
        1
    } else {
        10 * pow10((n - 1) as nat)
    }
}

/// Number of digit bytes at the start of `s`.
pub open spec fn digit_run(s: Seq<u8>) -> int
    decreases s.len(),
{
    if s.len() > 0 && is_digit(s[0]) {
        1 + digit_run(s.drop_first())
    } else {
        0
    }
}

/// All bytes of `s` are digits.
pub open spec fn all_digits(s: Seq<u8>) -> bool {
    forall|k: int| 0 <= k < s.len() ==> is_digit(#[trigger] s[k])
}

/// The decimal value of a sequence of digit bytes (leading zeros allowed).
pub open spec fn digits_value(s: Seq<u8>) -> nat
    decreases s.len(),
{
    if s.len() == 0 {
        0
    } else {
        digit_value(s[0]) * pow10((s.len() - 1) as nat) + digits_value(s.drop_first())
    }
}

/// Three-way comparison of two integers.
pub open spec fn int_order(x: int, y: int) -> Ordering {
    if x < y {
        Ordering::Less
    } else if y < x {
        Ordering::Greater
    } else {
        Ordering::Equal
    }
}

/// The opposite ordering.
pub open spec fn flip(o: Ordering) -> Ordering {
    match o {
        Ordering::Less => Ordering::Greater,
        Ordering::Equal => Ordering::Equal,
        Ordering::Greater => Ordering::Less,
    }
}

pub proof fn lemma_digit_run_bounds(s: Seq<u8>)
    ensures
        0 <= digit_run(s) <= s.len(),
        s.len() > 0 && is_digit(s[0]) ==> digit_run(s) >= 1,
        all_digits(s.take(digit_run(s))),
        digit_run(s) < s.len() ==> !is_digit(s[digit_run(s)]),
    decreases s.len(),
{
    if s.len() > 0 && is_digit(s[0]) {
        lemma_digit_run_bounds(s.drop_first());
        let r = digit_run(s.drop_first());
        assert forall|k: int| 0 <= k < s.take(digit_run(s)).len() implies is_digit(
            #[trigger] s.take(digit_run(s))[k],
        ) by {
            if k > 0 {
                assert(s.take(digit_run(s))[k] == s.drop_first().take(r)[k - 1]);
            }
        }
    }
}

/// The bytes of `s` from position `i` on.
pub open spec fn tail(s: Seq<u8>, i: usize) -> Seq<u8> {
    s.skip(i as int)
}

/// The bytes of `s` from position `i` up to, not including, position `j`.
pub open spec fn slice_of(s: Seq<u8>, i: usize, j: usize) -> Seq<u8> {
    s.subrange(i as int, j as int)
}

/// The bytes of `s` after position `i`.
pub open spec fn tail_after(s: Seq<u8>, i: usize) -> Seq<u8> {
    s.skip(i as int + 1)
}

/// The byte of `s` at position `i`.
pub open spec fn byte_at(s: Seq<u8>, i: usize) -> u8 {
    s[i as int]
}

/// The natural order of two byte strings.
pub open spec fn natural_order(a: Seq<u8>, b: Seq<u8>) -> Ordering
    decreases a.len() + b.len(),
{
    if a.len() == 0 {
        if b.len() == 0 {
            Ordering::Equal
        } else {
            Ordering::Less
        }
    } else if b.len() == 0 {
        Ordering::Greater
    } else if is_digit(a[0]) && is_digit(b[0]) {
        let ra = digit_run(a);
        let rb = digit_run(b);
        let va = digits_value(a.take(ra));
        let vb = digits_value(b.take(rb));
        if va < vb {
            Ordering::Less
        } else if vb < va {
            Ordering::Greater
        } else {
            proof {
                lemma_digit_run_bounds(a);
                lemma_digit_run_bounds(b);
            }
            natural_order(a.skip(ra), b.skip(rb))
        }
    } else if is_digit(a[0]) {
        Ordering::Less
    } else if is_digit(b[0]) {
        Ordering::Greater
    } else if ascii_lower(a[0]) < ascii_lower(b[0]) {
        Ordering::Less
    } else if ascii_lower(b[0]) < ascii_lower(a[0]) {
        Ordering::Greater
    } else {
        natural_order(a.drop_first(), b.drop_first())
    }
}

// ---------------------------------------------------------------------------
// Facts about decimal values
// ---------------------------------------------------------------------------
pub proof fn lemma_pow10_positive(n: nat)
    ensures
        pow10(n) >= 1,
    decreases n,
{
    if n > 0 {
        lemma_pow10_positive((n - 1) as nat);
    }
}

pub proof fn lemma_pow10_monotone(m: nat, n: nat)
    requires
        m <= n,
    ensures
        pow10(m) <= pow10(n),
    decreases n,
{
    if m < n {
        lemma_pow10_monotone(m, (n - 1) as nat);
        lemma_pow10_positive((n - 1) as nat);
    }
}

/// A digit string of length `n` has a value below ten to the `n`.
pub proof fn lemma_value_bound(s: Seq<u8>)
    requires
        all_digits(s),
    ensures
        digits_value(s) < pow10(s.len()),
    decreases s.len(),
{
    if s.len() > 0 {
        let rest = s.drop_first();
        assert(all_digits(rest)) by {
            assert forall|k: int| 0 <= k < rest.len() implies is_digit(#[trigger] rest[k]) by {
                assert(rest[k] == s[k + 1]);
            }
        }
        lemma_value_bound(rest);
        assert(is_digit(s[0]));
        let d = digit_value(s[0]);
        let p = pow10((s.len() - 1) as nat);
        assert(d <= 9);
        assert(d * p <= 9 * p) by (nonlinear_arith)
            requires
                d <= 9,
        ;
        assert(pow10(s.len()) == 10 * p);
    }
}

/// A digit string without a leading zero has a value of at least ten to
/// the length minus one.
pub proof fn lemma_value_lower(s: Seq<u8>)
    requires
        all_digits(s),
        s.len() > 0,
        s[0] != 48,
    ensures
        digits_value(s) >= pow10((s.len() - 1) as nat),
{
    assert(is_digit(s[0]));
    let d = digit_value(s[0]);
    let p = pow10((s.len() - 1) as nat);
    assert(d >= 1);
    assert(d * p >= p) by (nonlinear_arith)
        requires
            d >= 1,
    ;
}

/// Leading zeros do not change the value of a digit string.
pub proof fn lemma_value_strip_zeros(s: Seq<u8>, z: int)
    requires
        0 <= z <= s.len(),
        forall|k: int| 0 <= k < z ==> #[trigger] s[k] == 48,
    ensures
        digits_value(s) == digits_value(s.skip(z)),
    decreases z,
{
    if z > 0 {
        assert(digit_value(s[0]) == 0);
        assert(digits_value(s) == digits_value(s.drop_first()));
        let rest = s.drop_first();
        assert forall|k: int| 0 <= k < z - 1 implies #[trigger] rest[k] == 48 by {
            assert(rest[k] == s[k + 1]);
        }
        lemma_value_strip_zeros(rest, z - 1);
        assert(rest.skip(z - 1) =~= s.skip(z));
    } else {
        assert(s.skip(0) =~= s);
    }
}

/// Without leading zeros, a shorter digit string has a smaller value.
pub proof fn lemma_value_length_order(s: Seq<u8>, t: Seq<u8>)
    requires
        all_digits(s),
        all_digits(t),
        s.len() == 0 || s[0] != 48,
        t.len() > 0,
        t[0] != 48,
        s.len() < t.len(),
    ensures
        digits_value(s) < digits_value(t),
{
    lemma_value_bound(s);
    lemma_value_lower(t);
    lemma_pow10_monotone(s.len(), (t.len() - 1) as nat);
}

/// Digit strings of equal length are ordered by their first differing digit.
pub proof fn lemma_value_lexicographic(s: Seq<u8>, t: Seq<u8>, k: int)
    requires
        all_digits(s),
        all_digits(t),
        s.len() == t.len(),
        0 <= k < s.len(),
        forall|j: int| 0 <= j < k ==> s[j] == t[j],
        s[k] < t[k],
    ensures
        digits_value(s) < digits_value(t),
    decreases k,
{
    let rs = s.drop_first();
    let rt = t.drop_first();
    assert(all_digits(rs)) by {
        assert forall|j: int| 0 <= j < rs.len() implies is_digit(#[trigger] rs[j]) by {
            assert(rs[j] == s[j + 1]);
        }
    }
    assert(all_digits(rt)) by {
        assert forall|j: int| 0 <= j < rt.len() implies is_digit(#[trigger] rt[j]) by {
            assert(rt[j] == t[j + 1]);
        }
    }
    let p = pow10((s.len() - 1) as nat);
    if k == 0 {
        lemma_value_bound(rs);
        assert(is_digit(s[0]) && is_digit(t[0]));
        let ds = digit_value(s[0]);
        let dt = digit_value(t[0]);
        assert(ds + 1 <= dt);
        assert(ds * p + p <= dt * p) by (nonlinear_arith)
            requires
                ds + 1 <= dt,
        ;
    } else {
        assert forall|j: int| 0 <= j < k - 1 implies rs[j] == rt[j] by {
            assert(rs[j] == s[j + 1]);
            assert(rt[j] == t[j + 1]);
        }
        lemma_value_lexicographic(rs, rt, k - 1);
        assert(s[0] == t[0]);
    }
}

/// The digit run of `s` ends at the first non-digit byte, or at the end.
pub proof fn lemma_digit_run_exact(s: Seq<u8>, e: int)
    requires
        0 <= e <= s.len(),
        forall|k: int| 0 <= k < e ==> is_digit(#[trigger] s[k]),
        e == s.len() || !is_digit(s[e]),
    ensures
        digit_run(s) == e,
    decreases e,
{
    if e > 0 {
        let rest = s.drop_first();
        assert forall|k: int| 0 <= k < e - 1 implies is_digit(#[trigger] rest[k]) by {
            assert(rest[k] == s[k + 1]);
        }
        if e < s.len() {
            assert(rest[e - 1] == s[e]);
        }
        lemma_digit_run_exact(rest, e - 1);
    }
}

/// When both names continue with a number, they are ordered by the values of
/// those numbers, and by what follows when the values are equal.
pub proof fn lemma_number_compare(a: Seq<u8>, b: Seq<u8>, ai: usize, ae: usize, bi: usize, be: usize)
    requires
        ai < ae <= a.len(),
        bi < be <= b.len(),
        digit_run(tail(a, ai)) == ae - ai,
        digit_run(tail(b, bi)) == be - bi,
    ensures
        natural_order(tail(a, ai), tail(b, bi)) == (if digits_value(slice_of(a, ai, ae))
            < digits_value(slice_of(b, bi, be)) {
            Ordering::Less
        } else if digits_value(slice_of(b, bi, be)) < digits_value(slice_of(a, ai, ae)) {
            Ordering::Greater
        } else {
            natural_order(tail(a, ae), tail(b, be))
        }),
{
    let s = tail(a, ai);
    let t = tail(b, bi);
    lemma_digit_run_bounds(s);
    lemma_digit_run_bounds(t);
    assert(s.take(digit_run(s)) =~= slice_of(a, ai, ae));
    assert(t.take(digit_run(t)) =~= slice_of(b, bi, be));
    assert(s.skip(digit_run(s)) =~= tail(a, ae));
    assert(t.skip(digit_run(t)) =~= tail(b, be));
}

/// When the names do not both continue with a number, their next bytes
/// decide, or what follows when those are equal characters.
pub proof fn lemma_head_compare(a: Seq<u8>, b: Seq<u8>, ai: usize, bi: usize)
    requires
        ai < a.len(),
        bi < b.len(),
        !(is_digit(byte_at(a, ai)) && is_digit(byte_at(b, bi))),
    ensures
        natural_order(tail(a, ai), tail(b, bi)) == (if is_digit(byte_at(a, ai)) {
            Ordering::Less
        } else if is_digit(byte_at(b, bi)) {
            Ordering::Greater
        } else if ascii_lower(byte_at(a, ai)) < ascii_lower(byte_at(b, bi)) {
            Ordering::Less
        } else if ascii_lower(byte_at(b, bi)) < ascii_lower(byte_at(a, ai)) {
            Ordering::Greater
        } else {
            natural_order(tail_after(a, ai), tail_after(b, bi))
        }),
{
    let s = tail(a, ai);
    let t = tail(b, bi);
    assert(s[0] == byte_at(a, ai));
    assert(t[0] == byte_at(b, bi));
    assert(s.drop_first() =~= tail_after(a, ai));
    assert(t.drop_first() =~= tail_after(b, bi));
}

// ---------------------------------------------------------------------------
// Laws of the natural order
// ---------------------------------------------------------------------------
proof fn lemma_run_parts(a: Seq<u8>)
    requires
        a.len() > 0,
        is_digit(a[0]),
    ensures
        1 <= digit_run(a) <= a.len(),
        a.skip(digit_run(a)).len() < a.len(),
{
    lemma_digit_run_bounds(a);
}

/// Every name is equal to itself in the natural order.
pub proof fn natural_order_reflexive(a: Seq<u8>)
    ensures
        natural_order(a, a) == Ordering::Equal,
    decreases a.len(),
{
    if a.len() > 0 {
        if is_digit(a[0]) {
            lemma_run_parts(a);
            natural_order_reflexive(a.skip(digit_run(a)));
        } else {
            natural_order_reflexive(a.drop_first());
        }
    }
}

/// Swapping the arguments of the natural order flips the result.
pub proof fn natural_order_antisymmetric(a: Seq<u8>, b: Seq<u8>)
    ensures
        natural_order(b, a) == flip(natural_order(a, b)),
    decreases a.len() + b.len(),
{
    if a.len() > 0 && b.len() > 0 {
        if is_digit(a[0]) && is_digit(b[0]) {
            lemma_run_parts(a);
            lemma_run_parts(b);
            natural_order_antisymmetric(a.skip(digit_run(a)), b.skip(digit_run(b)));
        } else if !is_digit(a[0]) && !is_digit(b[0]) {
            natural_order_antisymmetric(a.drop_first(), b.drop_first());
        }
    }
}

/// The natural order is transitive, and strictly so when one step is strict.
pub proof fn natural_order_transitive(a: Seq<u8>, b: Seq<u8>, c: Seq<u8>)
    requires
        natural_order(a, b) != Ordering::Greater,
        natural_order(b, c) != Ordering::Greater,
    ensures
        natural_order(a, c) != Ordering::Greater,
        (natural_order(a, b) == Ordering::Less || natural_order(b, c) == Ordering::Less)
            ==> natural_order(a, c) == Ordering::Less,
    decreases a.len() + b.len() + c.len(),
{
    if a.len() > 0 && b.len() > 0 && c.len() > 0 {
        if is_digit(a[0]) && is_digit(b[0]) && is_digit(c[0]) {
            lemma_run_parts(a);
            lemma_run_parts(b);
            lemma_run_parts(c);
            let ra = digit_run(a);
            let rb = digit_run(b);
            let rc = digit_run(c);
            if digits_value(a.take(ra)) == digits_value(b.take(rb)) && digits_value(b.take(rb))
                == digits_value(c.take(rc)) {
                natural_order_transitive(a.skip(ra), b.skip(rb), c.skip(rc));
            }
        } else if !is_digit(a[0]) && !is_digit(b[0]) && !is_digit(c[0]) {
            if ascii_lower(a[0]) == ascii_lower(b[0]) && ascii_lower(b[0]) == ascii_lower(c[0]) {
                natural_order_transitive(a.drop_first(), b.drop_first(), c.drop_first());
            }
        }
    }
}

} // verus!
