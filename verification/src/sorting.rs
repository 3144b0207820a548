//! Ordering of file names and of the images of a folder.
use std::cmp::Ordering;
use vstd::prelude::*;
use vstd::string::StringSliceAdditionalSpecFns;

use vstd::utf8::encode_utf8;

use crate::images::ImageEntry;
use crate::natural_order::{
    all_digits, ascii_lower, byte_at, digit_run, digits_value, flip, is_digit,
    lemma_digit_run_exact, lemma_head_compare, lemma_number_compare, lemma_value_length_order,
    lemma_value_lexicographic, lemma_value_strip_zeros, natural_order,
    natural_order_antisymmetric, natural_order_transitive, slice_of, tail, tail_after,
};

verus! {

fn byte_is_digit(c: u8) -> (r: bool)
    ensures
        r == is_digit(c),
{
    48u8 <= c && c <= 57u8
}

fn byte_lower(c: u8) -> (r: u8)
    ensures
        r == ascii_lower(c),
{
    if 65u8 <= c && c <= 90u8 {
        c + 32
    } else {
        c
    }
}

/// Scans the number that starts at `start`. Returns where its significant
/// digits (after the leading zeros) begin and where the number ends.
fn scan_number(bytes: &[u8], start: usize) -> (r: (usize, usize))
    requires
        start < bytes@.len(),
        is_digit(bytes@[start as int]),
    ensures
        start <= r.0 <= r.1 <= bytes@.len(),
        start < r.1,
        digit_run(tail(bytes@, start)) == r.1 - start,
        r.0 < r.1 ==> bytes@[r.0 as int] != 48,
        all_digits(slice_of(bytes@, r.0, r.1)),
        digits_value(slice_of(bytes@, start, r.1)) == digits_value(slice_of(bytes@, r.0, r.1)),
{
    let mut i = start;
    while i < bytes.len() && bytes[i] == 48u8
        invariant
            start <= i <= bytes@.len(),
            forall|k: int| start <= k < i ==> bytes@[k] == 48,
        decreases bytes@.len() - i,
    {
        i += 1;
    }
    let num_start = i;
    while i < bytes.len() && byte_is_digit(bytes[i])
        invariant
            start <= num_start <= i <= bytes@.len(),
            forall|k: int| start <= k < num_start ==> bytes@[k] == 48,
            num_start < bytes@.len() ==> bytes@[num_start as int] != 48,
            forall|k: int| num_start <= k < i ==> is_digit(bytes@[k]),
        decreases bytes@.len() - i,
    {
        i += 1;
    }
    proof {
        let s = tail(bytes@, start);
        assert forall|k: int| 0 <= k < i - start implies is_digit(#[trigger] s[k]) by {
            assert(s[k] == bytes@[start + k]);
        }
        if i < bytes@.len() {
            assert(s[i - start] == bytes@[i as int]);
        }
        lemma_digit_run_exact(s, i - start);
        let whole = slice_of(bytes@, start, i);
        assert forall|k: int| 0 <= k < num_start - start implies #[trigger] whole[k] == 48 by {
            assert(whole[k] == bytes@[start + k]);
        }
        lemma_value_strip_zeros(whole, num_start - start);
        assert(whole.skip(num_start - start) =~= slice_of(bytes@, num_start, i));
        let sig = slice_of(bytes@, num_start, i);
        assert forall|k: int| 0 <= k < sig.len() implies is_digit(#[trigger] sig[k]) by {
            assert(sig[k] == bytes@[num_start + k]);
        }
    }
    (num_start, i)
}

/// Compares the numbers written by two digit strings without leading zeros:
/// -1, 0 or 1 as the first is smaller than, equal to or greater than the second.
fn compare_digit_strings(a: &[u8], a0: usize, a1: usize, b: &[u8], b0: usize, b1: usize) -> (r:
    i8)
    requires
        a0 <= a1 <= a@.len(),
        b0 <= b1 <= b@.len(),
        all_digits(slice_of(a@, a0, a1)),
        all_digits(slice_of(b@, b0, b1)),
        a0 < a1 ==> a@[a0 as int] != 48,
        b0 < b1 ==> b@[b0 as int] != 48,
    ensures
        r == -1 <==> digits_value(slice_of(a@, a0, a1)) < digits_value(slice_of(b@, b0, b1)),
        r == 1 <==> digits_value(slice_of(b@, b0, b1)) < digits_value(slice_of(a@, a0, a1)),
        r == 0 <==> digits_value(slice_of(a@, a0, a1)) == digits_value(slice_of(b@, b0, b1)),
{
    let ghost sa = slice_of(a@, a0, a1);
    let ghost sb = slice_of(b@, b0, b1);
    let la = a1 - a0;
    let lb = b1 - b0;
    if la < lb {
        proof {
            lemma_value_length_order(sa, sb);
        }
        return -1;
    }
    if lb < la {
        proof {
            lemma_value_length_order(sb, sa);
        }
        return 1;
    }
    let mut k: usize = 0;
    while k < la
        invariant
            la == a1 - a0,
            la == b1 - b0,
            a0 <= a1 <= a@.len(),
            b0 <= b1 <= b@.len(),
            sa == slice_of(a@, a0, a1),
            sb == slice_of(b@, b0, b1),
            all_digits(sa),
            all_digits(sb),
            k <= la,
            forall|j: int| 0 <= j < k ==> sa[j] == sb[j],
        decreases la - k,
    {
        let x = a[a0 + k];
        let y = b[b0 + k];
        assert(sa[k as int] == x);
        assert(sb[k as int] == y);
        if x < y {
            proof {
                lemma_value_lexicographic(sa, sb, k as int);
            }
            return -1;
        }
        if y < x {
            proof {
                lemma_value_lexicographic(sb, sa, k as int);
            }
            return 1;
        }
        k += 1;
    }
    assert(sa =~= sb);
    0
}

/// Compares two file names in natural order: runs of digits compare by
/// their numeric value (leading zeros ignored), other bytes compare
/// ASCII-case-insensitively, and a number sorts before any other byte.
pub fn natural_cmp(a: &str, b: &str) -> (r: Ordering)
    ensures
        r == natural_order(a.spec_bytes(), b.spec_bytes()),
{
    let a_bytes = a.as_bytes();
    let b_bytes = b.as_bytes();
    let mut ai: usize = 0;
    let mut bi: usize = 0;
    proof {
        assert(tail(a_bytes@, 0) =~= a_bytes@);
        assert(tail(b_bytes@, 0) =~= b_bytes@);
    }
    loop
        invariant
            a_bytes@ == a.spec_bytes(),
            b_bytes@ == b.spec_bytes(),
            ai <= a_bytes@.len(),
            bi <= b_bytes@.len(),
            natural_order(a.spec_bytes(), b.spec_bytes()) == natural_order(
                tail(a_bytes@, ai),
                tail(b_bytes@, bi),
            ),
        decreases a_bytes@.len() - ai + b_bytes@.len() - bi,
    {
        if ai >= a_bytes.len() && bi >= b_bytes.len() {
            return Ordering::Equal;
        }
        if ai >= a_bytes.len() {
            return Ordering::Less;
        }
        if bi >= b_bytes.len() {
            return Ordering::Greater;
        }
        let ca = a_bytes[ai];
        let cb = b_bytes[bi];
        assert(byte_at(a_bytes@, ai) == ca);
        assert(byte_at(b_bytes@, bi) == cb);
        let a_is_digit = byte_is_digit(ca);
        let b_is_digit = byte_is_digit(cb);
        if a_is_digit && b_is_digit {
            let (a_num, a_end) = scan_number(a_bytes, ai);
            let (b_num, b_end) = scan_number(b_bytes, bi);
            let order = compare_digit_strings(a_bytes, a_num, a_end, b_bytes, b_num, b_end);
            proof {
                lemma_number_compare(a_bytes@, b_bytes@, ai, a_end, bi, b_end);
            }
            if order < 0 {
                return Ordering::Less;
            }
            if order > 0 {
                return Ordering::Greater;
            }
            ai = a_end;
            bi = b_end;
        } else {
            proof {
                lemma_head_compare(a_bytes@, b_bytes@, ai, bi);
            }
            if a_is_digit {
                return Ordering::Less;
            }
            if b_is_digit {
                return Ordering::Greater;
            }
            let la = byte_lower(ca);
            let lb = byte_lower(cb);
            if la < lb {
                return Ordering::Less;
            }
            if lb < la {
                return Ordering::Greater;
            }
            let ghost a_prev = ai;
            let ghost b_prev = bi;
            ai = ai + 1;
            bi = bi + 1;
            assert(tail(a_bytes@, ai) =~= tail_after(a_bytes@, a_prev));
            assert(tail(b_bytes@, bi) =~= tail_after(b_bytes@, b_prev));
        }
    }
}

/// How the images of a folder are ordered.
#[derive(Clone, Copy, Debug, PartialEq, Eq, Structural)]
pub enum ImageSortMode {
    /// By file size, smallest first.
    Size,
    /// By modification time, newest first.
    Date,
    /// By the code of the first character of the name.
    Name,
}

/// The code of the first character of a name, 0 for an empty name.
pub open spec fn first_char_code_of(name: Seq<char>) -> u32 {
    if name.len() == 0 {
        0
    } else {
        name[0] as u32
    }
}

/// The natural order of two names given as characters.
pub open spec fn name_order(a: Seq<char>, b: Seq<char>) -> Ordering {
    natural_order(encode_utf8(a), encode_utf8(b))
}

/// Three-way comparison of two sort keys.
pub open spec fn key_order(x: i128, y: i128) -> Ordering {
    if x < y {
        Ordering::Less
    } else if y < x {
        Ordering::Greater
    } else {
        Ordering::Equal
    }
}

/// Three-way comparison of two character codes.
pub open spec fn code_order(x: u32, y: u32) -> Ordering {
    if x < y {
        Ordering::Less
    } else if y < x {
        Ordering::Greater
    } else {
        Ordering::Equal
    }
}

/// The order in which `sort` places entry `a` (with sort key `ka`) and entry
/// `b` (with sort key `kb`). The sort key is the file size for `Size` and the
/// modification time for `Date`; `Name` does not use it.
pub open spec fn entry_order(
    mode: ImageSortMode,
    a: ImageEntry,
    ka: i128,
    b: ImageEntry,
    kb: i128,
    reversed: bool,
) -> Ordering {
    let primary = match mode {
        ImageSortMode::Size => key_order(ka, kb),
        ImageSortMode::Date => flip(key_order(ka, kb)),
        ImageSortMode::Name => code_order(first_char_code_of(a.name@), first_char_code_of(b.name@)),
    };
    let order = if primary == Ordering::Equal {
        name_order(a.name@, b.name@)
    } else {
        primary
    };
    if reversed {
        flip(order)
    } else {
        order
    }
}

/// `a` may come before `b` in the sorted order.
pub open spec fn entry_le(
    mode: ImageSortMode,
    a: ImageEntry,
    ka: i128,
    b: ImageEntry,
    kb: i128,
    reversed: bool,
) -> bool {
    entry_order(mode, a, ka, b, kb, reversed) != Ordering::Greater
}

/// `a` and `b` are equivalent in the sorted order.
pub open spec fn entry_equiv(
    mode: ImageSortMode,
    a: ImageEntry,
    ka: i128,
    b: ImageEntry,
    kb: i128,
    reversed: bool,
) -> bool {
    entry_order(mode, a, ka, b, kb, reversed) == Ordering::Equal
}

/// Swapping two entries flips their order.
pub proof fn entry_order_antisymmetric(
    mode: ImageSortMode,
    a: ImageEntry,
    ka: i128,
    b: ImageEntry,
    kb: i128,
    reversed: bool,
)
    ensures
        entry_order(mode, b, kb, a, ka, reversed) == flip(
            entry_order(mode, a, ka, b, kb, reversed),
        ),
{
    natural_order_antisymmetric(encode_utf8(a.name@), encode_utf8(b.name@));
}

/// The order of entries is transitive, and strictly so when one step is strict.
pub proof fn entry_order_transitive(
    mode: ImageSortMode,
    a: ImageEntry,
    ka: i128,
    b: ImageEntry,
    kb: i128,
    c: ImageEntry,
    kc: i128,
    reversed: bool,
)
    requires
        entry_le(mode, a, ka, b, kb, reversed),
        entry_le(mode, b, kb, c, kc, reversed),
    ensures
        entry_le(mode, a, ka, c, kc, reversed),
        !entry_equiv(mode, a, ka, b, kb, reversed) ==> !entry_equiv(mode, a, ka, c, kc, reversed),
        !entry_equiv(mode, b, kb, c, kc, reversed) ==> !entry_equiv(mode, a, ka, c, kc, reversed),
{
    let na = encode_utf8(a.name@);
    let nb = encode_utf8(b.name@);
    let nc = encode_utf8(c.name@);
    natural_order_antisymmetric(na, nb);
    natural_order_antisymmetric(nb, nc);
    natural_order_antisymmetric(na, nc);
    if reversed {
        if natural_order(nb, na) != Ordering::Greater && natural_order(nc, nb) != Ordering::Greater {
            natural_order_transitive(nc, nb, na);
        }
    } else {
        if natural_order(na, nb) != Ordering::Greater && natural_order(nb, nc) != Ordering::Greater {
            natural_order_transitive(na, nb, nc);
        }
    }
}

/// The code of the first character of `name`, or 0 when it is empty.
pub fn first_char_code(name: &str) -> (r: u32)
    ensures
        r == first_char_code_of(name@),
{
    broadcast use vstd::string::group_string_axioms;

    let mut chars = name.chars();
    match chars.next() {
        Some(c) => c as u32,
        None => 0,
    }
}

fn reverse_order(o: Ordering) -> (r: Ordering)
    ensures
        r == flip(o),
{
    match o {
        Ordering::Less => Ordering::Greater,
        Ordering::Equal => Ordering::Equal,
        Ordering::Greater => Ordering::Less,
    }
}

fn compare_keys(x: i128, y: i128) -> (r: Ordering)
    ensures
        r == key_order(x, y),
{
    if x < y {
        Ordering::Less
    } else if y < x {
        Ordering::Greater
    } else {
        Ordering::Equal
    }
}

/// Compares two entries as `sort` orders them.
pub fn compare_entries(
    mode: ImageSortMode,
    a: &ImageEntry,
    ka: i128,
    b: &ImageEntry,
    kb: i128,
    reversed: bool,
) -> (r: Ordering)
    ensures
        r == entry_order(mode, *a, ka, *b, kb, reversed),
{
    let primary = match mode {
        ImageSortMode::Size => compare_keys(ka, kb),
        ImageSortMode::Date => reverse_order(compare_keys(ka, kb)),
        ImageSortMode::Name => {
            let ca = first_char_code(a.name.as_str());
            let cb = first_char_code(b.name.as_str());
            if ca < cb {
                Ordering::Less
            } else if cb < ca {
                Ordering::Greater
            } else {
                Ordering::Equal
            }
        },
    };
    let order = match primary {
        Ordering::Equal => natural_cmp(a.name.as_str(), b.name.as_str()),
        _ => primary,
    };
    if reversed {
        reverse_order(order)
    } else {
        order
    }
}

/// `p` lists each of the positions `lo` up to `hi` exactly once.
pub open spec fn is_permutation_of_range(p: Seq<int>, lo: int, hi: int) -> bool {
    &&& p.len() == hi - lo
    &&& forall|k: int| 0 <= k < p.len() ==> lo <= #[trigger] p[k] < hi
    &&& forall|k: int, l: int| 0 <= k < l < p.len() ==> p[k] != p[l]
}

/// `result` is `original` stably sorted: `result[k]` is `original[p[k]]` for a
/// permutation `p`, consecutive entries are in order, and entries that are
/// equivalent keep their original relative order.
pub open spec fn is_stable_sort_of(
    mode: ImageSortMode,
    original: Seq<ImageEntry>,
    keys: Seq<i128>,
    reversed: bool,
    p: Seq<int>,
    result: Seq<ImageEntry>,
) -> bool {
    &&& is_permutation_of_range(p, 0, original.len() as int)
    &&& result.len() == original.len()
    &&& forall|k: int| 0 <= k < result.len() ==> #[trigger] result[k] == original[p[k]]
    &&& forall|k: int, l: int|
        0 <= k < l < result.len() ==> entry_le(
            mode,
            #[trigger] original[p[k]],
            keys[p[k]],
            #[trigger] original[p[l]],
            keys[p[l]],
            reversed,
        )
    &&& forall|k: int, l: int|
        0 <= k < l < result.len() && entry_equiv(
            mode,
            #[trigger] original[p[k]],
            keys[p[k]],
            #[trigger] original[p[l]],
            keys[p[l]],
            reversed,
        ) ==> p[k] < p[l]
}

/// Two entries are always comparable, and equivalence is symmetric.
pub proof fn entry_le_total(
    mode: ImageSortMode,
    a: ImageEntry,
    ka: i128,
    b: ImageEntry,
    kb: i128,
    reversed: bool,
)
    ensures
        entry_equiv(mode, a, ka, b, kb, reversed) == entry_equiv(mode, b, kb, a, ka, reversed),
        entry_equiv(mode, a, ka, b, kb, reversed) ==> entry_le(mode, a, ka, b, kb, reversed),
        !entry_le(mode, a, ka, b, kb, reversed) ==> entry_le(mode, b, kb, a, ka, reversed)
            && !entry_equiv(mode, b, kb, a, ka, reversed),
{
    entry_order_antisymmetric(mode, a, ka, b, kb, reversed);
}

/// A permutation of the positions `0` up to `n` lists every one of them.
proof fn lemma_permutation_onto(p: Seq<int>, n: nat, x: int)
    requires
        is_permutation_of_range(p, 0, n as int),
        0 <= x < n,
    ensures
        exists|k: int| 0 <= k < p.len() && p[k] == x,
{
    assert(p.no_duplicates()) by {
        assert forall|k: int, l: int| 0 <= k < p.len() && 0 <= l < p.len() && k != l implies p[k]
            != p[l] by {
            if k < l {
            } else {
            }
        }
    }
    p.unique_seq_to_set();
    vstd::set_lib::lemma_int_range(0, n as int);
    let range = vstd::set_lib::set_int_range(0, n as int);
    assert(p.to_set().subset_of(range)) by {
        assert forall|y: int| p.to_set().contains(y) implies range.contains(y) by {
            let k = choose|k: int| 0 <= k < p.len() && p[k] == y;
        }
    }
    vstd::set_lib::lemma_len_subset(p.to_set(), range);
    vstd::set_lib::lemma_subset_equality(p.to_set(), range);
    assert(range.contains(x));
    assert(p.to_set().contains(x));
}

proof fn lemma_reversed_prefix(
    mode: ImageSortMode,
    original: Seq<ImageEntry>,
    keys: Seq<i128>,
    p: Seq<int>,
    r1: Seq<ImageEntry>,
    q: Seq<int>,
    r2: Seq<ImageEntry>,
    i: int,
)
    requires
        keys.len() == original.len(),
        forall|a: int, b: int|
            0 <= a < original.len() && 0 <= b < original.len() && a != b ==> entry_order(
                mode,
                #[trigger] original[a],
                keys[a],
                #[trigger] original[b],
                keys[b],
                false,
            ) != Ordering::Equal,
        is_stable_sort_of(mode, original, keys, false, p, r1),
        is_stable_sort_of(mode, original, keys, true, q, r2),
        0 <= i < original.len(),
    ensures
        forall|j: int| 0 <= j <= i ==> q[j] == p[original.len() - 1 - j],
    decreases i,
{
    let n = original.len();
    if i > 0 {
        lemma_reversed_prefix(mode, original, keys, p, r1, q, r2, i - 1);
    }
    let a = q[i];
    let b = p[n - 1 - i];
    if a != b {
        lemma_permutation_onto(p, n, a);
        let j = choose|j: int| 0 <= j < p.len() && p[j] == a;
        lemma_permutation_onto(q, n, b);
        let m = choose|m: int| 0 <= m < q.len() && q[m] == b;
        if j > n - 1 - i {
            let i2 = n - 1 - j;
            assert(q[i2] == p[n - 1 - i2]);
            assert(q[i2] == q[i]);
        }
        if m < i {
            assert(q[m] == p[n - 1 - m]);
            assert(p[n - 1 - m] == p[n - 1 - i]);
        }
        assert(j < n - 1 - i && m > i);
        // In the plain order a comes before b; in the reversed one after.
        assert(entry_le(mode, original[p[j]], keys[p[j]], original[p[n - 1 - i]], keys[p[n - 1 - i]], false));
        assert(entry_le(mode, original[q[i]], keys[q[i]], original[q[m]], keys[q[m]], true));
        assert(entry_order(mode, original[a], keys[a], original[b], keys[b], false) != Ordering::Equal);
        assert(false);
    }
}

/// When no two entries are in the same place of the order (no two compare
/// equal), the reversed sort gives the plain sort backwards.
pub proof fn reversed_sort_is_backwards(
    mode: ImageSortMode,
    original: Seq<ImageEntry>,
    keys: Seq<i128>,
    p: Seq<int>,
    r1: Seq<ImageEntry>,
    q: Seq<int>,
    r2: Seq<ImageEntry>,
)
    requires
        keys.len() == original.len(),
        forall|a: int, b: int|
            0 <= a < original.len() && 0 <= b < original.len() && a != b ==> entry_order(
                mode,
                #[trigger] original[a],
                keys[a],
                #[trigger] original[b],
                keys[b],
                false,
            ) != Ordering::Equal,
        is_stable_sort_of(mode, original, keys, false, p, r1),
        is_stable_sort_of(mode, original, keys, true, q, r2),
    ensures
        r2.len() == r1.len(),
        forall|i: int| 0 <= i < r2.len() ==> #[trigger] r2[i] == r1[r1.len() - 1 - i],
{
    let n = original.len();
    if n > 0 {
        lemma_reversed_prefix(mode, original, keys, p, r1, q, r2, n - 1);
        assert forall|i: int| 0 <= i < r2.len() implies #[trigger] r2[i] == r1[r1.len() - 1 - i] by {
            assert(q[i] == p[n - 1 - i]);
            assert(r1[n - 1 - i] == original[p[n - 1 - i]]);
        }
    }
}

/// Whether `a` (key `ka`) may come before `b` (key `kb`).
fn entry_precedes(
    mode: ImageSortMode,
    a: &ImageEntry,
    ka: i128,
    b: &ImageEntry,
    kb: i128,
    reversed: bool,
) -> (r: bool)
    ensures
        r == entry_le(mode, *a, ka, *b, kb, reversed),
{
    match compare_entries(mode, a, ka, b, kb, reversed) {
        Ordering::Greater => false,
        _ => true,
    }
}

impl ImageSortMode {
    /// The mode orders by file size.
    pub fn is_size(self) -> (r: bool)
        ensures
            r == (self == ImageSortMode::Size),
    {
        match self {
            ImageSortMode::Size => true,
            _ => false,
        }
    }

    /// The mode orders by name.
    pub fn is_name(self) -> (r: bool)
        ensures
            r == (self == ImageSortMode::Name),
    {
        match self {
            ImageSortMode::Name => true,
            _ => false,
        }
    }

    /// Stably sorts `entries`. `keys[i]` is the sort key of `entries[i]`:
    /// its size in bytes for `Size`, its modification time for `Date`
    /// (unused for `Name`). With `reversed`, the whole order is reversed;
    /// equivalent entries keep their relative order either way.
    pub fn sort(self, entries: &mut Vec<ImageEntry>, keys: &Vec<i128>, reversed: bool)
        requires
            keys@.len() == old(entries)@.len(),
        ensures
            exists|p: Seq<int>|
                is_stable_sort_of(self, old(entries)@, keys@, reversed, p, final(entries)@),
    {
        let ghost original = entries@;
        let ghost n = entries@.len() as int;
        let mut result: Vec<ImageEntry> = Vec::new();
        let mut origin: Vec<usize> = Vec::new();
        let ghost mut rkeys: Seq<i128> = Seq::empty();
        while entries.len() > 0
            invariant
                keys@.len() == n,
                original.len() == n,
                entries@.len() <= n,
                entries@ == original.take(entries@.len() as int),
                result@.len() == origin@.len(),
                result@.len() == rkeys.len(),
                result@.len() == n - entries@.len(),
                forall|k: int|
                    0 <= k < origin@.len() ==> entries@.len() <= #[trigger] origin@[k] < n,
                forall|k: int, l: int| 0 <= k < l < origin@.len() ==> origin@[k] != origin@[l],
                forall|k: int|
                    0 <= k < result@.len() ==> #[trigger] result@[k] == original[origin@[k] as int],
                forall|k: int|
                    0 <= k < result@.len() ==> #[trigger] rkeys[k] == keys@[origin@[k] as int],
                forall|k: int, l: int|
                    0 <= k < l < result@.len() ==> entry_le(
                        self,
                        #[trigger] result@[k],
                        rkeys[k],
                        #[trigger] result@[l],
                        rkeys[l],
                        reversed,
                    ),
                forall|k: int, l: int|
                    0 <= k < l < result@.len() && entry_equiv(
                        self,
                        #[trigger] result@[k],
                        rkeys[k],
                        #[trigger] result@[l],
                        rkeys[l],
                        reversed,
                    ) ==> origin@[k] < origin@[l],
            decreases entries@.len(),
        {
            let i = entries.len() - 1;
            let x = entries.pop().unwrap();
            let kx = keys[i];
            assert(x == original[i as int]);
            // Place x before the first entry that it may precede.
            let mut pos: usize = 0;
            while pos < result.len()
                invariant
                    pos <= result@.len(),
                    result@.len() == origin@.len(),
                    result@.len() == rkeys.len(),
                    forall|k: int|
                        0 <= k < result@.len() ==> #[trigger] rkeys[k] == keys@[origin@[k] as int],
                    forall|k: int|
                        0 <= k < origin@.len() ==> #[trigger] origin@[k] < n,
                    keys@.len() == n,
                    forall|k: int|
                        0 <= k < pos ==> !entry_le(
                            self,
                            x,
                            kx,
                            #[trigger] result@[k],
                            rkeys[k],
                            reversed,
                        ),
                ensures
                    pos <= result@.len(),
                    pos < result@.len() ==> entry_le(
                        self,
                        x,
                        kx,
                        result@[pos as int],
                        rkeys[pos as int],
                        reversed,
                    ),
                    forall|k: int|
                        0 <= k < pos ==> !entry_le(
                            self,
                            x,
                            kx,
                            #[trigger] result@[k],
                            rkeys[k],
                            reversed,
                        ),
                decreases result@.len() - pos,
            {
                let ko = keys[origin[pos]];
                if entry_precedes(self, &x, kx, &result[pos], ko, reversed) {
                    break;
                }
                pos += 1;
            }
            let ghost old_result = result@;
            let ghost old_origin = origin@;
            let ghost old_rkeys = rkeys;
            result.insert(pos, x);
            origin.insert(pos, i);
            proof {
                rkeys = rkeys.insert(pos as int, kx);
                assert forall|k: int, l: int|
                    0 <= k < l < result@.len() implies entry_le(
                        self,
                        #[trigger] result@[k],
                        rkeys[k],
                        #[trigger] result@[l],
                        rkeys[l],
                        reversed,
                    ) && (entry_equiv(self, result@[k], rkeys[k], result@[l], rkeys[l], reversed)
                        ==> origin@[k] < origin@[l]) by {
                    let p = pos as int;
                    if k < p && l < p {
                        assert(result@[k] == old_result[k] && result@[l] == old_result[l]);
                    } else if k < p && l == p {
                        entry_le_total(self, x, kx, old_result[k], old_rkeys[k], reversed);
                    } else if k < p && l > p {
                        assert(result@[k] == old_result[k] && result@[l] == old_result[l - 1]);
                    } else if k == p {
                        assert(result@[l] == old_result[l - 1]);
                        if l - 1 > p {
                            entry_order_transitive(
                                self,
                                x,
                                kx,
                                old_result[p],
                                old_rkeys[p],
                                old_result[l - 1],
                                old_rkeys[l - 1],
                                reversed,
                            );
                        }
                    } else {
                        assert(result@[k] == old_result[k - 1] && result@[l] == old_result[l - 1]);
                    }
                }
            }
        }
        proof {
            let p = origin@.map_values(|j: usize| j as int);
            assert forall|k: int| 0 <= k < result@.len() implies #[trigger] result@[k] == original[p[k]] by {
            }
            assert forall|k: int, l: int|
                0 <= k < l < result@.len() implies entry_le(
                    self,
                    #[trigger] original[p[k]],
                    keys@[p[k]],
                    #[trigger] original[p[l]],
                    keys@[p[l]],
                    reversed,
                ) by {
                assert(result@[k] == original[p[k]]);
                assert(result@[l] == original[p[l]]);
            }
            assert forall|k: int, l: int|
                0 <= k < l < result@.len() && entry_equiv(
                    self,
                    #[trigger] original[p[k]],
                    keys@[p[k]],
                    #[trigger] original[p[l]],
                    keys@[p[l]],
                    reversed,
                ) implies p[k] < p[l] by {
                assert(result@[k] == original[p[k]]);
                assert(result@[l] == original[p[l]]);
            }
            assert(is_stable_sort_of(self, original, keys@, reversed, p, result@));
        }
        *entries = result;
    }
}

} // verus!
