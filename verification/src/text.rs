//! Text helpers: string comparison, decimal numbers, joining and trimming.
use vstd::prelude::*;
use vstd::string::{StrSliceExecFns, StringExecFns, StringSliceAdditionalSpecFns};
use vstd::utf8::{decode_utf8, encode_utf8, encode_utf8_decode_utf8, valid_utf8};

verus! {

/// Appends the character `c` to `s` (`String::push`).
#[verifier::external_body]
pub(crate) fn push_char(s: &mut String, c: char)
    ensures
        final(s)@ == old(s)@.push(c),
{
    s.push(c);
}

/// What `String::from_utf8_lossy` makes of a byte string.
pub uninterp spec fn lossy_utf8(bytes: Seq<u8>) -> Seq<char>;

/// Decodes `bytes` as UTF-8, replacing invalid sequences with U+FFFD
/// (`String::from_utf8_lossy`). The result is named `lossy_utf8`; of it
/// the contract states only that valid UTF-8 decodes as such, which the
/// documentation promises; how invalid sequences are replaced is not stated.
#[verifier::external_body]
pub(crate) fn utf8_lossy(bytes: &[u8]) -> (r: String)
    ensures
        r@ == lossy_utf8(bytes@),
        valid_utf8(bytes@) ==> r@ == decode_utf8(bytes@),
{
    String::from_utf8_lossy(bytes).into_owned()
}

/// Two strings are equal.
pub fn str_eq(a: &str, b: &str) -> (r: bool)
    ensures
        r == (a@ == b@),
{
    let x = a.as_bytes();
    let y = b.as_bytes();
    proof {
        encode_utf8_decode_utf8(a@);
        encode_utf8_decode_utf8(b@);
    }
    if x.len() != y.len() {
        return false;
    }
    let mut i: usize = 0;
    while i < x.len()
        invariant
            x@ == encode_utf8(a@),
            y@ == encode_utf8(b@),
            x@.len() == y@.len(),
            i <= x@.len(),
            forall|k: int| 0 <= k < i ==> x@[k] == y@[k],
        decreases x@.len() - i,
    {
        if x[i] != y[i] {
            return false;
        }
        i += 1;
    }
    assert(x@ =~= y@);
    true
}

/// The character of a decimal digit.
pub open spec fn digit_char(d: nat) -> char {
    (d + 48) as char
}

/// The decimal digits of `n`, without leading zeros ("0" for zero).
pub open spec fn decimal(n: nat) -> Seq<char>
    decreases n,
{
    if n < 10 {
        seq![digit_char(n)]
    } else {
        decimal(n / 10).push(digit_char(n % 10))
    }
}

/// The decimal representation of an integer, with a minus sign when negative.
pub open spec fn signed_decimal(v: int) -> Seq<char> {
    if v < 0 {
        seq!['-'] + decimal((-v) as nat)
    } else {
        decimal(v as nat)
    }
}

fn digit_of(d: u64) -> (c: char)
    requires
        d < 10,
    ensures
        c == digit_char(d as nat),
{
    let b: u8 = 48 + (d as u8);
    b as char
}

/// Appends the decimal digits of `n` to `s`.
pub fn push_decimal(s: &mut String, n: u64)
    ensures
        final(s)@ == old(s)@ + decimal(n as nat),
    decreases n,
{
    if n >= 10 {
        push_decimal(s, n / 10);
    }
    push_char(s, digit_of(n % 10));
    proof {
        if n >= 10 {
            assert(decimal(n as nat) == decimal((n / 10) as nat).push(digit_char((n % 10) as nat)));
        } else {
            assert(decimal(n as nat) == seq![digit_char(n as nat)]);
        }
        assert(final(s)@ =~= old(s)@ + decimal(n as nat));
    }
}

/// Appends the decimal representation of `v` to `s`.
pub fn push_signed_decimal(s: &mut String, v: i64)
    ensures
        final(s)@ == old(s)@ + signed_decimal(v as int),
{
    if v < 0 {
        push_char(s, '-');
        let magnitude: u64 = (0i128 - (v as i128)) as u64;
        push_decimal(s, magnitude);
        assert(final(s)@ =~= old(s)@ + signed_decimal(v as int));
    } else {
        push_decimal(s, v as u64);
    }
}

/// The decimal representation of an unsigned number (`u64::to_string`).
pub fn u64_to_string(n: u64) -> (r: String)
    ensures
        r@ == decimal(n as nat),
{
    let mut s = String::new();
    push_decimal(&mut s, n);
    assert(s@ =~= decimal(n as nat));
    s
}

/// The decimal representation of a signed number (`i64::to_string`).
pub fn i64_to_string(v: i64) -> (r: String)
    ensures
        r@ == signed_decimal(v as int),
{
    let mut s = String::new();
    push_signed_decimal(&mut s, v);
    assert(s@ =~= signed_decimal(v as int));
    s
}

/// The strings of `parts` joined with `sep` between each two.
pub open spec fn join(parts: Seq<Seq<char>>, sep: Seq<char>) -> Seq<char>
    decreases parts.len(),
{
    if parts.len() == 0 {
        Seq::empty()
    } else if parts.len() == 1 {
        parts[0]
    } else {
        join(parts.drop_last(), sep) + sep + parts.last()
    }
}

/// The views of a list of strings.
pub open spec fn views(parts: Seq<String>) -> Seq<Seq<char>> {
    parts.map_values(|p: String| p@)
}

/// Joins `parts` with `sep` between each two (`[String]::join`).
pub fn join_strings(parts: &Vec<String>, sep: &str) -> (r: String)
    ensures
        r@ == join(views(parts@), sep@),
{
    let mut r = String::new();
    let mut i: usize = 0;
    while i < parts.len()
        invariant
            i <= parts@.len(),
            r@ == join(views(parts@).take(i as int), sep@),
        decreases parts@.len() - i,
    {
        let ghost before = r@;
        if i > 0 {
            r.append(sep);
        }
        r.append(parts[i].as_str());
        proof {
            let t = views(parts@).take(i as int + 1);
            assert(t.drop_last() =~= views(parts@).take(i as int));
            if i == 0 {
                assert(before =~= Seq::<char>::empty());
                assert(r@ =~= t[0]);
            } else {
                assert(r@ =~= join(t.drop_last(), sep@) + sep@ + t.last());
            }
        }
        i += 1;
    }
    assert(views(parts@).take(parts@.len() as int) =~= views(parts@));
    r
}

/// A character with the Unicode White_Space property (`char::is_whitespace`).
pub open spec fn is_white_space(c: char) -> bool {
    let u = c as u32;
    (9 <= u && u <= 13) || u == 32 || u == 0x85 || u == 0xA0 || u == 0x1680 || (0x2000 <= u && u
        <= 0x200A) || u == 0x2028 || u == 0x2029 || u == 0x202F || u == 0x205F || u == 0x3000
}

fn char_is_white_space(c: char) -> (r: bool)
    ensures
        r == is_white_space(c),
{
    let u = c as u32;
    (9 <= u && u <= 13) || u == 32 || u == 0x85 || u == 0xA0 || u == 0x1680 || (0x2000 <= u && u
        <= 0x200A) || u == 0x2028 || u == 0x2029 || u == 0x202F || u == 0x205F || u == 0x3000
}

/// Length of the longest prefix of `s` made of white space.
pub open spec fn leading_white(s: Seq<char>) -> int
    decreases s.len(),
{
    if s.len() > 0 && is_white_space(s[0]) {
        1 + leading_white(s.drop_first())
    } else {
        0
    }
}

/// Length of the longest suffix of `s` made of white space.
pub open spec fn trailing_white(s: Seq<char>) -> int
    decreases s.len(),
{
    if s.len() > 0 && is_white_space(s.last()) {
        1 + trailing_white(s.drop_last())
    } else {
        0
    }
}

/// Length of the longest suffix of `s` made of NUL characters.
pub open spec fn trailing_nul(s: Seq<char>) -> int
    decreases s.len(),
{
    if s.len() > 0 && s.last() == '\0' {
        1 + trailing_nul(s.drop_last())
    } else {
        0
    }
}

/// `s` without trailing NUL characters (`str::trim_end_matches('\0')`).
pub open spec fn trim_nul_end(s: Seq<char>) -> Seq<char> {
    s.take(s.len() - trailing_nul(s))
}

/// `s` without leading and trailing white space (`str::trim`).
pub open spec fn trim_white(s: Seq<char>) -> Seq<char> {
    if leading_white(s) == s.len() {
        Seq::empty()
    } else {
        s.subrange(leading_white(s), s.len() - trailing_white(s))
    }
}

proof fn lemma_leading_white(s: Seq<char>, i: int)
    requires
        0 <= i <= s.len(),
        forall|k: int| 0 <= k < i ==> is_white_space(#[trigger] s[k]),
        i == s.len() || !is_white_space(s[i]),
    ensures
        leading_white(s) == i,
    decreases i,
{
    if i > 0 {
        let r = s.drop_first();
        assert forall|k: int| 0 <= k < i - 1 implies is_white_space(#[trigger] r[k]) by {
            assert(r[k] == s[k + 1]);
        }
        if i < s.len() {
            assert(r[i - 1] == s[i]);
        }
        lemma_leading_white(r, i - 1);
    }
}

proof fn lemma_trailing(s: Seq<char>, e: int, nul: bool)
    requires
        0 <= e <= s.len(),
        forall|k: int|
            e <= k < s.len() ==> if nul {
                #[trigger] s[k] == '\0'
            } else {
                is_white_space(s[k])
            },
        e == 0 || (if nul {
            s[e - 1] != '\0'
        } else {
            !is_white_space(s[e - 1])
        }),
    ensures
        nul ==> trailing_nul(s) == s.len() - e,
        !nul ==> trailing_white(s) == s.len() - e,
    decreases s.len() - e,
{
    if e < s.len() {
        let r = s.drop_last();
        assert forall|k: int| e <= k < r.len() implies (if nul {
            #[trigger] r[k] == '\0'
        } else {
            is_white_space(r[k])
        }) by {
            assert(r[k] == s[k]);
        }
        if e > 0 {
            assert(r[e - 1] == s[e - 1]);
        }
        lemma_trailing(r, e, nul);
    }
}

/// Removes trailing NUL characters, then leading and trailing white space.
pub fn trim_text(s: &str) -> (r: String)
    ensures
        r@ == trim_white(trim_nul_end(s@)),
{
    let n = s.unicode_len();
    let mut end = n;
    while end > 0 && s.get_char(end - 1) == '\0'
        invariant
            end <= n,
            n == s@.len(),
            forall|k: int| end <= k < n ==> #[trigger] s@[k] == '\0',
        decreases end,
    {
        end -= 1;
    }
    proof {
        lemma_trailing(s@, end as int, true);
    }
    let ghost t = trim_nul_end(s@);
    assert(t =~= s@.subrange(0, end as int));
    let mut first: usize = 0;
    while first < end && char_is_white_space(s.get_char(first))
        invariant
            first <= end <= n,
            n == s@.len(),
            t =~= s@.subrange(0, end as int),
            forall|k: int| 0 <= k < first ==> is_white_space(#[trigger] s@[k]),
        decreases end - first,
    {
        first += 1;
    }
    proof {
        assert forall|k: int| 0 <= k < first implies is_white_space(#[trigger] t[k]) by {
            assert(t[k] == s@[k]);
        }
        if first < end {
            assert(t[first as int] == s@[first as int]);
        }
        lemma_leading_white(t, first as int);
    }
    if first == end {
        return String::new();
    }
    let mut last = end;
    while last > first && char_is_white_space(s.get_char(last - 1))
        invariant
            first < end <= n,
            first <= last <= end,
            n == s@.len(),
            !is_white_space(s@[first as int]),
            forall|k: int| last <= k < end ==> is_white_space(#[trigger] s@[k]),
        decreases last,
    {
        last -= 1;
    }
    proof {
        assert forall|k: int| last <= k < t.len() implies is_white_space(#[trigger] t[k]) by {
            assert(t[k] == s@[k]);
        }
        if last > 0 {
            assert(t[last - 1] == s@[last - 1]);
        }
        lemma_trailing(t, last as int, false);
    }
    let piece = s.substring_char(first, last);
    let r = String::from_str(piece);
    assert(r@ =~= trim_white(t));
    r
}

} // verus!
