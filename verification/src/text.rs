//! Character-level helpers shared by the other modules.
use vstd::prelude::*;
use vstd::string::StringSliceAdditionalSpecFns;

verus! {

broadcast use vstd::string::group_string_axioms;

/// Appends one character to a `String` with std's `String::push`. The
/// contract claims that the string afterwards holds its old characters
/// followed by `c`.
#[verifier::external_body]
pub(crate) fn push_char(s: &mut String, c: char)
    ensures
        final(s)@ == old(s)@.push(c),
{
    s.push(c);
}

/// The characters of `s`, in order.
pub fn chars_of(s: &str) -> (res: Vec<char>)
    ensures
        res@ == s@,
{
    let mut res: Vec<char> = Vec::new();
    for c in it: s.chars()
        invariant
            res@ == it.seq().take(it.index() as int),
    {
        res.push(c);
    }
    res
}


/// A `String` holding the characters of `chars`.
pub fn string_from_chars(chars: &[char]) -> (res: String)
    ensures
        res@ == chars@,
{
    let mut res = String::new();
    for i in 0..chars.len()
        invariant
            res@ == chars@.take(i as int),
    {
        push_char(&mut res, chars[i]);
        proof {
            assert(chars@.take(i + 1) =~= chars@.take(i as int).push(chars@[i as int]));
        }
    }
    proof {
        assert(chars@.take(chars@.len() as int) =~= chars@);
    }
    res
}

/// Whether `s` begins with `prefix`.
pub fn starts_with(s: &str, prefix: &str) -> (res: bool)
    ensures
        res == prefix@.is_prefix_of(s@),
{
    let a = chars_of(s);
    let b = chars_of(prefix);
    if b.len() > a.len() {
        return false;
    }
    for i in 0..b.len()
        invariant
            a@ == s@,
            b@ == prefix@,
            b@.len() <= a@.len(),
            forall|k: int| 0 <= k < i ==> a@[k] == b@[k],
    {
        if a[i] != b[i] {
            return false;
        }
    }
    true
}

/// Whether `s` holds the character `c`.
pub fn contains_char(s: &str, c: char) -> (res: bool)
    ensures
        res == s@.contains(c),
{
    let a = chars_of(s);
    for i in 0..a.len()
        invariant
            a@ == s@,
            forall|k: int| 0 <= k < i ==> a@[k] != c,
    {
        if a[i] == c {
            return true;
        }
    }
    false
}

/// The characters Unicode gives the `White_Space` property, which
/// `char::is_whitespace` tests.
pub open spec fn is_whitespace(c: char) -> bool {
    c == '\t' || c == '\n' || c == '\u{B}' || c == '\u{C}' || c == '\r' || c == ' '
        || c == '\u{85}' || c == '\u{A0}' || c == '\u{1680}' || ('\u{2000}' <= c
        && c <= '\u{200A}') || c == '\u{2028}' || c == '\u{2029}' || c == '\u{202F}'
        || c == '\u{205F}' || c == '\u{3000}'
}

pub fn char_is_whitespace(c: char) -> (res: bool)
    ensures
        res == is_whitespace(c),
{
    c == '\t' || c == '\n' || c == '\u{B}' || c == '\u{C}' || c == '\r' || c == ' ' || c
        == '\u{85}' || c == '\u{A0}' || c == '\u{1680}' || ('\u{2000}' <= c && c <= '\u{200A}')
        || c == '\u{2028}' || c == '\u{2029}' || c == '\u{202F}' || c == '\u{205F}' || c
        == '\u{3000}'
}

/// The index of the first character that is not whitespace, or the length.
pub open spec fn trim_start_index(s: Seq<char>) -> int
    decreases s.len(),
{
    if s.len() == 0 || !is_whitespace(s[0]) {
        0
    } else {
        1 + trim_start_index(s.drop_first())
    }
}

/// The index just after the last character that is not whitespace, or 0.
pub open spec fn trim_end_index(s: Seq<char>) -> int
    decreases s.len(),
{
    if s.len() == 0 || !is_whitespace(s.last()) {
        s.len() as int
    } else {
        trim_end_index(s.drop_last())
    }
}

/// `s` without leading and trailing whitespace (`str::trim`).
pub open spec fn spec_trim(s: Seq<char>) -> Seq<char> {
    let e = trim_end_index(s);
    let b = trim_start_index(s.take(e));
    s.take(e).skip(b)
}

proof fn lemma_trim_start_index(s: Seq<char>, i: int)
    requires
        0 <= i <= s.len(),
        forall|k: int| 0 <= k < i ==> is_whitespace(#[trigger] s[k]),
        i == s.len() || !is_whitespace(s[i]),
    ensures
        trim_start_index(s) == i,
    decreases i,
{
    if i > 0 {
        assert(is_whitespace(s[0]));
        let r = s.drop_first();
        assert forall|k: int| 0 <= k < i - 1 implies is_whitespace(#[trigger] r[k]) by {
            assert(r[k] == s[k + 1]);
        }
        lemma_trim_start_index(r, i - 1);
    }
}

proof fn lemma_trim_end_index(s: Seq<char>, e: int)
    requires
        0 <= e <= s.len(),
        forall|k: int| e <= k < s.len() ==> is_whitespace(#[trigger] s[k]),
        e == 0 || !is_whitespace(s[e - 1]),
    ensures
        trim_end_index(s) == e,
    decreases s.len() - e,
{
    if e < s.len() {
        let r = s.drop_last();
        assert forall|k: int| e <= k < r.len() implies is_whitespace(#[trigger] r[k]) by {
            assert(r[k] == s[k]);
        }
        if e > 0 {
            assert(r[e - 1] == s[e - 1]);
        }
        lemma_trim_end_index(r, e);
    }
}

/// `s` without leading and trailing whitespace.
pub fn trim(s: &str) -> (res: String)
    ensures
        res@ == spec_trim(s@),
{
    let a = chars_of(s);
    let mut e = a.len();
    while e > 0 && char_is_whitespace(a[e - 1])
        invariant
            a@ == s@,
            e <= a@.len(),
            forall|k: int| e <= k < a@.len() ==> is_whitespace(#[trigger] a@[k]),
        decreases e,
    {
        e = e - 1;
    }
    let mut b: usize = 0;
    while b < e && char_is_whitespace(a[b])
        invariant
            a@ == s@,
            b <= e <= a@.len(),
            forall|k: int| 0 <= k < b ==> is_whitespace(#[trigger] a@[k]),
        decreases e - b,
    {
        b = b + 1;
    }
    let mut out: Vec<char> = Vec::new();
    let mut i = b;
    while i < e
        invariant
            a@ == s@,
            b <= i <= e <= a@.len(),
            out@ == a@.subrange(b as int, i as int),
        decreases e - i,
    {
        out.push(a[i]);
        i = i + 1;
        proof {
            assert(out@ =~= a@.subrange(b as int, i as int));
        }
    }
    proof {
        lemma_trim_end_index(s@, e as int);
        let t = s@.take(e as int);
        assert forall|k: int| 0 <= k < b implies is_whitespace(#[trigger] t[k]) by {
            assert(t[k] == a@[k]);
        }
        if b < e {
            assert(t[b as int] == a@[b as int]);
        }
        lemma_trim_start_index(t, b as int);
        assert(out@ =~= spec_trim(s@));
    }
    string_from_chars(out.as_slice())
}


/// A boundary of a string lies within its bytes.
pub proof fn lemma_boundary_in_range(s: &str, index: int)
    requires
        vstd::utf8::is_char_boundary(s.spec_bytes(), index),
    ensures
        0 <= index <= s.spec_bytes().len(),
{
    vstd::utf8::encode_utf8_valid_utf8(s@);
}

/// A boundary of a string that lies before a cut at another boundary is a
/// boundary of the part before the cut.
pub proof fn lemma_boundary_in_prefix(s: &str, cut: int, i: int)
    requires
        vstd::utf8::is_char_boundary(s.spec_bytes(), cut),
        vstd::utf8::is_char_boundary(s.spec_bytes(), i),
        0 <= i <= cut,
    ensures
        vstd::utf8::is_char_boundary(s.spec_bytes().subrange(0, cut), i),
{
    let bytes = s.spec_bytes();
    vstd::utf8::encode_utf8_valid_utf8(s@);
    lemma_boundary_in_range(s, cut);
    vstd::utf8::valid_utf8_split(bytes, cut);
    let prefix = bytes.subrange(0, cut);
    if i == cut {
        vstd::utf8::is_char_boundary_start_end_of_seq(prefix);
        assert(prefix.len() == cut);
    } else {
        vstd::utf8::is_char_boundary_iff_not_is_continuation_byte(bytes, i);
        vstd::utf8::is_char_boundary_iff_not_is_continuation_byte(prefix, i);
        assert(prefix[i] == bytes[i]);
    }
}

/// The characters whose bytes run from `start` to `end` in `s`.
pub open spec fn byte_range_chars(s: &str, start: int, end: int) -> Seq<char> {
    vstd::utf8::decode_utf8(s.spec_bytes().subrange(start, end))
}

/// The part of `s` from byte `start` to byte `end` (`&s[start..end]`).
pub fn byte_slice(s: &str, start: usize, end: usize) -> (res: String)
    requires
        start <= end,
        vstd::utf8::is_char_boundary(s.spec_bytes(), start as int),
        vstd::utf8::is_char_boundary(s.spec_bytes(), end as int),
    ensures
        res@ == byte_range_chars(s, start as int, end as int),
        vstd::utf8::encode_utf8(res@) == s.spec_bytes().subrange(start as int, end as int),
{
    proof {
        lemma_boundary_in_prefix(s, end as int, start as int);
        lemma_boundary_in_range(s, end as int);
    }
    let (head, _tail) = s.split_at(end);
    let (_before, mid) = head.split_at(start);
    proof {
        vstd::utf8::encode_utf8_decode_utf8(mid@);
        assert(mid.spec_bytes() =~= s.spec_bytes().subrange(start as int, end as int));
    }
    String::from_str(mid)
}

/// The decimal digit `d` as a character.
pub open spec fn digit_char(d: int) -> char {
    ('0' as int + d) as char
}

/// The decimal numeral of `n`, without sign or leading zeros.
pub open spec fn decimal(n: nat) -> Seq<char>
    decreases n,
{
    if n < 10 {
        seq![digit_char(n as int)]
    } else {
        decimal(n / 10).push(digit_char((n % 10) as int))
    }
}

/// Formats `n` in decimal, as `{}` does.
pub fn decimal_string(n: usize) -> (res: String)
    ensures
        res@ == decimal(n as nat),
    decreases n,
{
    let d: u8 = (n % 10) as u8;
    let c: char = (48u8 + d) as char;
    proof {
        assert(c == digit_char((n % 10) as int));
    }
    if n < 10 {
        let mut s = String::new();
        push_char(&mut s, c);
        proof {
            assert(s@ =~= seq![digit_char(n as int)]);
        }
        s
    } else {
        let mut s = decimal_string(n / 10);
        push_char(&mut s, c);
        s
    }
}

/// The part of `s` from byte `start` to byte `end` when both are character
/// boundaries in order (`s.get(start..end)`), else `None`.
pub fn str_get(s: &str, start: usize, end: usize) -> (res: Option<String>)
    ensures
        match res {
            Some(part) => start <= end && vstd::utf8::is_char_boundary(s.spec_bytes(), start as int)
                && vstd::utf8::is_char_boundary(s.spec_bytes(), end as int) && part@
                == byte_range_chars(s, start as int, end as int),
            None => !(start <= end && vstd::utf8::is_char_boundary(s.spec_bytes(), start as int)
                && vstd::utf8::is_char_boundary(s.spec_bytes(), end as int)),
        },
{
    if start <= end && s.is_char_boundary(start) && s.is_char_boundary(end) {
        Some(byte_slice(s, start, end))
    } else {
        None
    }
}

} // verus!
