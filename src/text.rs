//! Small verified helpers on text.

use vstd::prelude::*;
use vstd::utf8::{decode_utf8, valid_utf8};

verus! {

/// A copy of an optional string.
pub fn copy_opt_string(o: &Option<String>) -> (r: Option<String>)
    ensures
        r == *o,
{
    match o {
        Some(s) => Some(s.clone()),
        None => None,
    }
}

/// Whether two texts hold the same characters.
pub fn str_equals(a: &str, b: &str) -> (r: bool)
    ensures
        r == (a@ == b@),
{
    let n = a.unicode_len();
    if n != b.unicode_len() {
        return false;
    }
    let mut i: usize = 0;
    while i < n
        invariant
            n == a@.len(),
            n == b@.len(),
            i <= n,
            forall|j: int| 0 <= j < i ==> a@[j] == b@[j],
        decreases n - i,
    {
        if a.get_char(i) != b.get_char(i) {
            return false;
        }
        i = i + 1;
    }
    assert(a@ =~= b@);
    true
}

/// The lowercase form of a text: each character by its lowercase mapping.
pub uninterp spec fn lowercase_of(s: Seq<char>) -> Seq<char>;

/// Relies on `str::to_lowercase`, whose result depends on the characters of
/// its argument alone.
#[verifier::external_body]
pub(crate) fn to_lowercase(s: &str) -> (r: String)
    ensures
        r@ == lowercase_of(s@),
{
    s.to_lowercase()
}

/// Relies on `core::str::from_utf8`: it accepts exactly the valid UTF-8
/// byte sequences, and the text is what they encode.
#[verifier::external_body]
pub(crate) fn utf8_text(b: &[u8]) -> (r: Option<String>)
    ensures
        r is Some <==> valid_utf8(b@),
        r is Some ==> r->0@ == decode_utf8(b@),
{
    match core::str::from_utf8(b) {
        Ok(s) => Some(s.to_string()),
        Err(_) => None,
    }
}

/// A member of a JSON object, told apart by kind.
#[derive(Clone, Debug)]
pub enum JsonScalar {
    Str(String),
    Bool(bool),
    Other,
}

/// A member of a JSON object as a value.
pub enum JsonMember {
    Str(Seq<char>),
    Bool(bool),
    Other,
}

pub open spec fn json_scalar_view(r: Option<Option<JsonScalar>>) -> Option<Option<JsonMember>> {
    match r {
        None => None,
        Some(None) => Some(None),
        Some(Some(JsonScalar::Str(s))) => Some(Some(JsonMember::Str(s@))),
        Some(Some(JsonScalar::Bool(b))) => Some(Some(JsonMember::Bool(b))),
        Some(Some(JsonScalar::Other)) => Some(Some(JsonMember::Other)),
    }
}

/// What a text holds under `key`: `None` where the text is no JSON
/// document, else the member `key` of the object it holds, if any.
pub uninterp spec fn json_member_of(text: Seq<char>, key: Seq<char>) -> Option<Option<JsonMember>>;

/// Relies on `serde_json::from_str::<serde_json::Value>` and `Value::get`:
/// `None` where the text does not parse; else the member `key` (none where
/// the document is not an object), a string, a boolean or another value.
#[verifier::external_body]
pub(crate) fn json_member(text: &str, key: &str) -> (r: Option<Option<JsonScalar>>)
    ensures
        json_scalar_view(r) == json_member_of(text@, key@),
{
    match serde_json::from_str::<serde_json::Value>(text) {
        Err(_) => None,
        Ok(v) => Some(match v.get(key) {
            Some(serde_json::Value::String(s)) => Some(JsonScalar::Str(s.clone())),
            Some(serde_json::Value::Bool(b)) => Some(JsonScalar::Bool(*b)),
            Some(_) => Some(JsonScalar::Other),
            None => None,
        }),
    }
}

/// Whether a character is white space in the Unicode sense (`White_Space`).
pub open spec fn is_ws(c: char) -> bool {
    c == ' ' || ('\u{9}' <= c && c <= '\u{d}') || c == '\u{85}' || c == '\u{a0}' || c == '\u{1680}' || (
    '\u{2000}' <= c && c <= '\u{200a}') || c == '\u{2028}' || c == '\u{2029}' || c == '\u{202f}' || c
        == '\u{205f}' || c == '\u{3000}'
}

/// Whether a character is white space.
pub fn is_whitespace(c: char) -> (r: bool)
    ensures
        r == is_ws(c),
{
    c == ' ' || ('\u{9}' <= c && c <= '\u{d}') || c == '\u{85}' || c == '\u{a0}' || c == '\u{1680}' || (
    '\u{2000}' <= c && c <= '\u{200a}') || c == '\u{2028}' || c == '\u{2029}' || c == '\u{202f}' || c
        == '\u{205f}' || c == '\u{3000}'
}

/// The first position of a non-blank character from `i` on, or the length.
pub open spec fn trim_start_at(s: Seq<char>, i: int) -> int
    decreases s.len() - i,
{
    if i < 0 || i >= s.len() {
        s.len() as int
    } else if is_ws(s[i]) {
        trim_start_at(s, i + 1)
    } else {
        i
    }
}

/// The end of the text without its trailing blanks, looking at positions
/// below `j` and at least `lo`.
pub open spec fn trim_end_at(s: Seq<char>, lo: int, j: int) -> int
    decreases j - lo,
{
    if j <= lo {
        lo
    } else if is_ws(s[j - 1]) {
        trim_end_at(s, lo, j - 1)
    } else {
        j
    }
}

/// A text without its leading and trailing white space.
pub open spec fn trim_spec(s: Seq<char>) -> Seq<char> {
    let a = trim_start_at(s, 0);
    s.subrange(a, trim_end_at(s, a, s.len() as int))
}

/// A text without its leading and trailing white space.
pub fn trim(s: &str) -> (r: String)
    ensures
        r@ == trim_spec(s@),
{
    let n = s.unicode_len();
    let mut a: usize = 0;
    while a < n && is_whitespace(s.get_char(a))
        invariant
            n == s@.len(),
            a <= n,
            trim_start_at(s@, 0) == trim_start_at(s@, a as int),
        decreases n - a,
    {
        a = a + 1;
    }
    let mut b: usize = n;
    while b > a && is_whitespace(s.get_char(b - 1))
        invariant
            n == s@.len(),
            a <= b <= n,
            trim_start_at(s@, 0) == a,
            trim_end_at(s@, a as int, n as int) == trim_end_at(s@, a as int, b as int),
        decreases b - a,
    {
        b = b - 1;
    }
    s.substring_char(a, b).to_owned()
}

/// The first position of `c` in `s` from `from` on.
pub open spec fn index_from(s: Seq<char>, c: char, from: int) -> Option<int>
    decreases s.len() - from,
{
    if from < 0 || from >= s.len() {
        None
    } else if s[from] == c {
        Some(from)
    } else {
        index_from(s, c, from + 1)
    }
}

pub proof fn lemma_index_from_bounds(s: Seq<char>, c: char, from: int)
    requires
        0 <= from,
    ensures
        index_from(s, c, from) matches Some(i) ==> from <= i < s.len() && s[i] == c,
    decreases s.len() - from,
{
    if from < s.len() && s[from] != c {
        lemma_index_from_bounds(s, c, from + 1);
    }
}

/// The first position of `c` in `s`.
pub fn find_char(s: &str, c: char) -> (r: Option<usize>)
    ensures
        match r {
            Some(i) => index_from(s@, c, 0) == Some(i as int) && i < s@.len(),
            None => index_from(s@, c, 0) is None,
        },
{
    let n = s.unicode_len();
    let mut i: usize = 0;
    while i < n
        invariant
            n == s@.len(),
            i <= n,
            index_from(s@, c, 0) == index_from(s@, c, i as int),
        decreases n - i,
    {
        if s.get_char(i) == c {
            return Some(i);
        }
        i = i + 1;
    }
    None
}

/// The pieces of `s` from position `from` on, between occurrences of `c`.
pub open spec fn split_from(s: Seq<char>, c: char, from: int) -> Seq<Seq<char>>
    decreases s.len() - from,
{
    if from < 0 || from > s.len() {
        Seq::empty()
    } else {
        match index_from(s, c, from) {
            None => seq![s.subrange(from, s.len() as int)],
            Some(i) => if i < from || i >= s.len() {
                Seq::empty()
            } else {
                seq![s.subrange(from, i)] + split_from(s, c, i + 1)
            },
        }
    }
}

/// The pieces of `s` between occurrences of `c`; there is always one more
/// piece than occurrences.
pub fn split_char(s: &str, c: char) -> (r: Vec<String>)
    ensures
        r@.map_values(|p: String| p@) == split_from(s@, c, 0),
{
    let n = s.unicode_len();
    let mut out: Vec<String> = Vec::new();
    let mut start: usize = 0;
    let mut i: usize = 0;
    while i < n
        invariant
            n == s@.len(),
            start <= i <= n,
            index_from(s@, c, start as int) == index_from(s@, c, i as int),
            split_from(s@, c, 0) == out@.map_values(|p: String| p@) + split_from(s@, c, start as int),
        decreases n - i,
    {
        if s.get_char(i) == c {
            let piece = s.substring_char(start, i).to_owned();
            let ghost before = out@;
            out.push(piece);
            proof {
                assert(index_from(s@, c, i as int) == Some(i as int));
                assert(out@.map_values(|p: String| p@) =~= before.map_values(|p: String| p@) + seq![s@.subrange(start as int, i as int)]);
                assert(split_from(s@, c, start as int) == seq![s@.subrange(start as int, i as int)] + split_from(s@, c, i + 1));
                assert(before.map_values(|p: String| p@) + split_from(s@, c, start as int) =~= out@.map_values(|p: String| p@) + split_from(s@, c, i + 1));
            }
            start = i + 1;
        }
        i = i + 1;
    }
    let last = s.substring_char(start, n).to_owned();
    let ghost before = out@;
    out.push(last);
    proof {
        assert(index_from(s@, c, n as int) is None);
        assert(split_from(s@, c, start as int) == seq![s@.subrange(start as int, n as int)]);
        assert(out@.map_values(|p: String| p@) =~= before.map_values(|p: String| p@) + seq![s@.subrange(start as int, n as int)]);
    }
    out
}

/// The number that a text spells in decimal, if it spells a `u16`.
pub uninterp spec fn u16_of(s: Seq<char>) -> Option<u16>;

/// The number that a text spells in decimal, if it spells a `u8`.
pub uninterp spec fn u8_of(s: Seq<char>) -> Option<u8>;

/// Relies on `<u16 as FromStr>::from_str`: the decimal number a text
/// spells, where it fits.
#[verifier::external_body]
pub(crate) fn parse_u16(s: &str) -> (r: Option<u16>)
    ensures
        r == u16_of(s@),
{
    s.parse::<u16>().ok()
}

/// Relies on `<u8 as FromStr>::from_str`: the decimal number a text spells,
/// where it fits.
#[verifier::external_body]
pub(crate) fn parse_u8(s: &str) -> (r: Option<u8>)
    ensures
        r == u8_of(s@),
{
    s.parse::<u8>().ok()
}

} // verus!
