//! Random identifiers over an alphabet.

use vstd::prelude::*;
use vstd::utf8::encode_utf8;

verus! {

pub const DEFAULT_ID_ALPHABET: &'static str = "abcdefghijklmnopqrstuvwxyz0123456789";

pub const DEFAULT_ID_SIZE: usize = 10;

pub open spec fn alphabet_or_default(alphabet: Option<&str>) -> Seq<char> {
    match alphabet {
        Some(a) => a@,
        None => DEFAULT_ID_ALPHABET@,
    }
}

pub open spec fn size_or_default(size: Option<usize>) -> nat {
    match size {
        Some(n) => n as nat,
        None => DEFAULT_ID_SIZE as nat,
    }
}

/// Whether every character of `s` is in `alphabet`.
pub open spec fn over_alphabet(s: Seq<char>, alphabet: Seq<char>) -> bool {
    forall|i: int| 0 <= i < s.len() ==> alphabet.contains(#[trigger] s[i])
}

fn chars_of(s: &str) -> (r: Vec<char>)
    ensures
        r@ == s@,
{
    let n = s.unicode_len();
    let mut out: Vec<char> = Vec::new();
    let mut i: usize = 0;
    while i < n
        invariant
            n == s@.len(),
            i <= n,
            out@ == s@.subrange(0, i as int),
        decreases n - i,
    {
        out.push(s.get_char(i));
        i = i + 1;
        assert(out@ =~= s@.subrange(0, i as int));
    }
    assert(s@.subrange(0, n as int) =~= s@);
    out
}

fn contains_char(alphabet: &Vec<char>, c: char) -> (r: bool)
    ensures
        r == alphabet@.contains(c),
{
    let mut i: usize = 0;
    while i < alphabet.len()
        invariant
            i <= alphabet@.len(),
            forall|j: int| 0 <= j < i ==> alphabet@[j] != c,
        decreases alphabet@.len() - i,
    {
        if alphabet[i] == c {
            return true;
        }
        i = i + 1;
    }
    false
}

/// Relies on `nanoid::format` with `nanoid::rngs::default`: it draws random
/// bytes and keeps the characters of `alphabet` they select until the id
/// holds `size` bytes. Its assertion asks for at most 255 characters; an
/// empty alphabet or a zero size would make it loop forever.
#[verifier::external_body]
fn nanoid_format(alphabet: &[char], size: usize) -> (r: String)
    requires
        1 <= alphabet@.len() <= 255,
        1 <= size <= usize::MAX / 8,
        forall|i: int| 0 <= i < alphabet@.len() ==> (#[trigger] alphabet@[i]) as u32 <= 0x7f,
    ensures
        r@.len() == size,
        over_alphabet(r@, alphabet@),
{
    nanoid::format(nanoid::rngs::default, alphabet, size)
}

/// A random id of `size` characters of `alphabet` (10 lowercase letters and
/// digits by default).
pub fn generate_id(alphabet: Option<&str>, size: Option<usize>) -> (r: String)
    requires
        1 <= alphabet_or_default(alphabet).len() <= 255,
        forall|i: int| 0 <= i < alphabet_or_default(alphabet).len() ==> (#[trigger] alphabet_or_default(alphabet)[i]) as u32 <= 0x7f,
        1 <= size_or_default(size) <= usize::MAX / 8,
    ensures
        r@.len() == size_or_default(size),
        over_alphabet(r@, alphabet_or_default(alphabet)),
{
    let a = match alphabet {
        Some(a) => a,
        None => DEFAULT_ID_ALPHABET,
    };
    let n = match size {
        Some(n) => n,
        None => DEFAULT_ID_SIZE,
    };
    let chars = chars_of(a);
    nanoid_format(chars.as_slice(), n)
}

/// Whether `id` is an id of `size` bytes over `alphabet` (the defaults of
/// `generate_id` where they are not given).
pub fn test_id(id: Option<String>, alphabet: Option<&str>, size: Option<usize>) -> (r: bool)
    ensures
        r == match id {
            Some(s) => encode_utf8(s@).len() == size_or_default(size) && over_alphabet(s@, alphabet_or_default(alphabet)),
            None => false,
        },
{
    let a = match alphabet {
        Some(a) => a,
        None => DEFAULT_ID_ALPHABET,
    };
    let n = match size {
        Some(n) => n,
        None => DEFAULT_ID_SIZE,
    };
    assert(a@ == alphabet_or_default(alphabet));
    match id {
        None => false,
        Some(s) => {
            if s.as_str().as_bytes().len() != n {
                return false;
            }
            let alpha = chars_of(a);
            let chars = chars_of(s.as_str());
            let mut i: usize = 0;
            while i < chars.len()
                invariant
                    i <= chars@.len(),
                    chars@ == s@,
                    alpha@ == a@,
                    a@ == alphabet_or_default(alphabet),
                    id == Some(s),
                    encode_utf8(s@).len() == size_or_default(size),
                    forall|j: int| 0 <= j < i ==> a@.contains(#[trigger] chars@[j]),
                decreases chars@.len() - i,
            {
                if !contains_char(&alpha, chars[i]) {
                    assert(!a@.contains(s@[i as int]));
                    assert(!over_alphabet(s@, a@));
                    return false;
                }
                i = i + 1;
            }
            assert(over_alphabet(s@, a@));
            true
        },
    }
}

} // verus!
