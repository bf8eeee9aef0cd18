//! Character-level helpers on strings, with their specifications.
use vstd::prelude::*;
use vstd::utf8::*;

verus! {

broadcast use vstd::string::axiom_spec_iter;

/// The characters of a string slice, in order.
pub fn chars_of(s: &str) -> (r: Vec<char>)
    ensures
        r@ == s@,
{
    let mut v: Vec<char> = Vec::new();
    for c in it: s.chars()
        invariant
            it.seq() == s@,
            v@ == it.seq().take(it.index() as int),
    {
        v.push(c);
    }
    v
}

/// Appends one character to a string.
///
/// Trusted: wraps `String::push`; the claim is that the character is added
/// at the end and nothing else changes.
#[verifier::external_body]
pub(crate) fn push_char(s: &mut String, c: char)
    ensures
        final(s)@ == old(s)@.push(c),
{
    s.push(c);
}

/// Decodes bytes as UTF-8.
///
/// Trusted: wraps `std::str::from_utf8`; the claim, as its documentation
/// states, is that it succeeds exactly on well-formed UTF-8 and then yields
/// the decoded characters.
#[verifier::external_body]
pub(crate) fn utf8_decode(bytes: &[u8]) -> (r: Option<&str>)
    ensures
        r is Some <==> valid_utf8(bytes@),
        r matches Some(s) ==> s@ == decode_utf8(bytes@),
{
    std::str::from_utf8(bytes).ok()
}

/// A string built from a slice.
pub fn owned(s: &str) -> (r: String)
    ensures
        r@ == s@,
{
    s.to_owned()
}

/// Whether two slices hold the same characters.
pub fn same_text(a: &str, b: &str) -> (r: bool)
    ensures
        r == (a@ == b@),
{
    let x = owned(a);
    let y = owned(b);
    x == y
}

pub open spec fn not_quote(c: char) -> bool {
    c != '"'
}

/// The text with every double quote removed.
pub open spec fn without_quotes(s: Seq<char>) -> Seq<char> {
    s.filter(|c: char| not_quote(c))
}

/// Removes every double quote from a string.
pub fn strip_quotes(s: &str) -> (r: String)
    ensures
        r@ == without_quotes(s@),
{
    let cs = chars_of(s);
    let mut r = String::new();
    let n = cs.len();
    let ghost p = |c: char| not_quote(c);
    for i in 0..n
        invariant
            n == cs@.len(),
            cs@ == s@,
            p == (|c: char| not_quote(c)),
            r@ == cs@.take(i as int).filter(p),
    {
        proof {
            reveal(Seq::filter);
            assert(cs@.take(i + 1).drop_last() =~= cs@.take(i as int));
            assert(cs@.take(i + 1).last() == cs@[i as int]);
        }
        let c = cs[i];
        if c != '"' {
            push_char(&mut r, c);
        }
    }
    proof {
        assert(cs@.take(n as int) =~= cs@);
    }
    r
}

/// The lowercase hexadecimal digit for a value below 16.
pub open spec fn hex_digit(d: int) -> char {
    if d < 10 {
        (48 + d) as char
    } else {
        (87 + d) as char
    }
}

/// Each byte written as two lowercase hexadecimal digits, high nibble first.
pub open spec fn hex_lower(bytes: Seq<u8>) -> Seq<char> {
    Seq::new(
        (2 * bytes.len()) as nat,
        |k: int|
            if k % 2 == 0 {
                hex_digit(bytes[k / 2] as int / 16)
            } else {
                hex_digit(bytes[k / 2] as int % 16)
            },
    )
}

fn hex_digit_exec(d: u8) -> (c: char)
    requires
        d < 16,
    ensures
        c == hex_digit(d as int),
{
    if d < 10 {
        (48 + d) as char
    } else {
        (87 + d) as char
    }
}

/// Writes bytes as lowercase hexadecimal, two digits per byte.
pub fn to_hex_lower(bytes: &[u8]) -> (r: String)
    ensures
        r@ == hex_lower(bytes@),
{
    let mut r = String::new();
    let n = bytes.len();
    for i in 0..n
        invariant
            n == bytes@.len(),
            r@.len() == 2 * i,
            forall|k: int| 0 <= k < 2 * i ==> r@[k] == hex_lower(bytes@)[k],
    {
        let b = bytes[i];
        let hi = b / 16;
        let lo = b % 16;
        let ghost before = r@;
        push_char(&mut r, hex_digit_exec(hi));
        push_char(&mut r, hex_digit_exec(lo));
        proof {
            assert((2 * i as int) % 2 == 0 && (2 * i as int) / 2 == i);
            assert((2 * i as int + 1) % 2 == 1 && (2 * i as int + 1) / 2 == i);
            assert forall|k: int| 0 <= k < 2 * (i + 1) implies r@[k] == hex_lower(bytes@)[k] by {
                if k < 2 * i {
                    assert(r@[k] == before[k]);
                }
            }
        }
    }
    proof {
        assert(r@ =~= hex_lower(bytes@));
    }
    r
}

} // verus!
