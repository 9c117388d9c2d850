//! Character-level utilities: conversions between `&str`, `Vec<char>` and
//! `String`, and the two Unicode case queries the identifier derivation
//! needs.

use vstd::prelude::*;
use vstd::string::StrSliceExecFns;

verus! {

/// Whether a character counts as uppercase for identifier derivation.
pub uninterp spec fn is_upper_char(c: char) -> bool;

/// The first character of the lowercase mapping of a character.
pub uninterp spec fn lower_char(c: char) -> char;

/// Relies on char::is_uppercase: true exactly for characters with the
/// Unicode Uppercase property, which in the ASCII range are 'A'
/// through 'Z'.
#[verifier::external_body]
pub(crate) fn char_is_uppercase(c: char) -> (r: bool)
    ensures
        r == is_upper_char(c),
        'A' <= c && c <= 'Z' ==> r,
        c <= '\u{7f}' && !('A' <= c && c <= 'Z') ==> !r,
{
    c.is_uppercase()
}

/// Relies on char::to_lowercase: it always yields at least one character,
/// its output depends on the input character alone, an ASCII uppercase
/// letter maps to the letter 32 code points higher, and any other ASCII
/// character maps to itself.
#[verifier::external_body]
pub(crate) fn char_lower_first(c: char) -> (r: char)
    ensures
        r == lower_char(c),
        'A' <= c && c <= 'Z' ==> r as u32 == c as u32 + 32,
        c <= '\u{7f}' && !('A' <= c && c <= 'Z') ==> r == c,
{
    let mut lowered = c.to_lowercase();
    match lowered.next() {
        Some(first) => first,
        None => c,
    }
}

/// Relies on String's FromIterator over characters: collecting an iterator
/// of characters yields the string of exactly those characters, in order.
#[verifier::external_body]
pub(crate) fn chars_to_string(v: &Vec<char>) -> (s: String)
    ensures
        s@ == v@,
{
    v.iter().collect()
}

/// The characters of a string slice, as a vector.
pub(crate) fn str_chars(s: &str) -> (v: Vec<char>)
    ensures
        v@ == s@,
{
    let n = s.unicode_len();
    let mut v: Vec<char> = Vec::new();
    let mut i: usize = 0;
    while i < n
        invariant
            n == s@.len(),
            i <= n,
            v@ == s@.take(i as int),
        decreases n - i,
    {
        let c = s.get_char(i);
        v.push(c);
        proof {
            assert(s@.take(i + 1 as int) =~= s@.take(i as int).push(s@[i as int]));
        }
        i = i + 1;
    }
    proof {
        assert(s@.take(n as int) =~= s@);
    }
    v
}

/// Append every character of `src` to `dst`.
pub(crate) fn push_all(dst: &mut Vec<char>, src: &Vec<char>)
    ensures
        final(dst)@ == old(dst)@ + src@,
{
    let mut i: usize = 0;
    while i < src.len()
        invariant
            i <= src@.len(),
            dst@ == old(dst)@ + src@.take(i as int),
        decreases src@.len() - i,
    {
        let c = src[i];
        dst.push(c);
        proof {
            assert(src@.take(i + 1 as int) =~= src@.take(i as int).push(src@[i as int]));
        }
        i = i + 1;
    }
    proof {
        assert(src@.take(src@.len() as int) =~= src@);
    }
}

} // verus!
