//! Helpers for reading a `&str` as a sequence of characters.

use vstd::prelude::*;
use vstd::string::*;

verus! {

/// ASCII lower-case form of one character: the letters `A` to `Z` are
/// mapped to `a` to `z`, every other character is left as it is.
pub open spec fn lower_char(c: char) -> char {
    if 'A' <= c && c <= 'Z' {
        ((c as u8) + 32) as char
    } else {
        c
    }
}

/// ASCII lower-case form of a whole sequence, character by character.
pub open spec fn lower(s: Seq<char>) -> Seq<char> {
    Seq::new(s.len(), |i: int| lower_char(s[i]))
}

pub fn to_lower_char(c: char) -> (r: char)
    ensures
        r == lower_char(c),
{
    if 'A' <= c && c <= 'Z' {
        ((c as u8) + 32) as char
    } else {
        c
    }
}

/// The characters of `s`, one by one.
pub fn to_chars(s: &str) -> (v: Vec<char>)
    ensures
        v@ == s@,
{
    let mut v: Vec<char> = Vec::new();
    for c in it: s.chars()
        invariant
            it.seq() == s@,
            v@ == s@.subrange(0, it.index() as int),
    {
        v.push(c);
    }
    assert(s@.subrange(0, s@.len() as int) == s@);
    v
}

/// The characters of `s`, each in its ASCII lower-case form.
pub fn to_lower_chars(s: &str) -> (v: Vec<char>)
    ensures
        v@ == lower(s@),
{
    let mut v: Vec<char> = Vec::new();
    for c in it: s.chars()
        invariant
            it.seq() == s@,
            v@ == lower(s@).subrange(0, it.index() as int),
    {
        v.push(to_lower_char(c));
    }
    assert(lower(s@).subrange(0, s@.len() as int) == lower(s@));
    v
}

/// Whether `chars` spells exactly `word`.
pub fn spells(chars: &Vec<char>, word: &str) -> (r: bool)
    ensures
        r == (chars@ == word@),
{
    let mut i: usize = 0;
    for c in it: word.chars()
        invariant
            it.seq() == word@,
            i == it.index(),
            i <= chars.len(),
            chars@.subrange(0, i as int) == word@.subrange(0, i as int),
    {
        if i >= chars.len() || chars[i] != c {
            return false;
        }
        assert(chars@.subrange(0, i + 1) == chars@.subrange(0, i as int).push(chars@[i as int]));
        assert(word@.subrange(0, i + 1) == word@.subrange(0, i as int).push(word@[i as int]));
        i += 1;
    }
    assert(word@.subrange(0, i as int) == word@);
    if i == chars.len() {
        assert(chars@.subrange(0, i as int) == chars@);
        true
    } else {
        false
    }
}

} // verus!
