//! File names: where the extension starts, and the names a file may
//! take when the one it has is already in use.
//!
//! A name is taken as a single path component. Its extension is what
//! follows the last dot, unless that dot is the first character (a
//! hidden file such as `.profile` has none) or the name is `..`.

use crate::text::{spells, to_chars};
use vstd::prelude::*;
use vstd::string::*;

verus! {

/// Index of the last dot in `name`, or -1 where it has none.
pub open spec fn last_dot(name: Seq<char>) -> int
    decreases name.len(),
{
    if name.len() == 0 {
        -1
    } else if name.last() == '.' {
        name.len() - 1
    } else {
        last_dot(name.drop_last())
    }
}

/// Whether a dot in `name` separates a stem from an extension.
pub open spec fn has_extension(name: Seq<char>) -> bool {
    last_dot(name) > 0 && name != seq!['.', '.']
}

/// What follows the separating dot; empty where there is none.
pub open spec fn extension_of(name: Seq<char>) -> Seq<char> {
    if has_extension(name) {
        name.subrange(last_dot(name) + 1, name.len() as int)
    } else {
        Seq::empty()
    }
}

/// What precedes the separating dot; the whole name where there is none.
pub open spec fn stem_of(name: Seq<char>) -> Seq<char> {
    if has_extension(name) {
        name.subrange(0, last_dot(name))
    } else {
        name
    }
}

/// The decimal digit for a number below ten.
pub open spec fn digit(d: nat) -> char {
    if d == 0 {
        '0'
    } else if d == 1 {
        '1'
    } else if d == 2 {
        '2'
    } else if d == 3 {
        '3'
    } else if d == 4 {
        '4'
    } else if d == 5 {
        '5'
    } else if d == 6 {
        '6'
    } else if d == 7 {
        '7'
    } else if d == 8 {
        '8'
    } else {
        '9'
    }
}

/// `n` written in decimal, without leading zeros.
pub open spec fn decimal(n: nat) -> Seq<char>
    decreases n,
{
    if n < 10 {
        seq![digit(n)]
    } else {
        decimal(n / 10).push(digit(n % 10))
    }
}

/// The text ` - Copy`.
pub open spec fn copy_mark() -> Seq<char> {
    seq![' ', '-', ' ', 'C', 'o', 'p', 'y']
}

/// Nothing for the first copy, ` (n)` for the `n`-th.
pub open spec fn copy_counter(n: nat) -> Seq<char> {
    if n <= 1 {
        Seq::empty()
    } else {
        seq![' ', '('] + decimal(n) + seq![')']
    }
}

/// A dot and the extension; nothing at all where the extension is
/// empty, so that no name ends in a bare dot.
pub open spec fn dotted(extension: Seq<char>) -> Seq<char> {
    if extension.len() == 0 {
        Seq::empty()
    } else {
        seq!['.'] + extension
    }
}

/// The name of the `n`-th copy of a file with the given stem and
/// extension: `stem - Copy.ext`, then `stem - Copy (2).ext`, and so on.
pub open spec fn copy_name(stem: Seq<char>, extension: Seq<char>, n: nat) -> Seq<char> {
    stem + copy_mark() + copy_counter(n) + dotted(extension)
}

/// The names tried for a file, in order: its own name first, then its
/// copies.
pub open spec fn candidate(name: Seq<char>, k: nat) -> Seq<char> {
    if k == 0 {
        name
    } else {
        copy_name(stem_of(name), extension_of(name), k)
    }
}

/// Wherever `name` has a last dot, that is a dot and none follows it.
pub proof fn lemma_last_dot(name: Seq<char>)
    ensures
        -1 <= last_dot(name) < name.len(),
        last_dot(name) >= 0 ==> name[last_dot(name)] == '.',
        forall|i: int| last_dot(name) < i < name.len() ==> name[i] != '.',
    decreases name.len(),
{
    if name.len() > 0 && name.last() != '.' {
        let front = name.drop_last();
        lemma_last_dot(front);
        assert forall|i: int| last_dot(name) < i < name.len() implies name[i] != '.' by {
            if i < front.len() {
                assert(name[i] == front[i]);
            }
        }
    }
}

fn find_last_dot(chars: &Vec<char>) -> (r: Option<usize>)
    ensures
        match r {
            Some(i) => i == last_dot(chars@),
            None => last_dot(chars@) == -1,
        },
{
    let mut i: usize = chars.len();
    assert(chars@.subrange(0, i as int) == chars@);
    while i > 0
        invariant
            i <= chars.len(),
            last_dot(chars@) == last_dot(chars@.subrange(0, i as int)),
        decreases i,
    {
        if chars[i - 1] == '.' {
            return Some(i - 1);
        }
        assert(chars@.subrange(0, i as int).drop_last() == chars@.subrange(0, i - 1));
        i -= 1;
    }
    None
}

/// Where the extension of `name` is cut off: the index of the
/// separating dot, if there is one.
pub fn extension_cut(name: &str) -> (cut: Option<usize>)
    ensures
        cut is Some == has_extension(name@),
        cut matches Some(i) ==> i == last_dot(name@) && 0 < i < name@.len(),
{
    let chars = to_chars(name);
    proof {
        reveal_strlit("..");
        lemma_last_dot(name@);
        assert(".."@ =~= seq!['.', '.']);
    }
    if spells(&chars, "..") {
        return None;
    }
    match find_last_dot(&chars) {
        Some(i) => if i > 0 {
            Some(i)
        } else {
            None
        },
        None => None,
    }
}

fn digit_text(d: usize) -> (text: &'static str)
    requires
        d < 10,
    ensures
        text@ == seq![digit(d as nat)],
{
    proof {
        reveal_strlit("0");
        reveal_strlit("1");
        reveal_strlit("2");
        reveal_strlit("3");
        reveal_strlit("4");
        reveal_strlit("5");
        reveal_strlit("6");
        reveal_strlit("7");
        reveal_strlit("8");
        reveal_strlit("9");
    }
    let text = if d == 0 {
        "0"
    } else if d == 1 {
        "1"
    } else if d == 2 {
        "2"
    } else if d == 3 {
        "3"
    } else if d == 4 {
        "4"
    } else if d == 5 {
        "5"
    } else if d == 6 {
        "6"
    } else if d == 7 {
        "7"
    } else if d == 8 {
        "8"
    } else {
        "9"
    };
    assert(text@ =~= seq![digit(d as nat)]);
    text
}

fn append_decimal(text: String, n: usize) -> (r: String)
    ensures
        r@ == text@ + decimal(n as nat),
    decreases n,
{
    if n < 10 {
        let r = text.concat(digit_text(n));
        r
    } else {
        let head = append_decimal(text, n / 10);
        let r = head.concat(digit_text(n % 10));
        assert(r@ =~= text@ + decimal(n as nat));
        r
    }
}

/// Writes out the `k`-th name tried for a file called `name`: the
/// name itself for `k` = 0, the name of its `k`-th copy after that.
pub fn candidate_name(name: &str, k: usize) -> (r: String)
    ensures
        r@ == candidate(name@, k as nat),
{
    if k == 0 {
        return String::from_str(name);
    }
    let len = name.unicode_len();
    let cut = extension_cut(name);
    let stem = match cut {
        Some(i) => name.substring_char(0, i),
        None => name,
    };
    let mut r = String::from_str(stem);
    proof {
        reveal_strlit(" - Copy");
        reveal_strlit(" (");
        reveal_strlit(")");
        reveal_strlit(".");
        assert(" - Copy"@ =~= copy_mark());
        assert(" ("@ =~= seq![' ', '(']);
        assert(")"@ =~= seq![')']);
        assert("."@ =~= seq!['.']);
    }
    r = r.concat(" - Copy");
    if k > 1 {
        r = r.concat(" (");
        r = append_decimal(r, k);
        r = r.concat(")");
    }
    assert(r@ =~= stem_of(name@) + copy_mark() + copy_counter(k as nat));
    match cut {
        Some(i) => {
            if i + 1 < len {
                let extension = name.substring_char(i + 1, len);
                r = r.concat(".");
                r = r.concat(extension);
            }
        },
        None => {},
    }
    assert(r@ =~= copy_name(stem_of(name@), extension_of(name@), k as nat));
    r
}

} // verus!
