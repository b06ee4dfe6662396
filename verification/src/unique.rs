//! Collision avoidance: the first name, among those a file may take,
//! that nothing occupies yet.

use crate::sorting::Sorter;
use crate::filename::{
    candidate, candidate_name, copy_mark, decimal, digit, dotted, extension_of, lemma_last_dot, stem_of,
};
use vstd::prelude::*;
use vstd::seq_lib::seq_to_set_is_finite;
use vstd::set_lib::lemma_len_subset;
use vstd::string::*;

verus! {

/// The names held by a listing.
pub open spec fn names_of(listing: Seq<String>) -> Seq<Seq<char>> {
    Seq::new(listing.len(), |i: int| listing[i]@)
}

/// `k` is the first position whose candidate name is not occupied.
pub open spec fn is_first_free(name: Seq<char>, occupied: Seq<Seq<char>>, k: nat) -> bool {
    &&& !occupied.contains(candidate(name, k))
    &&& forall|j: nat| j < k ==> occupied.contains(#[trigger] candidate(name, j))
}

/// The position of the first candidate name that is not occupied.
pub open spec fn first_free(name: Seq<char>, occupied: Seq<Seq<char>>) -> nat {
    choose|k: nat| is_first_free(name, occupied, k)
}

/// The name a file takes among the occupied ones: its own where that
/// is free, else its first free copy name.
pub open spec fn unique_name(name: Seq<char>, occupied: Seq<Seq<char>>) -> Seq<char> {
    candidate(name, first_free(name, occupied))
}

spec fn digit_value(c: char) -> nat {
    if c == '1' {
        1
    } else if c == '2' {
        2
    } else if c == '3' {
        3
    } else if c == '4' {
        4
    } else if c == '5' {
        5
    } else if c == '6' {
        6
    } else if c == '7' {
        7
    } else if c == '8' {
        8
    } else if c == '9' {
        9
    } else {
        0
    }
}

spec fn decimal_value(digits: Seq<char>) -> nat
    decreases digits.len(),
{
    if digits.len() == 0 {
        0
    } else {
        decimal_value(digits.drop_last()) * 10 + digit_value(digits.last())
    }
}

proof fn lemma_decimal_value(n: nat)
    ensures
        decimal_value(decimal(n)) == n,
        decimal(n).len() >= 1,
    decreases n,
{
    let d = decimal(n);
    if n < 10 {
        assert(d.drop_last() =~= Seq::<char>::empty());
        assert(decimal_value(d.drop_last()) == 0);
        assert(d.last() == digit(n));
    } else {
        lemma_decimal_value(n / 10);
        assert(d.drop_last() =~= decimal(n / 10));
        assert(d.last() == digit(n % 10));
    }
}

/// Two different positions never give the same candidate name.
pub proof fn lemma_candidates_differ(name: Seq<char>, i: nat, j: nat)
    requires
        i < j,
    ensures
        candidate(name, i) != candidate(name, j),
{
    let stem = stem_of(name);
    let ext = extension_of(name);
    lemma_last_dot(name);
    lemma_decimal_value(i);
    lemma_decimal_value(j);
    if i == 0 {
        assert(candidate(name, j).len() > name.len());
    } else if i == 1 {
        assert(candidate(name, j).len() > candidate(name, i).len());
    } else {
        let front = stem + copy_mark() + seq![' ', '('];
        let back = seq![')'] + dotted(ext);
        let a = candidate(name, i);
        let b = candidate(name, j);
        assert(a =~= front + decimal(i) + back);
        assert(b =~= front + decimal(j) + back);
        if a == b {
            assert(decimal(i).len() == decimal(j).len());
            let n = decimal(i).len() as int;
            assert(decimal(i) =~= a.subrange(front.len() as int, front.len() + n));
            assert(decimal(j) =~= b.subrange(front.len() as int, front.len() + n));
            assert(false);
        }
    }
}

spec fn first_candidates(name: Seq<char>, k: nat) -> Set<Seq<char>> {
    Set::new(|s: Seq<char>| exists|j: nat| j < k && s == #[trigger] candidate(name, j))
}

proof fn lemma_first_candidates_len(name: Seq<char>, k: nat)
    ensures
        first_candidates(name, k).finite(),
        first_candidates(name, k).len() == k,
    decreases k,
{
    if k == 0 {
        assert(first_candidates(name, k) =~= Set::<Seq<char>>::empty());
    } else {
        let before = first_candidates(name, (k - 1) as nat);
        let last = candidate(name, (k - 1) as nat);
        lemma_first_candidates_len(name, (k - 1) as nat);
        assert(!before.contains(last)) by {
            if before.contains(last) {
                let j = choose|j: nat| j < k - 1 && last == #[trigger] candidate(name, j);
                lemma_candidates_differ(name, j, (k - 1) as nat);
            }
        }
        assert(first_candidates(name, k) =~= before.insert(last)) by {
            assert forall|s: Seq<char>| first_candidates(name, k).contains(s) implies before.insert(
                last,
            ).contains(s) by {
                let j = choose|j: nat| j < k && s == #[trigger] candidate(name, j);
                if j < k - 1 {
                    assert(before.contains(s));
                }
            }
            assert forall|s: Seq<char>| before.insert(last).contains(s) implies first_candidates(
                name,
                k,
            ).contains(s) by {
                if s == last {
                    assert(s == candidate(name, (k - 1) as nat));
                } else {
                    let j = choose|j: nat| j < k - 1 && s == #[trigger] candidate(name, j);
                    assert(j < k);
                }
            }
        }
    }
}

/// A listing cannot hold more of a file's candidate names than it has
/// entries: where the first `k` candidates are all occupied, `k` is at
/// most the length of the listing.
pub proof fn lemma_occupied_candidates_bounded(name: Seq<char>, occupied: Seq<Seq<char>>, k: nat)
    requires
        forall|j: nat| j < k ==> occupied.contains(#[trigger] candidate(name, j)),
    ensures
        k <= occupied.len(),
{
    lemma_first_candidates_len(name, k);
    seq_to_set_is_finite(occupied);
    occupied.lemma_cardinality_of_set();
    assert(first_candidates(name, k).subset_of(occupied.to_set()));
    lemma_len_subset(first_candidates(name, k), occupied.to_set());
}

/// There is at most one first free position, so `first_free` is it.
pub proof fn lemma_first_free_is(name: Seq<char>, occupied: Seq<Seq<char>>, k: nat)
    requires
        is_first_free(name, occupied, k),
    ensures
        first_free(name, occupied) == k,
        unique_name(name, occupied) == candidate(name, k),
{
    let c = first_free(name, occupied);
    assert(is_first_free(name, occupied, c));
    if c < k {
        assert(occupied.contains(candidate(name, c)));
    } else if k < c {
        assert(occupied.contains(candidate(name, k)));
    }
}

proof fn lemma_free_below(name: Seq<char>, occupied: Seq<Seq<char>>, bound: nat)
    requires
        !occupied.contains(candidate(name, bound)),
    ensures
        exists|k: nat| k <= bound && is_first_free(name, occupied, k),
    decreases bound,
{
    if is_first_free(name, occupied, bound) {
    } else {
        let j = choose|j: nat| j < bound && !occupied.contains(#[trigger] candidate(name, j));
        lemma_free_below(name, occupied, j);
    }
}

/// Every file has a first free candidate name, whatever is occupied,
/// and it comes no later than the listing is long.
pub proof fn lemma_first_free_exists(name: Seq<char>, occupied: Seq<Seq<char>>)
    ensures
        is_first_free(name, occupied, first_free(name, occupied)),
        first_free(name, occupied) <= occupied.len(),
{
    let n = occupied.len();
    if forall|j: nat| j < n + 1 ==> occupied.contains(#[trigger] candidate(name, j)) {
        lemma_occupied_candidates_bounded(name, occupied, n + 1);
    }
    let j = choose|j: nat| j < n + 1 && !occupied.contains(#[trigger] candidate(name, j));
    lemma_free_below(name, occupied, j);
    let k = choose|k: nat| k <= j && is_first_free(name, occupied, k);
    lemma_first_free_is(name, occupied, k);
}

fn is_occupied(occupied: &[String], name: &String) -> (r: bool)
    ensures
        r == names_of(occupied@).contains(name@),
{
    let mut i: usize = 0;
    while i < occupied.len()
        invariant
            i <= occupied.len(),
            forall|j: int| 0 <= j < i ==> names_of(occupied@)[j] != name@,
        decreases occupied.len() - i,
    {
        if occupied[i] == *name {
            assert(names_of(occupied@)[i as int] == name@);
            return true;
        }
        i += 1;
    }
    false
}

impl Sorter {
    /// Gives a file a name that none of the files in `occupied` has: its
    /// own where that is free, and else the first of ` - Copy`,
    /// ` - Copy (2)`, ` - Copy (3)`, ... (put before the extension) that
    /// is free. A name is taken only by a listed name that equals it
    /// character for character, the case of letters included.
    pub fn make_filename_unique(file_name: &str, occupied: &[String]) -> (r: String)
        ensures
            r@ == unique_name(file_name@, names_of(occupied@)),
            !names_of(occupied@).contains(r@),
    {
        let ghost name = file_name@;
        let ghost taken = names_of(occupied@);
        let mut k: usize = 0;
        let mut r = String::from_str(file_name);
        loop
            invariant
                name == file_name@,
                taken == names_of(occupied@),
                r@ == candidate(name, k as nat),
                forall|j: nat| j < k ==> taken.contains(#[trigger] candidate(name, j)),
            ensures
                is_first_free(name, taken, k as nat),
                r@ == candidate(name, k as nat),
            decreases occupied.len() - k,
        {
            if !is_occupied(occupied, &r) {
                break;
            }
            proof {
                assert forall|j: nat| j < k + 1 implies taken.contains(
                    #[trigger] candidate(name, j),
                ) by {}
                lemma_occupied_candidates_bounded(name, taken, (k + 1) as nat);
            }
            k += 1;
            r = candidate_name(file_name, k);
        }
        proof {
            lemma_first_free_is(name, taken, k as nat);
        }
        r
    }
}

} // verus!
