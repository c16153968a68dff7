//! Counting elves, elves on shelves, and shelves without an elf in free text.

use crate::text::chars_of;
use vstd::prelude::*;

verus! {

/// `pat` stands in `text` at position `i`.
pub open spec fn occurs_at(text: Seq<char>, pat: Seq<char>, i: int) -> bool {
    &&& 0 <= i
    &&& i + pat.len() <= text.len()
    &&& text.subrange(i, i + pat.len()) == pat
}

/// The number of matches of `pat` that a left-to-right search finds in `text`
/// from position `i` on, where a match consumes its characters: the search
/// goes on behind a match, and one position further where there is none. An
/// empty pattern is never counted.
pub open spec fn count_from(text: Seq<char>, pat: Seq<char>, i: int) -> nat
    decreases text.len() - i,
{
    if pat.len() == 0 || i < 0 || i + pat.len() > text.len() {
        0
    } else if occurs_at(text, pat, i) {
        1 + count_from(text, pat, i + pat.len())
    } else {
        count_from(text, pat, i + 1)
    }
}

/// The number of sequential, non-overlapping matches of `pat` in `text`.
pub open spec fn sequential_count(text: Seq<char>, pat: Seq<char>) -> nat {
    count_from(text, pat, 0)
}

/// A shelf starts at position `i` of `text`, and the characters right before
/// it are not those of an elf sitting on it. A shelf with too few characters
/// before it to hold them is always bare.
pub open spec fn bare_shelf_at(text: Seq<char>, i: int) -> bool {
    &&& occurs_at(text, "shelf"@, i)
    &&& !occurs_at(text, "elf on a "@, i - "elf on a "@.len())
}

/// The number of bare shelves of `text` that start before position `n`.
pub open spec fn bare_shelves_before(text: Seq<char>, n: int) -> nat
    decreases n,
{
    if n <= 0 {
        0
    } else {
        bare_shelves_before(text, n - 1) + if bare_shelf_at(text, n - 1) {
            1nat
        } else {
            0nat
        }
    }
}

/// The number of bare shelves in `text`.
pub open spec fn bare_shelf_count(text: Seq<char>) -> nat {
    bare_shelves_before(text, text.len() as int)
}

/// The shelf that an elf sits on is never bare: where `elf on a shelf`
/// stands, a shelf starts nine characters further on, and it is not counted
/// among the shelves without an elf.
pub proof fn lemma_ridden_shelf_is_not_bare(text: Seq<char>, i: int)
    requires
        occurs_at(text, "elf on a shelf"@, i),
    ensures
        occurs_at(text, "shelf"@, i + 9),
        !bare_shelf_at(text, i + 9),
{
    reveal_strlit("elf on a shelf");
    reveal_strlit("elf on a ");
    reveal_strlit("shelf");
    let whole = text.subrange(i, i + 14);
    assert(text.subrange(i + 9, i + 14) =~= whole.subrange(9, 14));
    assert(whole.subrange(9, 14) =~= "shelf"@);
    assert(text.subrange(i, i + 9) =~= whole.subrange(0, 9));
    assert(whole.subrange(0, 9) =~= "elf on a "@);
}

/// A shelf with fewer than nine characters before it is always bare.
pub proof fn lemma_early_shelf_is_bare(text: Seq<char>, i: int)
    requires
        occurs_at(text, "shelf"@, i),
        i < 9,
    ensures
        bare_shelf_at(text, i),
{
    reveal_strlit("elf on a ");
}

/// Whether `pat` stands in `text` at position `i`.
pub fn matches_at(text: &Vec<char>, pat: &Vec<char>, i: usize) -> (b: bool)
    ensures
        b == occurs_at(text@, pat@, i as int),
{
    let n: usize = text.len();
    let m: usize = pat.len();
    if m > n || i > n - m {
        return false;
    }
    let ghost window = text@.subrange(i as int, i + m);
    let mut k: usize = 0;
    while k < m
        invariant
            k <= m,
            m == pat.len(),
            n == text.len(),
            i + m <= n,
            window == text@.subrange(i as int, i + m),
            forall|j: int| 0 <= j < k ==> text@[i + j] == pat@[j],
        decreases m - k,
    {
        if text[i + k] != pat[k] {
            assert(window[k as int] != pat@[k as int]);
            return false;
        }
        k += 1;
    }
    assert(window =~= pat@);
    true
}

/// Counts the sequential, non-overlapping matches of `pat` in `text`.
pub fn count_sequential(text: &Vec<char>, pat: &Vec<char>) -> (count: usize)
    ensures
        count == sequential_count(text@, pat@),
{
    let n: usize = text.len();
    let m: usize = pat.len();
    if m == 0 || m > n {
        return 0;
    }
    let mut count: usize = 0;
    let mut i: usize = 0;
    while i <= n - m
        invariant
            0 < m <= n,
            m == pat.len(),
            n == text.len(),
            i <= n,
            count <= i,
            count + count_from(text@, pat@, i as int) == sequential_count(text@, pat@),
        decreases n - i,
    {
        if matches_at(text, pat, i) {
            count += 1;
            i += m;
        } else {
            i += 1;
        }
    }
    count
}

/// Counts the shelves of `text` that no elf sits on.
pub fn count_bare_shelves(text: &Vec<char>) -> (count: usize)
    ensures
        count == bare_shelf_count(text@),
{
    let shelf = chars_of("shelf");
    let rider = chars_of("elf on a ");
    let lead: usize = rider.len();
    let n: usize = text.len();
    let mut count: usize = 0;
    let mut i: usize = 0;
    while i < n
        invariant
            i <= n,
            n == text.len(),
            shelf@ == "shelf"@,
            rider@ == "elf on a "@,
            lead == rider.len(),
            count <= i,
            count == bare_shelves_before(text@, i as int),
        decreases n - i,
    {
        let ridden: bool = i >= lead && matches_at(text, &rider, i - lead);
        if matches_at(text, &shelf, i) && !ridden {
            count += 1;
        }
        i += 1;
    }
    count
}

/// How many elves, elves on shelves, and shelves without an elf a text holds.
#[derive(Clone, Copy, Debug, PartialEq, Eq, Structural)]
pub struct ElfCount {
    /// Sequential matches of `elf`.
    pub elf: usize,
    /// Sequential matches of `elf on a shelf`.
    pub elf_on_a_shelf: usize,
    /// Occurrences of `shelf` that are not directly preceded by `elf on a `.
    pub shelf: usize,
}

impl ElfCount {
    /// Scans `elf_string` for the three patterns. The three counts are
    /// independent of each other: an elf on a shelf is also counted as an
    /// elf.
    pub fn from_elf_string(elf_string: &str) -> (counts: Self)
        ensures
            counts.elf == sequential_count(elf_string@, "elf"@),
            counts.elf_on_a_shelf == sequential_count(elf_string@, "elf on a shelf"@),
            counts.shelf == bare_shelf_count(elf_string@),
    {
        let text = chars_of(elf_string);
        let elf = chars_of("elf");
        let elf_on_a_shelf = chars_of("elf on a shelf");
        ElfCount {
            elf: count_sequential(&text, &elf),
            elf_on_a_shelf: count_sequential(&text, &elf_on_a_shelf),
            shelf: count_bare_shelves(&text),
        }
    }
}

} // verus!
