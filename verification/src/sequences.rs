//! Facts about sequences that several modules share.
use vstd::prelude::*;

verus! {

/// The sequence without repetitions: of equal items only the first stays,
/// and what stays keeps its order.
pub open spec fn first_occurrences<T>(s: Seq<T>) -> Seq<T>
    decreases s.len(),
{
    if s.len() == 0 {
        Seq::empty()
    } else {
        let r = first_occurrences(s.drop_last());
        if r.contains(s.last()) {
            r
        } else {
            r.push(s.last())
        }
    }
}

/// `first_occurrences` keeps exactly the items that occur.
pub proof fn lemma_first_occurrences_contains<T>(s: Seq<T>, x: T)
    ensures
        first_occurrences(s).contains(x) <==> s.contains(x),
    decreases s.len(),
{
    if s.len() > 0 {
        let front = s.drop_last();
        let r = first_occurrences(front);
        let t = first_occurrences(s);
        lemma_first_occurrences_contains(front, x);
        if front.contains(x) {
            // what occurs in the front occurs in the whole, and is kept
            let j = choose|j: int| 0 <= j < front.len() && front[j] == x;
            assert(s[j] == x);
            let i = choose|i: int| 0 <= i < r.len() && r[i] == x;
            assert(t[i] == x);
        } else if s.last() == x {
            assert(s[s.len() - 1] == x);
            assert(t[t.len() - 1] == x);
        } else if s.contains(x) {
            let j = choose|j: int| 0 <= j < s.len() && s[j] == x;
            assert(front[j] == x);
        } else if t.contains(x) {
            let i = choose|i: int| 0 <= i < t.len() && t[i] == x;
            assert(r[i] == x);
        }
    }
}

/// `first_occurrences` repeats nothing, and is no longer than what it was
/// made from.
pub proof fn lemma_first_occurrences<T>(s: Seq<T>)
    ensures
        first_occurrences(s).no_duplicates(),
        first_occurrences(s).len() <= s.len(),
    decreases s.len(),
{
    if s.len() > 0 {
        lemma_first_occurrences(s.drop_last());
    }
}

} // verus!
