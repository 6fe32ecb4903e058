//! Adjacencies in the order of their left ends.
use crate::crypt::{
    lemma_lex_lt_asymmetric, lemma_lex_lt_irreflexive, lemma_lex_lt_total, lex_lt, Fingerprint,
};
use crate::topology::AdjacencyDescriptor;
use itertools::Itertools;
use std::cmp::Ordering;
use vstd::prelude::*;

verus! {

/// The test for an adjacency whose left end is `left`.
pub open spec fn starts_at(left: Fingerprint) -> spec_fn(AdjacencyDescriptor) -> bool {
    |a: AdjacencyDescriptor| a.left == left
}

/// Whether no adjacency stands before one with a smaller left end.
pub open spec fn ordered_by_left(s: Seq<AdjacencyDescriptor>) -> bool {
    forall|i: int, j: int|
        0 <= i < j < s.len() ==> !lex_lt((#[trigger] s[j]).left@, (#[trigger] s[i]).left@)
}

/// Whether `output` is `input` sorted by left end, adjacencies with the same
/// left end keeping the order that they had in `input`. One sequence at most
/// is that for a given `input`: see `lemma_stable_sort_unique`.
pub open spec fn is_stable_sort_by_left(
    input: Seq<AdjacencyDescriptor>,
    output: Seq<AdjacencyDescriptor>,
) -> bool {
    &&& output.len() == input.len()
    &&& ordered_by_left(output)
    &&& forall|left: Fingerprint|
        output.filter(#[trigger] starts_at(left)) == input.filter(starts_at(left))
}

/// Of an adjacency whose left end occurs in `s`, the last adjacency of `s`
/// has a left end that is no smaller.
proof fn lemma_last_left_is_greatest(s: Seq<AdjacencyDescriptor>, left: Fingerprint)
    requires
        ordered_by_left(s),
        s.filter(starts_at(left)).len() > 0,
    ensures
        s.len() > 0,
        !lex_lt(s.last().left@, left@),
{
    let group = s.filter(starts_at(left));
    s.lemma_filter_pred(starts_at(left), 0);
    s.lemma_filter_contains_rev(starts_at(left), group[0]);
    // some adjacency of `s` has the left end `left`; the last one of `s` is
    // that one or stands behind it
    let j = choose|j: int| 0 <= j < s.len() && s[j] == group[0];
    if j == s.len() - 1 {
        lemma_lex_lt_irreflexive(left@);
    }
}

/// Two sequences that are ordered by left end, and in which the adjacencies
/// of every left end are the same and in the same order, are the same
/// sequence.
proof fn lemma_same_groups_same_sequence(a: Seq<AdjacencyDescriptor>, b: Seq<AdjacencyDescriptor>)
    requires
        a.len() == b.len(),
        ordered_by_left(a),
        ordered_by_left(b),
        forall|left: Fingerprint| a.filter(#[trigger] starts_at(left)) == b.filter(starts_at(left)),
    ensures
        a == b,
    decreases a.len(),
{
    if a.len() > 0 {
        let x = a.last();
        let y = b.last();
        let a1 = a.drop_last();
        let b1 = b.drop_last();
        assert(a1.push(x) =~= a);
        assert(b1.push(y) =~= b);
        a1.lemma_filter_push(x, starts_at(x.left));
        b1.lemma_filter_push(y, starts_at(y.left));
        lemma_last_left_is_greatest(b, x.left);
        lemma_last_left_is_greatest(a, y.left);
        x.left.lemma_len();
        y.left.lemma_len();
        lemma_lex_lt_total(x.left@, y.left@);
        x.left.lemma_view_injective(y.left);
        // the two last adjacencies have the same left end, and close the
        // same group: they are the same
        b1.lemma_filter_push(y, starts_at(x.left));
        assert(b.filter(starts_at(x.left)).last() == y);
        // without them the groups are still the same
        assert forall|left: Fingerprint|
            a1.filter(#[trigger] starts_at(left)) == b1.filter(starts_at(left)) by {
            a1.lemma_filter_push(x, starts_at(left));
            b1.lemma_filter_push(y, starts_at(left));
            if starts_at(left)(x) {
                assert(b1.filter(starts_at(left)) =~= b.filter(starts_at(left)).drop_last());
            }
        }
        assert(ordered_by_left(a1)) by {
            assert forall|i: int, j: int| 0 <= i < j < a1.len() implies !lex_lt(
                (#[trigger] a1[j]).left@,
                (#[trigger] a1[i]).left@,
            ) by {
                assert(a1[i] == a[i] && a1[j] == a[j]);
            }
        }
        assert(ordered_by_left(b1)) by {
            assert forall|i: int, j: int| 0 <= i < j < b1.len() implies !lex_lt(
                (#[trigger] b1[j]).left@,
                (#[trigger] b1[i]).left@,
            ) by {
                assert(b1[i] == b[i] && b1[j] == b[j]);
            }
        }
        lemma_same_groups_same_sequence(a1, b1);
    }
}

/// A sequence has one stable sort by left end at most.
pub proof fn lemma_stable_sort_unique(
    input: Seq<AdjacencyDescriptor>,
    a: Seq<AdjacencyDescriptor>,
    b: Seq<AdjacencyDescriptor>,
)
    requires
        is_stable_sort_by_left(input, a),
        is_stable_sort_by_left(input, b),
    ensures
        a == b,
{
    lemma_same_groups_same_sequence(a, b);
}

/// The order of two fingerprints.
pub fn compare_fingerprints(a: &Fingerprint, b: &Fingerprint) -> (r: Ordering)
    ensures
        (r == Ordering::Less) <==> lex_lt(a@, b@),
        (r == Ordering::Greater) <==> lex_lt(b@, a@),
        (r == Ordering::Equal) <==> *a == *b,
{
    proof {
        a.lemma_len();
        b.lemma_len();
        lemma_lex_lt_total(a@, b@);
        if lex_lt(a@, b@) {
            lemma_lex_lt_asymmetric(a@, b@);
        }
        if a@ == b@ {
            a.lemma_view_injective(*b);
            lemma_lex_lt_irreflexive(a@);
        }
    }
    if a.precedes(b) {
        Ordering::Less
    } else if b.precedes(a) {
        Ordering::Greater
    } else {
        Ordering::Equal
    }
}

/// `Itertools::sorted_by` with the order of the left ends: the adjacencies
/// come out sorted by left end, and the sort is stable, so those with the
/// same left end come out in the order in which they went in.
#[verifier::external_body]
pub(crate) fn sorted_by_left(list: Vec<AdjacencyDescriptor>) -> (r: Vec<AdjacencyDescriptor>)
    ensures
        is_stable_sort_by_left(list@, r@),
{
    list.into_iter().sorted_by(|a, b| compare_fingerprints(&a.left, &b.left)).collect()
}

} // verus!
