//! The search overlay: the occurrences of a search term, drawn over a row's categories.
//!
//! The occurrences are taken from the left and do not overlap: the search for the next
//! one starts behind the end of the one before.

use crate::highlighting::Type;
use crate::search::find_clusters;
use crate::search::first_occurrence;
use crate::search::lemma_first_occurrence_is_leftmost;
use crate::search::SearchDirection;
use crate::text::views_of;
use vstd::prelude::*;

verus! {

/// Column `i` lies inside one of the occurrences of `query` in `row` that are taken,
/// one behind the other, from column `from` on.
pub open spec fn painted_from(row: Seq<Seq<char>>, query: Seq<Seq<char>>, from: int, i: int) -> bool
    decreases row.len() - from,
{
    if query.len() == 0 || from < 0 {
        false
    } else {
        match first_occurrence(row, query, from) {
            Some(at) => {
                proof {
                    lemma_first_occurrence_is_leftmost(row, query, from);
                }
                (at <= i < at + query.len()) || painted_from(row, query, at + query.len(), i)
            },
            None => false,
        }
    }
}

/// The categories of a row with the occurrences of `query` drawn over them: a cluster
/// inside an occurrence is a match, whatever it was, and every other one stays as it is.
pub open spec fn overlay(styles: Seq<Type>, row: Seq<Seq<char>>, query: Seq<Seq<char>>) -> Seq<
    Type,
> {
    Seq::new(
        styles.len(),
        |i: int|
            if painted_from(row, query, 0, i) {
                Type::Match
            } else {
                styles[i]
            },
    )
}

/// No column before `from` lies in an occurrence that is taken from `from` on.
pub proof fn lemma_painted_lower_bound(
    row: Seq<Seq<char>>,
    query: Seq<Seq<char>>,
    from: int,
    i: int,
)
    requires
        i < from,
    ensures
        !painted_from(row, query, from, i),
    decreases row.len() - from,
{
    if query.len() > 0 && from >= 0 {
        lemma_first_occurrence_is_leftmost(row, query, from);
        match first_occurrence(row, query, from) {
            Some(at) => {
                lemma_painted_lower_bound(row, query, at + query.len(), i);
            },
            None => {},
        }
    }
}

/// Drawing the overlay a second time changes nothing.
pub proof fn lemma_overlay_idempotent(styles: Seq<Type>, row: Seq<Seq<char>>, query: Seq<Seq<char>>)
    ensures
        overlay(overlay(styles, row, query), row, query) == overlay(styles, row, query),
{
    assert(overlay(overlay(styles, row, query), row, query) =~= overlay(styles, row, query));
}

/// Draws the occurrences of `query` in `row` over `styles`.
pub fn paint_matches(styles: &mut Vec<Type>, row: &Vec<Vec<char>>, query: &Vec<Vec<char>>)
    ensures
        final(styles)@ == overlay(old(styles)@, views_of(row@), views_of(query@)),
{
    let ghost r = views_of(row@);
    let ghost q = views_of(query@);
    let ghost before = styles@;
    if query.len() == 0 {
        assert(styles@ =~= overlay(before, r, q));
        return ;
    }
    let mut index: usize = 0;
    loop
        invariant_except_break
            index <= row.len(),
            query.len() > 0,
            r == views_of(row@),
            q == views_of(query@),
            styles.len() == before.len(),
            forall|i: int|
                0 <= i < styles.len() ==> styles@[i] == if i < index && painted_from(r, q, 0, i) {
                    Type::Match
                } else {
                    before[i]
                },
            forall|i: int|
                index <= i ==> painted_from(r, q, 0, i) == painted_from(r, q, index as int, i),
        ensures
            styles@ == overlay(before, r, q),
        decreases row.len() - index,
    {
        proof {
            lemma_first_occurrence_is_leftmost(r, q, index as int);
        }
        match find_clusters(row, query, index, SearchDirection::Forward) {
            Some(at) => {
                let next = at + query.len();
                let mut i: usize = at;
                assert forall|j: int| index <= j < next implies painted_from(r, q, 0, j) == (at
                    <= j) by {
                    lemma_painted_lower_bound(r, q, next as int, j);
                }
                while i < next && i < styles.len()
                    invariant
                        index <= at <= i <= next,
                        styles.len() == before.len(),
                        forall|j: int|
                            0 <= j < styles.len() ==> styles@[j] == if j < i && painted_from(
                                r,
                                q,
                                0,
                                j,
                            ) {
                                Type::Match
                            } else {
                                before[j]
                            },
                        forall|j: int| index <= j < next ==> painted_from(r, q, 0, j) == (at <= j),
                    decreases next - i,
                {
                    styles[i] = Type::Match;
                    i += 1;
                }
                index = next;
            },
            None => {
                assert(styles@ =~= overlay(before, r, q));
                break ;
            },
        }
    }
}

} // verus!
