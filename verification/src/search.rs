//! Search for a sequence of grapheme clusters inside a row of clusters.
//!
//! Columns count grapheme clusters. A query occurs at a column when its clusters, one by
//! one, are the row's clusters from that column on.

use crate::text::views_of;
use vstd::prelude::*;

verus! {

/// The way a search moves through a row or a document.
#[derive(Clone, Copy, Debug, PartialEq, Eq, Structural)]
pub enum SearchDirection {
    Forward,
    Backward,
}

/// `query` stands in `row` at column `at`.
pub open spec fn occurs_at(row: Seq<Seq<char>>, query: Seq<Seq<char>>, at: int) -> bool {
    &&& 0 <= at
    &&& at + query.len() <= row.len()
    &&& forall|j: int| 0 <= j < query.len() ==> row[at + j] == #[trigger] query[j]
}

/// The leftmost column at or after `from` at which `query` stands in `row`.
pub open spec fn first_occurrence(row: Seq<Seq<char>>, query: Seq<Seq<char>>, from: int) -> Option<int>
    decreases row.len() - from,
{
    if from < 0 || from + query.len() > row.len() {
        None
    } else if occurs_at(row, query, from) {
        Some(from)
    } else {
        first_occurrence(row, query, from + 1)
    }
}

/// The rightmost column at which `query` stands in `row` and ends at or before `end`.
pub open spec fn last_occurrence(row: Seq<Seq<char>>, query: Seq<Seq<char>>, end: int) -> Option<int>
    decreases end,
{
    if end < query.len() || end > row.len() {
        None
    } else if occurs_at(row, query, end - query.len()) {
        Some(end - query.len())
    } else {
        last_occurrence(row, query, end - 1)
    }
}

/// The result of a search in one row. There is none for an empty query or a start
/// behind the row's end. Forward, the window is `[from, row.len())` and the leftmost
/// occurrence is found; backward, it is `[0, from)` and the rightmost one is found.
pub open spec fn find_in(
    row: Seq<Seq<char>>,
    query: Seq<Seq<char>>,
    from: int,
    direction: SearchDirection,
) -> Option<int> {
    if query.len() == 0 || from < 0 || from > row.len() {
        None
    } else {
        match direction {
            SearchDirection::Forward => first_occurrence(row, query, from),
            SearchDirection::Backward => last_occurrence(row, query, from),
        }
    }
}

/// A column as a mathematical integer.
pub open spec fn column_of(found: Option<usize>) -> Option<int> {
    match found {
        Some(col) => Some(col as int),
        None => None,
    }
}

/// A forward search finds the leftmost occurrence in its window, and finds none only
/// where there is none.
pub proof fn lemma_first_occurrence_is_leftmost(row: Seq<Seq<char>>, query: Seq<Seq<char>>, from: int)
    requires
        0 <= from,
    ensures
        match first_occurrence(row, query, from) {
            Some(at) => {
                &&& from <= at
                &&& occurs_at(row, query, at)
                &&& forall|k: int| from <= k < at ==> !occurs_at(row, query, k)
            },
            None => forall|k: int| from <= k ==> !occurs_at(row, query, k),
        },
    decreases row.len() - from,
{
    if from + query.len() <= row.len() && !occurs_at(row, query, from) {
        lemma_first_occurrence_is_leftmost(row, query, from + 1);
    }
}

/// A backward search finds the rightmost occurrence that lies in its window, and finds
/// none only where there is none.
pub proof fn lemma_last_occurrence_is_rightmost(row: Seq<Seq<char>>, query: Seq<Seq<char>>, end: int)
    requires
        end <= row.len(),
    ensures
        match last_occurrence(row, query, end) {
            Some(at) => {
                &&& at + query.len() <= end
                &&& occurs_at(row, query, at)
                &&& forall|k: int| at < k && k + query.len() <= end ==> !occurs_at(row, query, k)
            },
            None => forall|k: int| k + query.len() <= end ==> !occurs_at(row, query, k),
        },
    decreases end,
{
    if end >= query.len() && !occurs_at(row, query, end - query.len()) {
        lemma_last_occurrence_is_rightmost(row, query, end - 1);
    }
}

fn same_cluster(a: &Vec<char>, b: &Vec<char>) -> (same: bool)
    ensures
        same == (a@ == b@),
{
    if a.len() != b.len() {
        return false;
    }
    let mut j: usize = 0;
    while j < a.len()
        invariant
            j <= a.len(),
            a.len() == b.len(),
            forall|k: int| 0 <= k < j ==> a@[k] == b@[k],
        decreases a.len() - j,
    {
        if a[j] != b[j] {
            return false;
        }
        j += 1;
    }
    assert(a@ =~= b@);
    true
}

fn stands_at(row: &Vec<Vec<char>>, query: &Vec<Vec<char>>, at: usize) -> (found: bool)
    requires
        at + query.len() <= row.len(),
    ensures
        found == occurs_at(views_of(row@), views_of(query@), at as int),
{
    let mut j: usize = 0;
    while j < query.len()
        invariant
            j <= query.len(),
            at + query.len() <= row.len(),
            forall|k: int|
                0 <= k < j ==> views_of(row@)[at + k] == #[trigger] views_of(query@)[k],
        decreases query.len() - j,
    {
        if !same_cluster(&row[at + j], &query[j]) {
            assert(views_of(row@)[at + j] != views_of(query@)[j as int]);
            return false;
        }
        j += 1;
    }
    true
}

/// Searches `row` for `query` from column `from` in the given direction.
pub fn find_clusters(
    row: &Vec<Vec<char>>,
    query: &Vec<Vec<char>>,
    from: usize,
    direction: SearchDirection,
) -> (found: Option<usize>)
    ensures
        column_of(found) == find_in(views_of(row@), views_of(query@), from as int, direction),
        found matches Some(at) ==> at + query.len() <= row.len(),
{
    let ghost r = views_of(row@);
    let ghost q = views_of(query@);
    if query.len() == 0 || from > row.len() {
        return None;
    }
    match direction {
        SearchDirection::Forward => {
            let mut at: usize = from;
            while row.len() - at >= query.len()
                invariant
                    from <= at <= row.len(),
                    query.len() > 0,
                    direction == SearchDirection::Forward,
                    r == views_of(row@),
                    q == views_of(query@),
                    first_occurrence(r, q, from as int) == first_occurrence(r, q, at as int),
                decreases row.len() - at,
            {
                if stands_at(row, query, at) {
                    return Some(at);
                }
                at += 1;
            }
            None
        },
        SearchDirection::Backward => {
            let mut end: usize = from;
            while end >= query.len()
                invariant
                    end <= from <= row.len(),
                    query.len() > 0,
                    direction == SearchDirection::Backward,
                    r == views_of(row@),
                    q == views_of(query@),
                    last_occurrence(r, q, from as int) == last_occurrence(r, q, end as int),
                decreases end,
            {
                if stands_at(row, query, end - query.len()) {
                    return Some(end - query.len());
                }
                end -= 1;
            }
            None
        },
    }
}

} // verus!
