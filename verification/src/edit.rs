//! Edits of a line of text, cluster by cluster.
//!
//! The functions here read a line as the sequence of its grapheme clusters and hand
//! back the text of the edited line. An edit takes whole clusters only.

use crate::segment::lemma_text_of_all;
use crate::segment::lemma_text_of_split;
use crate::segment::text_of;
use crate::text::push_chars;
use crate::text::views_of;
use vstd::prelude::*;

verus! {

broadcast use vstd::seq::Seq::group_seq_flatten;

/// The column that `col` stands for in an edit: `col` itself, or the end of the line
/// where `col` is not one of its columns.
pub open spec fn cut_at(clusters: Seq<Seq<char>>, col: int) -> int {
    if col >= clusters.len() {
        clusters.len() as int
    } else {
        col
    }
}

/// The text of the line with `ch` before the cluster at `col`, or behind the last
/// cluster where `col` is not a column of the line.
pub open spec fn inserted_text(clusters: Seq<Seq<char>>, col: int, ch: char) -> Seq<char> {
    let at = cut_at(clusters, col);
    text_of(clusters, 0, at).push(ch) + text_of(clusters, at, clusters.len() as int)
}

/// The text of the line without the cluster at `col`; the whole text where `col` is
/// not a column of the line.
pub open spec fn deleted_text(clusters: Seq<Seq<char>>, col: int) -> Seq<char> {
    if col >= clusters.len() {
        clusters.flatten()
    } else {
        text_of(clusters, 0, col) + text_of(clusters, col + 1, clusters.len() as int)
    }
}

/// The text of the clusters before `col`: what a split at `col` leaves in the line.
pub open spec fn head_text(clusters: Seq<Seq<char>>, col: int) -> Seq<char> {
    text_of(clusters, 0, cut_at(clusters, col))
}

/// The text of the clusters from `col` on: what a split at `col` cuts off.
pub open spec fn tail_text(clusters: Seq<Seq<char>>, col: int) -> Seq<char> {
    text_of(clusters, cut_at(clusters, col), clusters.len() as int)
}

/// An insertion takes whole clusters only: the new text is the old clusters, in order
/// and each as it was, with the character between two of them, or at an end.
pub proof fn lemma_inserted_between_clusters(clusters: Seq<Seq<char>>, col: int, ch: char)
    requires
        0 <= col,
    ensures
        inserted_text(clusters, col, ch) == clusters.insert(cut_at(clusters, col), seq![ch]).flatten(),
{
    let n = clusters.len() as int;
    let at = cut_at(clusters, col);
    let head = clusters.subrange(0, at);
    let tail = clusters.subrange(at, n);
    assert(clusters.insert(at, seq![ch]) =~= head.push(seq![ch]) + tail);
    vstd::seq_lib::lemma_flatten_concat(head.push(seq![ch]), tail);
    assert(head.flatten() + seq![ch] =~= head.flatten().push(ch));
}

/// A deletion takes a whole cluster: the new text is the other clusters, in order and
/// each as it was.
pub proof fn lemma_deleted_whole_cluster(clusters: Seq<Seq<char>>, col: int)
    requires
        0 <= col < clusters.len(),
    ensures
        deleted_text(clusters, col) == clusters.remove(col).flatten(),
{
    let n = clusters.len() as int;
    assert(clusters.remove(col) =~= clusters.subrange(0, col) + clusters.subrange(col + 1, n));
    vstd::seq_lib::lemma_flatten_concat(clusters.subrange(0, col), clusters.subrange(col + 1, n));
}

/// A character that is put in behind the last column stands at the end of the text.
pub proof fn lemma_inserted_at_end(clusters: Seq<Seq<char>>, col: int, ch: char)
    requires
        col >= clusters.len(),
    ensures
        inserted_text(clusters, col, ch) == clusters.flatten().push(ch),
{
    let n = clusters.len() as int;
    lemma_text_of_all(clusters);
    assert(clusters.subrange(n, n) =~= Seq::empty());
    assert(inserted_text(clusters, col, ch) =~= clusters.flatten().push(ch));
}

/// The two halves of a split, one behind the other, are the whole text.
pub proof fn lemma_head_and_tail(clusters: Seq<Seq<char>>, col: int)
    requires
        0 <= col,
    ensures
        head_text(clusters, col) + tail_text(clusters, col) == clusters.flatten(),
{
    lemma_text_of_split(clusters, 0, cut_at(clusters, col), clusters.len() as int);
    lemma_text_of_all(clusters);
}

/// Taking out a cluster that was put in as a cluster of its own gives back the text.
pub proof fn lemma_deleted_of_inserted(clusters: Seq<Seq<char>>, col: int, ch: char)
    requires
        0 <= col <= clusters.len(),
    ensures
        deleted_text(clusters.insert(col, seq![ch]), col) == clusters.flatten(),
{
    let n = clusters.len() as int;
    let d = clusters.insert(col, seq![ch]);
    assert(d.subrange(0, col) =~= clusters.subrange(0, col));
    assert(d.subrange(col + 1, n + 1) =~= clusters.subrange(col, n));
    lemma_text_of_split(clusters, 0, col, n);
    lemma_text_of_all(clusters);
}

/// Puts the text of the clusters `[from, to)` behind `text`.
pub fn push_clusters(text: &mut String, clusters: &Vec<Vec<char>>, from: usize, to: usize)
    requires
        from <= to <= clusters.len(),
    ensures
        final(text)@ == old(text)@ + text_of(views_of(clusters@), from as int, to as int),
{
    let ghost c = views_of(clusters@);
    let mut i: usize = from;
    assert(c.subrange(from as int, from as int) =~= Seq::empty());
    while i < to
        invariant
            from <= i <= to <= clusters.len(),
            c == views_of(clusters@),
            text@ == old(text)@ + text_of(c, from as int, i as int),
        decreases to - i,
    {
        push_chars(text, &clusters[i]);
        proof {
            lemma_text_of_split(c, from as int, i as int, i + 1);
            assert(c.subrange(i as int, i + 1) =~= seq![c[i as int]]);
            assert(text_of(c, i as int, i + 1) == c[i as int]);
        }
        i += 1;
        assert(text@ =~= old(text)@ + text_of(c, from as int, i as int));
    }
}

/// The text of the line with `ch` before the cluster at `col`, or behind the last
/// cluster where `col` is not a column of the line.
pub fn insert_char(clusters: &Vec<Vec<char>>, col: usize, ch: char) -> (text: String)
    ensures
        text@ == inserted_text(views_of(clusters@), col as int, ch),
{
    let at = if col >= clusters.len() {
        clusters.len()
    } else {
        col
    };
    let mut text = String::new();
    push_clusters(&mut text, clusters, 0, at);
    text.push(ch);
    push_clusters(&mut text, clusters, at, clusters.len());
    text
}

/// The text of the line without the cluster at `col`; the whole text where `col` is
/// not a column of the line.
pub fn delete_cluster(clusters: &Vec<Vec<char>>, col: usize) -> (text: String)
    ensures
        text@ == deleted_text(views_of(clusters@), col as int),
{
    let mut text = String::new();
    if col >= clusters.len() {
        push_clusters(&mut text, clusters, 0, clusters.len());
        proof {
            lemma_text_of_all(views_of(clusters@));
        }
    } else {
        push_clusters(&mut text, clusters, 0, col);
        push_clusters(&mut text, clusters, col + 1, clusters.len());
    }
    text
}

/// The two halves of the line, cut before the cluster at `col`.
pub fn split_clusters(clusters: &Vec<Vec<char>>, col: usize) -> (halves: (String, String))
    ensures
        halves.0@ == head_text(views_of(clusters@), col as int),
        halves.1@ == tail_text(views_of(clusters@), col as int),
{
    let at = if col >= clusters.len() {
        clusters.len()
    } else {
        col
    };
    let mut head = String::new();
    let mut tail = String::new();
    push_clusters(&mut head, clusters, 0, at);
    push_clusters(&mut tail, clusters, at, clusters.len());
    (head, tail)
}

} // verus!
