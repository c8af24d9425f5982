//! Grapheme-cluster segmentation of text.

use crate::lines::is_line;
use crate::text::views_of;
use unicode_segmentation::UnicodeSegmentation;
use vstd::prelude::*;

verus! {

broadcast use vstd::seq::Seq::group_seq_flatten;

/// The extended grapheme clusters of `text`, in order, as `unicode_segmentation` cuts
/// them. The rules that decide where a cluster ends are not written down here.
pub uninterp spec fn grapheme_clusters(text: Seq<char>) -> Seq<Seq<char>>;

/// `clusters` cuts `text` into consecutive non-empty pieces.
pub open spec fn partitions(clusters: Seq<Seq<char>>, text: Seq<char>) -> bool {
    &&& clusters.flatten() == text
    &&& forall|i: int| 0 <= i < clusters.len() ==> (#[trigger] clusters[i]).len() > 0
}

/// Calls `UnicodeSegmentation::graphemes` of `unicode_segmentation` for the extended
/// grapheme clusters of `text`. Trusted: the clusters are a function of the text alone,
/// they are consecutive non-empty slices of it, and together they cover it.
#[verifier::external_body]
pub(crate) fn segment(text: &str) -> (clusters: Vec<Vec<char>>)
    ensures
        views_of(clusters@) == grapheme_clusters(text@),
        partitions(views_of(clusters@), text@),
{
    text.graphemes(true).map(|g| g.chars().collect()).collect()
}

/// The text of the clusters `[from, to)`.
pub open spec fn text_of(clusters: Seq<Seq<char>>, from: int, to: int) -> Seq<char> {
    clusters.subrange(from, to).flatten()
}

/// Clusters that cut the empty text are none at all.
pub proof fn lemma_partition_of_empty(clusters: Seq<Seq<char>>)
    requires
        partitions(clusters, Seq::empty()),
    ensures
        clusters.len() == 0,
{
    if clusters.len() > 0 {
        assert(clusters.flatten() == clusters.first() + clusters.drop_first().flatten());
        assert(clusters[0].len() > 0);
    }
}

/// The text of `[from, to)` is the text of `[from, mid)` followed by that of `[mid, to)`.
pub proof fn lemma_text_of_split(clusters: Seq<Seq<char>>, from: int, mid: int, to: int)
    requires
        0 <= from <= mid <= to <= clusters.len(),
    ensures
        text_of(clusters, from, to) == text_of(clusters, from, mid) + text_of(clusters, mid, to),
{
    assert(clusters.subrange(from, to) =~= clusters.subrange(from, mid) + clusters.subrange(
        mid,
        to,
    ));
    vstd::seq_lib::lemma_flatten_concat(clusters.subrange(from, mid), clusters.subrange(mid, to));
}

/// The text of all clusters is their flattening.
pub proof fn lemma_text_of_all(clusters: Seq<Seq<char>>)
    ensures
        text_of(clusters, 0, clusters.len() as int) == clusters.flatten(),
{
    assert(clusters.subrange(0, clusters.len() as int) =~= clusters);
}

/// The text of a range of clusters is a part of the line that the clusters cut.
pub proof fn lemma_text_of_is_line(clusters: Seq<Seq<char>>, from: int, to: int)
    requires
        is_line(clusters.flatten()),
        0 <= from <= to <= clusters.len(),
    ensures
        is_line(text_of(clusters, from, to)),
{
    let n = clusters.len() as int;
    let head = text_of(clusters, 0, from);
    let part = text_of(clusters, from, to);
    lemma_text_of_split(clusters, 0, from, n);
    lemma_text_of_split(clusters, from, to, n);
    lemma_text_of_all(clusters);
    assert forall|i: int| 0 <= i < part.len() implies part[i] != '\n' by {
        assert(clusters.flatten()[head.len() + i] == part[i]);
    }
}

} // verus!
