//! Drawing a row: its clusters as text, with a marker wherever the colour changes.

use crate::highlighting::Palette;
use crate::highlighting::PaletteView;
use crate::highlighting::Type;
use crate::text::push_chars;
use crate::text::views_of;
use vstd::prelude::*;

verus! {

/// The category of column `i`: plain where `styles` has none for it.
pub open spec fn style_at(styles: Seq<Type>, i: int) -> Type {
    if 0 <= i < styles.len() {
        styles[i]
    } else {
        Type::Plain
    }
}

/// The text that a cluster is drawn as: the cluster itself, and one space for a tab.
pub open spec fn shown(cluster: Seq<char>) -> Seq<char> {
    if cluster == seq!['\t'] {
        seq![' ']
    } else {
        cluster
    }
}

/// The text of the columns `[i, end)`, where `current` is the category of the column
/// before `i`: before each cluster whose category is another than that of the one
/// before it stands the marker of its colour.
pub open spec fn drawn_from(
    clusters: Seq<Seq<char>>,
    styles: Seq<Type>,
    palette: PaletteView,
    i: int,
    end: int,
    current: Type,
) -> Seq<char>
    decreases end - i,
{
    if i >= end {
        Seq::empty()
    } else {
        let style = style_at(styles, i);
        let marker = if style != current {
            palette.marker(style)
        } else {
            Seq::empty()
        };
        marker + shown(clusters[i]) + drawn_from(clusters, styles, palette, i + 1, end, style)
    }
}

/// The end of the range that is drawn: `end`, but no further than the last column.
pub open spec fn clamped_end(clusters: Seq<Seq<char>>, end: int) -> int {
    if end > clusters.len() {
        clusters.len() as int
    } else {
        end
    }
}

/// The start of the range that is drawn: `begin`, but no further than its end.
pub open spec fn clamped_begin(clusters: Seq<Seq<char>>, begin: int, end: int) -> int {
    if begin > clamped_end(clusters, end) {
        clamped_end(clusters, end)
    } else {
        begin
    }
}

/// The text that the columns `[begin, end)` are drawn as, after both were clamped to
/// the row: each cluster as it is, a tab as one space, a colour marker before each
/// cluster whose category differs from that of the one before (the first is held
/// against the plain category), and the reset marker at the end. A column without a
/// category is plain.
pub open spec fn drawn(
    clusters: Seq<Seq<char>>,
    styles: Seq<Type>,
    palette: PaletteView,
    begin: int,
    end: int,
) -> Seq<char> {
    drawn_from(
        clusters,
        styles,
        palette,
        clamped_begin(clusters, begin, end),
        clamped_end(clusters, end),
        Type::Plain,
    ) + palette.reset
}

/// Draws the columns `[begin, end)` of a row with the markers of `palette`.
pub fn draw_clusters(
    clusters: &Vec<Vec<char>>,
    styles: &Vec<Type>,
    palette: &Palette,
    begin: usize,
    end: usize,
) -> (text: String)
    requires
        palette@.wf(),
    ensures
        text@ == drawn(views_of(clusters@), styles@, palette@, begin as int, end as int),
{
    let end = if end > clusters.len() {
        clusters.len()
    } else {
        end
    };
    let start = if begin > end {
        end
    } else {
        begin
    };
    let ghost c = views_of(clusters@);
    let ghost all = drawn_from(c, styles@, palette@, start as int, end as int, Type::Plain);
    let mut text = String::new();
    let mut current = Type::Plain;
    let mut i: usize = start;
    while i < end
        invariant
            start <= i <= end <= clusters.len(),
            c == views_of(clusters@),
            palette@.wf(),
            all == text@ + drawn_from(c, styles@, palette@, i as int, end as int, current),
        decreases end - i,
    {
        let style = if i < styles.len() {
            styles[i]
        } else {
            Type::Plain
        };
        if style != current {
            current = style;
            text.append(palette.marker(style));
        }
        let ghost marked = text@;
        let cluster = &clusters[i];
        if cluster.len() == 1 && cluster[0] == '\t' {
            assert(cluster@ =~= seq!['\t']);
            text.push(' ');
        } else {
            assert(cluster@ != seq!['\t']) by {
                if cluster@.len() == 1 {
                    assert(cluster@[0] != seq!['\t'][0]);
                }
            }
            push_chars(&mut text, cluster);
        }
        assert(text@ =~= marked + shown(c[i as int]));
        i += 1;
        assert(all =~= text@ + drawn_from(c, styles@, palette@, i as int, end as int, current));
    }
    text.append(palette.reset());
    text
}

} // verus!
