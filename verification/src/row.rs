//! One line of text, indexed by grapheme cluster, with its highlight cache.

use crate::edit::cut_at;
use crate::edit::delete_cluster;
use crate::edit::deleted_text;
use crate::edit::head_text;
use crate::edit::insert_char;
use crate::edit::inserted_text;
use crate::edit::lemma_deleted_of_inserted;
use crate::edit::lemma_head_and_tail;
use crate::edit::split_clusters;
use crate::edit::tail_text;
use crate::filetype::HighlightingOptions;
use crate::filetype::OptionsView;
use crate::highlighting::Palette;
use crate::highlighting::PaletteView;
use crate::highlighting::Type;
use crate::lines::is_line;
use crate::overlay::overlay;
use crate::overlay::paint_matches;
use crate::render::draw_clusters;
use crate::render::drawn;
use crate::scan::scan;
use crate::scan::scan_symbols;
use crate::scan::symbols;
use crate::scan::symbols_of;
use crate::search::column_of;
use crate::search::find_clusters;
use crate::search::find_in;
use crate::search::SearchDirection;
use crate::segment::grapheme_clusters;
use crate::segment::partitions;
use crate::segment::segment;
use crate::segment::lemma_partition_of_empty;
use crate::segment::lemma_text_of_is_line;
use crate::text::views_of;
use vstd::prelude::*;

verus! {

broadcast use vstd::seq::Seq::group_seq_flatten;

/// The mathematical content of a row.
pub ghost struct RowView {
    /// The text of the line.
    pub content: Seq<char>,
    /// The categories that the last highlight pass left, one per grapheme cluster.
    pub styles: Seq<Type>,
    /// Whether `styles` is the outcome of a highlight pass over `content`.
    pub highlighted: bool,
    /// Whether that pass ended inside a block comment that the row does not close.
    pub open_comment: bool,
    /// Whether occurrences of a search word were drawn over `styles` since that pass.
    pub overlaid: bool,
}

impl RowView {
    /// The row's grapheme clusters.
    pub open spec fn clusters(self) -> Seq<Seq<char>> {
        grapheme_clusters(self.content)
    }

    /// The row's length: the number of its grapheme clusters.
    pub open spec fn len(self) -> nat {
        self.clusters().len()
    }

    /// The clusters cut the content into non-empty pieces, and a valid highlight cache
    /// has one category for each of them.
    pub open spec fn wf(self) -> bool {
        &&& partitions(self.clusters(), self.content)
        &&& self.highlighted ==> self.styles.len() == self.len()
    }

    /// A fresh row that holds `text`.
    pub open spec fn of_text(text: Seq<char>) -> RowView {
        RowView {
            content: text,
            styles: Seq::empty(),
            highlighted: false,
            open_comment: false,
            overlaid: false,
        }
    }

    /// The row after an edit that leaves it with `content`: the highlight cache is stale.
    pub open spec fn edited(self, content: Seq<char>) -> RowView {
        RowView {
            content,
            styles: self.styles,
            highlighted: false,
            open_comment: false,
            overlaid: false,
        }
    }

    /// The row after `ch` was put before the cluster at `col`, or behind the last
    /// cluster where `col` is not a column of the row.
    pub open spec fn inserted(self, col: int, ch: char) -> RowView {
        self.edited(inserted_text(self.clusters(), col, ch))
    }

    /// The row after the cluster at `col` was taken out; the row itself where `col` is
    /// not one of its columns.
    pub open spec fn deleted(self, col: int) -> RowView {
        if col >= self.len() {
            self
        } else {
            self.edited(deleted_text(self.clusters(), col))
        }
    }

    /// The row after the content of `other` was put behind its own.
    pub open spec fn appended(self, other: RowView) -> RowView {
        self.edited(self.content + other.content)
    }

    /// What a split at `col` leaves in the row: the clusters before `col`, or all of
    /// them where `col` is not a column of the row.
    pub open spec fn split_head(self, col: int) -> RowView {
        self.edited(head_text(self.clusters(), col))
    }

    /// What a split at `col` hands out: a fresh row of the clusters from `col` on.
    pub open spec fn split_tail(self, col: int) -> RowView {
        RowView::of_text(tail_text(self.clusters(), col))
    }

    /// The column at which a search for `query` from column `from` ends. There is none
    /// for an empty query or a start behind the row's end. Forward, the leftmost
    /// occurrence in the columns `[from, len)` is found; backward, the rightmost one
    /// that lies in the columns `[0, from)`.
    pub open spec fn found(self, query: Seq<char>, from: int, direction: SearchDirection) -> Option<
        int,
    > {
        if query.len() == 0 {
            None
        } else {
            find_in(self.clusters(), grapheme_clusters(query), from, direction)
        }
    }

    /// The row's symbols, which the categorical scan reads.
    pub open spec fn symbols(self) -> Seq<Option<char>> {
        symbols_of(self.clusters())
    }

    /// The categories `styles` with the occurrences of the search word drawn over them.
    /// No word, or an empty one, leaves them as they are.
    pub open spec fn matches_over(self, styles: Seq<Type>, word: Option<Seq<char>>) -> Seq<Type> {
        if is_search(word) {
            overlay(styles, self.clusters(), grapheme_clusters(word->0))
        } else {
            styles
        }
    }

    /// The row with the occurrences of the search word drawn over its categories. The
    /// row takes note that matches were drawn: the next pass without a word then scans
    /// anew and leaves no match behind.
    pub open spec fn with_matches(self, word: Option<Seq<char>>) -> RowView {
        RowView {
            styles: self.matches_over(self.styles, word),
            overlaid: self.overlaid || is_search(word),
            ..self
        }
    }

    /// With another set of categories, which is no valid highlight cache.
    pub open spec fn with_styles(self, styles: Seq<Type>) -> RowView {
        RowView { styles, highlighted: false, open_comment: false, overlaid: false, ..self }
    }

    /// With the highlight cache marked as stale.
    pub open spec fn unhighlighted(self) -> RowView {
        RowView { highlighted: false, ..self }
    }

    /// A highlight pass may skip the row: its cache is valid, no search word is
    /// pending, the row does not end inside a block comment, and no matches of an
    /// earlier search are drawn over its categories.
    pub open spec fn cached(self, word: Option<Seq<char>>) -> bool {
        self.highlighted && word is None && !self.open_comment && !self.overlaid
    }

    /// The row after the categorical scan, started inside a block comment where `carry`
    /// says so: every cluster has its category, and the categories are a valid cache.
    pub open spec fn scanned(self, options: OptionsView, carry: bool) -> RowView {
        let scanned = scan(self.symbols(), options, carry);
        RowView {
            content: self.content,
            styles: scanned.styles,
            highlighted: true,
            open_comment: scanned.open,
            overlaid: false,
        }
    }

    /// The row after a full highlight pass: the categorical scan with the occurrences of
    /// the search word drawn over it.
    pub open spec fn rescanned(
        self,
        options: OptionsView,
        word: Option<Seq<char>>,
        carry: bool,
    ) -> RowView {
        self.scanned(options, carry).with_matches(word)
    }

    /// The row after a highlight pass.
    pub open spec fn highlighted_with(
        self,
        options: OptionsView,
        word: Option<Seq<char>>,
        carry: bool,
    ) -> RowView {
        if self.cached(word) {
            self
        } else {
            self.rescanned(options, word, carry)
        }
    }

    /// Whether the row, after a highlight pass, ends inside a block comment, so that
    /// the next row starts inside it.
    pub open spec fn carry_after(
        self,
        options: OptionsView,
        word: Option<Seq<char>>,
        carry: bool,
    ) -> bool {
        if self.cached(word) {
            false
        } else {
            scan(self.symbols(), options, carry).open
        }
    }

    /// The text that the columns `[begin, end)` are drawn as, after both were clamped
    /// to the row: each cluster as it is, a tab as one space, a colour marker before
    /// each cluster whose category differs from that of the one before (the first is
    /// held against the plain category), and the reset marker at the end. A column
    /// without a category is plain.
    pub open spec fn drawn(self, palette: PaletteView, begin: int, end: int) -> Seq<char> {
        drawn(self.clusters(), self.styles, palette, begin, end)
    }
}

/// There is a search word, and it is not empty.
pub open spec fn is_search(word: Option<Seq<char>>) -> bool {
    word matches Some(w) && w.len() > 0
}

/// The search word as a sequence of characters.
pub open spec fn word_view(word: Option<String>) -> Option<Seq<char>> {
    match word {
        Some(w) => Some(w@),
        None => None,
    }
}

impl RowView {
    /// A line stays a line when a character other than the line feed is put into it.
    pub proof fn lemma_inserted_is_line(self, col: int, ch: char)
        requires
            self.wf(),
            is_line(self.content),
            0 <= col,
            ch != '\n',
        ensures
            is_line(self.inserted(col, ch).content),
    {
        let c = self.clusters();
        lemma_text_of_is_line(c, 0, cut_at(c, col));
        lemma_text_of_is_line(c, cut_at(c, col), c.len() as int);
    }

    /// A line stays a line when a cluster is taken out of it.
    pub proof fn lemma_deleted_is_line(self, col: int)
        requires
            self.wf(),
            is_line(self.content),
            0 <= col,
        ensures
            is_line(self.deleted(col).content),
    {
        let c = self.clusters();
        if col < c.len() {
            lemma_text_of_is_line(c, 0, col);
            lemma_text_of_is_line(c, col + 1, c.len() as int);
        }
    }

    /// Both halves of a split line are lines.
    pub proof fn lemma_split_is_line(self, col: int)
        requires
            self.wf(),
            is_line(self.content),
            0 <= col,
        ensures
            is_line(self.split_head(col).content),
            is_line(self.split_tail(col).content),
    {
        let c = self.clusters();
        lemma_text_of_is_line(c, 0, cut_at(c, col));
        lemma_text_of_is_line(c, cut_at(c, col), c.len() as int);
    }
}

impl RowView {
    /// Split and join are inverse: a row that is split at any column and then gets back
    /// what was cut off has the content and the length that it had.
    pub proof fn lemma_split_then_append(self, col: int)
        requires
            self.wf(),
            0 <= col,
        ensures
            self.split_head(col).appended(self.split_tail(col)).content == self.content,
            self.split_head(col).appended(self.split_tail(col)).len() == self.len(),
    {
        lemma_head_and_tail(self.clusters(), col);
    }

    /// Insert and delete are inverse: where the character that is put in at a column
    /// of the row, or at its end, stands there as a cluster of its own and leaves the
    /// other clusters as they were, deleting at that column gives back the content and
    /// the length that the row had.
    pub proof fn lemma_insert_then_delete(self, col: int, ch: char)
        requires
            self.wf(),
            0 <= col <= self.len(),
            self.inserted(col, ch).clusters() == self.clusters().insert(col, seq![ch]),
        ensures
            self.inserted(col, ch).deleted(col).content == self.content,
            self.inserted(col, ch).deleted(col).len() == self.len(),
    {
        lemma_deleted_of_inserted(self.clusters(), col, ch);
    }

    /// A pass without a search word leaves no match of an earlier search behind: no
    /// matches are drawn over the row afterwards, and a row that a search had drawn over
    /// holds the categories of the scan alone.
    pub proof fn lemma_wordless_pass_is_clean(self, options: OptionsView, carry: bool)
        ensures
            !self.highlighted_with(options, None, carry).overlaid,
            self.overlaid ==> self.highlighted_with(options, None, carry).styles == scan(
                self.symbols(),
                options,
                carry,
            ).styles,
    {
    }

    /// A highlight pass is idempotent: a second pass with the same rules, the same
    /// search word and the same start leaves the row, its categories among the rest, as
    /// the first pass left it, and says the same of the end of the row.
    pub proof fn lemma_highlight_twice(
        self,
        options: OptionsView,
        word: Option<Seq<char>>,
        carry: bool,
    )
        ensures
            ({
                let once = self.highlighted_with(options, word, carry);
                &&& once.highlighted_with(options, word, carry) == once
                &&& once.highlighted_with(options, word, carry).styles == once.styles
                &&& once.carry_after(options, word, carry) == self.carry_after(options, word, carry)
            }),
    {
    }
}

/// One line of a document.
pub struct SingleRow {
    row_content: String,
    char_display_style: Vec<Type>,
    is_highlighted: bool,
    open_comment: bool,
    overlaid: bool,
    content_len: usize,
}

impl View for SingleRow {
    type V = RowView;

    closed spec fn view(&self) -> RowView {
        RowView {
            content: self.row_content@,
            styles: self.char_display_style@,
            highlighted: self.is_highlighted,
            open_comment: self.open_comment,
            overlaid: self.overlaid,
        }
    }
}

impl Default for SingleRow {
    /// The empty row.
    fn default() -> (row: Self)
        ensures
            row.wf(),
            row@ == RowView::of_text(Seq::empty()),
            row@.len() == 0,
    {
        let text = String::new();
        let clusters = segment(text.as_str());
        proof {
            lemma_partition_of_empty(views_of(clusters@));
        }
        SingleRow {
            row_content: text,
            char_display_style: Vec::new(),
            is_highlighted: false,
            open_comment: false,
            overlaid: false,
            content_len: 0,
        }
    }
}

impl SingleRow {
    /// The length that the row holds in cache.
    pub closed spec fn cached_len(&self) -> nat {
        self.content_len as nat
    }

    /// The row is valid: its view is, and the cached length is the number of clusters.
    pub open spec fn wf(&self) -> bool {
        &&& self@.wf()
        &&& self.cached_len() == self@.len()
    }

    /// A fresh row that holds `slice`.
    pub fn from(slice: &str) -> (row: Self)
        ensures
            row.wf(),
            row@ == RowView::of_text(slice@),
    {
        let clusters = segment(slice);
        SingleRow {
            row_content: slice.to_owned(),
            char_display_style: Vec::new(),
            is_highlighted: false,
            open_comment: false,
            overlaid: false,
            content_len: clusters.len(),
        }
    }

    /// Replaces the content, counts its clusters anew and drops the highlight cache.
    fn replace_content(&mut self, text: String)
        ensures
            final(self).wf(),
            final(self)@ == old(self)@.edited(text@),
    {
        let clusters = segment(text.as_str());
        self.row_content = text;
        self.content_len = clusters.len();
        self.is_highlighted = false;
        self.open_comment = false;
        self.overlaid = false;
    }

    /// The text of the row.
    pub fn content(&self) -> (text: &str)
        ensures
            text@ == self@.content,
    {
        self.row_content.as_str()
    }

    /// The number of grapheme clusters in the row.
    pub fn get_content_len(&self) -> (len: usize)
        requires
            self.wf(),
        ensures
            len == self@.len(),
    {
        self.content_len
    }

    /// Whether the row holds at most one grapheme cluster.
    pub fn row_is_empty(&self) -> (empty: bool)
        requires
            self.wf(),
        ensures
            empty == (self@.len() <= 1),
    {
        self.content_len <= 1
    }

    /// The UTF-8 bytes of the content.
    pub fn as_bytes(&self) -> (bytes: &[u8])
        ensures
            bytes@ == vstd::utf8::encode_utf8(self@.content),
    {
        self.row_content.as_str().as_bytes()
    }

    /// Puts the content of `appand` behind the row's own.
    pub fn appand_row(&mut self, appand: &Self)
        requires
            old(self).wf(),
        ensures
            final(self).wf(),
            final(self)@ == old(self)@.appended(appand@),
    {
        let mut text = self.row_content.clone();
        text.append(appand.row_content.as_str());
        self.replace_content(text);
    }

    /// Puts `char_inserted` before the cluster at `position`, or behind the last cluster
    /// where `position` is not a column of the row.
    pub fn insert_at_positon(&mut self, position: usize, char_inserted: char)
        requires
            old(self).wf(),
        ensures
            final(self).wf(),
            final(self)@ == old(self)@.inserted(position as int, char_inserted),
    {
        let clusters = segment(self.row_content.as_str());
        self.replace_content(insert_char(&clusters, position, char_inserted));
    }

    /// Takes the cluster at `position` out of the row; does nothing where `position` is
    /// not a column of the row.
    pub fn delete_at_position(&mut self, position: usize)
        requires
            old(self).wf(),
        ensures
            final(self).wf(),
            final(self)@ == old(self)@.deleted(position as int),
    {
        if position >= self.content_len {
            return ;
        }
        let clusters = segment(self.row_content.as_str());
        self.replace_content(delete_cluster(&clusters, position));
    }

    /// Cuts the row before the cluster at `position`: the row keeps the clusters before
    /// the cut, and the clusters from the cut on are handed out as a fresh row.
    pub fn split_content(&mut self, position: usize) -> (tail: Self)
        requires
            old(self).wf(),
        ensures
            final(self).wf(),
            tail.wf(),
            final(self)@ == old(self)@.split_head(position as int),
            tail@ == old(self)@.split_tail(position as int),
    {
        let clusters = segment(self.row_content.as_str());
        let (head, tail) = split_clusters(&clusters, position);
        self.replace_content(head);
        SingleRow::from(tail.as_str())
    }

    /// Searches the row for `query_str` from column `position`.
    pub fn search_query_str(
        &self,
        query_str: &str,
        position: usize,
        direction: SearchDirection,
    ) -> (found: Option<usize>)
        requires
            self.wf(),
        ensures
            column_of(found) == self@.found(query_str@, position as int, direction),
    {
        if position > self.content_len || query_str.is_empty() {
            return None;
        }
        let clusters = segment(self.row_content.as_str());
        let query = segment(query_str);
        find_clusters(&clusters, &query, position, direction)
    }

    /// The categories that the row holds.
    pub fn display_styles(&self) -> (styles: &Vec<Type>)
        ensures
            styles@ == self@.styles,
    {
        &self.char_display_style
    }

    /// Whether the row holds a valid highlight cache.
    pub fn is_highlighted(&self) -> (highlighted: bool)
        ensures
            highlighted == self@.highlighted,
    {
        self.is_highlighted
    }

    /// Whether occurrences of a search word are drawn over the row's categories.
    pub fn has_matches(&self) -> (overlaid: bool)
        ensures
            overlaid == self@.overlaid,
    {
        self.overlaid
    }

    /// Gives the row another set of categories. They count as no valid highlight cache.
    pub fn set_display_styles(&mut self, styles: Vec<Type>)
        requires
            old(self).wf(),
        ensures
            final(self).wf(),
            final(self)@ == old(self)@.with_styles(styles@),
    {
        self.char_display_style = styles;
        self.is_highlighted = false;
        self.open_comment = false;
        self.overlaid = false;
    }

    /// Marks the highlight cache as stale.
    pub fn unhighlight(&mut self)
        requires
            old(self).wf(),
        ensures
            final(self).wf(),
            final(self)@ == old(self)@.unhighlighted(),
    {
        self.is_highlighted = false;
    }

    /// Draws the occurrences of `word` in `clusters`, the row's own, over its categories.
    fn overlay_word(&mut self, clusters: &Vec<Vec<char>>, word: &Option<String>)
        requires
            views_of(clusters@) == old(self)@.clusters(),
        ensures
            final(self)@ == old(self)@.with_matches(word_view(*word)),
            final(self).cached_len() == old(self).cached_len(),
    {
        match word {
            Some(w) => {
                if !w.as_str().is_empty() {
                    let query = segment(w.as_str());
                    paint_matches(&mut self.char_display_style, clusters, &query);
                    self.overlaid = true;
                }
            },
            None => {},
        }
    }

    /// Draws the occurrences of the search word over the row's categories: every cluster
    /// inside an occurrence becomes a match. The occurrences are taken from the left and
    /// do not overlap. No word, or an empty one, changes nothing; for any other the row
    /// takes note that matches were drawn over its categories.
    pub fn highlight_word(&mut self, word: &Option<String>)
        requires
            old(self).wf(),
        ensures
            final(self).wf(),
            final(self)@ == old(self)@.with_matches(word_view(*word)),
    {
        let clusters = segment(self.row_content.as_str());
        self.overlay_word(&clusters, word);
    }

    /// One highlight pass over the row. The pass is skipped where the cache is valid,
    /// no search word is pending, the row does not end inside a block comment and no
    /// matches of an earlier search are drawn over its categories. Otherwise every
    /// cluster gets its category anew, the occurrences of the search word are drawn
    /// over them, and the cache is valid. `highlight_comment` says that the row starts
    /// inside a block comment; the result says that it ends in one.
    pub fn highlight_control(
        &mut self,
        options: &HighlightingOptions,
        word: &Option<String>,
        highlight_comment: bool,
    ) -> (carry: bool)
        requires
            old(self).wf(),
        ensures
            final(self).wf(),
            final(self)@ == old(self)@.highlighted_with(
                options@,
                word_view(*word),
                highlight_comment,
            ),
            carry == old(self)@.carry_after(options@, word_view(*word), highlight_comment),
            !old(self)@.cached(word_view(*word)) ==> final(self)@.highlighted
                && final(self)@.styles.len() == final(self)@.len(),
    {
        if self.is_highlighted && word.is_none() && !self.open_comment && !self.overlaid {
            return false;
        }
        let clusters = segment(self.row_content.as_str());
        let symbols = symbols(&clusters);
        let (styles, open) = scan_symbols(&symbols, options, highlight_comment);
        self.char_display_style = styles;
        self.is_highlighted = true;
        self.open_comment = open;
        self.overlaid = false;
        self.overlay_word(&clusters, word);
        open
    }

    /// Draws the columns `[begin, end)` with the markers of `palette`.
    pub fn draw_with(&self, palette: &Palette, begin: usize, end: usize) -> (text: String)
        requires
            self.wf(),
            palette@.wf(),
        ensures
            text@ == self@.drawn(palette@, begin as int, end as int),
    {
        let clusters = segment(self.row_content.as_str());
        draw_clusters(&clusters, &self.char_display_style, palette, begin, end)
    }

    /// Draws the columns `[begin, end)` for the terminal, in the colours of the row's
    /// categories.
    pub fn draw_content(&self, begin: usize, end: usize) -> (text: String)
        requires
            self.wf(),
        ensures
            exists|palette: PaletteView|
                palette.wf() && palette.is_terminal() && text@ == #[trigger] self@.drawn(
                    palette,
                    begin as int,
                    end as int,
                ),
    {
        let palette = Palette::terminal();
        self.draw_with(&palette, begin, end)
    }
}

} // verus!
