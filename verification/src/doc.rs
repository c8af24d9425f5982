//! The document as an editor session holds it.

use crate::document::name_view;
use crate::document::place_of;
use crate::document::stale_from;
use crate::document::Document;
use crate::document::DocumentView;
use crate::filetype::FileTypeView;
use crate::row::word_view;
use crate::row::SingleRow;
use crate::search::SearchDirection;
use crate::Position;
use vstd::prelude::*;

verus! {

/// The document of an editor session.
pub struct Doc {
    document: Document,
}

impl View for Doc {
    type V = DocumentView;

    closed spec fn view(&self) -> DocumentView {
        self.document@
    }
}

impl Default for Doc {
    /// The empty document: no rows, no file name, unedited, of unknown type.
    fn default() -> (doc: Self)
        ensures
            doc.wf(),
            doc@ == (DocumentView {
                rows: Seq::empty(),
                file_name: None,
                dirty: false,
                file_type: FileTypeView::unknown(),
            }),
    {
        Doc { document: Document::default() }
    }
}

impl Doc {
    /// The document is valid: each of its rows is, and each holds one line.
    pub closed spec fn wf(&self) -> bool {
        self.document.wf()
    }

    /// A valid document has a valid view.
    pub proof fn lemma_wf_view(&self)
        requires
            self.wf(),
        ensures
            self@.wf(),
    {
        self.document.lemma_wf_view();
    }

    /// The document that holds the lines of `contents`.
    pub fn content_from_string(contents: String) -> (result: Result<Self, std::io::Error>)
        ensures
            result matches Ok(doc) && doc.wf() && doc@ == DocumentView::from_text(contents@),
    {
        match Document::from_string(contents) {
            Ok(document) => Ok(Doc { document }),
            Err(error) => Err(error),
        }
    }

    /// The document that holds the lines of `contents`, which were read from the file
    /// `file_name`.
    pub fn from_file_contents(file_name: &str, contents: &str) -> (doc: Self)
        ensures
            doc.wf(),
            doc@ == DocumentView::opened(file_name@, contents@),
    {
        Doc { document: Document::from_file_contents(file_name, contents) }
    }

    /// The display name of the file type.
    pub fn get_file_type(&self) -> (name: String)
        ensures
            name@ == self@.file_type.name,
    {
        self.document.file_type()
    }

    /// The name of the file that the document is saved to.
    pub fn file_name(&self) -> (name: &Option<String>)
        ensures
            name_view(*name) == self@.file_name,
    {
        self.document.file_name()
    }

    /// Gives the document another file name, or none.
    pub fn set_file_name(&mut self, name: Option<String>)
        requires
            old(self).wf(),
        ensures
            final(self).wf(),
            final(self)@ == (DocumentView { file_name: name_view(name), ..old(self)@ }),
    {
        self.document.set_file_name(name);
    }

    /// The row at `index`, if the document has one there.
    pub fn row(&self, index: usize) -> (row: Option<&SingleRow>)
        requires
            self.wf(),
        ensures
            row is Some <==> index < self@.rows.len(),
            row matches Some(r) ==> r.wf() && r@ == self@.rows[index as int],
    {
        self.document.row(index)
    }

    /// Whether the document has no rows.
    pub fn is_empty(&self) -> (empty: bool)
        ensures
            empty == (self@.rows.len() == 0),
    {
        self.document.is_empty()
    }

    /// The number of rows.
    pub fn get_len(&self) -> (len: usize)
        ensures
            len == self@.rows.len(),
    {
        self.document.len()
    }

    /// Whether the document was edited since it was made or saved.
    pub fn is_modified(&self) -> (modified: bool)
        ensures
            modified == self@.dirty,
    {
        self.document.is_dirty()
    }

    /// Marks the highlight cache of row `begin` and of every later row as stale.
    pub fn cancel_high_light_rows(&mut self, begin: usize)
        requires
            old(self).wf(),
        ensures
            final(self).wf(),
            final(self)@ == (DocumentView {
                rows: stale_from(old(self)@.rows, begin as int),
                ..old(self)@
            }),
    {
        self.document.unhighlight_rows(begin);
    }

    /// Puts `c` in at `position`. A line feed breaks row `position.y` at column
    /// `position.x`, or adds an empty row behind the last one. Any other character goes
    /// into row `position.y` before the cluster at column `position.x`, or into a new
    /// row behind the last one. No row changes where `position.y` is behind that. The
    /// document counts as edited afterwards.
    pub fn insert(&mut self, position: &Position, c: char)
        requires
            old(self).wf(),
        ensures
            final(self).wf(),
            final(self)@ == old(self)@.inserted(*position, c),
    {
        self.document.insert(position, c);
    }

    /// Deletes at `position`: at the end of a row that has a next row, joins the next
    /// row to it; elsewhere takes the cluster at column `position.x` out of row
    /// `position.y`. Nothing happens where the document has no row `position.y`.
    pub fn delete_at_position(&mut self, position: &Position)
        requires
            old(self).wf(),
        ensures
            final(self).wf(),
            final(self)@ == old(self)@.deleted(*position),
    {
        self.document.delete(position);
    }

    /// The text that the document is saved as: each row followed by one line feed.
    pub fn contents(&self) -> (text: String)
        ensures
            text@ == self@.contents(),
    {
        self.document.contents()
    }

    /// Takes note that the document was saved to its file: it counts as unedited, and
    /// its type is the one that the file's name stands for. A document without a file
    /// name stays as it is.
    pub fn mark_saved(&mut self)
        requires
            old(self).wf(),
        ensures
            final(self).wf(),
            final(self)@ == old(self)@.saved(),
    {
        self.document.mark_saved();
    }

    /// Searches the document for `query` from `position`. Forward, the first occurrence
    /// at or after `position` is found; backward, the last one that lies before
    /// `position`. The search does not go round the end of the document.
    pub fn find(&self, query: &str, position: &Position, direction: SearchDirection) -> (found: Option<
        Position,
    >)
        requires
            self.wf(),
        ensures
            place_of(found) == self@.found(query@, *position, direction),
    {
        self.document.find(query, position, direction)
    }

    /// One highlight pass: the rows up to and with row `stop`, or all rows, are
    /// highlighted in order from the first. A row starts inside a block comment where
    /// the row before it ended in one. The other rows are left as they are.
    pub fn high_light(&mut self, word: &Option<String>, stop: Option<usize>)
        requires
            old(self).wf(),
        ensures
            final(self).wf(),
            final(self)@ == old(self)@.highlighted(word_view(*word), stop),
    {
        self.document.highlight(word, stop);
    }
}

} // verus!
