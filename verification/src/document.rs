//! A document: an ordered sequence of rows with the operations of an editing session.

use crate::filetype::FileType;
use crate::filetype::FileTypeView;
use crate::filetype::OptionsView;
use crate::lines::is_line;
use crate::lines::is_plain_line;
use crate::lines::lemma_lines_of_terminated;
use crate::lines::lines;
use crate::lines::split_lines;
use crate::lines::terminated;
use crate::lines::with_feeds;
use crate::highlighting::Type;
use crate::row::word_view;
use crate::scan::run;
use crate::scan::scan_from;
use crate::scan::terminator_end;
use crate::row::RowView;
use crate::row::SingleRow;
use crate::search::SearchDirection;
use crate::text::texts_of;
use crate::Position;
use vstd::prelude::*;

verus! {

broadcast use vstd::seq::Seq::group_seq_flatten;

/// `std::io::Error` of the standard library, carried through as an opaque value: the
/// error type of the functions that make a document from text.
#[verifier::external_type_specification]
#[verifier::external_body]
pub struct ExIoError(std::io::Error);

/// The mathematical content of a document.
pub ghost struct DocumentView {
    /// The rows, in order: the index of a row is its line number.
    pub rows: Seq<RowView>,
    /// The name of the file that the document is saved to, if it has one.
    pub file_name: Option<Seq<char>>,
    /// Whether the document was edited since it was made or saved.
    pub dirty: bool,
    /// The file type, which decides the highlighting rules.
    pub file_type: FileTypeView,
}

/// Fresh rows that hold the given lines.
pub open spec fn rows_of(texts: Seq<Seq<char>>) -> Seq<RowView> {
    texts.map_values(|t: Seq<char>| RowView::of_text(t))
}

/// The content of each row.
pub open spec fn contents_of(rows: Seq<RowView>) -> Seq<Seq<char>> {
    rows.map_values(|r: RowView| r.content)
}

/// The rows with the highlight cache of row `from` and of every later row marked as stale.
pub open spec fn stale_from(rows: Seq<RowView>, from: int) -> Seq<RowView> {
    Seq::new(
        rows.len(),
        |i: int|
            if i >= from {
                rows[i].unhighlighted()
            } else {
                rows[i]
            },
    )
}

/// Whether row `i` starts inside a block comment when the rows are highlighted in order
/// from the first one.
pub open spec fn carry_before(
    rows: Seq<RowView>,
    options: OptionsView,
    word: Option<Seq<char>>,
    i: int,
) -> bool
    decreases i,
{
    if i <= 0 || i > rows.len() {
        false
    } else {
        rows[i - 1].carry_after(options, word, carry_before(rows, options, word, i - 1))
    }
}

/// A place in a document, in mathematical integers.
pub ghost struct Place {
    pub row: int,
    pub column: int,
}

/// A position as a place.
pub open spec fn place_of(found: Option<Position>) -> Option<Place> {
    match found {
        Some(position) => Some(Place { row: position.y as int, column: position.x as int }),
        None => None,
    }
}

/// The place of the first occurrence of `query` at or after column `x` of row `y`:
/// in row `y` from `x` on, or else in the first later row that holds one.
pub open spec fn found_forward(rows: Seq<RowView>, query: Seq<char>, y: int, x: int) -> Option<
    Place,
>
    decreases rows.len() - y,
{
    if y < 0 || y >= rows.len() {
        None
    } else {
        match rows[y].found(query, x, SearchDirection::Forward) {
            Some(column) => Some(Place { row: y, column }),
            None => found_forward(rows, query, y + 1, 0),
        }
    }
}

/// The place of the last occurrence of `query` that lies before column `x` of row `y`:
/// in row `y` before `x`, or else in the last earlier row that holds one.
pub open spec fn found_backward(rows: Seq<RowView>, query: Seq<char>, y: int, x: int) -> Option<
    Place,
>
    decreases y,
{
    if y < 0 || y >= rows.len() {
        None
    } else {
        match rows[y].found(query, x, SearchDirection::Backward) {
            Some(column) => Some(Place { row: y, column }),
            None => if y == 0 {
                None
            } else {
                found_backward(rows, query, y - 1, rows[y - 1].len() as int)
            },
        }
    }
}

/// The column from which a forward search looks through row `k`, where it started at
/// column `x` of row `y`: `x` in row `y`, and the start of every later row.
pub open spec fn forward_start(y: int, x: int, k: int) -> int {
    if k == y {
        x
    } else {
        0
    }
}

/// The column before which a backward search looks through row `k`, where it started
/// at column `x` of row `y`: `x` in row `y`, and the end of every earlier row.
pub open spec fn backward_start(rows: Seq<RowView>, y: int, x: int, k: int) -> int {
    if k == y {
        x
    } else {
        rows[k].len() as int
    }
}

/// A forward search does not go round the end of the document: it ends in the first
/// row, from row `y` on, that holds an occurrence in the part that the search looks
/// through, and finds nothing only where no such row does.
pub proof fn lemma_found_forward(rows: Seq<RowView>, query: Seq<char>, y: int, x: int)
    requires
        0 <= y,
    ensures
        match found_forward(rows, query, y, x) {
            Some(place) => {
                &&& y <= place.row < rows.len()
                &&& rows[place.row].found(
                    query,
                    forward_start(y, x, place.row),
                    SearchDirection::Forward,
                ) == Some(place.column)
                &&& forall|k: int|
                    y <= k < place.row ==> (#[trigger] rows[k]).found(
                        query,
                        forward_start(y, x, k),
                        SearchDirection::Forward,
                    ) is None
            },
            None => forall|k: int|
                y <= k < rows.len() ==> (#[trigger] rows[k]).found(
                    query,
                    forward_start(y, x, k),
                    SearchDirection::Forward,
                ) is None,
        },
    decreases rows.len() - y,
{
    if y < rows.len() && rows[y].found(query, x, SearchDirection::Forward) is None {
        lemma_found_forward(rows, query, y + 1, 0);
    }
}

/// A backward search does not go round the start of the document: it ends in the last
/// row, from row `y` back, that holds an occurrence in the part that the search looks
/// through, and finds nothing only where no such row does.
pub proof fn lemma_found_backward(rows: Seq<RowView>, query: Seq<char>, y: int, x: int)
    requires
        y < rows.len(),
    ensures
        match found_backward(rows, query, y, x) {
            Some(place) => {
                &&& 0 <= place.row <= y
                &&& rows[place.row].found(
                    query,
                    backward_start(rows, y, x, place.row),
                    SearchDirection::Backward,
                ) == Some(place.column)
                &&& forall|k: int|
                    place.row < k <= y ==> (#[trigger] rows[k]).found(
                        query,
                        backward_start(rows, y, x, k),
                        SearchDirection::Backward,
                    ) is None
            },
            None => forall|k: int|
                0 <= k <= y ==> (#[trigger] rows[k]).found(
                    query,
                    backward_start(rows, y, x, k),
                    SearchDirection::Backward,
                ) is None,
        },
    decreases y,
{
    if y > 0 && rows[y].found(query, x, SearchDirection::Backward) is None {
        lemma_found_backward(rows, query, y - 1, rows[y - 1].len() as int);
    }
}

impl DocumentView {
    /// Every row is valid and holds one line.
    pub open spec fn wf(self) -> bool {
        forall|i: int|
            0 <= i < self.rows.len() ==> (#[trigger] self.rows[i]).wf() && is_line(
                self.rows[i].content,
            )
    }

    /// The document that holds the lines of `text`: unnamed, unedited, of unknown type.
    pub open spec fn from_text(text: Seq<char>) -> DocumentView {
        DocumentView {
            rows: rows_of(lines(text)),
            file_name: None,
            dirty: false,
            file_type: FileTypeView::unknown(),
        }
    }

    /// The document that holds the lines of `text`, read from the file `file_name`.
    pub open spec fn opened(file_name: Seq<char>, text: Seq<char>) -> DocumentView {
        DocumentView {
            rows: rows_of(lines(text)),
            file_name: Some(file_name),
            dirty: false,
            file_type: FileTypeView::of_name(file_name),
        }
    }

    /// The rows after a line break at `at`, for `at.y <= rows.len()`: behind the last
    /// row an empty row is added; elsewhere row `at.y` is split at column `at.x`, and
    /// what is cut off becomes the next row.
    pub open spec fn broken(self, at: Position) -> Seq<RowView> {
        if at.y == self.rows.len() {
            self.rows.push(RowView::of_text(Seq::empty()))
        } else {
            let row = self.rows[at.y as int];
            self.rows.update(at.y as int, row.split_head(at.x as int)).insert(
                at.y + 1,
                row.split_tail(at.x as int),
            )
        }
    }

    /// The document after `c` was put in at `at`. No row changes where `at.y` is
    /// behind the row after the last. Elsewhere a line feed breaks the row, and any
    /// other character goes into row `at.y`, or into a new last row. The document
    /// counts as edited in every case, and the highlight cache of row `at.y` and of
    /// every later row is stale.
    pub open spec fn inserted(self, at: Position, c: char) -> DocumentView {
        let rows = if at.y > self.rows.len() {
            self.rows
        } else if c == '\n' {
            self.broken(at)
        } else if at.y == self.rows.len() {
            self.rows.push(RowView::of_text(seq![c]))
        } else {
            self.rows.update(at.y as int, self.rows[at.y as int].inserted(at.x as int, c))
        };
        DocumentView { rows: stale_from(rows, at.y as int), dirty: true, ..self }
    }

    /// The document after a deletion at `at`. Nothing happens for a row that the
    /// document does not have. At the end of a row that has a next row, the next row is
    /// joined to it; elsewhere the cluster at column `at.x` is taken out. The document
    /// is then edited, and the highlight cache of row `at.y` and of every later row is
    /// stale.
    pub open spec fn deleted(self, at: Position) -> DocumentView {
        if at.y >= self.rows.len() {
            self
        } else {
            let row = self.rows[at.y as int];
            let rows = if at.x == row.len() && at.y + 1 < self.rows.len() {
                self.rows.update(at.y as int, row.appended(self.rows[at.y + 1])).remove(at.y + 1)
            } else {
                self.rows.update(at.y as int, row.deleted(at.x as int))
            };
            DocumentView { rows: stale_from(rows, at.y as int), dirty: true, ..self }
        }
    }

    /// The place that a search for `query` from `at` ends at. Forward it looks through
    /// row `at.y` from column `at.x` on and then through the later rows from their
    /// start; backward through row `at.y` before column `at.x` and then through the
    /// earlier rows, each as a whole. It never goes round the end of the document.
    pub open spec fn found(
        self,
        query: Seq<char>,
        at: Position,
        direction: SearchDirection,
    ) -> Option<Place> {
        match direction {
            SearchDirection::Forward => found_forward(self.rows, query, at.y as int, at.x as int),
            SearchDirection::Backward => found_backward(self.rows, query, at.y as int, at.x as int),
        }
    }

    /// The number of rows that a highlight pass goes through: all of them, or those
    /// up to and with row `until`.
    pub open spec fn limit(self, until: Option<usize>) -> int {
        match until {
            Some(last) => if last + 1 < self.rows.len() {
                last + 1
            } else {
                self.rows.len() as int
            },
            None => self.rows.len() as int,
        }
    }

    /// The document after a highlight pass: the rows before the limit are highlighted
    /// in order, each one started inside a block comment where the one before it ended
    /// in one, and the other rows are left as they are.
    pub open spec fn highlighted(
        self,
        word: Option<Seq<char>>,
        until: Option<usize>,
    ) -> DocumentView {
        let options = self.file_type.options;
        DocumentView {
            rows: Seq::new(
                self.rows.len(),
                |i: int|
                    if i < self.limit(until) {
                        self.rows[i].highlighted_with(
                            options,
                            word,
                            carry_before(self.rows, options, word, i),
                        )
                    } else {
                        self.rows[i]
                    },
            ),
            ..self
        }
    }

    /// The text that the document is saved as: each row followed by one line feed.
    pub open spec fn contents(self) -> Seq<char> {
        terminated(contents_of(self.rows))
    }

    /// The document after it was saved to its file: it counts as unedited, and its type
    /// is the one that the file's name stands for. A document without a file name is
    /// not saved and stays as it is.
    pub open spec fn saved(self) -> DocumentView {
        match self.file_name {
            Some(name) => DocumentView {
                dirty: false,
                file_type: FileTypeView::of_name(name),
                ..self
            },
            None => self,
        }
    }
}

impl DocumentView {
    /// The text that a document is saved as, after it was read from `text`, is the
    /// lines of `text`, each followed by exactly one line feed.
    pub proof fn lemma_contents_of_read(text: Seq<char>)
        ensures
            DocumentView::from_text(text).contents() == terminated(lines(text)),
    {
        assert(contents_of(rows_of(lines(text))) =~= lines(text));
    }

    /// Round trip: lines without a line feed in them and without a carriage return at
    /// their end, written each with one line feed behind it and read into a document,
    /// are the contents of its rows, and the document is saved as the text that was
    /// read.
    pub proof fn lemma_round_trip(ls: Seq<Seq<char>>)
        requires
            forall|i: int| 0 <= i < ls.len() ==> is_plain_line(#[trigger] ls[i]),
        ensures
            contents_of(DocumentView::from_text(terminated(ls)).rows) == ls,
            DocumentView::from_text(terminated(ls)).contents() == terminated(ls),
    {
        lemma_lines_of_terminated(ls);
        assert(contents_of(rows_of(ls)) =~= ls);
    }

    /// The rows before `i` start inside a block comment, or outside of one, in a second
    /// highlight pass as they did in the first.
    pub proof fn lemma_carry_of_highlighted(
        self,
        word: Option<Seq<char>>,
        until: Option<usize>,
        i: int,
    )
        requires
            0 <= i <= self.limit(until),
        ensures
            carry_before(self.highlighted(word, until).rows, self.file_type.options, word, i)
                == carry_before(self.rows, self.file_type.options, word, i),
        decreases i,
    {
        if i > 0 {
            let options = self.file_type.options;
            self.lemma_carry_of_highlighted(word, until, i - 1);
            self.rows[i - 1].lemma_highlight_twice(
                options,
                word,
                carry_before(self.rows, options, word, i - 1),
            );
        }
    }

    /// A highlight pass over the document is idempotent: a second pass with the same
    /// search word and the same limit leaves the document as the first pass left it.
    pub proof fn lemma_highlight_twice(self, word: Option<Seq<char>>, until: Option<usize>)
        ensures
            self.highlighted(word, until).highlighted(word, until) == self.highlighted(word, until),
    {
        let once = self.highlighted(word, until);
        let options = self.file_type.options;
        assert forall|i: int| 0 <= i < once.rows.len() implies once.highlighted(word, until).rows[i]
            == once.rows[i] by {
            if i < self.limit(until) {
                self.lemma_carry_of_highlighted(word, until, i);
                self.rows[i].lemma_highlight_twice(
                    options,
                    word,
                    carry_before(self.rows, options, word, i),
                );
            }
        }
        assert(once.highlighted(word, until).rows =~= once.rows);
    }

    /// Each row hands on to the next whether it ends inside a block comment: row `i + 1`
    /// starts inside one exactly where the pass over row `i` ended in one.
    pub proof fn lemma_carry_is_handed_on(self, word: Option<Seq<char>>, i: int)
        requires
            0 <= i < self.rows.len(),
        ensures
            carry_before(self.rows, self.file_type.options, word, i + 1) == self.rows[i].carry_after(
                self.file_type.options,
                word,
                carry_before(self.rows, self.file_type.options, word, i),
            ),
            carry_before(self.rows, self.file_type.options, word, 0) == false,
    {
    }

    /// Behind a row that ends inside a block comment, every row starts inside the
    /// comment as long as the rows between are scanned and hold no `*/`.
    pub proof fn lemma_comment_stays_open(self, first: int, k: int)
        requires
            0 <= first < k <= self.rows.len(),
            self.rows[first].carry_after(
                self.file_type.options,
                None,
                carry_before(self.rows, self.file_type.options, None, first),
            ),
            forall|j: int|
                first < j < k ==> !(#[trigger] self.rows[j]).cached(None) && terminator_end(
                    self.rows[j].symbols(),
                    0,
                ) is None,
        ensures
            carry_before(self.rows, self.file_type.options, None, k),
        decreases k,
    {
        if k > first + 1 {
            self.lemma_comment_stays_open(first, k - 1);
            assert(!self.rows[k - 1].cached(None));
        }
    }

    /// A block comment runs over rows: where the pass over row `first` ends inside a
    /// block comment and none of the rows up to `last` is served from its cache, every
    /// row between the two that holds no `*/` is comment throughout, and row `last` is
    /// comment through its first `*/`, behind which the scan goes on as in any row, or
    /// throughout where it holds none.
    pub proof fn lemma_comment_runs_over_rows(self, until: Option<usize>, first: int, last: int)
        requires
            0 <= first < last < self.limit(until),
            self.rows[first].carry_after(
                self.file_type.options,
                None,
                carry_before(self.rows, self.file_type.options, None, first),
            ),
            forall|j: int|
                first < j < last ==> !(#[trigger] self.rows[j]).cached(None) && terminator_end(
                    self.rows[j].symbols(),
                    0,
                ) is None,
            !self.rows[last].cached(None),
        ensures
            forall|j: int|
                first < j < last ==> (#[trigger] self.highlighted(None, until).rows[j]).styles == run(
                    Type::MultilineComment,
                    self.rows[j].len() as int,
                ),
            self.highlighted(None, until).rows[last].styles == match terminator_end(
                self.rows[last].symbols(),
                0,
            ) {
                Some(end) => run(Type::MultilineComment, end) + scan_from(
                    self.rows[last].symbols(),
                    self.file_type.options,
                    end,
                ),
                None => run(Type::MultilineComment, self.rows[last].len() as int),
            },
    {
        let options = self.file_type.options;
        assert forall|j: int| first < j < last implies (#[trigger] self.highlighted(
            None,
            until,
        ).rows[j]).styles == run(Type::MultilineComment, self.rows[j].len() as int) by {
            self.lemma_comment_stays_open(first, j);
            assert(!self.rows[j].cached(None));
        }
        self.lemma_comment_stays_open(first, last);
    }

    /// Insert and delete are inverse: where a character other than the line feed is put
    /// in at a column of a row, or at its end, and stands there as a cluster of its own
    /// that leaves the other clusters of the row as they were, deleting at the same
    /// place gives back the content and the length of every row.
    pub proof fn lemma_insert_then_delete(self, at: Position, c: char)
        requires
            self.wf(),
            at.y < self.rows.len(),
            at.x <= self.rows[at.y as int].len(),
            c != '\n',
            self.rows[at.y as int].inserted(at.x as int, c).clusters()
                == self.rows[at.y as int].clusters().insert(at.x as int, seq![c]),
        ensures
            contents_of(self.inserted(at, c).deleted(at).rows) == contents_of(self.rows),
            self.inserted(at, c).deleted(at).rows[at.y as int].len()
                == self.rows[at.y as int].len(),
    {
        let row = self.rows[at.y as int];
        row.lemma_insert_then_delete(at.x as int, c);
        assert(contents_of(self.inserted(at, c).deleted(at).rows) =~= contents_of(self.rows));
    }

    /// A line break and a deletion are inverse: where a row is broken at one of its
    /// columns, or at its end, and what stays in the row has as many clusters as stood
    /// before the break, deleting at the same place joins the two rows again and gives
    /// back the content and the length of every row.
    pub proof fn lemma_break_then_delete(self, at: Position)
        requires
            self.wf(),
            at.y < self.rows.len(),
            at.x <= self.rows[at.y as int].len(),
            self.rows[at.y as int].split_head(at.x as int).len() == at.x,
        ensures
            contents_of(self.inserted(at, '\n').deleted(at).rows) == contents_of(self.rows),
            self.inserted(at, '\n').deleted(at).rows[at.y as int].len()
                == self.rows[at.y as int].len(),
    {
        let row = self.rows[at.y as int];
        row.lemma_split_then_append(at.x as int);
        assert(contents_of(self.inserted(at, '\n').deleted(at).rows) =~= contents_of(self.rows));
    }
}

/// The views of a list of rows.
pub open spec fn row_views(rows: Seq<SingleRow>) -> Seq<RowView> {
    rows.map_values(|r: SingleRow| r@)
}

/// The name of a file as a sequence of characters.
pub open spec fn name_view(name: Option<String>) -> Option<Seq<char>> {
    match name {
        Some(n) => Some(n@),
        None => None,
    }
}

/// A document of an editing session.
pub struct Document {
    rows: Vec<SingleRow>,
    file_name: Option<String>,
    dirty: bool,
    file_type: FileType,
}

impl View for Document {
    type V = DocumentView;

    closed spec fn view(&self) -> DocumentView {
        DocumentView {
            rows: row_views(self.rows@),
            file_name: name_view(self.file_name),
            dirty: self.dirty,
            file_type: self.file_type@,
        }
    }
}

impl Default for Document {
    /// The empty document: no rows, no file name, unedited, of unknown type.
    fn default() -> (document: Self)
        ensures
            document.wf(),
            document@ == (DocumentView {
                rows: Seq::empty(),
                file_name: None,
                dirty: false,
                file_type: FileTypeView::unknown(),
            }),
    {
        let document = Document {
            rows: Vec::new(),
            file_name: None,
            dirty: false,
            file_type: FileType::default(),
        };
        assert(document@.rows =~= Seq::empty());
        document
    }
}

/// Builds the rows of a document from the lines of `text`.
fn rows_from(text: &str) -> (rows: Vec<SingleRow>)
    ensures
        row_views(rows@) == rows_of(lines(text@)),
        forall|i: int|
            0 <= i < rows.len() ==> (#[trigger] rows[i]).wf() && is_line(rows[i]@.content),
{
    let texts = split_lines(text);
    let mut rows: Vec<SingleRow> = Vec::new();
    let mut i: usize = 0;
    while i < texts.len()
        invariant
            i <= texts.len(),
            rows.len() == i,
            texts_of(texts@) == lines(text@),
            forall|k: int| 0 <= k < texts.len() ==> is_line(#[trigger] texts[k]@),
            row_views(rows@) == rows_of(lines(text@)).take(i as int),
            forall|k: int|
                0 <= k < rows.len() ==> (#[trigger] rows[k]).wf() && is_line(rows[k]@.content),
        decreases texts.len() - i,
    {
        let row = SingleRow::from(texts[i].as_str());
        assert(texts_of(texts@)[i as int] == texts[i as int]@);
        rows.push(row);
        i += 1;
        assert(row_views(rows@) =~= rows_of(lines(text@)).take(i as int));
    }
    assert(row_views(rows@) =~= rows_of(lines(text@)));
    rows
}

impl Document {
    /// The document is valid: each of its rows is, and each holds one line.
    pub closed spec fn wf(&self) -> bool {
        forall|i: int|
            0 <= i < self.rows.len() ==> (#[trigger] self.rows[i]).wf() && is_line(
                self.rows[i]@.content,
            )
    }

    /// A valid document has a valid view.
    pub proof fn lemma_wf_view(&self)
        requires
            self.wf(),
        ensures
            self@.wf(),
    {
    }

    /// The document that holds the lines of `string`.
    pub fn from_string(string: String) -> (result: Result<Self, std::io::Error>)
        ensures
            result matches Ok(document) && document.wf() && document@ == DocumentView::from_text(
                string@,
            ),
    {
        let rows = rows_from(string.as_str());
        let document = Document {
            rows,
            file_name: None,
            dirty: false,
            file_type: FileType::default(),
        };
        assert(document@.rows == rows_of(lines(string@)));
        Ok(document)
    }

    /// The document that holds the lines of `contents`, which were read from the file
    /// `file_name`.
    pub fn from_file_contents(file_name: &str, contents: &str) -> (document: Self)
        ensures
            document.wf(),
            document@ == DocumentView::opened(file_name@, contents@),
    {
        let rows = rows_from(contents);
        let document = Document {
            rows,
            file_name: Some(file_name.to_owned()),
            dirty: false,
            file_type: FileType::from(file_name),
        };
        assert(document@.rows == rows_of(lines(contents@)));
        document
    }

    /// The display name of the file type.
    pub fn file_type(&self) -> (name: String)
        ensures
            name@ == self@.file_type.name,
    {
        self.file_type.name()
    }

    /// The name of the file that the document is saved to.
    pub fn file_name(&self) -> (name: &Option<String>)
        ensures
            name_view(*name) == self@.file_name,
    {
        &self.file_name
    }

    /// Gives the document another file name, or none.
    pub fn set_file_name(&mut self, name: Option<String>)
        requires
            old(self).wf(),
        ensures
            final(self).wf(),
            final(self)@ == (DocumentView { file_name: name_view(name), ..old(self)@ }),
    {
        self.file_name = name;
    }

    /// The row at `index`, if the document has one there.
    pub fn row(&self, index: usize) -> (row: Option<&SingleRow>)
        requires
            self.wf(),
        ensures
            row is Some <==> index < self@.rows.len(),
            row matches Some(r) ==> r.wf() && r@ == self@.rows[index as int],
    {
        if index < self.rows.len() {
            Some(&self.rows[index])
        } else {
            None
        }
    }

    /// Whether the document has no rows.
    pub fn is_empty(&self) -> (empty: bool)
        ensures
            empty == (self@.rows.len() == 0),
    {
        self.rows.len() == 0
    }

    /// The number of rows.
    pub fn len(&self) -> (len: usize)
        ensures
            len == self@.rows.len(),
    {
        self.rows.len()
    }

    /// Whether the document was edited since it was made or saved.
    pub fn is_dirty(&self) -> (dirty: bool)
        ensures
            dirty == self@.dirty,
    {
        self.dirty
    }

    /// Breaks the document at `at`: behind the last row an empty row is added;
    /// elsewhere row `at.y` is split at column `at.x`.
    fn insert_newline(&mut self, at: &Position)
        requires
            old(self).wf(),
            at.y <= old(self)@.rows.len(),
        ensures
            final(self).wf(),
            final(self)@ == (DocumentView { rows: old(self)@.broken(*at), ..old(self)@ }),
    {
        let ghost before = self@;
        if at.y == self.rows.len() {
            self.rows.push(SingleRow::default());
            assert(self@.rows =~= before.broken(*at));
            return ;
        }
        proof {
            before.rows[at.y as int].lemma_split_is_line(at.x as int);
        }
        let tail = self.rows[at.y].split_content(at.x);
        self.rows.insert(at.y + 1, tail);
        assert(self@.rows =~= before.broken(*at));
    }

    /// Marks the highlight cache of row `start` and of every later row as stale.
    pub(crate) fn unhighlight_rows(&mut self, start: usize)
        requires
            old(self).wf(),
        ensures
            final(self).wf(),
            final(self)@ == (DocumentView {
                rows: stale_from(old(self)@.rows, start as int),
                ..old(self)@
            }),
    {
        let ghost before = self@;
        let mut i: usize = start;
        while i < self.rows.len()
            invariant
                start <= i,
                self.wf(),
                self@.rows.len() == before.rows.len(),
                self@.file_name == before.file_name,
                self@.dirty == before.dirty,
                self@.file_type == before.file_type,
                forall|j: int|
                    0 <= j < before.rows.len() ==> self@.rows[j] == if start <= j < i {
                        before.rows[j].unhighlighted()
                    } else {
                        #[trigger] before.rows[j]
                    },
            decreases self.rows.len() - i,
        {
            self.rows[i].unhighlight();
            i += 1;
        }
        assert(self@.rows =~= stale_from(before.rows, start as int));
    }

    /// Puts `c` in at `at`. A line feed breaks row `at.y` at column `at.x`, or adds
    /// an empty row behind the last one. Any other character goes into row `at.y`
    /// before the cluster at column `at.x`, or into a new row behind the last one.
    /// No row changes where `at.y` is behind that. The document counts as edited
    /// afterwards.
    pub fn insert(&mut self, at: &Position, c: char)
        requires
            old(self).wf(),
        ensures
            final(self).wf(),
            final(self)@ == old(self)@.inserted(*at, c),
    {
        let ghost before = self@;
        self.dirty = true;
        if at.y > self.rows.len() {
            assert(self@.rows =~= stale_from(before.rows, at.y as int));
            return ;
        }
        if c == '\n' {
            self.insert_newline(at);
        } else if at.y == self.rows.len() {
            let mut row = SingleRow::default();
            row.insert_at_positon(0, c);
            assert(row@.content =~= seq![c]);
            self.rows.push(row);
            assert(self@.rows =~= before.rows.push(RowView::of_text(seq![c])));
        } else {
            proof {
                before.rows[at.y as int].lemma_inserted_is_line(at.x as int, c);
            }
            self.rows[at.y].insert_at_positon(at.x, c);
            assert(self@.rows =~= before.rows.update(
                at.y as int,
                before.rows[at.y as int].inserted(at.x as int, c),
            ));
        }
        self.unhighlight_rows(at.y);
    }

    /// Deletes at `at`: at the end of a row that has a next row, joins the next row to
    /// it; elsewhere takes the cluster at column `at.x` out of row `at.y`. Nothing
    /// happens where the document has no row `at.y`.
    pub fn delete(&mut self, at: &Position)
        requires
            old(self).wf(),
        ensures
            final(self).wf(),
            final(self)@ == old(self)@.deleted(*at),
    {
        let ghost before = self@;
        let len = self.rows.len();
        if at.y >= len {
            return ;
        }
        self.dirty = true;
        if at.x == self.rows[at.y].get_content_len() && at.y + 1 < len {
            let next_row = self.rows.remove(at.y + 1);
            self.rows[at.y].appand_row(&next_row);
            assert(self@.rows =~= before.rows.update(
                at.y as int,
                before.rows[at.y as int].appended(before.rows[at.y + 1]),
            ).remove(at.y + 1));
        } else {
            proof {
                before.rows[at.y as int].lemma_deleted_is_line(at.x as int);
            }
            self.rows[at.y].delete_at_position(at.x);
            assert(self@.rows =~= before.rows.update(
                at.y as int,
                before.rows[at.y as int].deleted(at.x as int),
            ));
        }
        self.unhighlight_rows(at.y);
    }

    /// The text that the document is saved as: each row followed by one line feed.
    pub fn contents(&self) -> (text: String)
        ensures
            text@ == self@.contents(),
    {
        let ghost all = contents_of(self@.rows);
        let mut text = String::new();
        let mut i: usize = 0;
        assert(with_feeds(all.take(0)) =~= Seq::empty());
        while i < self.rows.len()
            invariant
                i <= self.rows.len(),
                all == contents_of(self@.rows),
                text@ == terminated(all.take(i as int)),
            decreases self.rows.len() - i,
        {
            let ghost done = text@;
            text.append(self.rows[i].content());
            text.push('\n');
            proof {
                assert(with_feeds(all.take(i + 1)) =~= with_feeds(all.take(i as int)).push(
                    all[i as int].push('\n'),
                ));
                assert(text@ =~= done + all[i as int].push('\n'));
            }
            i += 1;
        }
        assert(all.take(i as int) =~= all);
        text
    }

    /// Takes note that the document was saved to its file: it counts as unedited, and
    /// its type is the one that the file's name stands for. A document without a file
    /// name stays as it is.
    pub fn mark_saved(&mut self)
        requires
            old(self).wf(),
        ensures
            final(self).wf(),
            final(self)@ == old(self)@.saved(),
    {
        let file_type = match &self.file_name {
            Some(name) => Some(FileType::from(name.as_str())),
            None => None,
        };
        match file_type {
            Some(file_type) => {
                self.file_type = file_type;
                self.dirty = false;
            },
            None => {},
        }
    }

    /// Searches the document for `query` from `at`. Forward, the first occurrence at or
    /// after `at` is found; backward, the last one that lies before `at`. The search
    /// does not go round the end of the document.
    pub fn find(&self, query: &str, at: &Position, direction: SearchDirection) -> (found: Option<
        Position,
    >)
        requires
            self.wf(),
        ensures
            place_of(found) == self@.found(query@, *at, direction),
    {
        if at.y >= self.rows.len() {
            return None;
        }
        let mut y: usize = at.y;
        let mut x: usize = at.x;
        match direction {
            SearchDirection::Forward => {
                while y < self.rows.len()
                    invariant
                        self.wf(),
                        direction == SearchDirection::Forward,
                        self@.found(query@, *at, direction) == found_forward(
                            self@.rows,
                            query@,
                            y as int,
                            x as int,
                        ),
                    decreases self.rows.len() - y,
                {
                    match self.rows[y].search_query_str(query, x, direction) {
                        Some(col) => {
                            return Some(Position { x: col, y });
                        },
                        None => {},
                    }
                    y += 1;
                    x = 0;
                }
                None
            },
            SearchDirection::Backward => {
                loop
                    invariant
                        self.wf(),
                        y < self.rows.len(),
                        direction == SearchDirection::Backward,
                        self@.found(query@, *at, direction) == found_backward(
                            self@.rows,
                            query@,
                            y as int,
                            x as int,
                        ),
                    decreases y,
                {
                    match self.rows[y].search_query_str(query, x, direction) {
                        Some(col) => {
                            return Some(Position { x: col, y });
                        },
                        None => {},
                    }
                    if y == 0 {
                        return None;
                    }
                    y -= 1;
                    x = self.rows[y].get_content_len();
                }
            },
        }
    }

    /// One highlight pass: the rows up to and with row `until`, or all rows, are
    /// highlighted in order from the first. A row starts inside a block comment where
    /// the row before it ended in one. The other rows are left as they are.
    pub fn highlight(&mut self, word: &Option<String>, until: Option<usize>)
        requires
            old(self).wf(),
        ensures
            final(self).wf(),
            final(self)@ == old(self)@.highlighted(word_view(*word), until),
    {
        let ghost before = self@;
        let ghost options = before.file_type.options;
        let ghost w = word_view(*word);
        let limit = match until {
            Some(last) => if last < self.rows.len() && last + 1 < self.rows.len() {
                last + 1
            } else {
                self.rows.len()
            },
            None => self.rows.len(),
        };
        let mut start_with_comment = false;
        let mut i: usize = 0;
        while i < limit
            invariant
                i <= limit <= self.rows.len(),
                limit == before.limit(until),
                self.wf(),
                w == word_view(*word),
                options == before.file_type.options,
                self@.rows.len() == before.rows.len(),
                self@.file_name == before.file_name,
                self@.dirty == before.dirty,
                self@.file_type == before.file_type,
                start_with_comment == carry_before(before.rows, options, w, i as int),
                forall|j: int|
                    0 <= j < before.rows.len() ==> self@.rows[j] == if j < i {
                        before.rows[j].highlighted_with(
                            options,
                            w,
                            carry_before(before.rows, options, w, j),
                        )
                    } else {
                        #[trigger] before.rows[j]
                    },
            decreases limit - i,
        {
            start_with_comment = self.rows[i].highlight_control(
                self.file_type.highlighting_options(),
                word,
                start_with_comment,
            );
            i += 1;
        }
        assert(self@.rows =~= before.highlighted(w, until).rows);
    }
}

} // verus!
