//! File types and the highlighting rules that each one switches on.

use crate::text::texts_of;
use vstd::prelude::*;

verus! {

/// The mathematical content of a set of highlighting rules.
pub ghost struct OptionsView {
    pub numbers: bool,
    pub strings: bool,
    pub characters: bool,
    pub comments: bool,
    pub multiline_comments: bool,
    pub asteriscs: bool,
    pub primary_keywords: Seq<Seq<char>>,
    pub secondary_keywords: Seq<Seq<char>>,
}

/// Which categories a row scan looks for, and the two ordered keyword lists.
pub struct HighlightingOptions {
    numbers: bool,
    strings: bool,
    characters: bool,
    comments: bool,
    multiline_comments: bool,
    asteriscs: bool,
    primary_keywords: Vec<String>,
    secondary_keywords: Vec<String>,
}

impl View for HighlightingOptions {
    type V = OptionsView;

    closed spec fn view(&self) -> OptionsView {
        OptionsView {
            numbers: self.numbers,
            strings: self.strings,
            characters: self.characters,
            comments: self.comments,
            multiline_comments: self.multiline_comments,
            asteriscs: self.asteriscs,
            primary_keywords: texts_of(self.primary_keywords@),
            secondary_keywords: texts_of(self.secondary_keywords@),
        }
    }
}

impl OptionsView {
    /// The rule set that looks for nothing.
    pub open spec fn plain() -> OptionsView {
        OptionsView {
            numbers: false,
            strings: false,
            characters: false,
            comments: false,
            multiline_comments: false,
            asteriscs: false,
            primary_keywords: Seq::empty(),
            secondary_keywords: Seq::empty(),
        }
    }

    /// The rule set for Rust sources.
    pub open spec fn rust() -> OptionsView {
        OptionsView {
            numbers: true,
            strings: true,
            characters: true,
            comments: true,
            multiline_comments: true,
            asteriscs: false,
            primary_keywords: rust_primary_keywords(),
            secondary_keywords: rust_secondary_keywords(),
        }
    }
}

impl HighlightingOptions {
    /// A rule set with the given switches and keyword lists.
    pub fn new(
        numbers: bool,
        strings: bool,
        characters: bool,
        comments: bool,
        multiline_comments: bool,
        asteriscs: bool,
        primary_keywords: Vec<String>,
        secondary_keywords: Vec<String>,
    ) -> (options: Self)
        ensures
            options@ == (OptionsView {
                numbers,
                strings,
                characters,
                comments,
                multiline_comments,
                asteriscs,
                primary_keywords: texts_of(primary_keywords@),
                secondary_keywords: texts_of(secondary_keywords@),
            }),
    {
        HighlightingOptions {
            numbers,
            strings,
            characters,
            comments,
            multiline_comments,
            asteriscs,
            primary_keywords,
            secondary_keywords,
        }
    }

    pub fn numbers(&self) -> (on: bool)
        ensures
            on == self@.numbers,
    {
        self.numbers
    }

    pub fn strings(&self) -> (on: bool)
        ensures
            on == self@.strings,
    {
        self.strings
    }

    pub fn characters(&self) -> (on: bool)
        ensures
            on == self@.characters,
    {
        self.characters
    }

    pub fn comments(&self) -> (on: bool)
        ensures
            on == self@.comments,
    {
        self.comments
    }

    pub fn multiline_comments(&self) -> (on: bool)
        ensures
            on == self@.multiline_comments,
    {
        self.multiline_comments
    }

    pub fn asteriscs(&self) -> (on: bool)
        ensures
            on == self@.asteriscs,
    {
        self.asteriscs
    }

    pub fn primary_keywords(&self) -> (words: &Vec<String>)
        ensures
            texts_of(words@) == self@.primary_keywords,
    {
        &self.primary_keywords
    }

    pub fn secondary_keywords(&self) -> (words: &Vec<String>)
        ensures
            texts_of(words@) == self@.secondary_keywords,
    {
        &self.secondary_keywords
    }
}

impl Default for HighlightingOptions {
    fn default() -> (options: Self)
        ensures
            options@ == OptionsView::plain(),
    {
        let options = HighlightingOptions {
            numbers: false,
            strings: false,
            characters: false,
            comments: false,
            multiline_comments: false,
            asteriscs: false,
            primary_keywords: Vec::new(),
            secondary_keywords: Vec::new(),
        };
        assert(options@.primary_keywords =~= Seq::empty());
        assert(options@.secondary_keywords =~= Seq::empty());
        options
    }
}

/// The keywords of Rust that are drawn as primary keywords, in matching order.
pub open spec fn rust_primary_keywords() -> Seq<Seq<char>> {
    seq![
        "as"@, "break"@, "const"@, "continue"@, "crate"@, "else"@, "enum"@, "extern"@,
        "false"@, "fn"@, "for"@, "if"@, "impl"@, "in"@, "let"@, "loop"@, "match"@, "mod"@,
        "move"@, "mut"@, "pub"@, "ref"@, "return"@, "self"@, "Self"@, "static"@, "struct"@,
        "super"@, "trait"@, "true"@, "type"@, "unsafe"@, "use"@, "where"@, "while"@, "dyn"@,
        "abstract"@, "become"@, "box"@, "do"@, "final"@, "macro"@, "override"@, "priv"@,
        "typeof"@, "unsized"@, "virtual"@, "yield"@, "async"@, "await"@, "try"@,
    ]
}

/// The names of Rust's primitive types, drawn as secondary keywords, in matching order.
pub open spec fn rust_secondary_keywords() -> Seq<Seq<char>> {
    seq![
        "bool"@, "char"@, "i8"@, "i16"@, "i32"@, "i64"@, "isize"@, "u8"@, "u16"@, "u32"@,
        "u64"@, "usize"@, "f32"@, "f64"@,
    ]
}

fn primary_words() -> (words: Vec<String>)
    ensures
        texts_of(words@) == rust_primary_keywords(),
{
    let mut words: Vec<String> = Vec::new();
    words.push("as".to_owned());
    words.push("break".to_owned());
    words.push("const".to_owned());
    words.push("continue".to_owned());
    words.push("crate".to_owned());
    words.push("else".to_owned());
    words.push("enum".to_owned());
    words.push("extern".to_owned());
    words.push("false".to_owned());
    words.push("fn".to_owned());
    words.push("for".to_owned());
    words.push("if".to_owned());
    words.push("impl".to_owned());
    words.push("in".to_owned());
    words.push("let".to_owned());
    words.push("loop".to_owned());
    words.push("match".to_owned());
    words.push("mod".to_owned());
    words.push("move".to_owned());
    words.push("mut".to_owned());
    words.push("pub".to_owned());
    words.push("ref".to_owned());
    words.push("return".to_owned());
    words.push("self".to_owned());
    words.push("Self".to_owned());
    words.push("static".to_owned());
    words.push("struct".to_owned());
    words.push("super".to_owned());
    words.push("trait".to_owned());
    words.push("true".to_owned());
    words.push("type".to_owned());
    words.push("unsafe".to_owned());
    words.push("use".to_owned());
    words.push("where".to_owned());
    words.push("while".to_owned());
    words.push("dyn".to_owned());
    words.push("abstract".to_owned());
    words.push("become".to_owned());
    words.push("box".to_owned());
    words.push("do".to_owned());
    words.push("final".to_owned());
    words.push("macro".to_owned());
    words.push("override".to_owned());
    words.push("priv".to_owned());
    words.push("typeof".to_owned());
    words.push("unsized".to_owned());
    words.push("virtual".to_owned());
    words.push("yield".to_owned());
    words.push("async".to_owned());
    words.push("await".to_owned());
    words.push("try".to_owned());
    assert(texts_of(words@) =~= rust_primary_keywords());
    words
}

fn secondary_words() -> (words: Vec<String>)
    ensures
        texts_of(words@) == rust_secondary_keywords(),
{
    let mut words: Vec<String> = Vec::new();
    words.push("bool".to_owned());
    words.push("char".to_owned());
    words.push("i8".to_owned());
    words.push("i16".to_owned());
    words.push("i32".to_owned());
    words.push("i64".to_owned());
    words.push("isize".to_owned());
    words.push("u8".to_owned());
    words.push("u16".to_owned());
    words.push("u32".to_owned());
    words.push("u64".to_owned());
    words.push("usize".to_owned());
    words.push("f32".to_owned());
    words.push("f64".to_owned());
    assert(texts_of(words@) =~= rust_secondary_keywords());
    words
}

/// The mathematical content of a file type.
pub ghost struct FileTypeView {
    pub name: Seq<char>,
    pub options: OptionsView,
}

/// Whether a file name carries the extension of Rust sources.
pub open spec fn is_rust_name(file_name: Seq<char>) -> bool {
    let n = file_name.len() as int;
    n >= 3 && file_name[n - 3] == '.' && file_name[n - 2] == 'r' && file_name[n - 1] == 's'
}

impl FileTypeView {
    /// The type of a file that no rule set is known for.
    pub open spec fn unknown() -> FileTypeView {
        FileTypeView { name: "No filetype"@, options: OptionsView::plain() }
    }

    /// The type of Rust sources.
    pub open spec fn rust() -> FileTypeView {
        FileTypeView { name: "Rust"@, options: OptionsView::rust() }
    }

    /// The file type that a file name stands for.
    pub open spec fn of_name(file_name: Seq<char>) -> FileTypeView {
        if is_rust_name(file_name) {
            FileTypeView::rust()
        } else {
            FileTypeView::unknown()
        }
    }
}

/// A file type: its display name and its highlighting rules.
pub struct FileType {
    name: String,
    hl_opts: HighlightingOptions,
}

impl View for FileType {
    type V = FileTypeView;

    closed spec fn view(&self) -> FileTypeView {
        FileTypeView { name: self.name@, options: self.hl_opts@ }
    }
}

impl Default for FileType {
    fn default() -> (file_type: Self)
        ensures
            file_type@ == FileTypeView::unknown(),
    {
        FileType { name: "No filetype".to_owned(), hl_opts: HighlightingOptions::default() }
    }
}

impl FileType {
    /// The display name.
    pub fn name(&self) -> (name: String)
        ensures
            name@ == self@.name,
    {
        self.name.clone()
    }

    /// The highlighting rules.
    pub fn highlighting_options(&self) -> (options: &HighlightingOptions)
        ensures
            options@ == self@.options,
    {
        &self.hl_opts
    }

    /// The file type that `file_name` stands for: Rust for names that end in `.rs`,
    /// the unknown type for all others.
    pub fn from(file_name: &str) -> (file_type: Self)
        ensures
            file_type@ == FileTypeView::of_name(file_name@),
    {
        let mut last: Vec<char> = Vec::new();
        for c in it: file_name.chars()
            invariant
                last@ == it.seq().take(it.index()),
        {
            last.push(c);
        }
        let n = last.len();
        if n >= 3 && last[n - 3] == '.' && last[n - 2] == 'r' && last[n - 1] == 's' {
            FileType {
                name: "Rust".to_owned(),
                hl_opts: HighlightingOptions {
                    numbers: true,
                    strings: true,
                    characters: true,
                    comments: true,
                    multiline_comments: true,
                    asteriscs: false,
                    primary_keywords: primary_words(),
                    secondary_keywords: secondary_words(),
                },
            }
        } else {
            FileType::default()
        }
    }
}

} // verus!
