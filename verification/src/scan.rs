//! The categorical scan of one row: every grapheme cluster gets exactly one category.
//!
//! The scan reads a row as a sequence of symbols. A cluster that consists of a single
//! character is that character; a cluster of several characters is no symbol at all and
//! never takes part in a marker, a keyword or a number.

use crate::filetype::HighlightingOptions;
use crate::filetype::OptionsView;
use crate::highlighting::Type;
use crate::text::chars_of;
use crate::text::texts_of;
use crate::text::views_of;
use vstd::prelude::*;

verus! {

/// The symbol that a cluster stands for, if it stands for one.
pub open spec fn symbol_of(cluster: Seq<char>) -> Option<char> {
    if cluster.len() == 1 {
        Some(cluster[0])
    } else {
        None
    }
}

/// The symbols of a sequence of clusters.
pub open spec fn symbols_of(clusters: Seq<Seq<char>>) -> Seq<Option<char>> {
    clusters.map_values(|c: Seq<char>| symbol_of(c))
}

/// Where every cluster of a row is one character, the row's symbols are its characters.
pub proof fn lemma_symbols_of_characters(clusters: Seq<Seq<char>>, text: Seq<char>)
    requires
        clusters.len() == text.len(),
        forall|i: int| 0 <= i < text.len() ==> #[trigger] clusters[i] == seq![text[i]],
    ensures
        symbols_of(clusters) == text.map_values(|c: char| Some(c)),
{
    assert(symbols_of(clusters) =~= text.map_values(|c: char| Some(c)));
}

/// ASCII punctuation or ASCII whitespace: what may stand next to a keyword or before a number.
pub open spec fn is_separator(c: char) -> bool {
    ||| '!' <= c <= '/'
    ||| ':' <= c <= '@'
    ||| '[' <= c <= '`'
    ||| '{' <= c <= '~'
    ||| c == ' '
    ||| c == '\t'
    ||| c == '\n'
    ||| c == '\x0C'
    ||| c == '\r'
}

/// An ASCII decimal digit.
pub open spec fn is_digit(c: char) -> bool {
    '0' <= c <= '9'
}

/// The symbol at `i` is the character `c`.
pub open spec fn holds(s: Seq<Option<char>>, i: int, c: char) -> bool {
    0 <= i < s.len() && s[i] == Some(c)
}

/// The symbol at `i` is a separator.
pub open spec fn separator_at(s: Seq<Option<char>>, i: int) -> bool {
    0 <= i < s.len() && s[i] is Some && is_separator(s[i]->0)
}

/// The symbol at `i` is a digit.
pub open spec fn digit_at(s: Seq<Option<char>>, i: int) -> bool {
    0 <= i < s.len() && s[i] is Some && is_digit(s[i]->0)
}

/// A keyword or a number may start at `i`: the row starts there, or a separator precedes.
pub open spec fn boundary_before(s: Seq<Option<char>>, i: int) -> bool {
    i == 0 || separator_at(s, i - 1)
}

/// `n` times the category `kind`.
pub open spec fn run(kind: Type, n: int) -> Seq<Type> {
    Seq::new(
        if n >= 0 {
            n as nat
        } else {
            0
        },
        |j: int| kind,
    )
}

/// The column just behind the first `*/` that starts at or after `from`, if there is one.
pub open spec fn terminator_end(s: Seq<Option<char>>, from: int) -> Option<int>
    decreases s.len() - from,
{
    if from < 0 || from + 1 >= s.len() {
        None
    } else if holds(s, from, '*') && holds(s, from + 1, '/') {
        Some(from + 2)
    } else {
        terminator_end(s, from + 1)
    }
}

/// The column just behind the first `quote` at or after `from`, or the row's end.
pub open spec fn closing_end(s: Seq<Option<char>>, quote: char, from: int) -> int
    decreases s.len() - from,
{
    if from < 0 || from >= s.len() {
        s.len() as int
    } else if s[from] == Some(quote) {
        from + 1
    } else {
        closing_end(s, quote, from + 1)
    }
}

/// The end of the longest run of digits and dots that starts at `from`.
pub open spec fn number_end(s: Seq<Option<char>>, from: int) -> int
    decreases s.len() - from,
{
    if 0 <= from < s.len() && (holds(s, from, '.') || digit_at(s, from)) {
        number_end(s, from + 1)
    } else {
        from
    }
}

/// A block comment opens at `i`: the end of the comment on this row.
pub open spec fn block_comment_at(s: Seq<Option<char>>, o: OptionsView, i: int) -> Option<int> {
    if o.multiline_comments && holds(s, i, '/') && holds(s, i + 1, '*') {
        match terminator_end(s, i + 2) {
            Some(end) => Some(end),
            None => Some(s.len() as int),
        }
    } else {
        None
    }
}

/// The block comment that opens at `i` does not close on this row.
pub open spec fn block_comment_open(s: Seq<Option<char>>, o: OptionsView, i: int) -> bool {
    block_comment_at(s, o, i) is Some && terminator_end(s, i + 2) is None
}

/// A character literal at `i`: a quote, one symbol or an escaped one, and a quote.
pub open spec fn character_at(s: Seq<Option<char>>, o: OptionsView, i: int) -> Option<int> {
    if o.characters && holds(s, i, '\'') && i + 1 < s.len() {
        let close = if holds(s, i + 1, '\\') {
            i + 3
        } else {
            i + 2
        };
        if holds(s, close, '\'') {
            Some(close + 1)
        } else {
            None
        }
    } else {
        None
    }
}

/// A line comment at `i` runs to the end of the row.
pub open spec fn line_comment_at(s: Seq<Option<char>>, o: OptionsView, i: int) -> Option<int> {
    if o.comments && holds(s, i, '/') && holds(s, i + 1, '/') {
        Some(s.len() as int)
    } else {
        None
    }
}

/// The symbols from `i` on spell the non-empty `word`.
pub open spec fn spells(s: Seq<Option<char>>, word: Seq<char>, i: int) -> bool {
    &&& word.len() > 0
    &&& 0 <= i
    &&& i + word.len() <= s.len()
    &&& forall|j: int| 0 <= j < word.len() ==> s[i + j] == Some(#[trigger] word[j])
}

/// `word` stands at `i` as a whole token: the row ends behind it or a separator follows.
pub open spec fn word_at(s: Seq<Option<char>>, word: Seq<char>, i: int) -> bool {
    &&& spells(s, word, i)
    &&& i + word.len() < s.len() ==> separator_at(s, i + word.len())
}

/// The end of the first word of `words[k..]` that stands at `i`.
pub open spec fn first_word_at(
    s: Seq<Option<char>>,
    words: Seq<Seq<char>>,
    i: int,
    k: int,
) -> Option<int>
    decreases words.len() - k,
{
    if k < 0 || k >= words.len() {
        None
    } else if word_at(s, words[k], i) {
        Some(i + words[k].len())
    } else {
        first_word_at(s, words, i, k + 1)
    }
}

/// A keyword of `words` at `i`: the first listed word that stands there as a whole token.
pub open spec fn keyword_at(s: Seq<Option<char>>, words: Seq<Seq<char>>, i: int) -> Option<int> {
    if boundary_before(s, i) {
        first_word_at(s, words, i, 0)
    } else {
        None
    }
}

/// A string literal at `i` runs through its closing quote, or to the end of the row.
pub open spec fn string_at(s: Seq<Option<char>>, o: OptionsView, i: int) -> Option<int> {
    if o.strings && holds(s, i, '"') {
        Some(closing_end(s, '"', i + 1))
    } else {
        None
    }
}

/// An emphasis at `i` runs through the next asterisk, or to the end of the row.
pub open spec fn emphasis_at(s: Seq<Option<char>>, o: OptionsView, i: int) -> Option<int> {
    if o.asteriscs && holds(s, i, '*') {
        Some(closing_end(s, '*', i + 1))
    } else {
        None
    }
}

/// A number at `i`: a digit at a boundary, then all digits and dots that follow.
pub open spec fn number_at(s: Seq<Option<char>>, o: OptionsView, i: int) -> Option<int> {
    if o.numbers && digit_at(s, i) && boundary_before(s, i) {
        Some(number_end(s, i + 1))
    } else {
        None
    }
}

/// One step of the scan: the clusters `[i, end)` get the category `kind`; `open` says
/// that they are a block comment that the row does not close.
pub ghost struct Token {
    pub end: int,
    pub kind: Type,
    pub open: bool,
}

/// The token at `i`: the first rule that applies, in the fixed order of precedence.
pub open spec fn token_at(s: Seq<Option<char>>, o: OptionsView, i: int) -> Token {
    if let Some(end) = block_comment_at(s, o, i) {
        Token { end, kind: Type::MultilineComment, open: block_comment_open(s, o, i) }
    } else if let Some(end) = character_at(s, o, i) {
        Token { end, kind: Type::Character, open: false }
    } else if let Some(end) = line_comment_at(s, o, i) {
        Token { end, kind: Type::Comment, open: false }
    } else if let Some(end) = keyword_at(s, o.primary_keywords, i) {
        Token { end, kind: Type::PrimaryKeywords, open: false }
    } else if let Some(end) = keyword_at(s, o.secondary_keywords, i) {
        Token { end, kind: Type::SecondaryKeywords, open: false }
    } else if let Some(end) = string_at(s, o, i) {
        Token { end, kind: Type::String, open: false }
    } else if let Some(end) = emphasis_at(s, o, i) {
        Token { end, kind: Type::Asteriscs, open: false }
    } else if let Some(end) = number_at(s, o, i) {
        Token { end, kind: Type::Number, open: false }
    } else {
        Token { end: i + 1, kind: Type::Plain, open: false }
    }
}

/// A terminator that is found ends behind its two symbols and inside the row.
pub proof fn lemma_terminator_bounds(s: Seq<Option<char>>, from: int)
    requires
        0 <= from,
    ensures
        terminator_end(s, from) matches Some(end) ==> from + 2 <= end <= s.len(),
    decreases s.len() - from,
{
    if from + 1 < s.len() && !(holds(s, from, '*') && holds(s, from + 1, '/')) {
        lemma_terminator_bounds(s, from + 1);
    }
}

/// A closing quote is looked for inside the row only.
pub proof fn lemma_closing_bounds(s: Seq<Option<char>>, quote: char, from: int)
    requires
        0 <= from <= s.len(),
    ensures
        from <= closing_end(s, quote, from) <= s.len(),
    decreases s.len() - from,
{
    if from < s.len() && s[from] != Some(quote) {
        lemma_closing_bounds(s, quote, from + 1);
    }
}

/// A number ends inside the row.
pub proof fn lemma_number_bounds(s: Seq<Option<char>>, from: int)
    requires
        0 <= from <= s.len(),
    ensures
        from <= number_end(s, from) <= s.len(),
    decreases s.len() - from,
{
    if from < s.len() && (holds(s, from, '.') || digit_at(s, from)) {
        lemma_number_bounds(s, from + 1);
    }
}

/// A keyword that is found is not empty and ends inside the row.
pub proof fn lemma_first_word_bounds(s: Seq<Option<char>>, words: Seq<Seq<char>>, i: int, k: int)
    requires
        0 <= i,
        0 <= k,
    ensures
        first_word_at(s, words, i, k) matches Some(end) ==> i < end <= s.len(),
    decreases words.len() - k,
{
    if k < words.len() && !word_at(s, words[k], i) {
        lemma_first_word_bounds(s, words, i, k + 1);
    }
}

/// Every token takes at least one cluster and none behind the row's end; one that is
/// left open takes the rest of the row.
pub proof fn lemma_token_bounds(s: Seq<Option<char>>, o: OptionsView, i: int)
    requires
        0 <= i < s.len(),
    ensures
        i < token_at(s, o, i).end <= s.len(),
        token_at(s, o, i).open ==> token_at(s, o, i).end == s.len(),
{
    lemma_terminator_bounds(s, i + 2);
    lemma_first_word_bounds(s, o.primary_keywords, i, 0);
    lemma_first_word_bounds(s, o.secondary_keywords, i, 0);
    lemma_closing_bounds(s, '"', i + 1);
    lemma_closing_bounds(s, '*', i + 1);
    lemma_number_bounds(s, i + 1);
}

/// The categories of the clusters from `i` on, scanned token by token.
pub open spec fn scan_from(s: Seq<Option<char>>, o: OptionsView, i: int) -> Seq<Type>
    decreases s.len() - i,
{
    if 0 <= i < s.len() {
        proof {
            lemma_token_bounds(s, o, i);
        }
        let token = token_at(s, o, i);
        run(token.kind, token.end - i) + scan_from(s, o, token.end)
    } else {
        Seq::empty()
    }
}

/// Whether the scan from `i` on leaves a block comment open at the end of the row, where
/// `open` says so of what stands before `i`.
pub open spec fn open_from(s: Seq<Option<char>>, o: OptionsView, i: int, open: bool) -> bool
    decreases s.len() - i,
{
    if 0 <= i < s.len() {
        proof {
            lemma_token_bounds(s, o, i);
        }
        let token = token_at(s, o, i);
        open_from(s, o, token.end, token.open)
    } else {
        open
    }
}

/// The outcome of scanning a row: one category per cluster, and whether the row ends
/// inside a block comment.
pub ghost struct Scan {
    pub styles: Seq<Type>,
    pub open: bool,
}

/// The scan of a whole row. With `carry` the row starts inside a block comment that an
/// earlier row opened: it is comment through the first `*/`, or to its end.
pub open spec fn scan(s: Seq<Option<char>>, o: OptionsView, carry: bool) -> Scan {
    if carry {
        match terminator_end(s, 0) {
            Some(end) => Scan {
                styles: run(Type::MultilineComment, end) + scan_from(s, o, end),
                open: open_from(s, o, end, false),
            },
            None => Scan { styles: run(Type::MultilineComment, s.len() as int), open: true },
        }
    } else {
        Scan { styles: scan_from(s, o, 0), open: open_from(s, o, 0, false) }
    }
}

/// The scan from `i` on gives every remaining cluster one category.
pub proof fn lemma_scan_from_len(s: Seq<Option<char>>, o: OptionsView, i: int)
    requires
        0 <= i <= s.len(),
    ensures
        scan_from(s, o, i).len() == s.len() - i,
    decreases s.len() - i,
{
    if i < s.len() {
        lemma_token_bounds(s, o, i);
        lemma_scan_from_len(s, o, token_at(s, o, i).end);
    }
}

/// A scan gives every cluster of the row exactly one category.
pub proof fn lemma_scan_len(s: Seq<Option<char>>, o: OptionsView, carry: bool)
    ensures
        scan(s, o, carry).styles.len() == s.len(),
{
    if carry {
        lemma_terminator_bounds(s, 0);
        match terminator_end(s, 0) {
            Some(end) => {
                lemma_scan_from_len(s, o, end);
            },
            None => {},
        }
    } else {
        lemma_scan_from_len(s, o, 0);
    }
}

/// A block comment that opens at `i` and does not close takes the rest of the row: from
/// `i` on every cluster is comment, and the row ends inside the comment.
pub proof fn lemma_open_comment_takes_the_rest(
    s: Seq<Option<char>>,
    o: OptionsView,
    i: int,
    open: bool,
)
    requires
        o.multiline_comments,
        holds(s, i, '/'),
        holds(s, i + 1, '*'),
        terminator_end(s, i + 2) is None,
    ensures
        scan_from(s, o, i) == run(Type::MultilineComment, s.len() - i),
        open_from(s, o, i, open),
{
    lemma_token_bounds(s, o, i);
    assert(token_at(s, o, i).end == s.len());
    assert(token_at(s, o, i).open);
    assert(scan_from(s, o, s.len() as int) =~= Seq::empty());
    assert(scan_from(s, o, i) =~= run(Type::MultilineComment, s.len() - i));
    assert(open_from(s, o, s.len() as int, true));
}

/// A row that starts outside of a comment, with a block comment that it does not
/// close, is comment throughout and ends inside the comment.
pub proof fn lemma_row_opens_comment(s: Seq<Option<char>>, o: OptionsView)
    requires
        o.multiline_comments,
        holds(s, 0, '/'),
        holds(s, 1, '*'),
        terminator_end(s, 2) is None,
    ensures
        scan(s, o, false).styles == run(Type::MultilineComment, s.len() as int),
        scan(s, o, false).open,
{
    lemma_open_comment_takes_the_rest(s, o, 0, false);
}

/// A row that starts inside a block comment and holds no `*/` is comment throughout
/// and ends inside the comment.
pub proof fn lemma_row_stays_in_comment(s: Seq<Option<char>>, o: OptionsView)
    requires
        terminator_end(s, 0) is None,
    ensures
        scan(s, o, true).styles == run(Type::MultilineComment, s.len() as int),
        scan(s, o, true).open,
{
}

/// A row that starts inside a block comment and holds a `*/` is comment through the
/// first one; behind it the scan goes on as in any row.
pub proof fn lemma_row_closes_comment(s: Seq<Option<char>>, o: OptionsView, end: int)
    requires
        terminator_end(s, 0) == Some(end),
    ensures
        2 <= end <= s.len(),
        scan(s, o, true).styles == run(Type::MultilineComment, end) + scan_from(s, o, end),
        scan(s, o, true).open == open_from(s, o, end, false),
{
    lemma_terminator_bounds(s, 0);
}

/// What one rule did at `before.1`: where it applies with the end `rule`, it gave the
/// category `kind` to the clusters up to there and moved on; where it does not, it left
/// the categories and the column alone.
pub open spec fn taken(
    rule: Option<int>,
    kind: Type,
    before: (Seq<Type>, int),
    after: (Seq<Type>, int),
    matched: bool,
) -> bool {
    match rule {
        Some(end) => matched && after.1 == end && after.0 == before.0 + run(kind, end - before.1),
        None => !matched && after == before,
    }
}

/// Whether `c` is ASCII punctuation or ASCII whitespace.
pub fn check_char(c: char) -> (separator: bool)
    ensures
        separator == is_separator(c),
{
    ('!' <= c && c <= '/') || (':' <= c && c <= '@') || ('[' <= c && c <= '`') || ('{' <= c && c
        <= '~') || c == ' ' || c == '\t' || c == '\n' || c == '\x0C' || c == '\r'
}

/// The symbols of a row's clusters.
pub fn symbols(clusters: &Vec<Vec<char>>) -> (symbols: Vec<Option<char>>)
    ensures
        symbols@ == symbols_of(views_of(clusters@)),
{
    let mut symbols: Vec<Option<char>> = Vec::new();
    let mut i: usize = 0;
    while i < clusters.len()
        invariant
            i <= clusters.len(),
            symbols@ == symbols_of(views_of(clusters@)).take(i as int),
        decreases clusters.len() - i,
    {
        let cluster = &clusters[i];
        let symbol = if cluster.len() == 1 {
            Some(cluster[0])
        } else {
            None
        };
        symbols.push(symbol);
        i += 1;
        assert(symbols@ =~= symbols_of(views_of(clusters@)).take(i as int));
    }
    symbols
}

/// The characters of each word of a list.
pub fn keyword_chars(words: &Vec<String>) -> (chars: Vec<Vec<char>>)
    ensures
        views_of(chars@) == texts_of(words@),
{
    let mut chars: Vec<Vec<char>> = Vec::new();
    let mut k: usize = 0;
    while k < words.len()
        invariant
            k <= words.len(),
            chars.len() == k,
            views_of(chars@) == texts_of(words@).take(k as int),
        decreases words.len() - k,
    {
        let word = chars_of(words[k].as_str());
        assert(word@ == texts_of(words@)[k as int]);
        chars.push(word);
        k += 1;
        assert(views_of(chars@) =~= texts_of(words@).take(k as int));
    }
    assert(views_of(chars@) =~= texts_of(words@));
    chars
}

fn symbol_is(symbols: &Vec<Option<char>>, i: usize, c: char) -> (found: bool)
    ensures
        found == holds(symbols@, i as int, c),
{
    if i < symbols.len() {
        match symbols[i] {
            Some(d) => d == c,
            None => false,
        }
    } else {
        false
    }
}

fn symbol_is_separator(symbols: &Vec<Option<char>>, i: usize) -> (found: bool)
    ensures
        found == separator_at(symbols@, i as int),
{
    if i < symbols.len() {
        match symbols[i] {
            Some(d) => check_char(d),
            None => false,
        }
    } else {
        false
    }
}

fn symbol_is_digit(symbols: &Vec<Option<char>>, i: usize) -> (found: bool)
    ensures
        found == digit_at(symbols@, i as int),
{
    if i < symbols.len() {
        match symbols[i] {
            Some(d) => '0' <= d && d <= '9',
            None => false,
        }
    } else {
        false
    }
}

fn starts_at_boundary(symbols: &Vec<Option<char>>, i: usize) -> (found: bool)
    ensures
        found == boundary_before(symbols@, i as int),
{
    i == 0 || symbol_is_separator(symbols, i - 1)
}

/// Appends `n` times the category `kind`.
fn push_run(styles: &mut Vec<Type>, kind: Type, n: usize)
    ensures
        final(styles)@ == old(styles)@ + run(kind, n as int),
{
    let mut j: usize = 0;
    while j < n
        invariant
            j <= n,
            styles@ == old(styles)@ + run(kind, j as int),
        decreases n - j,
    {
        styles.push(kind);
        j += 1;
        assert(styles@ =~= old(styles)@ + run(kind, j as int));
    }
}

/// Looks for the first `*/` at or after `from`.
fn find_terminator(symbols: &Vec<Option<char>>, from: usize) -> (end: Option<usize>)
    ensures
        match end {
            Some(e) => terminator_end(symbols@, from as int) == Some(e as int) && e
                <= symbols.len(),
            None => terminator_end(symbols@, from as int) is None,
        },
{
    let mut j: usize = from;
    while j < symbols.len() && symbols.len() - j > 1
        invariant
            from <= j,
            terminator_end(symbols@, from as int) == terminator_end(symbols@, j as int),
        decreases symbols.len() - j,
    {
        if symbol_is(symbols, j, '*') && symbol_is(symbols, j + 1, '/') {
            return Some(j + 2);
        }
        j += 1;
    }
    None
}

/// Looks for the first `quote` at or after `from`, and stops at the row's end.
fn find_closing(symbols: &Vec<Option<char>>, quote: char, from: usize) -> (end: usize)
    requires
        from <= symbols.len(),
    ensures
        end == closing_end(symbols@, quote, from as int),
        from <= end <= symbols.len(),
{
    let mut j: usize = from;
    while j < symbols.len()
        invariant
            from <= j <= symbols.len(),
            closing_end(symbols@, quote, from as int) == closing_end(symbols@, quote, j as int),
        decreases symbols.len() - j,
    {
        if symbol_is(symbols, j, quote) {
            return j + 1;
        }
        j += 1;
    }
    j
}

/// A block comment at `index`. `Some(open)` where one starts there; `open` says that
/// the row does not close it.
pub(crate) fn highlight_comments(
    styles: &mut Vec<Type>,
    index: &mut usize,
    options: &HighlightingOptions,
    symbols: &Vec<Option<char>>,
) -> (found: Option<bool>)
    requires
        *old(index) < symbols.len(),
    ensures
        taken(
            block_comment_at(symbols@, options@, *old(index) as int),
            Type::MultilineComment,
            (old(styles)@, *old(index) as int),
            (final(styles)@, *final(index) as int),
            found is Some,
        ),
        found matches Some(open) ==> open == block_comment_open(
            symbols@,
            options@,
            *old(index) as int,
        ),
{
    if options.multiline_comments() && symbol_is(symbols, *index, '/') && symbol_is(
        symbols,
        *index + 1,
        '*',
    ) {
        let closed = find_terminator(symbols, *index + 2);
        let end = match closed {
            Some(end) => end,
            None => symbols.len(),
        };
        proof {
            lemma_terminator_bounds(symbols@, *index + 2);
        }
        push_run(styles, Type::MultilineComment, end - *index);
        *index = end;
        Some(closed.is_none())
    } else {
        None
    }
}

/// A character literal at `index`.
pub(crate) fn highlight_char(
    styles: &mut Vec<Type>,
    index: &mut usize,
    options: &HighlightingOptions,
    symbols: &Vec<Option<char>>,
) -> (matched: bool)
    requires
        *old(index) < symbols.len(),
    ensures
        taken(
            character_at(symbols@, options@, *old(index) as int),
            Type::Character,
            (old(styles)@, *old(index) as int),
            (final(styles)@, *final(index) as int),
            matched,
        ),
{
    if options.characters() && symbol_is(symbols, *index, '\'') && symbols.len() - *index > 1 {
        let skip: usize = if symbol_is(symbols, *index + 1, '\\') {
            3
        } else {
            2
        };
        if symbols.len() - *index > skip && symbol_is(symbols, *index + skip, '\'') {
            push_run(styles, Type::Character, skip + 1);
            *index = *index + skip + 1;
            return true;
        }
    }
    false
}

/// A line comment at `index`.
pub(crate) fn highlight_comment(
    styles: &mut Vec<Type>,
    index: &mut usize,
    options: &HighlightingOptions,
    symbols: &Vec<Option<char>>,
) -> (matched: bool)
    requires
        *old(index) < symbols.len(),
    ensures
        taken(
            line_comment_at(symbols@, options@, *old(index) as int),
            Type::Comment,
            (old(styles)@, *old(index) as int),
            (final(styles)@, *final(index) as int),
            matched,
        ),
{
    if options.comments() && symbol_is(symbols, *index, '/') && symbol_is(
        symbols,
        *index + 1,
        '/',
    ) {
        push_run(styles, Type::Comment, symbols.len() - *index);
        *index = symbols.len();
        true
    } else {
        false
    }
}

/// The symbols from `index` on against the characters of `substring`.
pub(crate) fn highlight_substring(
    styles: &mut Vec<Type>,
    index: &mut usize,
    substring: &Vec<char>,
    symbols: &Vec<Option<char>>,
    kind: Type,
) -> (matched: bool)
    requires
        *old(index) <= symbols.len(),
    ensures
        matched == spells(symbols@, substring@, *old(index) as int),
        taken(
            if matched {
                Some(*old(index) + substring.len())
            } else {
                None
            },
            kind,
            (old(styles)@, *old(index) as int),
            (final(styles)@, *final(index) as int),
            matched,
        ),
{
    if substring.len() == 0 || substring.len() > symbols.len() - *index {
        return false;
    }
    let mut j: usize = 0;
    while j < substring.len()
        invariant
            j <= substring.len(),
            *index == *old(index),
            *index + substring.len() <= symbols.len(),
            forall|k: int| 0 <= k < j ==> symbols@[*index + k] == Some(#[trigger] substring@[k]),
        decreases substring.len() - j,
    {
        if !symbol_is(symbols, *index + j, substring[j]) {
            return false;
        }
        j += 1;
    }
    push_run(styles, kind, substring.len());
    *index = *index + substring.len();
    true
}

/// A keyword of `keywords` at `index`, drawn as `kind`.
pub(crate) fn highlight_keywords(
    styles: &mut Vec<Type>,
    index: &mut usize,
    symbols: &Vec<Option<char>>,
    keywords: &Vec<Vec<char>>,
    kind: Type,
) -> (matched: bool)
    requires
        *old(index) < symbols.len(),
    ensures
        taken(
            keyword_at(symbols@, views_of(keywords@), *old(index) as int),
            kind,
            (old(styles)@, *old(index) as int),
            (final(styles)@, *final(index) as int),
            matched,
        ),
{
    if !starts_at_boundary(symbols, *index) {
        return false;
    }
    let ghost words = views_of(keywords@);
    let mut k: usize = 0;
    while k < keywords.len()
        invariant
            k <= keywords.len(),
            *index == *old(index),
            *index < symbols.len(),
            boundary_before(symbols@, *index as int),
            styles@ == old(styles)@,
            words == views_of(keywords@),
            first_word_at(symbols@, words, *index as int, 0) == first_word_at(
                symbols@,
                words,
                *index as int,
                k as int,
            ),
        decreases keywords.len() - k,
    {
        let word = &keywords[k];
        assert(words[k as int] == word@);
        let bounded = word.len() >= symbols.len() - *index || symbol_is_separator(
            symbols,
            *index + word.len(),
        );
        if bounded {
            if highlight_substring(styles, index, word, symbols, kind) {
                return true;
            }
        }
        k += 1;
    }
    false
}

/// A primary keyword at `index`.
pub(crate) fn highlight_primary_keywords(
    styles: &mut Vec<Type>,
    index: &mut usize,
    symbols: &Vec<Option<char>>,
    keywords: &Vec<Vec<char>>,
) -> (matched: bool)
    requires
        *old(index) < symbols.len(),
    ensures
        taken(
            keyword_at(symbols@, views_of(keywords@), *old(index) as int),
            Type::PrimaryKeywords,
            (old(styles)@, *old(index) as int),
            (final(styles)@, *final(index) as int),
            matched,
        ),
{
    highlight_keywords(styles, index, symbols, keywords, Type::PrimaryKeywords)
}

/// A secondary keyword at `index`.
pub(crate) fn highlight_secondary_keywords(
    styles: &mut Vec<Type>,
    index: &mut usize,
    symbols: &Vec<Option<char>>,
    keywords: &Vec<Vec<char>>,
) -> (matched: bool)
    requires
        *old(index) < symbols.len(),
    ensures
        taken(
            keyword_at(symbols@, views_of(keywords@), *old(index) as int),
            Type::SecondaryKeywords,
            (old(styles)@, *old(index) as int),
            (final(styles)@, *final(index) as int),
            matched,
        ),
{
    highlight_keywords(styles, index, symbols, keywords, Type::SecondaryKeywords)
}

/// A string literal at `index`.
pub(crate) fn highlight_string(
    styles: &mut Vec<Type>,
    index: &mut usize,
    options: &HighlightingOptions,
    symbols: &Vec<Option<char>>,
) -> (matched: bool)
    requires
        *old(index) < symbols.len(),
    ensures
        taken(
            string_at(symbols@, options@, *old(index) as int),
            Type::String,
            (old(styles)@, *old(index) as int),
            (final(styles)@, *final(index) as int),
            matched,
        ),
{
    if options.strings() && symbol_is(symbols, *index, '"') {
        let end = find_closing(symbols, '"', *index + 1);
        push_run(styles, Type::String, end - *index);
        *index = end;
        true
    } else {
        false
    }
}

/// An emphasis between asterisks at `index`.
pub(crate) fn highlight_astrisk(
    styles: &mut Vec<Type>,
    index: &mut usize,
    options: &HighlightingOptions,
    symbols: &Vec<Option<char>>,
) -> (matched: bool)
    requires
        *old(index) < symbols.len(),
    ensures
        taken(
            emphasis_at(symbols@, options@, *old(index) as int),
            Type::Asteriscs,
            (old(styles)@, *old(index) as int),
            (final(styles)@, *final(index) as int),
            matched,
        ),
{
    if options.asteriscs() && symbol_is(symbols, *index, '*') {
        let end = find_closing(symbols, '*', *index + 1);
        push_run(styles, Type::Asteriscs, end - *index);
        *index = end;
        true
    } else {
        false
    }
}

/// A number at `index`.
pub(crate) fn highlight_numbers(
    styles: &mut Vec<Type>,
    index: &mut usize,
    options: &HighlightingOptions,
    symbols: &Vec<Option<char>>,
) -> (matched: bool)
    requires
        *old(index) < symbols.len(),
    ensures
        taken(
            number_at(symbols@, options@, *old(index) as int),
            Type::Number,
            (old(styles)@, *old(index) as int),
            (final(styles)@, *final(index) as int),
            matched,
        ),
{
    if options.numbers() && symbol_is_digit(symbols, *index) && starts_at_boundary(
        symbols,
        *index,
    ) {
        let mut end: usize = *index + 1;
        while end < symbols.len() && (symbol_is(symbols, end, '.') || symbol_is_digit(
            symbols,
            end,
        ))
            invariant
                *index < end <= symbols.len(),
                number_end(symbols@, *index + 1) == number_end(symbols@, end as int),
            decreases symbols.len() - end,
        {
            end += 1;
        }
        push_run(styles, Type::Number, end - *index);
        *index = end;
        true
    } else {
        false
    }
}

/// Scans a whole row: one category for each of its symbols, and whether the row ends
/// inside a block comment. With `carry` the row starts inside one.
pub fn scan_symbols(
    symbols: &Vec<Option<char>>,
    options: &HighlightingOptions,
    carry: bool,
) -> (result: (Vec<Type>, bool))
    ensures
        result.0@ == scan(symbols@, options@, carry).styles,
        result.1 == scan(symbols@, options@, carry).open,
        result.0.len() == symbols.len(),
{
    let primary = keyword_chars(options.primary_keywords());
    let secondary = keyword_chars(options.secondary_keywords());
    let mut styles: Vec<Type> = Vec::new();
    let mut index: usize = 0;
    let mut open = false;
    let ghost s = symbols@;
    let ghost o = options@;
    proof {
        lemma_scan_len(s, o, carry);
    }
    if carry {
        match find_terminator(symbols, 0) {
            Some(end) => {
                push_run(&mut styles, Type::MultilineComment, end);
                index = end;
            },
            None => {
                push_run(&mut styles, Type::MultilineComment, symbols.len());
                index = symbols.len();
                open = true;
            },
        }
    }
    while index < symbols.len()
        invariant
            index <= symbols.len(),
            s == symbols@,
            o == options@,
            views_of(primary@) == o.primary_keywords,
            views_of(secondary@) == o.secondary_keywords,
            scan(s, o, carry).styles == styles@ + scan_from(s, o, index as int),
            scan(s, o, carry).open == open_from(s, o, index as int, open),
        decreases symbols.len() - index,
    {
        let ghost before = styles@;
        let ghost at = index as int;
        let ghost token = token_at(s, o, at);
        proof {
            lemma_token_bounds(s, o, at);
        }
        match highlight_comments(&mut styles, &mut index, options, symbols) {
            Some(unclosed) => {
                open = unclosed;
            },
            None => {
                open = false;
                if highlight_char(&mut styles, &mut index, options, symbols) {
                } else if highlight_comment(&mut styles, &mut index, options, symbols) {
                } else if highlight_primary_keywords(&mut styles, &mut index, symbols, &primary) {
                } else if highlight_secondary_keywords(
                    &mut styles,
                    &mut index,
                    symbols,
                    &secondary,
                ) {
                } else if highlight_string(&mut styles, &mut index, options, symbols) {
                } else if highlight_astrisk(&mut styles, &mut index, options, symbols) {
                } else if highlight_numbers(&mut styles, &mut index, options, symbols) {
                } else {
                    styles.push(Type::Plain);
                    index += 1;
                    assert(styles@ =~= before + run(Type::Plain, 1));
                }
            },
        }
        assert(index == token.end);
        assert(open == token.open);
        assert(styles@ == before + run(token.kind, token.end - at));
        assert(styles@ + scan_from(s, o, index as int) =~= before + scan_from(s, o, at));
    }
    (styles, open)
}

} // verus!
