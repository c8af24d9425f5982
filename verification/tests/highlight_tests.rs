use textbuf::Color;
use textbuf::FileType;
use textbuf::HighlightingOptions;
use textbuf::SingleRow;
use textbuf::Type;
use textbuf::Type::Asteriscs as A;
use textbuf::Type::Character as C;
use textbuf::Type::Comment as L;
use textbuf::Type::Match as M;
use textbuf::Type::MultilineComment as B;
use textbuf::Type::Number as N;
use textbuf::Type::Plain as P;
use textbuf::Type::PrimaryKeywords as K;
use textbuf::Type::SecondaryKeywords as T;
use textbuf::Type::String as S;

fn words(list: &[&str]) -> Vec<String> {
    list.iter().map(|w| w.to_string()).collect()
}

fn all_rules(primary: &[&str], secondary: &[&str]) -> HighlightingOptions {
    HighlightingOptions::new(true, true, true, true, true, true, words(primary), words(secondary))
}

fn only_block_comments() -> HighlightingOptions {
    HighlightingOptions::new(false, false, false, false, true, false, Vec::new(), Vec::new())
}

fn scan(text: &str, options: &HighlightingOptions, carry: bool) -> (Vec<Type>, bool) {
    let mut row = SingleRow::from(text);
    let open = row.highlight_control(options, &None, carry);
    (row.display_styles().clone(), open)
}

#[test]
fn block_comment_runs_over_three_rows() {
    let options = only_block_comments();
    let (a, carry_a) = scan("/* start", &options, false);
    assert_eq!(a, vec![B; 8]);
    assert!(carry_a);
    let (b, carry_b) = scan("still inside", &options, carry_a);
    assert_eq!(b, vec![B; 12]);
    assert!(carry_b);
    let (c, carry_c) = scan("end */ code", &options, carry_b);
    assert_eq!(c, vec![B, B, B, B, B, B, P, P, P, P, P]);
    assert!(!carry_c);
}

#[test]
fn keyword_needs_a_boundary_behind_it() {
    let options = HighlightingOptions::new(false, false, false, false, false, false, words(&["for"]), Vec::new());
    let (styles, open) = scan("format", &options, false);
    assert_eq!(styles, vec![P; 6]);
    assert!(!open);
}

#[test]
fn keyword_needs_a_boundary_before_it() {
    let options = all_rules(&["for"], &[]);
    assert_eq!(scan("xfor", &options, false).0, vec![P, P, P, P]);
    assert_eq!(scan("x for", &options, false).0, vec![P, P, K, K, K]);
    assert_eq!(scan("for x", &options, false).0, vec![K, K, K, P, P]);
    assert_eq!(scan("(for)", &options, false).0, vec![P, K, K, K, P]);
    assert_eq!(scan("for", &options, false).0, vec![K, K, K]);
}

#[test]
fn first_listed_keyword_that_fits_wins() {
    let options = all_rules(&["in", "int"], &["int", "u8"]);
    assert_eq!(scan("int x", &options, false).0, vec![K, K, K, P, P]);
    assert_eq!(scan("in x", &options, false).0, vec![K, K, P, P]);
    assert_eq!(scan("u8 x", &options, false).0, vec![T, T, P, P]);
}

#[test]
fn empty_keyword_never_matches() {
    let options = all_rules(&["", "if"], &[]);
    assert_eq!(scan("if a", &options, false).0, vec![K, K, P, P]);
}

#[test]
fn number_is_a_run_of_digits_and_dots_at_a_boundary() {
    let options = all_rules(&[], &[]);
    assert_eq!(scan("12.5 a1 3", &options, false).0, vec![N, N, N, N, P, P, P, P, N]);
    assert_eq!(scan("1.", &options, false).0, vec![N, N]);
    assert_eq!(scan("x1", &options, false).0, vec![P, P]);
    assert_eq!(scan("(42)", &options, false).0, vec![P, N, N, P]);
}

#[test]
fn string_runs_through_its_closing_quote() {
    let options = all_rules(&[], &[]);
    assert_eq!(scan("a \"b c\" d", &options, false).0, vec![P, P, S, S, S, S, S, P, P]);
    assert_eq!(scan("\"\"", &options, false).0, vec![S, S]);
}

#[test]
fn open_string_runs_to_the_end_of_the_row() {
    let options = all_rules(&[], &[]);
    let (styles, open) = scan("\"abc", &options, false);
    assert_eq!(styles, vec![S; 4]);
    assert!(!open);
    assert_eq!(scan("\"", &options, false).0, vec![S]);
}

#[test]
fn character_literal_takes_one_symbol_or_an_escape() {
    let options = all_rules(&[], &[]);
    assert_eq!(scan("'a'", &options, false).0, vec![C, C, C]);
    assert_eq!(scan("'\\n'", &options, false).0, vec![C, C, C, C]);
    assert_eq!(scan("x 'a' y", &options, false).0, vec![P, P, C, C, C, P, P]);
}

#[test]
fn character_literal_that_does_not_close_is_none() {
    let options = HighlightingOptions::new(false, false, true, false, false, false, Vec::new(), Vec::new());
    assert_eq!(scan("'ab'", &options, false).0, vec![P; 4]);
    assert_eq!(scan("'", &options, false).0, vec![P]);
    assert_eq!(scan("'a", &options, false).0, vec![P, P]);
}

#[test]
fn line_comment_runs_to_the_end_of_the_row() {
    let options = all_rules(&["if"], &[]);
    assert_eq!(scan("x // if", &options, false).0, vec![P, P, L, L, L, L, L]);
    assert_eq!(scan("// \"x\"", &options, false).0, vec![L; 6]);
}

#[test]
fn emphasis_runs_through_the_next_asterisk() {
    let options = HighlightingOptions::new(false, false, false, false, false, true, Vec::new(), Vec::new());
    assert_eq!(scan("*ab* c", &options, false).0, vec![A, A, A, A, P, P]);
    assert_eq!(scan("*ab", &options, false).0, vec![A, A, A]);
    assert_eq!(scan("*", &options, false).0, vec![A]);
}

#[test]
fn block_comment_inside_a_row() {
    let options = all_rules(&[], &[]);
    let (styles, open) = scan("a /* b */ c", &options, false);
    assert_eq!(styles, vec![P, P, B, B, B, B, B, B, B, P, P]);
    assert!(!open);
    let (styles, open) = scan("/**/", &options, false);
    assert_eq!(styles, vec![B; 4]);
    assert!(!open);
}

#[test]
fn block_comment_opener_does_not_close_itself() {
    let options = all_rules(&[], &[]);
    let (styles, open) = scan("/*/", &options, false);
    assert_eq!(styles, vec![B; 3]);
    assert!(open);
}

#[test]
fn only_the_first_terminator_closes_a_comment() {
    let options = all_rules(&[], &[]);
    let (styles, open) = scan("/* a */ b /* c", &options, false);
    assert_eq!(styles, vec![B, B, B, B, B, B, B, P, P, P, B, B, B, B]);
    assert!(open);
    let (styles, open) = scan("a */ b */", &options, true);
    assert_eq!(styles, vec![B, B, B, B, P, P, P, A, A]);
    assert!(!open);
}

#[test]
fn carried_comment_that_closes_at_the_end_of_the_row() {
    let options = only_block_comments();
    let (styles, open) = scan("end */", &options, true);
    assert_eq!(styles, vec![B; 6]);
    assert!(!open);
}

#[test]
fn carried_comment_over_an_empty_row() {
    let options = only_block_comments();
    let (styles, open) = scan("", &options, true);
    assert_eq!(styles, Vec::<Type>::new());
    assert!(open);
    let (styles, open) = scan("", &options, false);
    assert_eq!(styles, Vec::<Type>::new());
    assert!(!open);
}

#[test]
fn rules_apply_in_their_order() {
    let options = all_rules(&["if"], &[]);
    assert_eq!(scan("\"if\"", &options, false).0, vec![S; 4]);
    assert_eq!(scan("\"//\"", &options, false).0, vec![S; 4]);
    assert_eq!(scan("/*\"*/\"", &options, false).0, vec![B, B, B, B, B, S]);
    assert_eq!(scan("'\"'", &options, false).0, vec![C, C, C]);
    assert_eq!(scan("'/'/", &options, false).0, vec![C, C, C, P]);
}

#[test]
fn rules_that_are_switched_off_find_nothing() {
    let options = HighlightingOptions::default();
    assert_eq!(scan("/* 1 \"a\" 'b' // *c*", &options, false).0, vec![P; 19]);
}

#[test]
fn line_and_block_comments_are_switched_separately() {
    let line_only = HighlightingOptions::new(false, false, false, true, false, false, Vec::new(), Vec::new());
    assert_eq!(scan("/* a // b", &line_only, false).0, vec![P, P, P, P, P, L, L, L, L]);
    let block_only = only_block_comments();
    assert_eq!(scan("// /* a", &block_only, false).0, vec![P, P, P, B, B, B, B]);
}

#[test]
fn cluster_of_several_characters_is_no_symbol() {
    let options = all_rules(&["if"], &[]);
    assert_eq!(scan("/\u{301}/ a", &options, false).0, vec![P, P, P, P]);
    assert_eq!(scan("if\u{301} a", &options, false).0, vec![P, P, P, P]);
    assert_eq!(scan("1\u{301}", &options, false).0, vec![P]);
}

#[test]
fn every_cluster_gets_one_category() {
    let options = all_rules(&["fn"], &["u8"]);
    let text = "fn e\u{301}(x: u8) -> \"s\" /* c */ 'c' 12 // t";
    let row = SingleRow::from(text);
    let (styles, _) = scan(text, &options, false);
    assert_eq!(styles.len(), row.get_content_len());
}

#[test]
fn valid_cache_is_not_scanned_again() {
    let mut row = SingleRow::from("12");
    let numbers = HighlightingOptions::new(true, false, false, false, false, false, Vec::new(), Vec::new());
    assert!(!row.highlight_control(&numbers, &None, false));
    assert!(row.is_highlighted());
    assert_eq!(row.display_styles(), &vec![N, N]);
    assert!(!row.highlight_control(&HighlightingOptions::default(), &None, true));
    assert_eq!(row.display_styles(), &vec![N, N]);
}

#[test]
fn row_that_ends_in_a_comment_is_scanned_on_every_pass() {
    let options = only_block_comments();
    let mut row = SingleRow::from("a /* b");
    assert!(row.highlight_control(&options, &None, false));
    assert!(row.is_highlighted());
    assert_eq!(row.display_styles(), &vec![P, P, B, B, B, B]);
    assert!(row.highlight_control(&options, &None, false));
    assert!(!row.highlight_control(&HighlightingOptions::default(), &None, false));
    assert_eq!(row.display_styles(), &vec![P; 6]);
}

#[test]
fn search_word_is_drawn_over_the_categories() {
    let options = all_rules(&[], &[]);
    let mut row = SingleRow::from("\"at\" 1t");
    row.highlight_control(&options, &Some("t".to_string()), false);
    assert_eq!(row.display_styles(), &vec![S, S, M, S, P, N, M]);
}

#[test]
fn pass_with_search_word_always_scans() {
    let numbers = HighlightingOptions::new(true, false, false, false, false, false, Vec::new(), Vec::new());
    let mut row = SingleRow::from("1 a");
    row.highlight_control(&numbers, &None, false);
    assert_eq!(row.display_styles(), &vec![N, P, P]);
    row.highlight_control(&HighlightingOptions::default(), &Some("a".to_string()), false);
    assert_eq!(row.display_styles(), &vec![P, P, M]);
}

#[test]
fn pass_without_word_leaves_no_match_behind() {
    let numbers = HighlightingOptions::new(true, false, false, false, false, false, Vec::new(), Vec::new());
    let mut row = SingleRow::from("1 a");
    assert!(!row.highlight_control(&numbers, &Some("a".to_string()), false));
    assert_eq!(row.display_styles(), &vec![N, P, M]);
    assert!(row.is_highlighted());
    assert!(row.has_matches());
    row.highlight_control(&numbers, &None, false);
    assert_eq!(row.display_styles(), &vec![N, P, P]);
    assert!(row.is_highlighted());
    assert!(!row.has_matches());
}

#[test]
fn every_full_pass_makes_the_cache_valid() {
    let options = all_rules(&["let"], &[]);
    for word in [None, Some(String::new()), Some("t".to_string()), Some("zz".to_string())] {
        for text in ["let t = 1;", "a /* b", "", "/* a */ t"] {
            for carry in [false, true] {
                let mut row = SingleRow::from(text);
                row.highlight_control(&options, &word, carry);
                assert!(row.is_highlighted());
                assert_eq!(row.display_styles().len(), row.get_content_len());
                assert_eq!(row.content(), text);
            }
        }
    }
}

#[test]
fn empty_search_word_draws_nothing() {
    let numbers = HighlightingOptions::new(true, false, false, false, false, false, Vec::new(), Vec::new());
    let mut row = SingleRow::from("1 a");
    row.highlight_control(&numbers, &Some(String::new()), false);
    assert_eq!(row.display_styles(), &vec![N, P, P]);
    assert!(row.is_highlighted());
    assert!(!row.has_matches());
}

#[test]
fn highlight_twice_with_same_word_gives_same_categories() {
    let options = all_rules(&["let"], &[]);
    let word = Some("t".to_string());
    let mut row = SingleRow::from("let t = \"t\"; // t");
    let carry_once = row.highlight_control(&options, &word, false);
    let once = row.display_styles().clone();
    let carry_twice = row.highlight_control(&options, &word, false);
    assert_eq!(row.display_styles(), &once);
    assert_eq!(carry_once, carry_twice);
}

#[test]
fn highlight_twice_without_word_gives_same_categories() {
    let options = all_rules(&["let"], &[]);
    for text in ["let t = 1;", "a /* b", "/* a */ b"] {
        let mut row = SingleRow::from(text);
        let carry_once = row.highlight_control(&options, &None, false);
        let once = row.display_styles().clone();
        let carry_twice = row.highlight_control(&options, &None, false);
        assert_eq!(row.display_styles(), &once);
        assert_eq!(carry_once, carry_twice);
    }
}

#[test]
fn separators_are_ascii_punctuation_and_whitespace() {
    for c in ['!', '/', ':', '@', '[', '`', '{', '~', ' ', '\t', '\n', '\r', '\x0C', '+', '_'] {
        assert!(textbuf::scan::check_char(c), "{:?}", c);
    }
    for c in ['a', 'Z', '0', '9', '\x0B', '\x7F', '\u{e9}', '\u{3000}'] {
        assert!(!textbuf::scan::check_char(c), "{:?}", c);
    }
}

#[test]
fn separator_test_agrees_with_std_on_all_of_ascii() {
    for b in 0u8..=127 {
        let c = b as char;
        assert_eq!(textbuf::scan::check_char(c), c.is_ascii_punctuation() || c.is_ascii_whitespace());
    }
}

#[test]
fn colours_of_the_categories() {
    assert_eq!(Type::Number.to_color(), Color::Rgb { r: 192, g: 232, b: 127 });
    assert_eq!(Type::Match.to_color(), Color::Rgb { r: 38, g: 139, b: 210 });
    assert_eq!(Type::String.to_color(), Color::Rgb { r: 211, g: 54, b: 130 });
    assert_eq!(Type::Asteriscs.to_color(), Color::Rgb { r: 232, g: 127, b: 145 });
    assert_eq!(Type::Character.to_color(), Color::Rgb { r: 108, g: 113, b: 196 });
    assert_eq!(Type::Comment.to_color(), Color::Rgb { r: 133, g: 153, b: 0 });
    assert_eq!(Type::MultilineComment.to_color(), Color::Rgb { r: 133, g: 153, b: 0 });
    assert_eq!(Type::PrimaryKeywords.to_color(), Color::Rgb { r: 247, g: 29, b: 153 });
    assert_eq!(Type::SecondaryKeywords.to_color(), Color::Rgb { r: 42, g: 161, b: 152 });
    assert_eq!(Type::Plain.to_color(), Color::Rgb { r: 255, g: 255, b: 255 });
}

#[test]
fn categories_have_their_places_in_a_palette() {
    for i in 0..10 {
        assert_eq!(Type::at(i).index(), i);
    }
    assert_eq!(Type::Plain.index(), 0);
    assert_eq!(Type::SecondaryKeywords.index(), 9);
}

#[test]
fn file_type_goes_by_the_extension() {
    let rust = FileType::from("main.rs");
    assert_eq!(rust.name(), "Rust");
    let options = rust.highlighting_options();
    assert!(options.numbers());
    assert!(options.strings());
    assert!(options.characters());
    assert!(options.comments());
    assert!(options.multiline_comments());
    assert!(!options.asteriscs());
    assert_eq!(options.primary_keywords().len(), 51);
    assert_eq!(options.primary_keywords()[0], "as");
    assert_eq!(options.primary_keywords()[50], "try");
    assert_eq!(options.secondary_keywords().len(), 14);
    assert_eq!(options.secondary_keywords()[0], "bool");
    assert_eq!(options.secondary_keywords()[13], "f64");
    assert_eq!(FileType::from(".rs").name(), "Rust");
}

#[test]
fn unknown_file_type_switches_every_rule_off() {
    for name in ["notes.txt", "rs", "a.rs.bak", "", "Makefile", "x.RS"] {
        let file_type = FileType::from(name);
        assert_eq!(file_type.name(), "No filetype");
        let options = file_type.highlighting_options();
        assert!(!options.numbers());
        assert!(!options.strings());
        assert!(!options.characters());
        assert!(!options.comments());
        assert!(!options.multiline_comments());
        assert!(!options.asteriscs());
        assert!(options.primary_keywords().is_empty());
        assert!(options.secondary_keywords().is_empty());
    }
    assert_eq!(FileType::default().name(), "No filetype");
}

#[test]
fn rust_rules_on_a_line_of_rust() {
    let file_type = FileType::from("lib.rs");
    let (styles, open) = scan("let x: u8 = 7; // n", file_type.highlighting_options(), false);
    assert_eq!(styles, vec![K, K, K, P, P, P, P, T, T, P, P, P, N, P, P, L, L, L, L]);
    assert!(!open);
}
