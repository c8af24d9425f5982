use textbuf::Palette;
use textbuf::SearchDirection;
use textbuf::SingleRow;
use textbuf::Type;

fn palette() -> Palette {
    let markers: Vec<String> = ["<p>", "<n>", "<m>", "<s>", "<a>", "<c>", "<l>", "<b>", "<k>", "<t>"]
        .iter()
        .map(|m| m.to_string())
        .collect();
    Palette::new(markers, "<r>".to_string()).unwrap()
}

#[test]
fn test_highlight_find() {
    let mut row = SingleRow::from("1testtest");
    row.set_display_styles(vec![
        Type::Number,
        Type::Plain,
        Type::Plain,
        Type::Plain,
        Type::Plain,
        Type::Plain,
        Type::Plain,
        Type::Plain,
        Type::Plain,
    ]);
    row.highlight_word(&Some("t".to_string()));
    assert_eq!(
        &vec![
            Type::Number,
            Type::Match,
            Type::Plain,
            Type::Plain,
            Type::Match,
            Type::Match,
            Type::Plain,
            Type::Plain,
            Type::Match
        ],
        row.display_styles()
    )
}

#[test]
fn default_row_is_empty_text() {
    let row = SingleRow::default();
    assert_eq!(row.get_content_len(), 0);
    assert_eq!(row.content(), "");
    assert!(row.display_styles().is_empty());
    assert!(!row.is_highlighted());
}

#[test]
fn length_counts_clusters_not_characters() {
    let row = SingleRow::from("e\u{301}x");
    assert_eq!(row.content().chars().count(), 3);
    assert_eq!(row.as_bytes().len(), 4);
    assert_eq!(row.get_content_len(), 2);
}

#[test]
fn length_counts_flag_pairs_as_one_cluster() {
    let row = SingleRow::from("a\u{1F1F7}\u{1F1FA}\u{1F1F8}\u{1F1F9}b");
    assert_eq!(row.get_content_len(), 4);
}

#[test]
fn length_of_plain_text() {
    assert_eq!(SingleRow::from("hello").get_content_len(), 5);
    assert_eq!(SingleRow::from("").get_content_len(), 0);
}

#[test]
fn row_with_at_most_one_cluster_counts_as_empty() {
    assert!(SingleRow::from("").row_is_empty());
    assert!(SingleRow::from("a").row_is_empty());
    assert!(SingleRow::from("e\u{301}").row_is_empty());
    assert!(!SingleRow::from("ab").row_is_empty());
}

#[test]
fn as_bytes_is_utf8_of_content() {
    let row = SingleRow::from("a\u{e9}");
    assert_eq!(row.as_bytes(), &[0x61u8, 0xc3, 0xa9][..]);
}

#[test]
fn insert_before_a_cluster() {
    let mut row = SingleRow::from("abc");
    row.insert_at_positon(1, 'x');
    assert_eq!(row.content(), "axbc");
    assert_eq!(row.get_content_len(), 4);
}

#[test]
fn insert_at_start() {
    let mut row = SingleRow::from("abc");
    row.insert_at_positon(0, 'x');
    assert_eq!(row.content(), "xabc");
}

#[test]
fn insert_at_end_appends() {
    let mut row = SingleRow::from("abc");
    row.insert_at_positon(3, 'x');
    assert_eq!(row.content(), "abcx");
    assert_eq!(row.get_content_len(), 4);
}

#[test]
fn insert_behind_end_appends() {
    let mut row = SingleRow::from("abc");
    row.insert_at_positon(100, 'x');
    assert_eq!(row.content(), "abcx");
    assert_eq!(row.get_content_len(), 4);
}

#[test]
fn insert_keeps_clusters_whole() {
    let mut row = SingleRow::from("e\u{301}o\u{308}");
    row.insert_at_positon(1, 'x');
    assert_eq!(row.content(), "e\u{301}xo\u{308}");
    assert_eq!(row.get_content_len(), 3);
}

#[test]
fn insert_counts_length_anew() {
    let mut row = SingleRow::from("ab");
    row.insert_at_positon(1, '\u{301}');
    assert_eq!(row.content(), "a\u{301}b");
    assert_eq!(row.get_content_len(), 2);
}

#[test]
fn insert_drops_highlight_cache() {
    let mut row = SingleRow::from("abc");
    row.highlight_control(&textbuf::HighlightingOptions::default(), &None, false);
    assert!(row.is_highlighted());
    row.insert_at_positon(1, 'x');
    assert!(!row.is_highlighted());
}

#[test]
fn delete_takes_one_cluster() {
    let mut row = SingleRow::from("abc");
    row.delete_at_position(1);
    assert_eq!(row.content(), "ac");
    assert_eq!(row.get_content_len(), 2);
}

#[test]
fn delete_takes_a_whole_cluster() {
    let mut row = SingleRow::from("ae\u{301}b");
    row.delete_at_position(1);
    assert_eq!(row.content(), "ab");
    assert_eq!(row.get_content_len(), 2);
}

#[test]
fn delete_behind_end_does_nothing() {
    let mut row = SingleRow::from("abc");
    row.highlight_control(&textbuf::HighlightingOptions::default(), &None, false);
    row.delete_at_position(3);
    assert_eq!(row.content(), "abc");
    assert_eq!(row.get_content_len(), 3);
    assert!(row.is_highlighted());
    row.delete_at_position(77);
    assert_eq!(row.content(), "abc");
}

#[test]
fn insert_then_delete_restores_row() {
    for col in 0..=3 {
        let mut row = SingleRow::from("abc");
        row.insert_at_positon(col, 'x');
        row.delete_at_position(col);
        assert_eq!(row.content(), "abc");
        assert_eq!(row.get_content_len(), 3);
    }
}

#[test]
fn insert_of_combining_mark_is_not_undone_by_delete() {
    let mut row = SingleRow::from("ab");
    row.insert_at_positon(1, '\u{301}');
    row.delete_at_position(1);
    assert_eq!(row.content(), "a\u{301}");
    assert_eq!(row.get_content_len(), 1);
}

#[test]
fn append_joins_contents() {
    let mut row = SingleRow::from("ab");
    row.appand_row(&SingleRow::from("cd"));
    assert_eq!(row.content(), "abcd");
    assert_eq!(row.get_content_len(), 4);
}

#[test]
fn append_counts_length_anew() {
    let mut row = SingleRow::from("e");
    row.appand_row(&SingleRow::from("\u{301}x"));
    assert_eq!(row.content(), "e\u{301}x");
    assert_eq!(row.get_content_len(), 2);
}

#[test]
fn split_cuts_before_the_column() {
    let mut row = SingleRow::from("hello");
    let tail = row.split_content(2);
    assert_eq!(row.content(), "he");
    assert_eq!(row.get_content_len(), 2);
    assert_eq!(tail.content(), "llo");
    assert_eq!(tail.get_content_len(), 3);
    assert!(!row.is_highlighted());
    assert!(!tail.is_highlighted());
}

#[test]
fn split_at_start_and_behind_end() {
    let mut row = SingleRow::from("abc");
    let tail = row.split_content(0);
    assert_eq!(row.content(), "");
    assert_eq!(tail.content(), "abc");
    let mut row = SingleRow::from("abc");
    let tail = row.split_content(9);
    assert_eq!(row.content(), "abc");
    assert_eq!(tail.content(), "");
    assert_eq!(tail.get_content_len(), 0);
}

#[test]
fn split_keeps_clusters_whole() {
    let mut row = SingleRow::from("e\u{301}o\u{308}u");
    let tail = row.split_content(1);
    assert_eq!(row.content(), "e\u{301}");
    assert_eq!(tail.content(), "o\u{308}u");
}

#[test]
fn split_then_append_restores_row() {
    for col in 0..=6 {
        let mut row = SingleRow::from("he\u{301}llo");
        let tail = row.split_content(col);
        row.appand_row(&tail);
        assert_eq!(row.content(), "he\u{301}llo");
        assert_eq!(row.get_content_len(), 5);
    }
}

#[test]
fn forward_search_finds_leftmost_match() {
    let row = SingleRow::from("1testtest");
    assert_eq!(row.search_query_str("t", 0, SearchDirection::Forward), Some(1));
    assert_eq!(row.search_query_str("t", 2, SearchDirection::Forward), Some(4));
}

#[test]
fn backward_search_finds_rightmost_match() {
    let row = SingleRow::from("1testtest");
    assert_eq!(row.search_query_str("t", 9, SearchDirection::Backward), Some(8));
}

#[test]
fn backward_search_stays_before_the_column() {
    let row = SingleRow::from("1testtest");
    assert_eq!(row.search_query_str("t", 8, SearchDirection::Backward), Some(5));
    assert_eq!(row.search_query_str("test", 8, SearchDirection::Backward), Some(1));
    assert_eq!(row.search_query_str("test", 9, SearchDirection::Backward), Some(5));
    assert_eq!(row.search_query_str("t", 1, SearchDirection::Backward), None);
    assert_eq!(row.search_query_str("t", 0, SearchDirection::Backward), None);
}

#[test]
fn search_for_empty_query_finds_nothing() {
    let row = SingleRow::from("abc");
    assert_eq!(row.search_query_str("", 0, SearchDirection::Forward), None);
    assert_eq!(row.search_query_str("", 3, SearchDirection::Backward), None);
}

#[test]
fn search_from_behind_the_end_finds_nothing() {
    let row = SingleRow::from("abc");
    assert_eq!(row.search_query_str("a", 4, SearchDirection::Forward), None);
    assert_eq!(row.search_query_str("a", 4, SearchDirection::Backward), None);
    assert_eq!(row.search_query_str("c", 3, SearchDirection::Forward), None);
    assert_eq!(row.search_query_str("c", 3, SearchDirection::Backward), Some(2));
}

#[test]
fn search_without_match_finds_nothing() {
    let row = SingleRow::from("abc");
    assert_eq!(row.search_query_str("x", 0, SearchDirection::Forward), None);
    assert_eq!(row.search_query_str("abcd", 0, SearchDirection::Forward), None);
    assert_eq!(row.search_query_str("x", 3, SearchDirection::Backward), None);
}

#[test]
fn search_answers_in_columns_of_clusters() {
    let row = SingleRow::from("e\u{301}e\u{301}xy");
    assert_eq!(row.search_query_str("x", 0, SearchDirection::Forward), Some(2));
    assert_eq!(row.search_query_str("xy", 4, SearchDirection::Backward), Some(2));
    assert_eq!(row.search_query_str("e\u{301}x", 0, SearchDirection::Forward), Some(1));
}

#[test]
fn search_matches_whole_clusters_only() {
    let row = SingleRow::from("e\u{301}x");
    assert_eq!(row.search_query_str("e", 0, SearchDirection::Forward), None);
    assert_eq!(row.search_query_str("e\u{301}", 0, SearchDirection::Forward), Some(0));
}

#[test]
fn overlay_takes_occurrences_without_overlap() {
    let mut row = SingleRow::from("aaa");
    row.set_display_styles(vec![Type::Plain, Type::Plain, Type::Plain]);
    row.highlight_word(&Some("aa".to_string()));
    assert_eq!(row.display_styles(), &vec![Type::Match, Type::Match, Type::Plain]);
}

#[test]
fn overlay_without_word_or_with_empty_word_changes_nothing() {
    let mut row = SingleRow::from("abc");
    let styles = vec![Type::Number, Type::String, Type::Comment];
    row.set_display_styles(styles.clone());
    row.highlight_word(&None);
    assert_eq!(row.display_styles(), &styles);
    row.highlight_word(&Some(String::new()));
    assert_eq!(row.display_styles(), &styles);
}

#[test]
fn overlay_is_idempotent() {
    let mut row = SingleRow::from("1testtest");
    row.set_display_styles(vec![Type::Number; 9]);
    row.highlight_word(&Some("t".to_string()));
    let once = row.display_styles().clone();
    row.highlight_word(&Some("t".to_string()));
    assert_eq!(row.display_styles(), &once);
}

#[test]
fn overlay_leaves_columns_without_category_alone() {
    let mut row = SingleRow::from("abab");
    row.set_display_styles(vec![Type::Plain, Type::Plain, Type::Plain]);
    row.highlight_word(&Some("b".to_string()));
    assert_eq!(row.display_styles(), &vec![Type::Plain, Type::Match, Type::Plain]);
}

#[test]
fn set_display_styles_is_no_valid_cache() {
    let mut row = SingleRow::from("abc");
    row.highlight_control(&textbuf::HighlightingOptions::default(), &None, false);
    assert!(row.is_highlighted());
    row.set_display_styles(vec![Type::Number, Type::Number, Type::Number]);
    assert!(!row.is_highlighted());
}

#[test]
fn unhighlight_marks_cache_stale() {
    let mut row = SingleRow::from("abc");
    row.highlight_control(&textbuf::HighlightingOptions::default(), &None, false);
    row.unhighlight();
    assert!(!row.is_highlighted());
    assert_eq!(row.display_styles(), &vec![Type::Plain; 3]);
}

#[test]
fn draw_marks_each_change_of_category() {
    let mut row = SingleRow::from("ab1");
    row.set_display_styles(vec![Type::Plain, Type::Plain, Type::Number]);
    assert_eq!(row.draw_with(&palette(), 0, 3), "ab<n>1<r>");
}

#[test]
fn draw_marks_first_cluster_unless_plain() {
    let mut row = SingleRow::from("12a");
    row.set_display_styles(vec![Type::Number, Type::Number, Type::Plain]);
    assert_eq!(row.draw_with(&palette(), 0, 3), "<n>12<p>a<r>");
}

#[test]
fn draw_shows_tab_as_space() {
    let row = SingleRow::from("a\tb");
    assert_eq!(row.draw_with(&palette(), 0, 3), "a b<r>");
}

#[test]
fn draw_clamps_its_range() {
    let mut row = SingleRow::from("abcd");
    row.set_display_styles(vec![Type::Plain, Type::String, Type::String, Type::Plain]);
    assert_eq!(row.draw_with(&palette(), 1, 3), "<s>bc<r>");
    assert_eq!(row.draw_with(&palette(), 2, 100), "<s>c<p>d<r>");
    assert_eq!(row.draw_with(&palette(), 3, 1), "<r>");
    assert_eq!(row.draw_with(&palette(), 9, 12), "<r>");
}

#[test]
fn draw_shows_clusters_whole() {
    let row = SingleRow::from("e\u{301}x");
    assert_eq!(row.draw_with(&palette(), 0, 1), "e\u{301}<r>");
    assert_eq!(row.draw_with(&palette(), 0, 2), "e\u{301}x<r>");
    assert_eq!(row.draw_with(&palette(), 1, 2), "x<r>");
    let flags = SingleRow::from("\u{1F1F7}\u{1F1FA}");
    assert_eq!(flags.draw_with(&palette(), 0, 1), "\u{1F1F7}\u{1F1FA}<r>");
}

#[test]
fn draw_takes_missing_categories_as_plain() {
    let mut row = SingleRow::from("abc");
    row.set_display_styles(vec![Type::Comment]);
    assert_eq!(row.draw_with(&palette(), 0, 3), "<l>a<p>bc<r>");
}

#[test]
fn draw_content_uses_the_terminal_palette() {
    let mut row = SingleRow::from("a1");
    row.set_display_styles(vec![Type::Plain, Type::Number]);
    let terminal = Palette::terminal();
    let expected = format!("a{}1{}", terminal.marker(Type::Number), terminal.reset());
    assert_eq!(row.draw_content(0, 2), expected);
}

#[test]
fn terminal_palette_holds_the_control_sequences_of_the_colours() {
    let terminal = Palette::terminal();
    let number = terminal.marker(Type::Number);
    assert!(number == "\x1b[38;2;192;232;127m" || number == "\x1b[m", "{:?}", number);
    let comment = terminal.marker(Type::Comment);
    assert!(comment == "\x1b[38;2;133;153;0m" || comment == "\x1b[m", "{:?}", comment);
    let plain = terminal.marker(Type::Plain);
    assert!(plain == "\x1b[38;2;255;255;255m" || plain == "\x1b[m", "{:?}", plain);
    let reset = terminal.reset();
    assert!(reset == "\x1b[39m" || reset == "\x1b[m", "{:?}", reset);
}

#[test]
fn highlight_word_takes_note_of_its_matches() {
    let mut row = SingleRow::from("abc");
    row.highlight_control(&textbuf::HighlightingOptions::default(), &None, false);
    assert!(row.is_highlighted());
    assert!(!row.has_matches());
    row.highlight_word(&Some("x".to_string()));
    assert!(row.is_highlighted());
    assert!(row.has_matches());
    let mut other = SingleRow::from("abc");
    other.highlight_word(&None);
    other.highlight_word(&Some(String::new()));
    assert!(!other.has_matches());
}

#[test]
fn draw_content_marks_the_change_of_category_and_ends_with_the_reset() {
    let mut row = SingleRow::from("a1");
    row.set_display_styles(vec![Type::Plain, Type::Number]);
    let text = row.draw_content(0, 2);
    let coloured = text == "a\x1b[38;2;192;232;127m1\x1b[39m";
    let plain = text == "a\x1b[m1\x1b[m";
    assert!(coloured || plain, "{:?}", text);
    let empty = SingleRow::default().draw_content(0, 0);
    assert!(empty == "\x1b[39m" || empty == "\x1b[m", "{:?}", empty);
}

#[test]
fn every_marker_of_the_terminal_palette_is_a_control_sequence() {
    let terminal = Palette::terminal();
    for i in 0..10 {
        let marker = terminal.marker(Type::at(i));
        assert!(marker.starts_with("\x1b[") && marker.ends_with('m'), "{:?}", marker);
    }
    assert!(terminal.reset().starts_with("\x1b[") && terminal.reset().ends_with('m'));
}

#[test]
fn palette_needs_ten_markers() {
    assert!(Palette::new(vec!["x".to_string(); 9], String::new()).is_none());
    assert!(Palette::new(vec!["x".to_string(); 11], String::new()).is_none());
    let palette = palette();
    assert_eq!(palette.marker(Type::Plain), "<p>");
    assert_eq!(palette.marker(Type::SecondaryKeywords), "<t>");
    assert_eq!(palette.reset(), "<r>");
}
