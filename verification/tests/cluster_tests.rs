use textbuf::edit::delete_cluster;
use textbuf::edit::insert_char;
use textbuf::edit::push_clusters;
use textbuf::edit::split_clusters;
use textbuf::overlay::paint_matches;
use textbuf::render::draw_clusters;
use textbuf::scan::keyword_chars;
use textbuf::scan::scan_symbols;
use textbuf::scan::symbols;
use textbuf::search::find_clusters;
use textbuf::text::chars_of;
use textbuf::text::push_chars;
use textbuf::text::string_of;
use textbuf::HighlightingOptions;
use textbuf::Palette;
use textbuf::SearchDirection::Backward;
use textbuf::SearchDirection::Forward;
use textbuf::Type;

fn clusters(parts: &[&str]) -> Vec<Vec<char>> {
    parts.iter().map(|p| p.chars().collect()).collect()
}

fn letters() -> Palette {
    let markers: Vec<String> = "pnmsaclbkt".chars().map(|c| c.to_string()).collect();
    Palette::new(markers, "!".to_string()).unwrap()
}

#[test]
fn characters_of_a_text() {
    assert_eq!(chars_of("a\u{e9}\u{1F600}"), vec!['a', '\u{e9}', '\u{1F600}']);
    assert_eq!(chars_of(""), Vec::<char>::new());
}

#[test]
fn string_of_characters() {
    assert_eq!(string_of(&vec!['a', '\u{e9}', 'b']), "a\u{e9}b");
    assert_eq!(string_of(&Vec::new()), "");
    let mut text = "x".to_string();
    push_chars(&mut text, &vec!['y', 'z']);
    assert_eq!(text, "xyz");
}

#[test]
fn text_of_a_range_of_clusters() {
    let row = clusters(&["a", "e\u{301}", "b", "c"]);
    let mut text = "> ".to_string();
    push_clusters(&mut text, &row, 1, 3);
    assert_eq!(text, "> e\u{301}b");
    push_clusters(&mut text, &row, 4, 4);
    push_clusters(&mut text, &row, 0, 0);
    assert_eq!(text, "> e\u{301}b");
    push_clusters(&mut text, &row, 0, 4);
    assert_eq!(text, "> e\u{301}bae\u{301}bc");
}

#[test]
fn character_goes_before_a_cluster() {
    let row = clusters(&["a", "e\u{301}", "b"]);
    assert_eq!(insert_char(&row, 0, 'x'), "xae\u{301}b");
    assert_eq!(insert_char(&row, 1, 'x'), "axe\u{301}b");
    assert_eq!(insert_char(&row, 2, 'x'), "ae\u{301}xb");
    assert_eq!(insert_char(&row, 3, 'x'), "ae\u{301}bx");
    assert_eq!(insert_char(&row, 4, 'x'), "ae\u{301}bx");
    assert_eq!(insert_char(&row, usize::MAX, 'x'), "ae\u{301}bx");
    assert_eq!(insert_char(&Vec::new(), 0, 'x'), "x");
}

#[test]
fn cluster_is_taken_out_whole() {
    let row = clusters(&["a", "e\u{301}", "b"]);
    assert_eq!(delete_cluster(&row, 0), "e\u{301}b");
    assert_eq!(delete_cluster(&row, 1), "ab");
    assert_eq!(delete_cluster(&row, 2), "ae\u{301}");
    assert_eq!(delete_cluster(&row, 3), "ae\u{301}b");
    assert_eq!(delete_cluster(&row, usize::MAX), "ae\u{301}b");
    assert_eq!(delete_cluster(&Vec::new(), 0), "");
}

#[test]
fn split_gives_both_halves() {
    let row = clusters(&["a", "e\u{301}", "b"]);
    assert_eq!(split_clusters(&row, 0), (String::new(), "ae\u{301}b".to_string()));
    assert_eq!(split_clusters(&row, 1), ("a".to_string(), "e\u{301}b".to_string()));
    assert_eq!(split_clusters(&row, 2), ("ae\u{301}".to_string(), "b".to_string()));
    assert_eq!(split_clusters(&row, 3), ("ae\u{301}b".to_string(), String::new()));
    assert_eq!(split_clusters(&row, 9), ("ae\u{301}b".to_string(), String::new()));
}

#[test]
fn search_in_clusters_forward() {
    let row = clusters(&["a", "b", "a", "b", "a"]);
    let query = clusters(&["a", "b"]);
    assert_eq!(find_clusters(&row, &query, 0, Forward), Some(0));
    assert_eq!(find_clusters(&row, &query, 1, Forward), Some(2));
    assert_eq!(find_clusters(&row, &query, 3, Forward), None);
    assert_eq!(find_clusters(&row, &query, 5, Forward), None);
    assert_eq!(find_clusters(&row, &query, 6, Forward), None);
    assert_eq!(find_clusters(&row, &Vec::new(), 0, Forward), None);
    assert_eq!(find_clusters(&row, &row, 0, Forward), Some(0));
    assert_eq!(find_clusters(&query, &row, 0, Forward), None);
}

#[test]
fn search_in_clusters_backward() {
    let row = clusters(&["a", "b", "a", "b", "a"]);
    let query = clusters(&["a", "b"]);
    assert_eq!(find_clusters(&row, &query, 5, Backward), Some(2));
    assert_eq!(find_clusters(&row, &query, 4, Backward), Some(2));
    assert_eq!(find_clusters(&row, &query, 3, Backward), Some(0));
    assert_eq!(find_clusters(&row, &query, 2, Backward), Some(0));
    assert_eq!(find_clusters(&row, &query, 1, Backward), None);
    assert_eq!(find_clusters(&row, &query, 0, Backward), None);
    assert_eq!(find_clusters(&row, &query, 6, Backward), None);
    assert_eq!(find_clusters(&row, &Vec::new(), 5, Backward), None);
}

#[test]
fn search_agrees_with_looking_at_every_column() {
    let letters = ["a", "b"];
    for code in 0..64usize {
        let row: Vec<Vec<char>> =
            (0..6).map(|i| letters[(code >> i) & 1].chars().collect()).collect();
        for query in [clusters(&["a"]), clusters(&["a", "b"]), clusters(&["b", "b", "a"])] {
            let stands = |at: usize| at + query.len() <= row.len() && row[at..at + query.len()] == query[..];
            for from in 0..=7usize {
                let forward = (from..row.len()).find(|&at| stands(at)).filter(|_| from <= row.len());
                assert_eq!(find_clusters(&row, &query, from, Forward), forward);
                let backward = if from > row.len() {
                    None
                } else {
                    (0..from).rev().find(|&at| at + query.len() <= from && stands(at))
                };
                assert_eq!(find_clusters(&row, &query, from, Backward), backward);
            }
        }
    }
}

#[test]
fn search_holds_clusters_against_clusters() {
    let row = clusters(&["e\u{301}", "e", "x"]);
    assert_eq!(find_clusters(&row, &clusters(&["e"]), 0, Forward), Some(1));
    assert_eq!(find_clusters(&row, &clusters(&["e\u{301}"]), 3, Backward), Some(0));
    assert_eq!(find_clusters(&row, &clusters(&["\u{301}"]), 0, Forward), None);
}

#[test]
fn matches_are_painted_from_the_left() {
    let row = clusters(&["a", "a", "a", "a", "a"]);
    let mut styles = vec![Type::Number; 5];
    paint_matches(&mut styles, &row, &clusters(&["a", "a"]));
    assert_eq!(styles, vec![Type::Match, Type::Match, Type::Match, Type::Match, Type::Number]);
    let mut styles = vec![Type::Number; 5];
    paint_matches(&mut styles, &row, &Vec::new());
    assert_eq!(styles, vec![Type::Number; 5]);
    let mut styles = vec![Type::Number; 2];
    paint_matches(&mut styles, &row, &clusters(&["a", "a", "a"]));
    assert_eq!(styles, vec![Type::Match, Type::Match]);
    let mut styles = Vec::new();
    paint_matches(&mut styles, &row, &clusters(&["a"]));
    assert_eq!(styles, Vec::<Type>::new());
}

#[test]
fn symbols_are_the_clusters_of_one_character() {
    let row = clusters(&["a", "e\u{301}", "/", "\r\n", ""]);
    assert_eq!(symbols(&row), vec![Some('a'), None, Some('/'), None, None]);
}

#[test]
fn keywords_as_characters() {
    let words = vec!["if".to_string(), String::new(), "\u{e9}t\u{e9}".to_string()];
    assert_eq!(keyword_chars(&words), vec![vec!['i', 'f'], vec![], vec!['\u{e9}', 't', '\u{e9}']]);
}

#[test]
fn scan_reads_symbols() {
    let options = HighlightingOptions::new(true, true, true, true, true, true, vec!["if".to_string()], Vec::new());
    let row = vec![Some('i'), Some('f'), Some(' '), None, Some('1'), Some('/'), Some('*')];
    let (styles, open) = scan_symbols(&row, &options, false);
    assert_eq!(
        styles,
        vec![
            Type::PrimaryKeywords,
            Type::PrimaryKeywords,
            Type::Plain,
            Type::Plain,
            Type::Plain,
            Type::MultilineComment,
            Type::MultilineComment
        ]
    );
    assert!(open);
    let (styles, open) = scan_symbols(&row, &options, true);
    assert_eq!(styles, vec![Type::MultilineComment; 7]);
    assert!(open);
    let (styles, open) = scan_symbols(&Vec::new(), &options, false);
    assert!(styles.is_empty());
    assert!(!open);
}

#[test]
fn drawing_reads_clusters_and_categories() {
    let row = clusters(&["a", "\t", "e\u{301}", "1", "2"]);
    let styles = vec![Type::Plain, Type::Plain, Type::String, Type::Number, Type::Number];
    assert_eq!(draw_clusters(&row, &styles, &letters(), 0, 5), "a se\u{301}n12!");
    assert_eq!(draw_clusters(&row, &styles, &letters(), 3, 4), "n1!");
    assert_eq!(draw_clusters(&row, &styles, &letters(), 4, 2), "!");
    assert_eq!(draw_clusters(&row, &styles, &letters(), 0, 0), "!");
    assert_eq!(draw_clusters(&row, &Vec::new(), &letters(), 0, 9), "a e\u{301}12!");
    let tabs = clusters(&["\t", "\t\t", "\tx", "x\t"]);
    assert_eq!(draw_clusters(&tabs, &Vec::new(), &letters(), 0, 4), " \t\t\txx\t!");
    assert_eq!(draw_clusters(&Vec::new(), &styles, &letters(), 0, 9), "!");
}
