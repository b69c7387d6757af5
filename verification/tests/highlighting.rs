use textbuf::filetype::FileType;
use textbuf::highlighting::annotate_line;
use textbuf::{Document, Highlight, HighlightingOptions, Row};

const P: Highlight = Highlight::Plain;
const N: Highlight = Highlight::Number;
const Q: Highlight = Highlight::Quoted;
const M: Highlight = Highlight::Match;

const NO_RULES: HighlightingOptions = HighlightingOptions { numbers: false, strings: false };
const NUMBERS: HighlightingOptions = HighlightingOptions { numbers: true, strings: false };
const STRINGS: HighlightingOptions = HighlightingOptions { numbers: false, strings: true };
const ALL_RULES: HighlightingOptions = HighlightingOptions { numbers: true, strings: true };

fn marks(text: &str, opts: HighlightingOptions, word: Option<&str>) -> Vec<Highlight> {
    let mut row = Row::from(text);
    row.highlight(opts, word);
    assert_eq!(row.chars().iter().collect::<String>(), text);
    row.highlighting().clone()
}

#[test]
fn no_rules_and_no_word_leave_everything_plain() {
    assert_eq!(marks("a1 \"b\"", NO_RULES, None), vec![P; 6]);
    assert_eq!(marks("", ALL_RULES, None), vec![]);
}

#[test]
fn digits_are_numbers_where_the_rule_is_on() {
    assert_eq!(marks("x = 42;", NUMBERS, None), vec![P, P, P, P, N, N, P]);
    assert_eq!(marks("0a9/:", NUMBERS, None), vec![N, P, N, P, P]);
    assert_eq!(marks("٣", NUMBERS, None), vec![P]);
}

#[test]
fn quoted_stretches_include_their_quotes() {
    assert_eq!(marks("a \"b c\" d", STRINGS, None), vec![P, P, Q, Q, Q, Q, Q, P, P]);
    assert_eq!(marks("\"\"x\"y", STRINGS, None), vec![Q, Q, P, Q, Q]);
    assert_eq!(marks("\"1\" 2", STRINGS, None), vec![Q, Q, Q, P, P]);
}

#[test]
fn quoted_wins_over_number() {
    assert_eq!(marks("1 \"2\" 3", ALL_RULES, None), vec![N, P, Q, Q, Q, P, N]);
}

#[test]
fn occurrences_of_the_word_are_emphasised() {
    assert_eq!(marks("foo bar foo", NO_RULES, Some("foo")), vec![M, M, M, P, P, P, P, P, M, M, M]);
    assert_eq!(marks("foo bar foo", NO_RULES, Some("baz")), vec![P; 11]);
    assert_eq!(marks("foo", NO_RULES, Some("")), vec![P; 3]);
    assert_eq!(marks("fo", NO_RULES, Some("foo")), vec![P; 2]);
}

#[test]
fn emphasis_wins_over_the_rules() {
    assert_eq!(marks("12 \"12\"", ALL_RULES, Some("12")), vec![M, M, P, Q, M, M, Q]);
}

#[test]
fn overlapping_occurrences_are_all_emphasised() {
    assert_eq!(marks("aaa", NO_RULES, Some("aa")), vec![M, M, M]);
    assert_eq!(marks("xababay", NO_RULES, Some("aba")), vec![P, M, M, M, M, M, P]);
    assert_eq!(marks("abab ab", NO_RULES, Some("abab")), vec![M, M, M, M, P, P, P]);
}

#[test]
fn annotate_line_gives_one_mark_per_character() {
    let line: Vec<char> = "ü1\"ß\"".chars().collect();
    let word: Vec<char> = "1".chars().collect();
    assert_eq!(annotate_line(&line, ALL_RULES, None), vec![P, N, Q, Q, Q]);
    assert_eq!(annotate_line(&line, ALL_RULES, Some(&word)), vec![P, M, Q, Q, Q]);
}

#[test]
fn file_type_follows_the_extension() {
    assert_eq!(FileType::from("main.rs"), FileType::Rust);
    assert_eq!(FileType::from(".rs"), FileType::Rust);
    assert_eq!(FileType::from("dir/lib.rs"), FileType::Rust);
    assert_eq!(FileType::from("rs"), FileType::Plain);
    assert_eq!(FileType::from("main.rs.bak"), FileType::Plain);
    assert_eq!(FileType::from("main.RS"), FileType::Plain);
    assert_eq!(FileType::from("notes.txt"), FileType::Plain);
    assert_eq!(FileType::from(""), FileType::Plain);
    assert_eq!(FileType::from("é.rs"), FileType::Rust);
    assert_eq!(FileType::default(), FileType::Plain);
}

#[test]
fn file_type_names_and_rules() {
    assert_eq!(FileType::Rust.name(), "Rust");
    assert_eq!(FileType::Plain.name(), "No filetype");
    assert_eq!(FileType::Rust.highlighting_options(), ALL_RULES);
    assert_eq!(FileType::Plain.highlighting_options(), NO_RULES);
}

#[test]
fn document_highlight_marks_every_row_and_keeps_the_text() {
    let mut document = Document::from_text("main.rs", "let a = 1;\nlet b = \"a\";\n");
    assert_eq!(document.file_type(), "Rust");
    document.highlight(Some("a"));
    let first = document.row(0).unwrap();
    assert_eq!(first.chars().iter().collect::<String>(), "let a = 1;");
    assert_eq!(first.highlighting().clone(), vec![P, P, P, P, M, P, P, P, N, P]);
    let second = document.row(1).unwrap();
    assert_eq!(second.highlighting().clone(), vec![P, P, P, P, P, P, P, P, Q, M, Q, P]);
    assert!(!document.is_dirty());

    document.highlight(None);
    assert_eq!(document.row(0).unwrap().highlighting().clone(), vec![P, P, P, P, P, P, P, P, N, P]);
    assert_eq!(
        document.row(1).unwrap().highlighting().clone(),
        vec![P, P, P, P, P, P, P, P, Q, Q, Q, P]
    );
}

#[test]
fn document_without_rules_highlights_only_the_word() {
    let mut document = Document::from_text("notes.txt", "a1\n");
    assert_eq!(document.row(0).unwrap().highlighting().clone(), vec![P, P]);
    document.highlight(Some("1"));
    assert_eq!(document.row(0).unwrap().highlighting().clone(), vec![P, M]);
}
