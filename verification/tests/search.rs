use textbuf::{Document, Position, SearchDirection};

fn document_of(lines: &[&str]) -> Document {
    let mut text = String::new();
    for line in lines {
        text.push_str(line);
        text.push('\n');
    }
    Document::from_text("notes.txt", &text)
}

fn at(x: usize, y: usize) -> Position {
    Position { x, y }
}

#[test]
fn find_forward_from_the_start_and_backward_from_the_end() {
    let document = document_of(&["foo bar", "baz foo"]);
    assert_eq!(document.find("foo", &at(0, 0), SearchDirection::Forward), Some(at(0, 0)));
    assert_eq!(document.find("foo", &at(7, 1), SearchDirection::Backward), Some(at(4, 1)));
}

#[test]
fn find_forward_goes_on_in_the_rows_below_from_their_start() {
    let document = document_of(&["foo bar", "baz foo", "", "foo"]);
    assert_eq!(document.find("foo", &at(1, 0), SearchDirection::Forward), Some(at(4, 1)));
    assert_eq!(document.find("foo", &at(5, 1), SearchDirection::Forward), Some(at(0, 3)));
    assert_eq!(document.find("baz", &at(3, 0), SearchDirection::Forward), Some(at(0, 1)));
    assert_eq!(document.find("bar", &at(5, 0), SearchDirection::Forward), None);
    assert_eq!(document.find("foo", &at(1, 3), SearchDirection::Forward), None);
}

#[test]
fn find_backward_goes_on_in_the_rows_above_from_their_end() {
    let document = document_of(&["foo bar", "baz foo", "", "foo"]);
    assert_eq!(document.find("foo", &at(2, 3), SearchDirection::Backward), Some(at(4, 1)));
    assert_eq!(document.find("foo", &at(6, 1), SearchDirection::Backward), Some(at(0, 0)));
    assert_eq!(document.find("bar", &at(0, 2), SearchDirection::Backward), Some(at(4, 0)));
    assert_eq!(document.find("baz", &at(7, 0), SearchDirection::Backward), None);
    assert_eq!(document.find("foo", &at(2, 0), SearchDirection::Backward), None);
}

#[test]
fn find_outside_the_rows_finds_nothing() {
    let document = document_of(&["foo"]);
    assert_eq!(document.find("foo", &at(0, 1), SearchDirection::Forward), None);
    assert_eq!(document.find("foo", &at(0, 1), SearchDirection::Backward), None);
    assert_eq!(document.find("foo", &at(0, usize::MAX), SearchDirection::Backward), None);
    assert_eq!(Document::default().find("foo", &at(0, 0), SearchDirection::Forward), None);
}

#[test]
fn find_with_an_empty_query_finds_nothing() {
    let document = document_of(&["foo", "bar"]);
    assert_eq!(document.find("", &at(0, 0), SearchDirection::Forward), None);
    assert_eq!(document.find("", &at(3, 1), SearchDirection::Backward), None);
}

#[test]
fn find_with_a_column_beyond_the_row_skips_that_row() {
    let document = document_of(&["foo", "foo"]);
    assert_eq!(document.find("foo", &at(9, 0), SearchDirection::Forward), Some(at(0, 1)));
    assert_eq!(document.find("foo", &at(9, 1), SearchDirection::Backward), Some(at(0, 0)));
}

#[test]
fn find_does_not_match_across_rows() {
    let document = document_of(&["ab", "cd"]);
    assert_eq!(document.find("bc", &at(0, 0), SearchDirection::Forward), None);
    assert_eq!(document.find("b\nc", &at(0, 0), SearchDirection::Forward), None);
}

#[test]
fn find_leaves_the_document_as_it_is() {
    let document = document_of(&["foo"]);
    let _ = document.find("foo", &at(0, 0), SearchDirection::Forward);
    assert!(!document.is_dirty());
    assert_eq!(document.len(), 1);
}

#[test]
fn default_position_is_the_origin() {
    assert_eq!(Position::default(), at(0, 0));
}
