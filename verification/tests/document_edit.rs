use textbuf::{Document, Position, SaveAction, SaveEvent, SaveState};

fn text_of(document: &Document) -> Vec<String> {
    let mut lines = Vec::new();
    let mut y = 0;
    while let Some(row) = document.row(y) {
        lines.push(row.chars().iter().collect::<String>());
        y += 1;
    }
    lines
}

fn document_of(lines: &[&str]) -> Document {
    let mut text = String::new();
    for line in lines {
        text.push_str(line);
        text.push('\n');
    }
    Document::from_text("notes.txt", &text)
}

fn at(x: usize, y: usize) -> Position {
    Position { x, y }
}

#[test]
fn default_document_is_empty_and_clean() {
    let document = Document::default();
    assert!(document.is_empty());
    assert_eq!(document.len(), 0);
    assert!(!document.is_dirty());
    assert!(document.file_name.is_none());
    assert_eq!(document.file_type(), "No filetype");
    assert!(document.row(0).is_none());
}

#[test]
fn insert_into_empty_document_starts_a_row() {
    let mut document = Document::default();
    document.insert(&at(0, 0), 'a');
    assert_eq!(text_of(&document), vec!["a"]);
    assert!(document.is_dirty());
    assert_eq!(document.len(), 1);
    assert!(!document.is_empty());
}

#[test]
fn insert_at_new_last_row_ignores_the_column() {
    let mut document = document_of(&["one"]);
    document.insert(&at(7, 1), 'z');
    assert_eq!(text_of(&document), vec!["one", "z"]);
}

#[test]
fn insert_within_a_row_shifts_what_follows() {
    let mut document = document_of(&["held", "two"]);
    document.insert(&at(2, 0), 'l');
    assert_eq!(text_of(&document), vec!["helld", "two"]);
    document.insert(&at(5, 0), '!');
    assert_eq!(text_of(&document), vec!["helld!", "two"]);
    document.insert(&at(0, 1), '>');
    assert_eq!(text_of(&document), vec!["helld!", ">two"]);
}

#[test]
fn insert_beyond_the_end_of_a_row_appends() {
    let mut document = document_of(&["ab"]);
    document.insert(&at(9, 0), 'c');
    assert_eq!(text_of(&document), vec!["abc"]);
}

#[test]
fn insert_past_the_place_for_a_new_row_is_ignored() {
    let mut document = document_of(&["one", "two"]);
    document.insert(&at(0, 3), 'x');
    document.insert(&at(0, 3), '\n');
    document.insert(&at(0, usize::MAX), 'x');
    assert_eq!(text_of(&document), vec!["one", "two"]);
    assert!(!document.is_dirty());
}

#[test]
fn delete_outside_the_rows_is_ignored() {
    let mut document = document_of(&["one", "two"]);
    document.delete(&at(0, 2));
    document.delete(&at(0, 3));
    document.delete(&at(1, usize::MAX));
    assert_eq!(text_of(&document), vec!["one", "two"]);
    assert!(!document.is_dirty());
}

#[test]
fn line_break_splits_a_row() {
    let mut document = document_of(&["hello world", "next"]);
    document.insert(&at(5, 0), '\n');
    assert_eq!(text_of(&document), vec!["hello", " world", "next"]);
    assert!(document.is_dirty());
}

#[test]
fn line_break_at_the_start_and_at_the_end_of_a_row() {
    let mut document = document_of(&["abc"]);
    document.insert(&at(0, 0), '\n');
    assert_eq!(text_of(&document), vec!["", "abc"]);
    document.insert(&at(3, 1), '\n');
    assert_eq!(text_of(&document), vec!["", "abc", ""]);
    document.insert(&at(40, 1), '\n');
    assert_eq!(text_of(&document), vec!["", "abc", "", ""]);
}

#[test]
fn line_break_at_the_end_of_the_document_adds_one_empty_row() {
    let mut document = document_of(&["one", "two"]);
    document.insert(&at(0, 2), '\n');
    assert_eq!(text_of(&document), vec!["one", "two", ""]);
    assert_eq!(document.len(), 3);
    assert!(document.row(2).unwrap().is_empty());
    assert!(document.is_dirty());
}

#[test]
fn line_break_in_an_empty_document_adds_one_empty_row() {
    let mut document = Document::default();
    document.insert(&at(5, 0), '\n');
    assert_eq!(text_of(&document), vec![""]);
}

#[test]
fn delete_removes_one_character() {
    let mut document = document_of(&["hello", "world"]);
    document.delete(&at(1, 0));
    assert_eq!(text_of(&document), vec!["hllo", "world"]);
    document.delete(&at(4, 1));
    assert_eq!(text_of(&document), vec!["hllo", "worl"]);
    assert!(document.is_dirty());
}

#[test]
fn delete_at_the_end_of_a_row_joins_the_next() {
    let mut document = document_of(&["foo", "bar", "baz"]);
    document.delete(&at(3, 0));
    assert_eq!(text_of(&document), vec!["foobar", "baz"]);
    assert_eq!(document.len(), 2);
}

#[test]
fn delete_at_the_end_of_the_last_row_keeps_the_text() {
    let mut document = document_of(&["foo", "bar"]);
    document.delete(&at(3, 1));
    assert_eq!(text_of(&document), vec!["foo", "bar"]);
    assert!(document.is_dirty());
}

#[test]
fn delete_past_the_end_of_a_row_keeps_the_text() {
    let mut document = document_of(&["foo", "bar"]);
    document.delete(&at(4, 0));
    assert_eq!(text_of(&document), vec!["foo", "bar"]);
    assert!(document.is_dirty());
}

#[test]
fn insert_then_delete_restores_the_text() {
    let lines = ["alpha", "", "gamma δ"];
    for y in 0..lines.len() {
        for x in 0..=lines[y].chars().count() {
            for c in ['q', '\n', 'é'] {
                let mut document = document_of(&lines);
                document.insert(&at(x, y), c);
                document.delete(&at(x, y));
                assert_eq!(text_of(&document), lines.to_vec());
                assert!(document.is_dirty());
            }
        }
    }
}

#[test]
fn insert_then_delete_at_a_new_last_row_leaves_an_empty_row() {
    let mut document = document_of(&["one"]);
    document.insert(&at(0, 1), 'x');
    document.delete(&at(0, 1));
    assert_eq!(text_of(&document), vec!["one", ""]);
}

#[test]
fn edits_keep_the_marks_of_the_touched_row_current() {
    let mut document = Document::from_text("main.rs", "ab\ncd\n");
    document.insert(&at(1, 0), '7');
    let row = document.row(0).unwrap();
    assert_eq!(row.highlighting().len(), row.len());
    assert_eq!(
        row.highlighting().clone(),
        vec![textbuf::Highlight::Plain, textbuf::Highlight::Number, textbuf::Highlight::Plain]
    );
    document.insert(&at(0, 2), '4');
    assert_eq!(document.row(2).unwrap().highlighting().clone(), vec![textbuf::Highlight::Number]);
    document.insert(&at(2, 0), '\n');
    assert_eq!(
        document.row(0).unwrap().highlighting().clone(),
        vec![textbuf::Highlight::Plain, textbuf::Highlight::Number]
    );
    assert_eq!(document.row(1).unwrap().highlighting().clone(), vec![textbuf::Highlight::Plain]);
    document.delete(&at(2, 0));
    assert_eq!(text_of(&document), vec!["a7b", "cd", "4"]);
    assert_eq!(document.row(0).unwrap().highlighting().len(), 3);
}

#[test]
fn dirty_flag_follows_edits_and_saves() {
    let mut document = Document::from_text("notes.txt", "one\ntwo\n");
    assert!(!document.is_dirty());
    document.insert(&at(0, 0), 'x');
    assert!(document.is_dirty());

    let (state, action) = document.save_step(SaveState::Idle, SaveEvent::Start);
    assert!(matches!(action, SaveAction::Create(ref name) if name == "notes.txt"));
    let (state, action) = document.save_step(state, SaveEvent::Succeeded);
    assert!(matches!(action, SaveAction::Write(_)));
    assert!(document.is_dirty());
    let (state, action) = document.save_step(state, SaveEvent::Failed);
    assert_eq!(state, SaveState::Finished);
    assert!(matches!(action, SaveAction::Abandon));
    assert!(document.is_dirty());

    let (state, _) = document.save_step(SaveState::Idle, SaveEvent::Start);
    let (state, _) = document.save_step(state, SaveEvent::Succeeded);
    let (state, _) = document.save_step(state, SaveEvent::Succeeded);
    assert_eq!(state, SaveState::Writing(1));
    assert!(document.is_dirty());
    let (state, action) = document.save_step(state, SaveEvent::Succeeded);
    assert_eq!(state, SaveState::Finished);
    assert!(matches!(action, SaveAction::Complete));
    assert!(!document.is_dirty());

    document.delete(&at(0, 0));
    assert!(document.is_dirty());
}

#[test]
fn set_file_name_changes_only_the_name() {
    let mut document = document_of(&["let x = 1;"]);
    document.set_file_name(Some("main.rs".to_string()));
    assert_eq!(document.file_name.as_deref(), Some("main.rs"));
    assert_eq!(document.file_type(), "No filetype");
    assert!(!document.is_dirty());
    assert_eq!(text_of(&document), vec!["let x = 1;"]);
    document.set_file_name(None);
    assert!(document.file_name.is_none());
}
