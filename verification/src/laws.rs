//! Laws that relate the operations on rows and documents to one another.

use vstd::prelude::*;
use vstd::utf8::{
    decode_utf8, encode_utf8, encode_utf8_decode_utf8, encode_utf8_valid_utf8, valid_utf8,
};
use crate::document::DocumentView;
use crate::encoding::{lemma_encode_utf8_concat, lemma_encode_utf8_single};
use crate::highlighting::HighlightingOptions;
use crate::lines::{
    all_single_lines, is_single_line, join_lines, lemma_join_then_split, split_lines,
};
use crate::position::{Position, SearchDirection};
use crate::row::{is_line_find_result, RowView};
use crate::save::{file_bytes, line_bytes, SaveEvent, SaveState};

verus! {

/// A split takes a row apart into two pieces that, appended again, give the
/// text of the row back, at whatever column the split is made.
pub proof fn lemma_split_then_append(row: RowView, at: int)
    requires
        0 <= at,
    ensures
        row.split_head(at).append(row.split_tail(at)).content == row.content,
{
}

/// Within a row, deleting at the column where a character was just put in
/// gives the text of the row back.
pub proof fn lemma_row_insert_then_delete(row: RowView, at: int, c: char)
    requires
        0 <= at <= row.content.len(),
    ensures
        row.insert(at, c).delete(at).content == row.content,
{
}

/// Every operation on a row leaves it either without marks or with marks
/// that were computed from its present text.
pub proof fn lemma_row_marks_never_stale(
    row: RowView,
    other: RowView,
    at: int,
    c: char,
    opts: HighlightingOptions,
    word: Option<Seq<char>>,
)
    ensures
        row.insert(at, c).marks.len() == 0,
        row.delete(at).marks.len() == 0,
        row.append(other).marks.len() == 0,
        row.split_head(at).marks.len() == 0,
        row.split_tail(at).marks.len() == 0,
        row.highlight(opts, word).is_current(),
{
    let marked = row.highlight(opts, word);
    assert(marked == RowView::rendered(marked.content, opts, word));
}

/// Putting a character in at a place within a row, or at the end of one, and
/// then deleting at the same place gives the text of the document back; the
/// document counts as edited all the same.
pub proof fn lemma_insert_then_delete(d: DocumentView, p: Position, c: char)
    requires
        p.y < d.lines.len(),
        p.x <= d.lines[p.y as int].content.len(),
    ensures
        d.insert(p, c).delete(p).text() == d.text(),
        d.insert(p, c).delete(p).dirty,
{
    let x = p.x as int;
    let line = d.lines[p.y as int].content;
    if c == '\n' {
        // The break parts the row in two, and the deletion meets the end of
        // the upper part.
        assert(line.take(x) + line.skip(x) =~= line);
    } else {
        assert(line.insert(x, c).remove(x) =~= line);
    }
}

/// The marks that a document gives a row are current.
pub proof fn lemma_refresh_is_current(d: DocumentView, row: RowView)
    ensures
        d.refresh(row).is_current(),
        d.fresh(row.content).is_current(),
        d.refresh(row).content == row.content,
{
    let marked = d.refresh(row);
    assert(marked == RowView::rendered(marked.content, d.options(), None));
}

/// An empty row needs no marks: marked or not, it is the same row.
pub proof fn lemma_fresh_empty(d: DocumentView)
    ensures
        d.fresh(Seq::empty()) == RowView::raw(Seq::empty()),
{
    assert(d.fresh(Seq::empty()).marks =~= Seq::empty());
}

/// Putting a character in keeps a document well formed.
pub proof fn lemma_insert_keeps_wf(d: DocumentView, at: Position, c: char)
    requires
        d.wf(),
    ensures
        d.insert(at, c).wf(),
{
    let after = d.insert(at, c);
    let x = at.x as int;
    assert forall|k: int| 0 <= k < after.lines.len() implies is_single_line(
        (#[trigger] after.lines[k]).content,
    ) && after.lines[k].is_current() by {
        // Row `k` is a row of `d`, or one that was just marked.
        if at.y == d.lines.len() {
            lemma_refresh_is_current(d, RowView::raw(Seq::empty()));
            lemma_refresh_is_current(d, RowView::raw(seq![c]));
        } else if at.y < d.lines.len() {
            let row = d.lines[at.y as int];
            lemma_refresh_is_current(d, row.split_head(x));
            lemma_refresh_is_current(d, row.split_tail(x));
            lemma_refresh_is_current(d, row.insert(x, c));
        }
    }
}

/// Deleting keeps a document well formed.
pub proof fn lemma_delete_keeps_wf(d: DocumentView, at: Position)
    requires
        d.wf(),
    ensures
        d.delete(at).wf(),
{
    let after = d.delete(at);
    assert forall|k: int| 0 <= k < after.lines.len() implies is_single_line(
        (#[trigger] after.lines[k]).content,
    ) && after.lines[k].is_current() by {
        // Row `k` is a row of `d`, or one that was just marked.
        if at.y < d.lines.len() {
            let row = d.lines[at.y as int];
            lemma_refresh_is_current(d, row.delete(at.x as int));
            if at.y + 1 < d.lines.len() {
                lemma_refresh_is_current(d, row.append(d.lines[at.y + 1]));
            }
        }
    }
}

/// Marking every row anew keeps a document well formed and its text as it is.
pub proof fn lemma_highlight_keeps_wf(d: DocumentView, word: Option<Seq<char>>)
    requires
        d.wf(),
    ensures
        d.highlight(word).wf(),
        d.highlight(word).text() == d.text(),
{
    let after = d.highlight(word);
    assert forall|k: int| 0 <= k < after.lines.len() implies is_single_line(
        (#[trigger] after.lines[k]).content,
    ) && after.lines[k].is_current() by {
        assert(after.lines[k] == RowView::rendered(after.lines[k].content, d.options(), word));
    }
}

/// A step of a save keeps a document well formed and its text as it is.
pub proof fn lemma_save_step_keeps_wf(d: DocumentView, state: SaveState, event: SaveEvent)
    requires
        d.wf(),
    ensures
        d.save_step(state, event).document.wf(),
        d.save_step(state, event).document.text() == d.text(),
{
    let after = d.save_step(state, event).document;
    assert forall|k: int| 0 <= k < after.lines.len() implies is_single_line(
        (#[trigger] after.lines[k]).content,
    ) && after.lines[k].is_current() && after.lines[k].content == d.lines[k].content by {
        // Row `k` is as it was, or was just marked.
        lemma_refresh_is_current(d, d.lines[k]);
    }
}

/// The joined text of the lines from `y` on begins with line `y` and its break.
pub proof fn lemma_join_lines_from(lines: Seq<Seq<char>>, y: int)
    requires
        0 <= y < lines.len(),
    ensures
        join_lines(lines.skip(y)) == lines[y].push('\n') + join_lines(lines.skip(y + 1)),
    decreases lines.len() - y,
{
    let here = lines.skip(y);
    let below = lines.skip(y + 1);
    if y + 1 == lines.len() {
        assert(join_lines(here.drop_last()) =~= Seq::<char>::empty());
    } else {
        // Both texts end in the last line; what stands before it is settled
        // by the same claim on one line fewer.
        let shorter = lines.drop_last();
        lemma_join_lines_from(shorter, y);
        assert(here.drop_last() =~= shorter.skip(y));
        assert(below.drop_last() =~= shorter.skip(y + 1));
    }
}

/// A line break is encoded as the one byte that ends a line in a file.
pub proof fn lemma_line_bytes(line: Seq<char>)
    ensures
        encode_utf8(line.push('\n')) == line_bytes(line),
{
    lemma_encode_utf8_concat(line, seq!['\n']);
    lemma_encode_utf8_single('\n');
    assert(line.push('\n') =~= line + seq!['\n']);
    let v = '\n' as u32;
    assert((v & 0x7F) as u8 == 0x0Au8) by (bit_vector)
        requires
            v == 0x0A,
    ;
}

/// The bytes of the rows from `y` on begin with those of row `y`.
pub proof fn lemma_file_bytes_from(lines: Seq<Seq<char>>, y: int)
    requires
        0 <= y < lines.len(),
    ensures
        file_bytes(lines.skip(y)) == line_bytes(lines[y]) + file_bytes(lines.skip(y + 1)),
{
    lemma_join_lines_from(lines, y);
    lemma_encode_utf8_concat(lines[y].push('\n'), join_lines(lines.skip(y + 1)));
    lemma_line_bytes(lines[y]);
}

/// A save that goes on from the row just written hands out the bytes of the
/// rows below it, marks that row and those below anew, and in the end the
/// document no longer counts as edited.
pub proof fn lemma_run_from_row(d: DocumentView, y: usize)
    requires
        y < d.lines.len() <= usize::MAX,
    ensures
        d.run_to_end(SaveState::Writing(y)).bytes == file_bytes(d.text().skip(y + 1)),
        d.run_to_end(SaveState::Writing(y)).document == d.refreshed_from(y as int).cleaned(),
    decreases d.lines.len() - y,
{
    // The document once row `y` is marked, before the next row is handed out.
    let marked = d.with_lines(d.lines.update(y as int, d.refresh(d.lines[y as int])));
    assert(marked.text() =~= d.text());
    if y + 1 < d.lines.len() {
        lemma_run_from_row(marked, (y + 1) as usize);
        lemma_file_bytes_from(d.text(), y + 1);
        assert(marked.refreshed_from(y + 1).lines =~= d.refreshed_from(y as int).lines);
    } else {
        assert(marked.lines =~= d.refreshed_from(y as int).lines);
    }
}

/// A save in which every step succeeds, from the moment the file is there,
/// hands out the bytes of the file that holds the document's text, in
/// order. After it the file type is the one that the file name gives, every
/// row is marked under it with no word emphasised, the text is what it was,
/// and the document no longer counts as edited.
pub proof fn lemma_successful_save(d: DocumentView)
    requires
        d.lines.len() <= usize::MAX,
    ensures
        d.run_to_end(SaveState::Creating).bytes == file_bytes(d.text()),
        d.run_to_end(SaveState::Creating).document == d.retyped().highlight(None).cleaned(),
        d.run_to_end(SaveState::Creating).document.text() == d.text(),
        !d.run_to_end(SaveState::Creating).document.dirty,
{
    let typed = d.retyped();
    if d.lines.len() == 0 {
        assert(typed.highlight(None).lines =~= typed.lines);
    } else {
        lemma_run_from_row(typed, 0);
        lemma_file_bytes_from(d.text(), 0);
        assert(d.text().skip(0) =~= d.text());
        assert(typed.refreshed_from(0).lines =~= typed.highlight(None).lines);
    }
}

/// The bytes of a file that holds lines without breaks are valid UTF-8, and
/// the text that they encode splits into those very lines.
pub proof fn lemma_file_reads_back(lines: Seq<Seq<char>>)
    requires
        all_single_lines(lines),
    ensures
        valid_utf8(file_bytes(lines)),
        decode_utf8(file_bytes(lines)) == join_lines(lines),
        split_lines(decode_utf8(file_bytes(lines))) == lines,
{
    encode_utf8_valid_utf8(join_lines(lines));
    encode_utf8_decode_utf8(join_lines(lines));
    lemma_join_then_split(lines);
}

/// What a successful save hands out, read as a text and split into lines,
/// is the text of the document that was saved.
pub proof fn lemma_save_then_open(d: DocumentView)
    requires
        d.wf(),
        d.lines.len() <= usize::MAX,
    ensures
        valid_utf8(d.run_to_end(SaveState::Creating).bytes),
        split_lines(decode_utf8(d.run_to_end(SaveState::Creating).bytes)) == d.text(),
{
    lemma_successful_save(d);
    assert forall|y: int| 0 <= y < d.text().len() implies is_single_line(
        #[trigger] d.text()[y],
    ) by {
        assert(is_single_line(d.lines[y].content));
    }
    lemma_file_reads_back(d.text());
}

/// A search of one line has one result: what is found is settled by the
/// line, the query, the starting column and the direction.
pub proof fn lemma_line_find_result_unique(
    line: Seq<char>,
    query: Seq<char>,
    from: int,
    dir: SearchDirection,
    a: Option<usize>,
    b: Option<usize>,
)
    requires
        is_line_find_result(line, query, from, dir, a),
        is_line_find_result(line, query, from, dir, b),
    ensures
        a == b,
{
}

/// A search of a document has one result: what is found is settled by the
/// document, the query, the starting position and the direction.
pub proof fn lemma_find_result_unique(
    d: DocumentView,
    query: Seq<char>,
    from: Position,
    dir: SearchDirection,
    a: Option<Position>,
    b: Option<Position>,
)
    requires
        d.is_find_result(query, from, dir, a),
        d.is_find_result(query, from, dir, b),
    ensures
        a == b,
{
}

} // verus!
