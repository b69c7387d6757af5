//! The layout of a text file: lines, each ended by one line break, and the
//! way back from a text to its lines.
//!
//! Only the line feed breaks a line. A carriage return is a character of the
//! line it stands in, so that every line sequence survives being written and
//! read again. A text may leave its last line without a break; a text that
//! ends in a break has no empty line after it.

use vstd::prelude::*;

verus! {

/// `line` holds no line break.
pub open spec fn is_single_line(line: Seq<char>) -> bool {
    forall|i: int| 0 <= i < line.len() ==> line[i] != '\n'
}

/// None of `lines` holds a line break.
pub open spec fn all_single_lines(lines: Seq<Seq<char>>) -> bool {
    forall|i: int| 0 <= i < lines.len() ==> is_single_line(#[trigger] lines[i])
}

/// The text of a file that holds `lines`: each line followed by a line break.
pub open spec fn join_lines(lines: Seq<Seq<char>>) -> Seq<char>
    decreases lines.len(),
{
    if lines.len() == 0 {
        Seq::empty()
    } else {
        join_lines(lines.drop_last()) + lines.last().push('\n')
    }
}

/// The characters of `text` that follow its last line break.
pub open spec fn open_line(text: Seq<char>) -> Seq<char>
    decreases text.len(),
{
    if text.len() == 0 || text.last() == '\n' {
        Seq::empty()
    } else {
        open_line(text.drop_last()).push(text.last())
    }
}

/// The lines of `text` that a line break ends.
pub open spec fn ended_lines(text: Seq<char>) -> Seq<Seq<char>>
    decreases text.len(),
{
    if text.len() == 0 {
        Seq::empty()
    } else if text.last() == '\n' {
        ended_lines(text.drop_last()).push(open_line(text.drop_last()))
    } else {
        ended_lines(text.drop_last())
    }
}

/// The lines of `text`: those that a break ends, and what follows the last
/// break unless that is empty.
pub open spec fn split_lines(text: Seq<char>) -> Seq<Seq<char>> {
    if open_line(text).len() == 0 {
        ended_lines(text)
    } else {
        ended_lines(text).push(open_line(text))
    }
}

/// `text`, with a line break added unless it is empty or ends in one.
pub open spec fn with_final_break(text: Seq<char>) -> Seq<char> {
    if text.len() == 0 || text.last() == '\n' {
        text
    } else {
        text.push('\n')
    }
}

/// Joining one more line appends it and its break.
pub proof fn lemma_join_push(lines: Seq<Seq<char>>, line: Seq<char>)
    ensures
        join_lines(lines.push(line)) == join_lines(lines) + line.push('\n'),
{
    assert(lines.push(line).drop_last() =~= lines);
}

/// What follows the last break holds no break, and neither does any ended line.
pub proof fn lemma_split_parts_single(text: Seq<char>)
    ensures
        is_single_line(open_line(text)),
        all_single_lines(ended_lines(text)),
        open_line(text).len() == 0 <==> (text.len() == 0 || text.last() == '\n'),
    decreases text.len(),
{
    if text.len() > 0 {
        lemma_split_parts_single(text.drop_last());
    }
}

/// The ended lines, joined, and what follows the last break make up the text.
pub proof fn lemma_split_parts_rejoin(text: Seq<char>)
    ensures
        join_lines(ended_lines(text)) + open_line(text) == text,
    decreases text.len(),
{
    if text.len() > 0 {
        let head = text.drop_last();
        lemma_split_parts_rejoin(head);
        if text.last() == '\n' {
            lemma_join_push(ended_lines(head), open_line(head));
        } else {
            assert(head.push(text.last()) =~= text);
        }
    }
}

/// Splitting a text yields lines without breaks which, joined, give the text
/// back, completed by a final break where it lacked one.
pub proof fn lemma_split_then_join(text: Seq<char>)
    ensures
        all_single_lines(split_lines(text)),
        join_lines(split_lines(text)) == with_final_break(text),
{
    lemma_split_parts_single(text);
    lemma_split_parts_rejoin(text);
    if open_line(text).len() > 0 {
        lemma_join_push(ended_lines(text), open_line(text));
    }
}

/// Text without a break, added to the end, only extends what follows the last break.
pub proof fn lemma_split_parts_extend(text: Seq<char>, line: Seq<char>)
    requires
        is_single_line(line),
    ensures
        ended_lines(text + line) == ended_lines(text),
        open_line(text + line) == open_line(text) + line,
    decreases line.len(),
{
    if line.len() > 0 {
        let shorter = line.drop_last();
        lemma_split_parts_extend(text, shorter);
        assert((text + line).drop_last() =~= text + shorter);
    }
}

/// The joined text of lines without breaks ends every one of them, and nothing follows.
pub proof fn lemma_split_parts_of_join(lines: Seq<Seq<char>>)
    requires
        all_single_lines(lines),
    ensures
        ended_lines(join_lines(lines)) == lines,
        open_line(join_lines(lines)).len() == 0,
    decreases lines.len(),
{
    if lines.len() > 0 {
        let head = lines.drop_last();
        let line = lines.last();
        lemma_split_parts_of_join(head);
        lemma_split_parts_extend(join_lines(head), line);
        assert(join_lines(lines).drop_last() =~= join_lines(head) + line);
    }
}

/// Lines without breaks survive being joined into a text and split again.
pub proof fn lemma_join_then_split(lines: Seq<Seq<char>>)
    requires
        all_single_lines(lines),
    ensures
        split_lines(join_lines(lines)) == lines,
{
    lemma_split_parts_of_join(lines);
}

} // verus!
