//! One line of a document: its characters and the marks derived from them.

use vstd::prelude::*;
use vstd::utf8::encode_utf8;
use crate::encoding::encode_chars;
use crate::highlighting::{
    annotate, annotate_line, chars_view, word_view, Highlight, HighlightingOptions,
};
use crate::position::SearchDirection;
use crate::text::{matches_at, occurs_at, to_chars};

verus! {

/// The column up to which a line of `len` characters can be addressed by `at`.
pub open spec fn clamp_column(at: int, len: int) -> int {
    if at < len {
        at
    } else {
        len
    }
}

/// What a row is to a caller: its text and one mark per character, or no
/// marks at all while none have been computed for the present text.
pub struct RowView {
    pub content: Seq<char>,
    pub marks: Seq<Highlight>,
}

impl RowView {
    /// A row that holds `content` and no marks.
    pub open spec fn raw(content: Seq<char>) -> RowView {
        RowView { content, marks: Seq::empty() }
    }

    /// A row that holds `content` with the marks that `opts` and `word` give it.
    pub open spec fn rendered(
        content: Seq<char>,
        opts: HighlightingOptions,
        word: Option<Seq<char>>,
    ) -> RowView {
        RowView { content, marks: annotate(content, opts, word) }
    }

    /// The marks were computed from the present text, under some rule set and
    /// some choice of emphasised word.
    pub open spec fn is_current(self) -> bool {
        exists|opts: HighlightingOptions, word: Option<Seq<char>>|
            self == #[trigger] Self::rendered(self.content, opts, word)
    }

    /// The column at which `at` takes effect: `at` itself within the text,
    /// the end of the text beyond it.
    pub open spec fn column(self, at: int) -> int {
        clamp_column(at, self.content.len() as int)
    }

    /// The row after `c` went in before column `at`; the marks are gone.
    pub open spec fn insert(self, at: int, c: char) -> RowView {
        Self::raw(self.content.insert(self.column(at), c))
    }

    /// The row after the character at column `at` went, if there was one; the
    /// marks are gone.
    pub open spec fn delete(self, at: int) -> RowView {
        if 0 <= at < self.content.len() {
            Self::raw(self.content.remove(at))
        } else {
            Self::raw(self.content)
        }
    }

    /// The row after the text of `other` was added at its end; the marks are gone.
    pub open spec fn append(self, other: RowView) -> RowView {
        Self::raw(self.content + other.content)
    }

    /// What a split at column `at` leaves in the row.
    pub open spec fn split_head(self, at: int) -> RowView {
        Self::raw(self.content.take(self.column(at)))
    }

    /// What a split at column `at` takes out of the row.
    pub open spec fn split_tail(self, at: int) -> RowView {
        Self::raw(self.content.skip(self.column(at)))
    }

    /// The row with its marks computed anew.
    pub open spec fn highlight(
        self,
        opts: HighlightingOptions,
        word: Option<Seq<char>>,
    ) -> RowView {
        Self::rendered(self.content, opts, word)
    }
}

/// A search of `line` for `query` that starts at column `from` and runs in
/// direction `dir` may stop at column `col`: the query is not empty, the start
/// lies within the line, and the occurrence at `col` lies wholly on the side
/// of `from` that the direction looks at.
pub open spec fn line_hit(
    line: Seq<char>,
    query: Seq<char>,
    from: int,
    dir: SearchDirection,
    col: int,
) -> bool {
    &&& query.len() > 0
    &&& 0 <= from <= line.len()
    &&& occurs_at(line, query, col)
    &&& match dir {
        SearchDirection::Forward => from <= col,
        SearchDirection::Backward => col + query.len() <= from,
    }
}

/// Column `a` is met no later than column `b` by a search in direction `dir`.
pub open spec fn column_not_after(dir: SearchDirection, a: int, b: int) -> bool {
    match dir {
        SearchDirection::Forward => a <= b,
        SearchDirection::Backward => a >= b,
    }
}

/// What a search of one line returns: the hit that is met first, if there is any hit.
pub open spec fn is_line_find_result(
    line: Seq<char>,
    query: Seq<char>,
    from: int,
    dir: SearchDirection,
    found: Option<usize>,
) -> bool {
    match found {
        Some(col) => {
            &&& line_hit(line, query, from, dir, col as int)
            &&& forall|other: int| #[trigger]
                line_hit(line, query, from, dir, other) ==> column_not_after(dir, col as int, other)
        },
        None => forall|other: int| !#[trigger] line_hit(line, query, from, dir, other),
    }
}

/// A line of text together with its display marks.
pub struct Row {
    chars: Vec<char>,
    marks: Vec<Highlight>,
}

impl View for Row {
    type V = RowView;

    closed spec fn view(&self) -> RowView {
        RowView { content: self.chars@, marks: self.marks@ }
    }
}

impl Default for Row {
    /// The empty row.
    fn default() -> (row: Row)
        ensures
            row@ == RowView::raw(Seq::empty()),
    {
        Row { chars: Vec::new(), marks: Vec::new() }
    }
}

impl Row {
    /// A row that holds `text`, with no marks computed yet.
    pub fn from(text: &str) -> (row: Row)
        ensures
            row@ == RowView::raw(text@),
    {
        Row { chars: to_chars(text), marks: Vec::new() }
    }

    /// A row that holds `chars`, with no marks computed yet.
    pub fn from_chars(chars: Vec<char>) -> (row: Row)
        ensures
            row@ == RowView::raw(chars@),
    {
        Row { chars, marks: Vec::new() }
    }

    /// The number of characters.
    pub fn len(&self) -> (len: usize)
        ensures
            len == self@.content.len(),
    {
        self.chars.len()
    }

    /// Whether the row holds no character.
    pub fn is_empty(&self) -> (empty: bool)
        ensures
            empty == (self@.content.len() == 0),
    {
        self.chars.len() == 0
    }

    /// The characters of the row.
    pub fn chars(&self) -> (chars: &Vec<char>)
        ensures
            chars@ == self@.content,
    {
        &self.chars
    }

    /// The marks of the row: one per character once they have been computed
    /// for the present text, none before.
    pub fn highlighting(&self) -> (marks: &Vec<Highlight>)
        ensures
            marks@ == self@.marks,
    {
        &self.marks
    }

    /// Inserts `c` before column `at`, or at the end where `at` lies beyond it.
    /// The marks are dropped.
    pub fn insert(&mut self, at: usize, c: char)
        ensures
            final(self)@ == old(self)@.insert(at as int, c),
    {
        if at >= self.chars.len() {
            self.chars.push(c);
            assert(self.chars@ =~= old(self).chars@.insert(old(self).chars@.len() as int, c));
        } else {
            self.chars.insert(at, c);
        }
        self.marks = Vec::new();
    }

    /// Removes the character at column `at`; leaves the text as it is where
    /// `at` is at or past the end. The marks are dropped.
    pub fn delete(&mut self, at: usize)
        ensures
            final(self)@ == old(self)@.delete(at as int),
    {
        if at < self.chars.len() {
            self.chars.remove(at);
        }
        self.marks = Vec::new();
    }

    /// Appends the text of `other`. The marks are dropped.
    pub fn append(&mut self, other: &Row)
        ensures
            final(self)@ == old(self)@.append(other@),
    {
        let mut i: usize = 0;
        while i < other.chars.len()
            invariant
                i <= other.chars.len(),
                self.chars@ == old(self).chars@ + other.chars@.take(i as int),
            decreases other.chars.len() - i,
        {
            self.chars.push(other.chars[i]);
            i += 1;
        }
        assert(other.chars@.take(other.chars@.len() as int) =~= other.chars@);
        self.marks = Vec::new();
    }

    /// Keeps the characters before column `at` and returns the rest as a row
    /// of its own; with `at` beyond the end everything is kept. Neither row
    /// has marks afterwards.
    pub fn split(&mut self, at: usize) -> (rest: Row)
        ensures
            final(self)@ == old(self)@.split_head(at as int),
            rest@ == old(self)@.split_tail(at as int),
    {
        let cut = if at < self.chars.len() {
            at
        } else {
            self.chars.len()
        };
        let tail = self.chars.split_off(cut);
        self.marks = Vec::new();
        Row { chars: tail, marks: Vec::new() }
    }

    /// Computes the marks anew from the present text.
    pub fn highlight(&mut self, opts: HighlightingOptions, word: Option<&str>)
        ensures
            final(self)@ == old(self)@.highlight(opts, word_view(word)),
    {
        match word {
            Some(w) => {
                let chars = to_chars(w);
                self.highlight_chars(opts, Some(&chars));
            },
            None => {
                self.highlight_chars(opts, None);
            },
        }
    }

    /// Computes the marks anew from the present text; the word is given as characters.
    pub fn highlight_chars(&mut self, opts: HighlightingOptions, word: Option<&Vec<char>>)
        ensures
            final(self)@ == old(self)@.highlight(opts, chars_view(word)),
    {
        self.marks = annotate_line(&self.chars, opts, word);
    }

    /// Searches the row for `query`. Forward, the occurrence is the first that
    /// starts at or after column `at`; backward, it is the last that ends at
    /// or before it. Nothing is found for an empty query or with `at` beyond
    /// the end of the row.
    pub fn find(&self, query: &str, at: usize, direction: SearchDirection) -> (found: Option<
        usize,
    >)
        ensures
            is_line_find_result(self@.content, query@, at as int, direction, found),
    {
        let needle = to_chars(query);
        self.find_chars(&needle, at, direction)
    }

    /// Searches the row for `query`, given as characters.
    pub fn find_chars(&self, query: &Vec<char>, at: usize, direction: SearchDirection) -> (found:
        Option<usize>)
        ensures
            is_line_find_result(self@.content, query@, at as int, direction, found),
    {
        let len = self.chars.len();
        let width = query.len();
        if at > len || width == 0 || width > len {
            return None;
        }
        match direction {
            SearchDirection::Forward => {
                let mut col: usize = at;
                while col <= len - width
                    invariant
                        direction == SearchDirection::Forward,
                        0 < width <= len,
                        len == self.chars@.len(),
                        width == query@.len(),
                        at <= col,
                        at <= len,
                        forall|other: int|
                            at <= other < col ==> !occurs_at(self.chars@, query@, other),
                    decreases len - col,
                {
                    if matches_at(&self.chars, query, col) {
                        return Some(col);
                    }
                    col += 1;
                }
                None
            },
            SearchDirection::Backward => {
                if at < width {
                    return None;
                }
                let mut col: usize = at - width;
                loop
                    invariant
                        direction == SearchDirection::Backward,
                        0 < width <= at <= len,
                        len == self.chars@.len(),
                        width == query@.len(),
                        col + width <= at,
                        forall|other: int|
                            col < other && other + width <= at ==> !occurs_at(
                                self.chars@,
                                query@,
                                other,
                            ),
                    decreases col,
                {
                    if matches_at(&self.chars, query, col) {
                        return Some(col);
                    }
                    if col == 0 {
                        return None;
                    }
                    col -= 1;
                }
            },
        }
    }

    /// The UTF-8 encoding of the text.
    pub fn as_bytes(&self) -> (bytes: Vec<u8>)
        ensures
            bytes@ == encode_utf8(self@.content),
    {
        encode_chars(&self.chars)
    }
}

} // verus!
