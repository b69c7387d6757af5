//! The document: an ordered sequence of rows that is edited by position.

use vstd::prelude::*;
use crate::filetype::FileType;
use crate::highlighting::{chars_view, word_view, HighlightingOptions};
use crate::laws::{
    lemma_delete_keeps_wf, lemma_fresh_empty, lemma_highlight_keeps_wf, lemma_insert_keeps_wf,
    lemma_save_step_keeps_wf,
};
use crate::lines::{ended_lines, is_single_line, lemma_split_then_join, open_line, split_lines};
use crate::position::{Position, SearchDirection};
use crate::row::{line_hit, Row, RowView};
use crate::save::{SaveAction, SaveActionView, SaveEvent, SaveState, LINE_BREAK};
use crate::text::to_chars;

verus! {

/// What a document is to a caller.
pub struct DocumentView {
    /// The rows, top to bottom.
    pub lines: Seq<RowView>,
    /// The name of the backing file, if there is one.
    pub file_name: Option<Seq<char>>,
    /// Whether the text was edited since it was last opened or saved.
    pub dirty: bool,
    /// The file type that selects the rule set for the marks.
    pub file_type: FileType,
}

impl DocumentView {
    /// The text of every row, top to bottom.
    pub open spec fn text(self) -> Seq<Seq<char>> {
        Seq::new(self.lines.len(), |y: int| self.lines[y].content)
    }

    /// The rule set in force.
    pub open spec fn options(self) -> HighlightingOptions {
        self.file_type.options()
    }

    /// A row that holds `content`, marked under the rule set in force with no
    /// word emphasised.
    pub open spec fn fresh(self, content: Seq<char>) -> RowView {
        RowView::rendered(content, self.options(), None)
    }

    /// `row`, marked anew under the rule set in force with no word emphasised.
    pub open spec fn refresh(self, row: RowView) -> RowView {
        row.highlight(self.options(), None)
    }

    /// No row holds a line break, and the marks of every row were computed
    /// from its present text.
    pub open spec fn wf(self) -> bool {
        forall|y: int|
            0 <= y < self.lines.len() ==> is_single_line((#[trigger] self.lines[y]).content)
                && self.lines[y].is_current()
    }

    /// The same document with other rows.
    pub open spec fn with_lines(self, lines: Seq<RowView>) -> DocumentView {
        DocumentView { lines, ..self }
    }

    /// The same document, marked as edited.
    pub open spec fn touched(self) -> DocumentView {
        DocumentView { dirty: true, ..self }
    }

    /// The document after a line break was put in at `at`. Past the place for
    /// a new last row nothing happens; at that place an empty row is added;
    /// within a row, the row keeps what stands before column `at.x` and a new
    /// row right below it takes the rest.
    pub open spec fn insert_newline(self, at: Position) -> DocumentView {
        if at.y > self.lines.len() {
            self
        } else if at.y == self.lines.len() {
            self.with_lines(self.lines.push(self.fresh(Seq::empty())))
        } else {
            let row = self.lines[at.y as int];
            self.with_lines(
                self.lines.update(at.y as int, self.refresh(row.split_head(at.x as int))).insert(
                    at.y + 1,
                    self.refresh(row.split_tail(at.x as int)),
                ),
            )
        }
    }

    /// The document after `c` was put in at `at`. Past the place for a new
    /// last row nothing happens. Otherwise the document counts as edited: a
    /// line break goes in as `insert_newline` says, another character starts
    /// a new last row or goes into row `at.y` before column `at.x`.
    pub open spec fn insert(self, at: Position, c: char) -> DocumentView {
        if at.y > self.lines.len() {
            self
        } else if c == '\n' {
            self.touched().insert_newline(at)
        } else if at.y == self.lines.len() {
            self.touched().with_lines(self.lines.push(self.fresh(seq![c])))
        } else {
            let row = self.lines[at.y as int];
            self.touched().with_lines(
                self.lines.update(at.y as int, self.refresh(row.insert(at.x as int, c))),
            )
        }
    }

    /// The document after a deletion at `at`. Outside the rows nothing
    /// happens. Otherwise the document counts as edited: at the end of a row
    /// that has a row below it the two are joined, elsewhere the character at
    /// column `at.x` goes, if there is one.
    pub open spec fn delete(self, at: Position) -> DocumentView {
        if at.y >= self.lines.len() {
            self
        } else {
            let row = self.lines[at.y as int];
            if at.x == row.content.len() && at.y + 1 < self.lines.len() {
                self.touched().with_lines(
                    self.lines.update(
                        at.y as int,
                        self.refresh(row.append(self.lines[at.y + 1])),
                    ).remove(at.y + 1),
                )
            } else {
                self.touched().with_lines(
                    self.lines.update(at.y as int, self.refresh(row.delete(at.x as int))),
                )
            }
        }
    }

    /// The document with every row marked anew, `word` emphasised.
    pub open spec fn highlight(self, word: Option<Seq<char>>) -> DocumentView {
        self.with_lines(
            Seq::new(self.lines.len(), |y: int| self.lines[y].highlight(self.options(), word)),
        )
    }

    /// The column from which row `y` is searched: the column of `from` in the
    /// row of `from`, the near end of the row in every other one.
    pub open spec fn search_start(self, from: Position, dir: SearchDirection, y: int) -> int {
        if y == from.y {
            from.x as int
        } else {
            match dir {
                SearchDirection::Forward => 0,
                SearchDirection::Backward => self.lines[y].content.len() as int,
            }
        }
    }

    /// A search for `query` that starts at `from` and runs in direction `dir`
    /// may stop at `p`: `from` lies in a row, the row of `p` is that row or
    /// one that the search reaches after it, and the search of that row may
    /// stop at column `p.x`.
    pub open spec fn hit(
        self,
        query: Seq<char>,
        from: Position,
        dir: SearchDirection,
        p: Position,
    ) -> bool {
        &&& from.y < self.lines.len()
        &&& p.y < self.lines.len()
        &&& match dir {
            SearchDirection::Forward => from.y <= p.y,
            SearchDirection::Backward => p.y <= from.y,
        }
        &&& line_hit(
            self.lines[p.y as int].content,
            query,
            self.search_start(from, dir, p.y as int),
            dir,
            p.x as int,
        )
    }

    /// What a search returns: the hit that is met first, if there is any hit.
    pub open spec fn is_find_result(
        self,
        query: Seq<char>,
        from: Position,
        dir: SearchDirection,
        found: Option<Position>,
    ) -> bool {
        match found {
            Some(p) => {
                &&& self.hit(query, from, dir, p)
                &&& forall|other: Position| #[trigger]
                    self.hit(query, from, dir, other) ==> not_after(dir, p, other)
            },
            None => forall|other: Position| !#[trigger] self.hit(query, from, dir, other),
        }
    }
}

/// A search in direction `dir` meets `a` no later than `b`.
pub open spec fn not_after(dir: SearchDirection, a: Position, b: Position) -> bool {
    match dir {
        SearchDirection::Forward => a.y < b.y || (a.y == b.y && a.x <= b.x),
        SearchDirection::Backward => a.y > b.y || (a.y == b.y && a.x >= b.x),
    }
}

/// The text of an open file, held as rows.
pub struct Document {
    rows: Vec<Row>,
    pub file_name: Option<String>,
    dirty: bool,
    file_type: FileType,
}

/// The characters of an optional name.
pub open spec fn name_view(name: Option<String>) -> Option<Seq<char>> {
    match name {
        Some(n) => Some(n@),
        None => None,
    }
}

impl View for Document {
    type V = DocumentView;

    closed spec fn view(&self) -> DocumentView {
        DocumentView {
            lines: Seq::new(self.rows@.len(), |y: int| self.rows@[y]@),
            file_name: name_view(self.file_name),
            dirty: self.dirty,
            file_type: self.file_type,
        }
    }
}

impl Default for Document {
    /// An empty document without a file name.
    fn default() -> (document: Document)
        ensures
            document@.lines.len() == 0,
            document@.file_name is None,
            !document@.dirty,
            document@.file_type == FileType::Plain,
            document@.wf(),
    {
        Document { rows: Vec::new(), file_name: None, dirty: false, file_type: FileType::Plain }
    }
}

impl Document {
    /// The name under which the document's file type is shown.
    pub fn file_type(&self) -> (name: String)
        ensures
            name@ == self@.file_type.label(),
    {
        self.file_type.name()
    }

    /// The row with the given index, if there is one.
    pub fn row(&self, index: usize) -> (row: Option<&Row>)
        ensures
            index < self@.lines.len() ==> row is Some && row->0@ == self@.lines[index as int],
            index >= self@.lines.len() ==> row is None,
    {
        if index < self.rows.len() {
            Some(&self.rows[index])
        } else {
            None
        }
    }

    /// Whether the document has no rows.
    pub fn is_empty(&self) -> (empty: bool)
        ensures
            empty == (self@.lines.len() == 0),
    {
        self.rows.len() == 0
    }

    /// The number of rows.
    pub fn len(&self) -> (len: usize)
        ensures
            len == self@.lines.len(),
    {
        self.rows.len()
    }

    /// Gives the document another file name, or none. The file type follows
    /// at the next save.
    pub fn set_file_name(&mut self, file_name: Option<String>)
        ensures
            final(self)@ == (DocumentView { file_name: name_view(file_name), ..old(self)@ }),
    {
        self.file_name = file_name;
    }

    /// Whether the text was edited since it was last opened or saved.
    pub fn is_dirty(&self) -> (dirty: bool)
        ensures
            dirty == self@.dirty,
    {
        self.dirty
    }

    /// Puts a line break in at `at`.
    fn insert_newline(&mut self, at: &Position)
        ensures
            final(self)@ == old(self)@.insert_newline(*at),
            at.y == old(self)@.lines.len() ==> final(self)@.lines == old(self)@.lines.push(
                RowView::raw(Seq::empty()),
            ),
    {
        if at.y > self.rows.len() {
            return;
        }
        let opts = self.file_type.highlighting_options();
        if at.y == self.rows.len() {
            self.rows.push(Row::default());
            proof {
                lemma_fresh_empty(old(self)@);
                assert(self@.lines =~= old(self)@.insert_newline(*at).lines);
            }
            return;
        }
        let mut rest = self.rows[at.y].split(at.x);
        self.rows[at.y].highlight_chars(opts, None);
        rest.highlight_chars(opts, None);
        self.rows.insert(at.y + 1, rest);
        assert(self@.lines =~= old(self)@.insert_newline(*at).lines);
    }

    /// Puts the character `c` in at `at`: into row `at.y` before column
    /// `at.x`, or at the end of the row where `at.x` lies beyond it. At the
    /// place for a new last row the character starts that row, whatever
    /// `at.x` is. A line break parts row `at.y` in two at column `at.x`.
    ///
    /// A position past the place for a new last row is ignored. Every other
    /// insertion marks the document as edited. A line break at the place for
    /// a new last row adds one empty row and leaves the others alone.
    pub fn insert(&mut self, at: &Position, c: char)
        ensures
            final(self)@ == old(self)@.insert(*at, c),
            at.y > old(self)@.lines.len() ==> final(self)@ == old(self)@,
            at.y <= old(self)@.lines.len() ==> final(self)@.dirty,
            c == '\n' && at.y == old(self)@.lines.len() ==> final(self)@.lines == old(
                self,
            )@.lines.push(RowView::raw(Seq::empty())),
            old(self)@.wf() ==> final(self)@.wf(),
    {
        proof {
            if old(self)@.wf() {
                lemma_insert_keeps_wf(old(self)@, *at, c);
            }
        }
        if at.y > self.rows.len() {
            return;
        }
        self.dirty = true;
        if c == '\n' {
            self.insert_newline(at);
            return;
        }
        let opts = self.file_type.highlighting_options();
        if at.y == self.rows.len() {
            let mut row = Row::default();
            row.insert(0, c);
            row.highlight_chars(opts, None);
            self.rows.push(row);
            assert(Seq::<char>::empty().insert(0, c) =~= seq![c]);
            assert(self@.lines =~= old(self)@.insert(*at, c).lines);
        } else {
            self.rows[at.y].insert(at.x, c);
            self.rows[at.y].highlight_chars(opts, None);
            assert(self@.lines =~= old(self)@.insert(*at, c).lines);
        }
    }

    /// Deletes at `at`: the character there, or the break between row `at.y`
    /// and the next where `at` is the end of the row.
    ///
    /// A position outside the rows is ignored. Every other deletion marks the
    /// document as edited, also where the row has no character at `at.x`.
    pub fn delete(&mut self, at: &Position)
        ensures
            final(self)@ == old(self)@.delete(*at),
            at.y >= old(self)@.lines.len() ==> final(self)@ == old(self)@,
            at.y < old(self)@.lines.len() ==> final(self)@.dirty,
            old(self)@.wf() ==> final(self)@.wf(),
    {
        proof {
            if old(self)@.wf() {
                lemma_delete_keeps_wf(old(self)@, *at);
            }
        }
        let len = self.rows.len();
        if at.y >= len {
            return;
        }
        self.dirty = true;
        let opts = self.file_type.highlighting_options();
        if at.x == self.rows[at.y].len() && at.y + 1 < len {
            let next = self.rows.remove(at.y + 1);
            self.rows[at.y].append(&next);
            self.rows[at.y].highlight_chars(opts, None);
            assert(self@.lines =~= old(self)@.delete(*at).lines);
        } else {
            self.rows[at.y].delete(at.x);
            self.rows[at.y].highlight_chars(opts, None);
            assert(self@.lines =~= old(self)@.delete(*at).lines);
        }
    }

    /// Marks every row anew under the rule set in force and emphasises the
    /// occurrences of `word`. The text is left as it is.
    pub fn highlight(&mut self, word: Option<&str>)
        ensures
            final(self)@ == old(self)@.highlight(word_view(word)),
            final(self)@.text() == old(self)@.text(),
            old(self)@.wf() ==> final(self)@.wf(),
    {
        proof {
            if old(self)@.wf() {
                lemma_highlight_keeps_wf(old(self)@, word_view(word));
            }
        }
        match word {
            Some(w) => {
                let chars = to_chars(w);
                self.highlight_rows(Some(&chars));
            },
            None => {
                self.highlight_rows(None);
            },
        }
    }

    fn highlight_rows(&mut self, word: Option<&Vec<char>>)
        ensures
            final(self)@ == old(self)@.highlight(chars_view(word)),
    {
        let opts = self.file_type.highlighting_options();
        let mut y: usize = 0;
        while y < self.rows.len()
            invariant
                y <= self.rows@.len(),
                self.rows@.len() == old(self).rows@.len(),
                self.file_name == old(self).file_name,
                self.dirty == old(self).dirty,
                self.file_type == old(self).file_type,
                opts == self.file_type.options(),
                forall|k: int|
                    0 <= k < y ==> (#[trigger] self.rows@[k])@ == RowView::rendered(
                        old(self).rows@[k]@.content,
                        opts,
                        chars_view(word),
                    ),
                forall|k: int| y <= k < self.rows@.len() ==> self.rows@[k] == old(self).rows@[k],
            decreases self.rows@.len() - y,
        {
            self.rows[y].highlight_chars(opts, word);
            y += 1;
        }
        assert(self@.lines =~= old(self)@.highlight(chars_view(word)).lines);
    }

    /// Searches for `query` from `at` on. Forward, the rows from `at.y` down
    /// are searched, the first from column `at.x` and the others from their
    /// start. Backward, the rows from `at.y` up are searched, the first for
    /// what ends at or before column `at.x` and the others from their end.
    /// The first occurrence met is returned. Nothing is found for an empty
    /// query or with `at` outside the rows; a row that ends before column
    /// `at.x` is passed over.
    pub fn find(&self, query: &str, at: &Position, direction: SearchDirection) -> (found: Option<
        Position,
    >)
        ensures
            self@.is_find_result(query@, *at, direction, found),
    {
        if at.y >= self.rows.len() {
            return None;
        }
        let needle = to_chars(query);
        let mut y: usize = at.y;
        let mut x: usize = at.x;
        match direction {
            SearchDirection::Forward => {
                while y < self.rows.len()
                    invariant
                        direction == SearchDirection::Forward,
                        needle@ == query@,
                        at.y <= y <= self.rows@.len(),
                        at.y < self.rows@.len(),
                        x == self@.search_start(*at, direction, y as int),
                        forall|p: Position| #[trigger]
                            self@.hit(query@, *at, direction, p) ==> y <= p.y,
                    decreases self.rows@.len() - y,
                {
                    match self.rows[y].find_chars(&needle, x, direction) {
                        Some(col) => {
                            return Some(Position { x: col, y });
                        },
                        None => {},
                    }
                    y += 1;
                    x = 0;
                }
                None
            },
            SearchDirection::Backward => {
                loop
                    invariant
                        direction == SearchDirection::Backward,
                        needle@ == query@,
                        y <= at.y < self.rows@.len(),
                        x == self@.search_start(*at, direction, y as int),
                        forall|p: Position| #[trigger]
                            self@.hit(query@, *at, direction, p) ==> p.y <= y,
                    decreases y,
                {
                    match self.rows[y].find_chars(&needle, x, direction) {
                        Some(col) => {
                            return Some(Position { x: col, y });
                        },
                        None => {},
                    }
                    if y == 0 {
                        return None;
                    }
                    y -= 1;
                    x = self.rows[y].len();
                }
            },
        }
    }

    /// The document that a file called `file_name` with the text `contents`
    /// opens as: the lines of the text as rows, marked under the rule set of
    /// the file's type, and not counted as edited.
    pub fn from_text(file_name: &str, contents: &str) -> (document: Document)
        ensures
            document@.text() == split_lines(contents@),
            document@.lines == Seq::new(
                split_lines(contents@).len(),
                |y: int| document@.fresh(split_lines(contents@)[y]),
            ),
            document@.file_name == Some(file_name@),
            document@.file_type == FileType::of_name(file_name@),
            !document@.dirty,
            document@.wf(),
    {
        let file_type = FileType::from(file_name);
        let opts = file_type.highlighting_options();
        let mut rows: Vec<Row> = Vec::new();
        let mut current: Vec<char> = Vec::new();
        for c in it: contents.chars()
            invariant
                it.seq() == contents@,
                opts == file_type.options(),
                current@ == open_line(it.seq().take(it.index())),
                rows@.len() == ended_lines(it.seq().take(it.index())).len(),
                forall|y: int|
                    0 <= y < rows@.len() ==> (#[trigger] rows@[y])@ == RowView::rendered(
                        ended_lines(it.seq().take(it.index()))[y],
                        opts,
                        None,
                    ),
        {
            proof {
                let before = it.seq().take(it.index());
                let after = it.seq().take(it.index() + 1);
                assert(after.drop_last() =~= before);
            }
            if c == '\n' {
                let mut row = Row::from_chars(current);
                row.highlight_chars(opts, None);
                rows.push(row);
                current = Vec::new();
            } else {
                current.push(c);
            }
        }
        proof {
            assert(contents@.take(contents@.len() as int) =~= contents@);
        }
        if current.len() > 0 {
            let mut row = Row::from_chars(current);
            row.highlight_chars(opts, None);
            rows.push(row);
        }
        let document = Document {
            rows,
            file_name: Some(file_name.to_owned()),
            dirty: false,
            file_type,
        };
        proof {
            lemma_split_then_join(contents@);
            assert(document@.text() =~= split_lines(contents@));
            assert(document@.lines =~= Seq::new(
                split_lines(contents@).len(),
                |y: int| document@.fresh(split_lines(contents@)[y]),
            ));
        }
        document
    }

    /// Takes a save one step further: decides from where the save stands and
    /// from what the caller reports what the caller is to do next, and brings
    /// the document up to date.
    ///
    /// A failure leaves the document as it is, so that it still counts as
    /// edited if it did. The save is complete only after the last row was
    /// written, and then the document no longer counts as edited; the one
    /// exception is a document without a file name, whose save is complete at
    /// once and changes nothing.
    pub fn save_step(&mut self, state: SaveState, event: SaveEvent) -> (next: (
        SaveState,
        SaveAction,
    ))
        ensures
            final(self)@ == old(self)@.save_step(state, event).document,
            next.0 == old(self)@.save_step(state, event).state,
            next.1@ == old(self)@.save_step(state, event).action,
            event == SaveEvent::Failed ==> final(self)@ == old(self)@ && next.1@
                == SaveActionView::Abandon,
            next.1@ == SaveActionView::Complete && state != SaveState::Idle ==> !final(self)@.dirty,
            final(self)@.text() == old(self)@.text(),
            old(self)@.wf() ==> final(self)@.wf(),
    {
        proof {
            if old(self)@.wf() {
                lemma_save_step_keeps_wf(old(self)@, state, event);
            }
        }
        match (state, event) {
            (SaveState::Idle, SaveEvent::Start) => {
                match &self.file_name {
                    Some(name) => (SaveState::Creating, SaveAction::Create(name.clone())),
                    None => (SaveState::Finished, SaveAction::Complete),
                }
            },
            (SaveState::Creating, SaveEvent::Succeeded) => {
                self.file_type =
                match &self.file_name {
                    Some(name) => FileType::from(name.as_str()),
                    None => FileType::Plain,
                };
                self.write_from(0)
            },
            (SaveState::Writing(y), SaveEvent::Succeeded) => {
                if y < self.rows.len() {
                    let opts = self.file_type.highlighting_options();
                    self.rows[y].highlight_chars(opts, None);
                    assert(self@.lines =~= old(self)@.lines.update(
                        y as int,
                        old(self)@.refresh(old(self)@.lines[y as int]),
                    ));
                    self.write_from(y + 1)
                } else {
                    (SaveState::Finished, SaveAction::Abandon)
                }
            },
            _ => (SaveState::Finished, SaveAction::Abandon),
        }
    }

    fn write_from(&mut self, y: usize) -> (next: (SaveState, SaveAction))
        ensures
            final(self)@ == old(self)@.write_from(y as int).document,
            next.0 == old(self)@.write_from(y as int).state,
            next.1@ == old(self)@.write_from(y as int).action,
    {
        if y < self.rows.len() {
            let mut bytes = self.rows[y].as_bytes();
            bytes.push(LINE_BREAK);
            (SaveState::Writing(y), SaveAction::Write(bytes))
        } else {
            self.dirty = false;
            (SaveState::Finished, SaveAction::Complete)
        }
    }
}

} // verus!
