//! Display annotations: one mark per character of a line, derived from the
//! line's text, a rule set and an optional word to emphasise.

use vstd::prelude::*;
use crate::text::{matches_at, occurs_at};

verus! {

/// How one character is to be shown.
#[derive(Clone, Copy, Debug, PartialEq, Eq, Structural)]
pub enum Highlight {
    /// No special treatment.
    Plain,
    /// A decimal digit.
    Number,
    /// Part of a double-quoted stretch of text, quotes included.
    Quoted,
    /// Part of an occurrence of the emphasised word.
    Match,
}

/// The rules that a file type switches on.
#[derive(Clone, Copy, Debug, PartialEq, Eq, Structural)]
pub struct HighlightingOptions {
    pub numbers: bool,
    pub strings: bool,
}

/// The word of an optional string slice, as characters.
pub open spec fn word_view(word: Option<&str>) -> Option<Seq<char>> {
    match word {
        Some(w) => Some(w@),
        None => None,
    }
}

/// The word held by an optional list of characters.
pub open spec fn chars_view(word: Option<&Vec<char>>) -> Option<Seq<char>> {
    match word {
        Some(w) => Some(w@),
        None => None,
    }
}

/// `c` is one of the ten decimal digits of ASCII.
pub open spec fn is_digit(c: char) -> bool {
    '0' <= c <= '9'
}

/// The number of double quotes among the first `upto` characters of `line`.
pub open spec fn quotes_before(line: Seq<char>, upto: int) -> nat
    decreases upto,
{
    if upto <= 0 {
        0
    } else {
        quotes_before(line, upto - 1) + if line[upto - 1] == '"' {
            1nat
        } else {
            0nat
        }
    }
}

/// Column `at` is a double quote or lies after an odd number of them.
pub open spec fn in_string(line: Seq<char>, at: int) -> bool {
    line[at] == '"' || quotes_before(line, at) % 2 == 1
}

/// The mark that the rule set alone gives column `at`.
pub open spec fn base_mark(line: Seq<char>, opts: HighlightingOptions, at: int) -> Highlight {
    if opts.strings && in_string(line, at) {
        Highlight::Quoted
    } else if opts.numbers && is_digit(line[at]) {
        Highlight::Number
    } else {
        Highlight::Plain
    }
}

/// Column `at` is covered by some occurrence of the non-empty `word`.
pub open spec fn emphasized(line: Seq<char>, word: Option<Seq<char>>, at: int) -> bool {
    match word {
        Some(w) => w.len() > 0 && exists|start: int|
            #[trigger] occurs_at(line, w, start) && start <= at < start + w.len(),
        None => false,
    }
}

/// The mark of column `at`: emphasis wins over the rule set.
pub open spec fn mark_at(
    line: Seq<char>,
    opts: HighlightingOptions,
    word: Option<Seq<char>>,
    at: int,
) -> Highlight {
    if emphasized(line, word, at) {
        Highlight::Match
    } else {
        base_mark(line, opts, at)
    }
}

/// The marks of a whole line, one per character.
pub open spec fn annotate(
    line: Seq<char>,
    opts: HighlightingOptions,
    word: Option<Seq<char>>,
) -> Seq<Highlight> {
    Seq::new(line.len(), |at: int| mark_at(line, opts, word, at))
}

/// Computes the marks of `line` under `opts`, emphasising `word` where it occurs.
pub fn annotate_line(
    line: &Vec<char>,
    opts: HighlightingOptions,
    word: Option<&Vec<char>>,
) -> (marks: Vec<Highlight>)
    ensures
        marks@ == annotate(line@, opts, chars_view(word)),
{
    let ghost w = chars_view(word);
    let mut marks: Vec<Highlight> = Vec::new();
    // One past the last column covered by an occurrence that starts at or
    // before the current column; zero while none was seen.
    let mut covered: usize = 0;
    let mut odd_quotes = false;
    let mut at: usize = 0;
    while at < line.len()
        invariant
            at <= line.len(),
            w == chars_view(word),
            marks@.len() == at,
            forall|k: int| 0 <= k < at ==> marks@[k] == mark_at(line@, opts, w, k),
            odd_quotes == (quotes_before(line@, at as int) % 2 == 1),
            covered <= line.len(),
            w matches Some(v) ==> (v.len() > 0 ==> forall|s: int|
                0 <= s < at && #[trigger] occurs_at(line@, v, s) ==> s + v.len() <= covered),
            w matches Some(v) ==> (v.len() > 0 && covered > 0 ==> occurs_at(
                line@,
                v,
                covered - v.len(),
            ) && covered - v.len() < at),
        decreases line.len() - at,
    {
        let c = line[at];
        let mut hit = false;
        match word {
            Some(v) => {
                if v.len() > 0 {
                    if matches_at(line, v, at) {
                        covered = at + v.len();
                    }
                    hit = at < covered;
                    proof {
                        if !hit {
                            // An occurrence that covers this column starts at
                            // or before it, and so ends at or before `covered`.
                            assert forall|s: int|
                                #[trigger] occurs_at(line@, v@, s) && s <= at < s + v@.len()
                            implies false by {}
                        }
                    }
                }
            },
            None => {},
        }
        let quoted = c == '"' || odd_quotes;
        let mark = if hit {
            Highlight::Match
        } else if opts.strings && quoted {
            Highlight::Quoted
        } else if opts.numbers && c >= '0' && c <= '9' {
            Highlight::Number
        } else {
            Highlight::Plain
        };
        marks.push(mark);
        if c == '"' {
            odd_quotes = !odd_quotes;
        }
        at += 1;
    }
    marks
}

} // verus!
