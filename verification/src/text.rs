//! Character sequences: conversion from string slices and substring tests.

use vstd::prelude::*;

verus! {

/// `needle` occurs in `line` starting at column `at`.
pub open spec fn occurs_at(line: Seq<char>, needle: Seq<char>, at: int) -> bool {
    &&& 0 <= at
    &&& at + needle.len() <= line.len()
    &&& line.subrange(at, at + needle.len()) == needle
}

/// The characters of a string slice, in order.
pub fn to_chars(text: &str) -> (chars: Vec<char>)
    ensures
        chars@ == text@,
{
    let mut chars: Vec<char> = Vec::new();
    for c in it: text.chars()
        invariant
            chars@ == it.seq().take(it.index()),
            it.seq() == text@,
    {
        chars.push(c);
    }
    chars
}

/// Tests whether `needle` occurs in `line` at column `at`.
pub fn matches_at(line: &Vec<char>, needle: &Vec<char>, at: usize) -> (hit: bool)
    ensures
        hit == occurs_at(line@, needle@, at as int),
{
    if needle.len() > line.len() || at > line.len() - needle.len() {
        return false;
    }
    let mut k: usize = 0;
    while k < needle.len()
        invariant
            k <= needle.len(),
            at + needle.len() <= line.len(),
            forall|j: int| 0 <= j < k ==> line@[at + j] == needle@[j],
        decreases needle.len() - k,
    {
        if line[at + k] != needle[k] {
            assert(line@.subrange(at as int, at + needle.len())[k as int] != needle@[k as int]);
            return false;
        }
        k += 1;
    }
    assert(line@.subrange(at as int, at + needle.len()) =~= needle@);
    true
}

} // verus!
