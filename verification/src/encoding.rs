//! UTF-8 encoding of characters, as the bytes of a text file hold them.

use vstd::prelude::*;
use vstd::utf8::{encode_scalar, encode_utf8};

verus! {

/// Encoding distributes over concatenation.
pub proof fn lemma_encode_utf8_concat(a: Seq<char>, b: Seq<char>)
    ensures
        encode_utf8(a + b) == encode_utf8(a) + encode_utf8(b),
    decreases a.len(),
{
    if a.len() > 0 {
        assert((a + b).drop_first() =~= a.drop_first() + b);
        lemma_encode_utf8_concat(a.drop_first(), b);
    }
}

/// The encoding of a single character is that of its scalar value.
pub proof fn lemma_encode_utf8_single(c: char)
    ensures
        encode_utf8(seq![c]) == encode_scalar(c as u32),
{
    assert(encode_utf8(seq![c].drop_first()) =~= Seq::<u8>::empty());
}

/// Appends the UTF-8 encoding of `c` to `out`: one byte for a scalar value
/// up to `0x7F`, two up to `0x7FF`, three up to `0xFFFF`, four above.
pub fn push_utf8(out: &mut Vec<u8>, c: char)
    ensures
        final(out)@ == old(out)@ + encode_scalar(c as u32),
{
    let v: u32 = c as u32;
    if v <= 0x7F {
        out.push((v & 0x7F) as u8);
    } else if v <= 0x7FF {
        out.push(0xC0 | ((v >> 6) & 0x1F) as u8);
        out.push(0x80 | (v & 0x3F) as u8);
    } else if v <= 0xFFFF {
        out.push(0xE0 | ((v >> 12) & 0x0F) as u8);
        out.push(0x80 | ((v >> 6) & 0x3F) as u8);
        out.push(0x80 | (v & 0x3F) as u8);
    } else {
        out.push(0xF0 | ((v >> 18) & 0x07) as u8);
        out.push(0x80 | ((v >> 12) & 0x3F) as u8);
        out.push(0x80 | ((v >> 6) & 0x3F) as u8);
        out.push(0x80 | (v & 0x3F) as u8);
    }
}

/// Appends the UTF-8 encoding of `chars` to `out`.
pub fn extend_utf8(out: &mut Vec<u8>, chars: &Vec<char>)
    ensures
        final(out)@ == old(out)@ + encode_utf8(chars@),
{
    let mut i: usize = 0;
    while i < chars.len()
        invariant
            i <= chars.len(),
            out@ == old(out)@ + encode_utf8(chars@.take(i as int)),
        decreases chars.len() - i,
    {
        push_utf8(out, chars[i]);
        proof {
            let head = chars@.take(i as int);
            lemma_encode_utf8_concat(head, seq![chars@[i as int]]);
            lemma_encode_utf8_single(chars@[i as int]);
            assert(chars@.take(i + 1) =~= head + seq![chars@[i as int]]);
        }
        i += 1;
    }
    assert(chars@.take(chars@.len() as int) =~= chars@);
}

/// The UTF-8 encoding of `chars`.
pub fn encode_chars(chars: &Vec<char>) -> (bytes: Vec<u8>)
    ensures
        bytes@ == encode_utf8(chars@),
{
    let mut bytes: Vec<u8> = Vec::new();
    extend_utf8(&mut bytes, chars);
    bytes
}

} // verus!
