//! How char indices and byte offsets of a text go together.

use vstd::prelude::*;
use vstd::utf8::{encode_scalar, encode_utf8};
use crate::rope::{byte_offset, char_at_byte, holds_byte};

verus! {

/// The encoding of two texts joined is their encodings joined.
pub proof fn lemma_encode_concat(a: Seq<char>, b: Seq<char>)
    ensures
        encode_utf8(a + b) == encode_utf8(a) + encode_utf8(b),
    decreases a.len(),
{
    if a.len() == 0 {
        assert(a + b =~= b);
        assert(encode_utf8(a) + encode_utf8(b) =~= encode_utf8(b));
    } else {
        assert((a + b).drop_first() =~= a.drop_first() + b);
        assert((a + b)[0] == a[0]);
        lemma_encode_concat(a.drop_first(), b);
        assert(encode_utf8(a + b) =~= encode_utf8(a) + encode_utf8(b));
    }
}

/// Every char takes at least one byte: the offset of the next char is
/// larger.
pub proof fn lemma_offset_step(text: Seq<char>, index: int)
    requires
        0 <= index < text.len(),
    ensures
        byte_offset(text, index) < byte_offset(text, index + 1),
        byte_offset(text, index + 1) == byte_offset(text, index) + encode_scalar(
            text[index] as u32,
        ).len(),
{
    let one = seq![text[index]];
    assert(text.take(index + 1) =~= text.take(index) + one);
    lemma_encode_concat(text.take(index), one);
    assert(one.drop_first() =~= Seq::<char>::empty());
    assert(encode_utf8(one) =~= encode_scalar(text[index] as u32)) by {
        assert(encode_utf8(one.drop_first()) =~= Seq::<u8>::empty());
    }
}

/// Byte offsets grow with char indices.
pub proof fn lemma_offsets_grow(text: Seq<char>, i: int, j: int)
    requires
        0 <= i < j <= text.len(),
    ensures
        byte_offset(text, i) < byte_offset(text, j),
    decreases j - i,
{
    lemma_offset_step(text, j - 1);
    if i < j - 1 {
        lemma_offsets_grow(text, i, j - 1);
    }
}

/// A byte belongs to one char only.
pub proof fn lemma_char_at_byte(text: Seq<char>, index: int, byte: int)
    requires
        holds_byte(text, index, byte),
    ensures
        char_at_byte(text, byte) == index,
{
    let other = char_at_byte(text, byte);
    assert(holds_byte(text, other, byte));
    if other < index {
        if other + 1 < index {
            lemma_offsets_grow(text, other + 1, index);
        }
    }
    if index < other {
        if index + 1 < other {
            lemma_offsets_grow(text, index + 1, other);
        }
    }
}

/// From a char to its byte and back is where one started: the byte at
/// which char `index` starts belongs to that char, for every index up to
/// the one past the chars.
pub proof fn lemma_char_byte_round_trip(text: Seq<char>, index: int)
    requires
        0 <= index <= text.len(),
    ensures
        char_at_byte(text, byte_offset(text, index)) == index,
{
    if index < text.len() {
        lemma_offset_step(text, index);
    }
    lemma_char_at_byte(text, index, byte_offset(text, index));
}

} // verus!
