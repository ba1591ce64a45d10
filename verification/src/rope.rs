//! The text buffer of a document. The buffer is a `ropey::Rope`; what the
//! rest of the library knows of it is stated here and taken on trust.

use vstd::prelude::*;
use vstd::utf8::encode_utf8;
use crate::offsets::lemma_char_at_byte;
use ropey::Rope;

verus! {

/// `ropey::Rope`, opaque to the verifier.
#[verifier::external_type_specification]
#[verifier::external_body]
pub struct ExRope(Rope);

/// The chars that a rope holds, in order.
pub uninterp spec fn rope_text(rope: Rope) -> Seq<char>;

/// Whether byte `byte` of the encoded text belongs to char `index`: the
/// encoding of the char starts at or before the byte and ends after it.
/// The byte one past the encoding belongs to the index one past the chars.
pub open spec fn holds_byte(text: Seq<char>, index: int, byte: int) -> bool {
    &&& 0 <= index <= text.len()
    &&& byte_offset(text, index) <= byte
    &&& index < text.len() ==> byte < byte_offset(text, index + 1)
}

/// The index of the char to which byte `byte` of the encoded text belongs.
pub open spec fn char_at_byte(text: Seq<char>, byte: int) -> int {
    choose|index: int| holds_byte(text, index, byte)
}

/// How many lines `text` has; a text without line breaks has one.
pub uninterp spec fn line_count(text: Seq<char>) -> int;

/// The index of the first char of line `line` of `text`.
pub uninterp spec fn line_start(text: Seq<char>, line: int) -> int;

/// The line on which char `index` of `text` stands.
pub uninterp spec fn line_at_char(text: Seq<char>, index: int) -> int;

/// How many bytes the first `chars` chars of `text` take once encoded.
pub open spec fn byte_offset(text: Seq<char>, chars: int) -> int {
    encode_utf8(text.take(chars)).len() as int
}

/// `Rope::from_str`: a rope that holds exactly the chars of `text`.
#[verifier::external_body]
pub(crate) fn rope_from_str(text: &str) -> (rope: Rope)
    ensures
        rope_text(rope) == text@,
{
    Rope::from_str(text)
}

/// `Rope::len_chars`: the number of chars held.
#[verifier::external_body]
pub(crate) fn rope_len_chars(rope: &Rope) -> (n: usize)
    ensures
        n == rope_text(*rope).len(),
{
    rope.len_chars()
}

/// `Rope::len_bytes`: the length of the text in its UTF-8 encoding.
#[verifier::external_body]
pub(crate) fn rope_len_bytes(rope: &Rope) -> (n: usize)
    ensures
        n == byte_offset(rope_text(*rope), rope_text(*rope).len() as int),
{
    rope.len_bytes()
}

/// `Rope::len_lines`: the number of line breaks plus one.
#[verifier::external_body]
pub(crate) fn rope_len_lines(rope: &Rope) -> (n: usize)
    ensures
        n == line_count(rope_text(*rope)),
        n >= 1,
{
    rope.len_lines()
}

/// `Rope::byte_to_char`, which panics past the end of the text: the char
/// to which the byte belongs, and for the byte one past the end the index
/// one past the chars.
#[verifier::external_body]
fn rope_char_of_byte(rope: &Rope, byte: usize) -> (index: usize)
    requires
        byte <= byte_offset(rope_text(*rope), rope_text(*rope).len() as int),
    ensures
        holds_byte(rope_text(*rope), index as int, byte as int),
{
    rope.byte_to_char(byte)
}

/// The char to which byte `byte` of the rope's text belongs.
pub(crate) fn rope_byte_to_char(rope: &Rope, byte: usize) -> (index: usize)
    requires
        byte <= byte_offset(rope_text(*rope), rope_text(*rope).len() as int),
    ensures
        index == char_at_byte(rope_text(*rope), byte as int),
        index <= rope_text(*rope).len(),
{
    let index = rope_char_of_byte(rope, byte);
    proof {
        lemma_char_at_byte(rope_text(*rope), index as int, byte as int);
    }
    index
}

/// `Rope::char_to_byte`, which panics past the end of the text: the encoded
/// length of the chars before `index`.
#[verifier::external_body]
pub(crate) fn rope_char_to_byte(rope: &Rope, index: usize) -> (byte: usize)
    requires
        index <= rope_text(*rope).len(),
    ensures
        byte == byte_offset(rope_text(*rope), index as int),
{
    rope.char_to_byte(index)
}

/// `Rope::line_to_char`, which panics past the line count: where the line
/// starts, the end of the text for the line one past the last.
#[verifier::external_body]
pub(crate) fn rope_line_to_char(rope: &Rope, line: usize) -> (index: usize)
    requires
        line <= line_count(rope_text(*rope)),
    ensures
        index == line_start(rope_text(*rope), line as int),
        index <= rope_text(*rope).len(),
{
    rope.line_to_char(line)
}

/// `Rope::char_to_line`, which panics past the end of the text: the line of
/// a char, below the line count.
#[verifier::external_body]
pub(crate) fn rope_char_to_line(rope: &Rope, index: usize) -> (line: usize)
    requires
        index <= rope_text(*rope).len(),
    ensures
        line == line_at_char(rope_text(*rope), index as int),
        line < line_count(rope_text(*rope)),
{
    rope.char_to_line(index)
}

/// `Rope::char`, which panics at and past the end: the char at `index`.
#[verifier::external_body]
pub(crate) fn rope_char(rope: &Rope, index: usize) -> (c: char)
    requires
        index < rope_text(*rope).len(),
    ensures
        c == rope_text(*rope)[index as int],
{
    rope.char(index)
}

/// `Rope::slice` turned into a `String`; the slice panics on a reversed
/// range and past the end: the chars from `from` up to `to`.
#[verifier::external_body]
pub(crate) fn rope_slice(rope: &Rope, from: usize, to: usize) -> (s: String)
    requires
        from <= to <= rope_text(*rope).len(),
    ensures
        s@ == rope_text(*rope).subrange(from as int, to as int),
{
    String::from(rope.slice(from..to))
}

/// `Rope::remove`, which panics on a reversed range and past the end: the
/// chars from `from` up to `to` leave, the others stay in order.
#[verifier::external_body]
pub(crate) fn rope_remove(rope: &mut Rope, from: usize, to: usize)
    requires
        from <= to <= rope_text(*old(rope)).len(),
    ensures
        rope_text(*final(rope)) == rope_text(*old(rope)).take(from as int) + rope_text(
            *old(rope),
        ).skip(to as int),
{
    rope.remove(from..to)
}

/// `Rope::insert`, which panics past the end: `text` enters before the char
/// at `index`.
#[verifier::external_body]
pub(crate) fn rope_insert(rope: &mut Rope, index: usize, text: &str)
    requires
        index <= rope_text(*old(rope)).len(),
    ensures
        rope_text(*final(rope)) == rope_text(*old(rope)).take(index as int) + text@ + rope_text(
            *old(rope),
        ).skip(index as int),
{
    rope.insert(index, text)
}

} // verus!
