//! A last resort for the type of a variable: the text itself, line by line,
//! for a line that reads like a declaration.

use vstd::prelude::*;
use ropey::Rope;
use crate::rope::{
    line_count, line_start, rope_len_chars, rope_len_lines, rope_line_to_char, rope_slice,
    rope_text,
};
use crate::text::{char_is_whitespace, chars_of, is_space, matches_at};
use crate::utils::{first_some, lemma_first_some_end, lemma_first_some_step};

verus! {

/// Whether `c` parts one word of a line from the next: white space, a
/// semicolon or an equals sign.
pub open spec fn is_break(c: char) -> bool {
    is_space(c) || c == ';' || c == '='
}

/// The first index at or after `i` at which a word of `s` starts.
pub open spec fn word_start(s: Seq<char>, i: int) -> int
    decreases s.len() - i,
{
    if 0 <= i < s.len() && is_break(s[i]) {
        word_start(s, i + 1)
    } else {
        i
    }
}

/// The first index at or after `i` at which a word of `s` ends.
pub open spec fn word_end(s: Seq<char>, i: int) -> int
    decreases s.len() - i,
{
    if 0 <= i < s.len() && !is_break(s[i]) {
        word_end(s, i + 1)
    } else {
        i
    }
}

/// The first word of the line `s`, where its second word is `name`.
pub open spec fn typed_on_line(s: Seq<char>, name: Seq<char>) -> Option<Seq<char>> {
    let a = word_start(s, 0);
    let b = word_end(s, a);
    let c = word_start(s, b);
    let d = word_end(s, c);
    if 0 <= a <= b <= c && c < d <= s.len() && s.subrange(c, d) == name {
        Some(s.subrange(a, b))
    } else {
        None
    }
}

/// The text of line `line`, its line break included.
pub open spec fn line_text(text: Seq<char>, line: int) -> Seq<char> {
    let from = line_start(text, line);
    let to = line_start(text, line + 1);
    if 0 <= from <= to <= text.len() {
        text.subrange(from, to)
    } else {
        Seq::empty()
    }
}

/// For a line: the type it declares `name` with, if it reads so.
pub open spec fn typed_at(text: Seq<char>, name: Seq<char>) -> spec_fn(int) -> Option<Seq<char>> {
    |line: int| typed_on_line(line_text(text, line), name)
}

/// The lines of the text by number.
pub open spec fn all_lines(text: Seq<char>) -> Seq<int> {
    Seq::new(
        if line_count(text) >= 0 {
            line_count(text) as nat
        } else {
            0
        },
        |l: int| l,
    )
}

/// The type with which the first line that reads like a declaration of
/// `name` declares it.
pub open spec fn scanned_type(text: Seq<char>, name: Seq<char>) -> Option<Seq<char>> {
    first_some(all_lines(text), typed_at(text, name))
}

/// Whether `c` parts one word from the next.
fn is_break_char(c: char) -> (r: bool)
    ensures
        r == is_break(c),
{
    char_is_whitespace(c) || c == ';' || c == '='
}

/// The first index at or after `from` at which a word starts.
fn skip_breaks(chars: &Vec<char>, from: usize) -> (r: usize)
    requires
        from <= chars.len(),
    ensures
        r == word_start(chars@, from as int),
        from <= r <= chars.len(),
{
    let mut i = from;
    while i < chars.len() && is_break_char(chars[i])
        invariant
            from <= i <= chars.len(),
            word_start(chars@, from as int) == word_start(chars@, i as int),
        decreases chars.len() - i,
    {
        i += 1;
    }
    i
}

/// The first index at or after `from` at which a word ends.
fn skip_word(chars: &Vec<char>, from: usize) -> (r: usize)
    requires
        from <= chars.len(),
    ensures
        r == word_end(chars@, from as int),
        from <= r <= chars.len(),
{
    let mut i = from;
    while i < chars.len() && !is_break_char(chars[i])
        invariant
            from <= i <= chars.len(),
            word_end(chars@, from as int) == word_end(chars@, i as int),
        decreases chars.len() - i,
    {
        i += 1;
    }
    i
}

/// The first word of `line`, where its second word is `name`.
fn type_on_line(line: &str, name: &Vec<char>) -> (r: Option<String>)
    ensures
        r.deep_view() == typed_on_line(line@, name@),
{
    let chars = chars_of(line);
    let a = skip_breaks(&chars, 0);
    let b = skip_word(&chars, a);
    let c = skip_breaks(&chars, b);
    let d = skip_word(&chars, c);
    if c < d && d - c == name.len() && matches_at(&chars, c, name) {
        Some(line.substring_char(a, b).to_owned())
    } else {
        proof {
            if c < d && d - c != name.len() {
                assert(line@.subrange(c as int, d as int).len() != name@.len());
            }
        }
        None
    }
}

/// The type with which the first line that reads like a declaration of
/// `name` declares it.
pub fn find_type_by_text_scan(rope: &Rope, name: &str) -> (r: Option<String>)
    ensures
        r.deep_view() == scanned_type(rope_text(*rope), name@),
{
    let ghost text = rope_text(*rope);
    let ghost f = typed_at(text, name@);
    let ghost items = all_lines(text);
    let wanted = chars_of(name);
    let lines = rope_len_lines(rope);
    let len = rope_len_chars(rope);
    let mut l: usize = 0;
    proof {
        lemma_first_some_end(items, f);
    }
    while l < lines
        invariant
            l <= lines,
            lines == line_count(text),
            len == text.len(),
            text == rope_text(*rope),
            items == all_lines(text),
            f == typed_at(text, name@),
            wanted@ == name@,
            first_some(items, f) == first_some(items.skip(l as int), f),
        decreases lines - l,
    {
        proof {
            lemma_first_some_step(items, f, l as int);
            assert(items[l as int] == l as int);
        }
        let from = rope_line_to_char(rope, l);
        let to = rope_line_to_char(rope, l + 1);
        if from <= to {
            let line = rope_slice(rope, from, to);
            match type_on_line(line.as_str(), &wanted) {
                Some(t) => {
                    return Some(t);
                },
                None => {},
            }
        } else {
            assert(typed_on_line(Seq::<char>::empty(), name@) is None);
        }
        l += 1;
    }
    proof {
        lemma_first_some_end(items, f);
    }
    None
}

} // verus!
