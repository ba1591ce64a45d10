//! An open document: its text, its parse tree and the mirror of that tree,
//! kept in step with the editor's changes.

use vstd::prelude::*;
use vstd::string::*;
use vstd::utf8::encode_utf8;
use ropey::Rope;
use tree_sitter::{InputEdit, Language, Parser, Point, Tree};
use crate::lower::{built, mirror_of_steps, record_walk, WalkStep};
use crate::rope::{
    byte_offset, line_at_char, line_count, line_start, rope_char_to_byte, rope_char_to_line,
    rope_from_str, rope_insert, rope_len_chars, rope_len_lines, rope_line_to_char, rope_remove,
    rope_text,
};
use crate::state::Range;
use crate::syntax::SyntaxTree;
use crate::text::{last_segment, last_segment_of};

verus! {

/// `tree_sitter::Parser`, opaque to the verifier.
#[verifier::external_type_specification]
#[verifier::external_body]
pub struct ExParser(Parser);

/// One change that the editor reports: new text for a range of the
/// document, or for all of it where no range is given.
#[derive(Debug, Clone)]
pub struct TextChange {
    pub range: Option<Range>,
    pub text: String,
}

/// What the parser is told of an edit: where it starts and where the old
/// and the new text end, in bytes and in lines and columns.
#[derive(Debug, Clone, Copy, PartialEq, Eq, Structural)]
pub struct EditDescriptor {
    pub start_byte: usize,
    pub old_end_byte: usize,
    pub new_end_byte: usize,
    pub start_row: usize,
    pub start_column: usize,
    pub old_end_row: usize,
    pub old_end_column: usize,
    pub new_end_row: usize,
    pub new_end_column: usize,
}

/// An open document.
pub struct Document {
    pub text: Rope,
    pub tree: Tree,
    pub mirror: SyntaxTree,
}

/// `Parser::new`.
#[verifier::external_body]
fn parser_new() -> Parser {
    Parser::new()
}

/// `Parser::set_language`: whether the parser took the language.
#[verifier::external_body]
fn parser_set_language(parser: &mut Parser, language: &Language) -> bool {
    parser.set_language(language).is_ok()
}

/// `Parser::parse` on the text of the rope, with `old_tree` as a hint.
/// Nothing is claimed of the tree that comes back, nor that one does.
#[verifier::external_body]
fn parse_rope(parser: &mut Parser, rope: &Rope, old_tree: Option<&Tree>) -> Option<Tree> {
    parser.parse(String::from(rope), old_tree)
}

/// `Tree::edit` with the descriptor as an `InputEdit`.
#[verifier::external_body]
fn tree_edit(tree: &mut Tree, edit: &EditDescriptor) {
    tree.edit(
        &InputEdit {
            start_byte: edit.start_byte,
            old_end_byte: edit.old_end_byte,
            new_end_byte: edit.new_end_byte,
            start_position: Point::new(edit.start_row, edit.start_column),
            old_end_position: Point::new(edit.old_end_row, edit.old_end_column),
            new_end_position: Point::new(edit.new_end_row, edit.new_end_column),
        },
    )
}

/// A parser for `language`, if the language can be parsed with this
/// library.
pub fn new_parser(language: &Language) -> (r: Option<Parser>) {
    let mut parser = parser_new();
    if parser_set_language(&mut parser, language) {
        Some(parser)
    } else {
        None
    }
}

/// The chars that a ranged change replaces, as char offsets: from the start
/// of the range up to its end. None where a line of the range does not
/// exist, the range runs past the end of the text or backwards, or the byte
/// offset where the new text ends cannot be represented.
pub open spec fn edit_span(text: Seq<char>, range: Range, inserted: Seq<char>) -> Option<
    (int, int),
> {
    let from = line_start(text, range.start.line as int) + range.start.character;
    let to = line_start(text, range.end.line as int) + range.end.character;
    if range.start.line < line_count(text) && range.end.line < line_count(text) && 0 <= from <= to
        <= text.len() && byte_offset(text, from) + encode_utf8(inserted).len() <= usize::MAX {
        Some((from, to))
    } else {
        None
    }
}

/// The text after a change: the new text where the change has no range, the
/// text with the span replaced where the range applies, the text as it was
/// where it does not.
pub open spec fn text_after(text: Seq<char>, range: Option<Range>, inserted: Seq<char>) -> Seq<
    char,
> {
    match range {
        None => inserted,
        Some(r) => match edit_span(text, r, inserted) {
            Some((from, to)) => text.take(from) + inserted + text.skip(to),
            None => text,
        },
    }
}

/// The text after the first `n` of `changes`, applied in order.
pub open spec fn text_after_all(text: Seq<char>, changes: Seq<TextChange>, n: int) -> Seq<char>
    decreases n,
{
    if n <= 0 {
        text
    } else {
        text_after(
            text_after_all(text, changes, n - 1),
            changes[n - 1].range,
            changes[n - 1].text@,
        )
    }
}

/// The column of char `index` in its line.
pub open spec fn column_of(text: Seq<char>, index: int) -> int {
    let start = line_start(text, line_at_char(text, index));
    if start <= index {
        index - start
    } else {
        0
    }
}

/// The descriptor of the edit that replaces the span of `range` in `before`
/// by `inserted`, giving `after`.
pub open spec fn descriptor_of(
    before: Seq<char>,
    after: Seq<char>,
    range: Range,
    inserted: Seq<char>,
) -> EditDescriptor {
    let span = edit_span(before, range, inserted)->0;
    EditDescriptor {
        start_byte: byte_offset(before, span.0) as usize,
        old_end_byte: byte_offset(before, span.1) as usize,
        new_end_byte: (byte_offset(before, span.0) + encode_utf8(inserted).len()) as usize,
        start_row: range.start.line as usize,
        start_column: range.start.character as usize,
        old_end_row: range.end.line as usize,
        old_end_column: range.end.character as usize,
        new_end_row: line_at_char(after, span.0 + inserted.len()) as usize,
        new_end_column: column_of(after, span.0 + inserted.len()) as usize,
    }
}

/// Splices a ranged change into the text and says what the parser must be
/// told of it. A change that does not apply leaves the text as it is.
pub fn splice(rope: &mut Rope, range: Range, text: &str) -> (r: Option<EditDescriptor>)
    ensures
        rope_text(*final(rope)) == text_after(rope_text(*old(rope)), Some(range), text@),
        match r {
            Some(edit) => edit_span(rope_text(*old(rope)), range, text@) is Some && edit
                == descriptor_of(rope_text(*old(rope)), rope_text(*final(rope)), range, text@),
            None => edit_span(rope_text(*old(rope)), range, text@) is None,
        },
{
    let ghost before = rope_text(*rope);
    let start_line = range.start.line as usize;
    let end_line = range.end.line as usize;
    let lines = rope_len_lines(rope);
    if start_line >= lines || end_line >= lines {
        return None;
    }
    let len = rope_len_chars(rope);
    let start_base = rope_line_to_char(rope, start_line);
    let end_base = rope_line_to_char(rope, end_line);
    let start_column = range.start.character as usize;
    let end_column = range.end.character as usize;
    if end_column > len - end_base || start_column > len - start_base {
        return None;
    }
    let from = start_base + start_column;
    let to = end_base + end_column;
    if from > to {
        return None;
    }
    let start_byte = rope_char_to_byte(rope, from);
    let old_end_byte = rope_char_to_byte(rope, to);
    let added_bytes = text.as_bytes().len();
    if added_bytes > usize::MAX - start_byte {
        return None;
    }
    let new_end_byte = start_byte + added_bytes;
    let added_chars = text.unicode_len();
    rope_remove(rope, from, to);
    rope_insert(rope, from, text);
    let ghost after = rope_text(*rope);
    proof {
        assert((before.take(from as int) + before.skip(to as int)).take(from as int)
            =~= before.take(from as int));
        assert((before.take(from as int) + before.skip(to as int)).skip(from as int)
            =~= before.skip(to as int));
        assert(after =~= before.take(from as int) + text@ + before.skip(to as int));
        assert(after.len() == from + text@.len() + (before.len() - to));
    }
    // the new text's length is a `usize`, so the end of the inserted part is one too
    let _len_after = rope_len_chars(rope);
    let new_end = from + added_chars;
    let new_end_row = rope_char_to_line(rope, new_end);
    let row_start = rope_line_to_char(rope, new_end_row);
    let new_end_column = if row_start <= new_end {
        new_end - row_start
    } else {
        0
    };
    Some(
        EditDescriptor {
            start_byte,
            old_end_byte,
            new_end_byte,
            start_row: start_line,
            start_column,
            old_end_row: end_line,
            old_end_column: end_column,
            new_end_row,
            new_end_column,
        },
    )
}

/// The extension of a document: what follows the last dot of its URI, all
/// of the URI where it has no dot.
pub fn get_ext(uri: &str) -> (r: String)
    ensures
        r@ == last_segment_of(uri@),
{
    last_segment(uri)
}

impl Document {
    /// Opens a document with the text `text`: parses it and mirrors the
    /// tree. None where the parser yields no tree or the tree cannot be
    /// mirrored.
    pub fn open(parser: &mut Parser, text: &str) -> (r: Option<Document>)
        ensures
            match r {
                Some(doc) => rope_text(doc.text) == text@ && doc.mirror@.len() > 0,
                None => true,
            },
    {
        let rope = rope_from_str(text);
        let tree = match parse_rope(parser, &rope, None) {
            Some(t) => t,
            None => {
                return None;
            },
        };
        let steps = match record_walk(&tree) {
            Some(s) => s,
            None => {
                return None;
            },
        };
        Document::from_walk(rope, tree, &steps)
    }

    /// The document of a text, the tree that the parser made of it, and the
    /// steps of the walk over that tree: it holds the text, the tree, and
    /// the mirror that the steps build. None where the steps build none.
    pub fn from_walk(text: Rope, tree: Tree, steps: &Vec<WalkStep>) -> (r: Option<Document>)
        ensures
            match r {
                Some(doc) => doc.text == text && doc.tree == tree && built(steps@) == Some(
                    doc.mirror@,
                ),
                None => built(steps@) is None,
            },
            r is Some && steps.len() > 0 && steps[0] is Enter ==> r->0.mirror@.len() > 0,
    {
        match mirror_of_steps(steps) {
            Some(mirror) => Some(Document { text, tree, mirror }),
            None => None,
        }
    }

    /// Applies the editor's changes in the order given, then parses the
    /// text again, with the edited tree as a hint where there is one. A
    /// change without a range replaces the whole text; a ranged change that
    /// does not apply is passed over. The result says whether tree and
    /// mirror were brought up to date with the text: where they were not,
    /// the mirror is the one from before the changes.
    pub fn apply_changes(&mut self, parser: &mut Parser, changes: &Vec<TextChange>) -> (fresh: bool)
        ensures
            rope_text(final(self).text) == text_after_all(
                rope_text(old(self).text),
                changes@,
                changes.len() as int,
            ),
            !fresh ==> final(self).mirror@ == old(self).mirror@,
            fresh ==> final(self).mirror@.len() > 0,
    {
        let ghost start = rope_text(self.text);
        let ghost mirror = self.mirror@;
        let mut hint = true;
        let mut i: usize = 0;
        while i < changes.len()
            invariant
                i <= changes.len(),
                rope_text(self.text) == text_after_all(start, changes@, i as int),
                self.mirror@ == mirror,
            decreases changes.len() - i,
        {
            let change = &changes[i];
            match change.range {
                None => {
                    self.text = rope_from_str(change.text.as_str());
                    match parse_rope(parser, &self.text, None) {
                        Some(tree) => {
                            self.tree = tree;
                            hint = true;
                        },
                        None => {
                            hint = false;
                        },
                    }
                },
                Some(range) => {
                    match splice(&mut self.text, range, change.text.as_str()) {
                        Some(edit) => {
                            if hint {
                                tree_edit(&mut self.tree, &edit);
                            }
                        },
                        None => {},
                    }
                },
            }
            i += 1;
        }
        let parsed = if hint {
            parse_rope(parser, &self.text, Some(&self.tree))
        } else {
            parse_rope(parser, &self.text, None)
        };
        let steps = match &parsed {
            Some(tree) => record_walk(tree),
            None => None,
        };
        match steps {
            Some(steps) => self.take_parse(parsed, &steps),
            None => false,
        }
    }

    /// Takes up what the parser made of the text and the steps of the walk
    /// over it. Where there is a tree and the steps build a mirror, both
    /// take the place of the document's own and the document is fresh;
    /// else the document stays as it is and is not. The text stays either
    /// way.
    pub fn take_parse(&mut self, parsed: Option<Tree>, steps: &Vec<WalkStep>) -> (fresh: bool)
        ensures
            final(self).text == old(self).text,
            fresh == (parsed is Some && built(steps@) is Some),
            fresh ==> final(self).tree == parsed->0 && built(steps@) == Some(final(self).mirror@),
            !fresh ==> final(self).tree == old(self).tree && final(self).mirror@ == old(
                self,
            ).mirror@,
            fresh && steps.len() > 0 && steps[0] is Enter ==> final(self).mirror@.len() > 0,
    {
        match parsed {
            Some(tree) => match mirror_of_steps(steps) {
                Some(mirror) => {
                    self.tree = tree;
                    self.mirror = mirror;
                    true
                },
                None => false,
            },
            None => false,
        }
    }
}

/// The parser, where it took its language: a parser without a language
/// parses nothing and is not handed out.
pub fn ready_parser(parser: Parser, took: bool) -> (r: Option<Parser>)
    ensures
        r == (if took {
            Some(parser)
        } else {
            None
        }),
{
    if took {
        Some(parser)
    } else {
        None
    }
}

} // verus!
