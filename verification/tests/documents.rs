use jrsls::document::{get_ext, new_parser, splice, Document, EditDescriptor, TextChange};
use jrsls::state::{Position, Range};
use jrsls::syntax::SyntaxTree;
use ropey::Rope;

fn parser() -> tree_sitter::Parser {
    new_parser(&tree_sitter_java::LANGUAGE.into()).expect("java grammar")
}

fn range(l1: u32, c1: u32, l2: u32, c2: u32) -> Range {
    Range {
        start: Position {
            line: l1,
            character: c1,
        },
        end: Position {
            line: l2,
            character: c2,
        },
    }
}

fn shape(tree: &SyntaxTree) -> Vec<(String, usize, usize, Option<usize>, usize)> {
    (0..tree.len())
        .map(|i| {
            (
                format!("{:?}", tree.kind(i)),
                tree.start_byte(i),
                tree.end_byte(i),
                tree.parent(i),
                tree.child_count(i),
            )
        })
        .collect()
}

#[test]
fn incremental_tree_equals_tree_parsed_from_scratch() {
    let mut parser = parser();
    let mut doc = Document::open(&mut parser, "class A {\n    int x;\n}\n").expect("open");
    let changes = vec![
        TextChange {
            range: Some(range(1, 4, 1, 4)),
            text: "String name;\n    ".to_string(),
        },
        TextChange {
            range: Some(range(0, 6, 0, 7)),
            text: "Renamed".to_string(),
        },
        TextChange {
            range: Some(range(2, 8, 2, 9)),
            text: "y".to_string(),
        },
    ];
    assert!(doc.apply_changes(&mut parser, &changes));
    let expected = "class Renamed {\n    String name;\n    int y;\n}\n";
    assert_eq!(doc.text.to_string(), expected);

    let fresh = Document::open(&mut parser, expected).expect("open");
    assert_eq!(shape(&doc.mirror), shape(&fresh.mirror));
}

#[test]
fn change_without_range_replaces_the_text() {
    let mut parser = parser();
    let mut doc = Document::open(&mut parser, "class A {}").expect("open");
    let changes = vec![TextChange {
        range: None,
        text: "interface B {}".to_string(),
    }];
    assert!(doc.apply_changes(&mut parser, &changes));
    assert_eq!(doc.text.to_string(), "interface B {}");
    let fresh = Document::open(&mut parser, "interface B {}").expect("open");
    assert_eq!(shape(&doc.mirror), shape(&fresh.mirror));
}

#[test]
fn change_on_a_missing_line_is_passed_over() {
    let mut parser = parser();
    let mut doc = Document::open(&mut parser, "class A {}\n").expect("open");
    let changes = vec![
        TextChange {
            range: Some(range(7, 0, 7, 0)),
            text: "junk".to_string(),
        },
        TextChange {
            range: Some(range(0, 0, 9, 0)),
            text: "junk".to_string(),
        },
        TextChange {
            range: Some(range(0, 6, 0, 7)),
            text: "B".to_string(),
        },
    ];
    assert!(doc.apply_changes(&mut parser, &changes));
    assert_eq!(doc.text.to_string(), "class B {}\n");
}

#[test]
fn splice_skips_what_does_not_fit_the_text() {
    let mut rope = Rope::from_str("ab\ncd");
    // column past the end of the text
    assert_eq!(splice(&mut rope, range(1, 0, 1, 9), "x"), None);
    // range that runs backwards
    assert_eq!(splice(&mut rope, range(1, 1, 0, 1), "x"), None);
    // line that does not exist
    assert_eq!(splice(&mut rope, range(2, 0, 2, 0), "x"), None);
    assert_eq!(rope.to_string(), "ab\ncd");
}

#[test]
fn splice_describes_the_edit_in_bytes_and_points() {
    let mut rope = Rope::from_str("h\u{e9}llo\nworld\n");
    let edit = splice(&mut rope, range(0, 2, 1, 1), "X\nY\u{e9}").expect("applies");
    assert_eq!(rope.to_string(), "h\u{e9}X\nY\u{e9}orld\n");
    assert_eq!(
        edit,
        EditDescriptor {
            start_byte: 3,
            old_end_byte: 8,
            new_end_byte: 3 + 5,
            start_row: 0,
            start_column: 2,
            old_end_row: 1,
            old_end_column: 1,
            new_end_row: 1,
            new_end_column: 2,
        }
    );
}

#[test]
fn splice_at_the_very_end_appends() {
    let mut rope = Rope::from_str("ab");
    let edit = splice(&mut rope, range(0, 2, 0, 2), "c").expect("applies");
    assert_eq!(rope.to_string(), "abc");
    assert_eq!(edit.start_byte, 2);
    assert_eq!(edit.old_end_byte, 2);
    assert_eq!(edit.new_end_byte, 3);
    assert_eq!(edit.new_end_row, 0);
    assert_eq!(edit.new_end_column, 3);
}

#[test]
fn extension_is_what_follows_the_last_dot() {
    assert_eq!(get_ext("file:///w/Main.java"), "java");
    assert_eq!(get_ext("file:///w/a.b/Main.kt"), "kt");
    assert_eq!(get_ext("nodots"), "nodots");
    assert_eq!(get_ext("trailing."), "");
}
