use jrsls::backend::ServerConfig;
use jrsls::completion::{CompletionItem, CompletionItemKind};
use jrsls::indexer::Indexer;
use jrsls::lang::java::JavaService;
use jrsls::lang::LanguageService;
use jrsls::library::{archive_entry, materialized, ArchiveEntry, ZipSourceProvider};
use jrsls::lower::lower;
use jrsls::outline::{DocumentSymbol, SymbolKind};
use jrsls::state::{GlobalIndex, Location, Position, Range};
use jrsls::syntax::{FieldName, NodeKind, SyntaxNode, SyntaxTree};
use ropey::Rope;

fn parse(code: &str) -> (SyntaxTree, Rope) {
    let rope = Rope::from_str(code);
    let mut parser = tree_sitter::Parser::new();
    parser
        .set_language(&tree_sitter_java::LANGUAGE.into())
        .expect("load java grammar");
    let parsed = parser.parse(code, None).unwrap();
    (lower(&parsed).expect("mirror"), rope)
}

fn index_file(index: &mut GlobalIndex, uri: &str, code: &str) -> (SyntaxTree, Rope) {
    let (tree, rope) = parse(code);
    Indexer::update_file(index, uri, &tree, &rope);
    (tree, rope)
}

fn end_of(code: &str, needle: &str) -> Position {
    for (i, l) in code.lines().enumerate() {
        if let Some(col) = l.find(needle) {
            return Position {
                line: i as u32,
                character: (col + needle.chars().count()) as u32,
            };
        }
    }
    panic!("needle {} not in code", needle);
}

fn brief(symbols: &[DocumentSymbol]) -> Vec<(String, SymbolKind, Option<String>, usize)> {
    symbols
        .iter()
        .map(|s| {
            (
                s.name.clone(),
                s.kind,
                s.detail.clone(),
                s.children.as_ref().map(|c| c.len()).unwrap_or(0),
            )
        })
        .collect()
}

#[test]
fn outline_nests_members_in_their_classes() {
    let code = r#"
package org.demo;

class Shape {
    int sides, corners;
    Shape() {}
    double area(int scale) { return 0; }
    enum Kind { ROUND, FLAT }
    class Inner { void deep() {} }
}

interface Empty {}
"#;
    let (tree, rope) = parse(code);
    let symbols = JavaService.document_symbol(&tree, &rope);
    assert_eq!(
        brief(&symbols),
        vec![
            ("Shape".to_string(), SymbolKind::Class, None, 6),
            ("Empty".to_string(), SymbolKind::Interface, None, 0),
        ]
    );
    assert!(symbols[1].children.is_none());
    let members = symbols[0].children.as_ref().expect("members");
    assert_eq!(
        brief(members),
        vec![
            ("sides".to_string(), SymbolKind::Field, Some("int".to_string()), 0),
            ("corners".to_string(), SymbolKind::Field, Some("int".to_string()), 0),
            ("Shape".to_string(), SymbolKind::Constructor, None, 0),
            ("area".to_string(), SymbolKind::Method, Some("double".to_string()), 0),
            ("Kind".to_string(), SymbolKind::Enum, None, 0),
            ("Inner".to_string(), SymbolKind::Class, None, 1),
        ]
    );
    let area = &members[3];
    assert_eq!(area.range.start.line, 6);
    assert_eq!(area.selection_range.start.line, 6);
    assert_eq!(area.selection_range.start.character, 11);
    assert_eq!(area.selection_range.end.character, 15);
    let inner = members[5].children.as_ref().expect("inner members");
    assert_eq!(inner[0].name, "deep");
    assert_eq!(inner[0].detail.as_deref(), Some("void"));
}

#[test]
fn outline_of_an_empty_document_is_empty() {
    let (tree, rope) = parse("");
    assert!(JavaService.document_symbol(&tree, &rope).is_empty());
}

fn labels(items: &[CompletionItem], kind: CompletionItemKind) -> Vec<String> {
    items
        .iter()
        .filter(|i| i.kind == kind)
        .map(|i| i.label.clone())
        .collect()
}

const LIST: &str = r#"
package java.util;
public class ArrayList {
    public int capacity;
    public int size() { return 0; }
    public int size(int hint) { return 0; }
    public void clear() {}
}
"#;

const STRING: &str = "package java.lang;\npublic class String {}\n";

#[test]
fn members_are_proposed_once_each_and_by_prefix() {
    let code = r#"
import java.util.ArrayList;

class Main {
    void demo() {
        ArrayList arr = new ArrayList();
        arr.c
    }
}
"#;
    let uri = "file:///workspace/Main.java";
    let mut index = GlobalIndex::new();
    index_file(&mut index, "file:///workspace/java/util/ArrayList.java", LIST);
    let (tree, rope) = index_file(&mut index, uri, code);
    let items = JavaService
        .completion(&tree, &rope, end_of(code, "arr.c"), &index, uri, &[])
        .expect("items");
    assert_eq!(
        items,
        vec![
            CompletionItem {
                label: "capacity".to_string(),
                kind: CompletionItemKind::Field,
                detail: Some("java.util.ArrayList".to_string()),
            },
            CompletionItem {
                label: "clear".to_string(),
                kind: CompletionItemKind::Method,
                detail: Some("java.util.ArrayList".to_string()),
            },
        ]
    );
}

#[test]
fn overloads_are_proposed_once() {
    let code = "import java.util.ArrayList;\nclass Main {\n    ArrayList arr;\n    int n = arr.size;\n}\n";
    let uri = "file:///workspace/Main.java";
    let mut index = GlobalIndex::new();
    index_file(&mut index, "file:///workspace/java/util/ArrayList.java", LIST);
    let (tree, rope) = index_file(&mut index, uri, code);
    let items = JavaService
        .completion(&tree, &rope, end_of(code, "arr.si"), &index, uri, &[])
        .expect("items");
    assert_eq!(labels(&items, CompletionItemKind::Method), vec!["size"]);
    assert_eq!(items.len(), 1);
}

#[test]
fn classes_and_keywords_are_proposed_where_a_word_begins() {
    let code = "package org.demo;\nimport java.util.ArrayList;\nimport java.util.Map;\nclass Main {\n    \n}\nclass Map {}\n";
    let uri = "file:///workspace/Main.java";
    let mut index = GlobalIndex::new();
    index_file(&mut index, "file:///workspace/java/lang/String.java", STRING);
    index_file(
        &mut index,
        "file:///workspace/other/Object.java",
        "package other;\nclass Object {}\n",
    );
    let (tree, rope) = index_file(&mut index, uri, code);
    let keywords = vec!["class".to_string(), "var".to_string()];
    let blank = Position {
        line: 4,
        character: 4,
    };
    let items = JavaService
        .completion(&tree, &rope, blank, &index, uri, &keywords)
        .expect("items");
    assert_eq!(
        labels(&items, CompletionItemKind::Class),
        vec!["Main", "Map", "ArrayList", "String"]
    );
    assert_eq!(
        labels(&items, CompletionItemKind::Keyword),
        vec!["class", "var"]
    );
    let array_list = items.iter().find(|i| i.label == "ArrayList").expect("item");
    assert_eq!(array_list.detail.as_deref(), Some("java.util.ArrayList"));
    let string = items.iter().find(|i| i.label == "String").expect("item");
    assert_eq!(string.detail.as_deref(), Some("java.lang.String"));
    let map = items.iter().find(|i| i.label == "Map").expect("item");
    assert_eq!(map.detail, None);
}

#[test]
fn keywords_are_held_back_inside_a_word() {
    let code = "class Main {\n    Mai\n}\n";
    let uri = "file:///workspace/Main.java";
    let mut index = GlobalIndex::new();
    let (tree, rope) = index_file(&mut index, uri, code);
    let keywords = vec!["class".to_string()];
    let items = JavaService
        .completion(&tree, &rope, end_of(code, "    Mai"), &index, uri, &keywords)
        .expect("items");
    assert!(labels(&items, CompletionItemKind::Keyword).is_empty());
    assert_eq!(labels(&items, CompletionItemKind::Class), vec!["Main"]);
}

#[test]
fn nothing_is_proposed_for_an_unindexed_file_or_a_position_outside() {
    let code = "class Main {}\n";
    let uri = "file:///workspace/Main.java";
    let (tree, rope) = parse(code);
    let index = GlobalIndex::new();
    let start = Position {
        line: 0,
        character: 0,
    };
    assert_eq!(
        JavaService.completion(&tree, &rope, start, &index, uri, &[]),
        None
    );
    let mut index = GlobalIndex::new();
    Indexer::update_file(&mut index, uri, &tree, &rope);
    let far = Position {
        line: 40,
        character: 0,
    };
    assert_eq!(
        JavaService.completion(&tree, &rope, far, &index, uri, &[]),
        None
    );
    assert!(JavaService
        .completion(&tree, &rope, start, &index, uri, &[])
        .is_some());
}

#[test]
fn unknown_qualifier_proposes_nothing() {
    let code = "class Main {\n    void f() {\n        ghost.va\n    }\n}\n";
    let uri = "file:///workspace/Main.java";
    let mut index = GlobalIndex::new();
    let (tree, rope) = index_file(&mut index, uri, code);
    assert_eq!(
        JavaService.completion(&tree, &rope, end_of(code, "ghost.va"), &index, uri, &[]),
        None
    );
}

#[test]
fn keyword_set_grows_with_the_language_version() {
    let has = |version: u16, word: &str| {
        ServerConfig::for_version(version)
            .keywords
            .iter()
            .any(|k| k == word)
    };
    assert_eq!(ServerConfig::for_version(8).keywords.len(), 50);
    assert!(has(8, "class") && has(8, "while") && has(8, "abstract"));
    assert!(!has(9, "var") && has(10, "var"));
    assert!(!has(13, "yield") && has(14, "yield"));
    assert!(!has(15, "record") && has(16, "record"));
    assert!(has(17, "sealed") && has(17, "non-sealed") && has(17, "permits"));
    assert_eq!(ServerConfig::for_version(17).keywords.len(), 56);
    assert_eq!(
        ServerConfig::for_version(17).keywords.last().map(|s| s.as_str()),
        Some("permits")
    );
}

#[test]
fn archive_entry_is_the_path_without_leading_slashes() {
    assert_eq!(
        archive_entry("jrsls-std:///java.base/java/lang/String.java"),
        Some(ArchiveEntry {
            scheme: "jrsls-std".to_string(),
            entry_path: "java.base/java/lang/String.java".to_string(),
        })
    );
    assert_eq!(
        archive_entry("file:///tmp/a.java"),
        Some(ArchiveEntry {
            scheme: "file".to_string(),
            entry_path: "tmp/a.java".to_string(),
        })
    );
    assert_eq!(archive_entry("no scheme here"), None);
}

#[test]
fn materialized_location_keeps_the_span() {
    let span = Range {
        start: Position {
            line: 3,
            character: 1,
        },
        end: Position {
            line: 4,
            character: 2,
        },
    };
    let virtual_place = Location {
        uri: "jrsls-std:///java/lang/String.java".to_string(),
        range: span,
    };
    let file = materialized(&virtual_place, "file:///tmp/jrsls/String.java".to_string());
    assert_eq!(file.uri, "file:///tmp/jrsls/String.java");
    assert_eq!(file.range, span);
}

#[test]
fn zip_provider_keeps_its_path() {
    let provider = ZipSourceProvider::new(std::path::PathBuf::from("/opt/jdk/lib/src.zip"));
    assert_eq!(
        provider.zip_path,
        std::path::PathBuf::from("/opt/jdk/lib/src.zip")
    );
}

fn node(kind: NodeKind, parent: Option<usize>, children: Vec<usize>) -> SyntaxNode {
    let zero = Position {
        line: 0,
        character: 0,
    };
    SyntaxNode {
        kind,
        named: true,
        field: None,
        start_byte: 0,
        end_byte: 0,
        range: Range {
            start: zero,
            end: zero,
        },
        parent,
        children,
    }
}

#[test]
fn mirror_accepts_only_nodes_laid_out_in_document_order() {
    let good = vec![
        node(NodeKind::Program, None, vec![1, 2]),
        node(NodeKind::ClassDeclaration, Some(0), vec![]),
        node(NodeKind::ClassDeclaration, Some(0), vec![]),
    ];
    let tree = SyntaxTree::from_nodes(good).expect("well formed");
    assert_eq!(tree.len(), 3);
    assert_eq!(tree.parent(2), Some(0));
    assert_eq!(tree.child(0, 1), 2);
    assert_eq!(tree.kind(1), NodeKind::ClassDeclaration);

    // a child that does not name its parent
    let orphan = vec![
        node(NodeKind::Program, None, vec![1]),
        node(NodeKind::ClassDeclaration, None, vec![]),
    ];
    assert!(SyntaxTree::from_nodes(orphan).is_none());
    // a child that stands before its parent
    let backwards = vec![
        node(NodeKind::ClassDeclaration, Some(1), vec![]),
        node(NodeKind::Program, None, vec![0]),
    ];
    assert!(SyntaxTree::from_nodes(backwards).is_none());
    // a child past the end
    let dangling = vec![node(NodeKind::Program, None, vec![4])];
    assert!(SyntaxTree::from_nodes(dangling).is_none());
    // an extent that runs backwards
    let mut reversed = node(NodeKind::Program, None, vec![]);
    reversed.start_byte = 5;
    reversed.end_byte = 2;
    assert!(SyntaxTree::from_nodes(vec![reversed]).is_none());
    assert!(SyntaxTree::from_nodes(Vec::new()).is_some());
}

#[test]
fn kinds_and_fields_are_read_off_their_names() {
    assert_eq!(NodeKind::from_name("program"), NodeKind::Program);
    assert_eq!(
        NodeKind::from_name("method_declaration"),
        NodeKind::MethodDeclaration
    );
    assert_eq!(NodeKind::from_name("void_type"), NodeKind::VoidType);
    assert_eq!(NodeKind::from_name("true"), NodeKind::True);
    assert_eq!(NodeKind::from_name("comment"), NodeKind::Other);
    assert_eq!(NodeKind::from_name(""), NodeKind::Other);
    assert_eq!(FieldName::from_name("name"), FieldName::Name);
    assert_eq!(FieldName::from_name("arguments"), FieldName::Arguments);
    assert_eq!(FieldName::from_name("value"), FieldName::Other);
}
