use jrsls::ast::InferredType;
use jrsls::indexer::Indexer;
use jrsls::inference::TypeSolver;
use jrsls::lang::java::{
    match_imported_symbol, match_java_lang, match_same_file, match_same_package,
    resolve_qualifier_fqcn, select_fallback, JavaService,
};
use jrsls::lang::LanguageService;
use jrsls::lower::lower;
use jrsls::resolve::{is_followed_by_paren, resolve_qualifier, resolve_qualifier_chain};
use jrsls::state::{ClassLocation, FileInfo, GlobalIndex, Location, Position, Range};
use jrsls::syntax::SyntaxTree;
use jrsls::textscan::find_type_by_text_scan;
use jrsls::uri::priority_for_uri;
use jrsls::utils::{descendant_for_byte, get_node_at_pos, get_node_text};
use ropey::Rope;

fn parse(code: &str) -> (SyntaxTree, Rope) {
    let rope = Rope::from_str(code);
    let mut parser = tree_sitter::Parser::new();
    parser
        .set_language(&tree_sitter_java::LANGUAGE.into())
        .expect("load java grammar");
    let parsed = parser.parse(code, None).unwrap();
    (lower(&parsed).expect("mirror"), rope)
}

fn index_file(index: &mut GlobalIndex, uri: &str, code: &str) -> (SyntaxTree, Rope) {
    let (tree, rope) = parse(code);
    Indexer::update_file(index, uri, &tree, &rope);
    (tree, rope)
}

fn at(code: &str, needle: &str) -> Position {
    for (i, l) in code.lines().enumerate() {
        if let Some(col) = l.find(needle) {
            return Position {
                line: i as u32,
                character: col as u32,
            };
        }
    }
    panic!("needle {} not in code", needle);
}

fn line_of(code: &str, needle: &str) -> u32 {
    at(code, needle).line
}

const MAIN: &str = "file:///workspace/Main.java";

fn goto(index: &mut GlobalIndex, code: &str, needle: &str) -> Option<Location> {
    let (tree, rope) = index_file(index, MAIN, code);
    JavaService.goto_definition(&tree, &rope, at(code, needle), index, MAIN)
}

const SCOPES: &str = r#"
package org.demo;

class Scopes {
    int count;
    String label;

    void run(int limit, String... names) {
        int local = 1;
        for (String each : names) {
            use(each);
        }
        {
            int count = 5;
            touch(count);
        }
        local = limit + count;
        later = 2;
        int later;
        show(names);
    }

    void use(String s) {}
    void touch(int n) {}
    void show(String[] all) {}
}
"#;

#[test]
fn parameter_is_found_in_the_enclosing_method() {
    let mut index = GlobalIndex::new();
    let loc = goto(&mut index, SCOPES, "limit + count").expect("definition");
    assert_eq!(loc.uri, MAIN);
    assert_eq!(loc.range.start.line, line_of(SCOPES, "void run(int limit"));
    assert_eq!(
        loc.range.start.character,
        at(SCOPES, "limit, String").character
    );
}

#[test]
fn variadic_parameter_is_found_by_name() {
    let mut index = GlobalIndex::new();
    let loc = goto(&mut index, SCOPES, "names);").expect("definition");
    assert_eq!(loc.range.start.line, line_of(SCOPES, "void run(int limit"));
    assert_eq!(loc.range.start.character, at(SCOPES, "names) {").character);
}

#[test]
fn local_declared_before_the_reference_is_found() {
    let mut index = GlobalIndex::new();
    let loc = goto(&mut index, SCOPES, "local = limit").expect("definition");
    assert_eq!(loc.range.start.line, line_of(SCOPES, "int local = 1"));
}

#[test]
fn local_declared_after_the_reference_is_not_found() {
    let mut index = GlobalIndex::new();
    assert_eq!(goto(&mut index, SCOPES, "later = 2"), None);
}

#[test]
fn innermost_scope_wins_over_the_field() {
    let mut index = GlobalIndex::new();
    let loc = goto(&mut index, SCOPES, "count);").expect("definition");
    assert_eq!(loc.range.start.line, line_of(SCOPES, "int count = 5"));
}

#[test]
fn field_of_the_enclosing_class_is_found() {
    let mut index = GlobalIndex::new();
    let (tree, rope) = index_file(&mut index, MAIN, SCOPES);
    let p = at(SCOPES, "limit + count");
    let position = Position {
        line: p.line,
        character: p.character + "limit + ".len() as u32,
    };
    let loc = JavaService
        .goto_definition(&tree, &rope, position, &index, MAIN)
        .expect("definition");
    assert_eq!(loc.range.start.line, line_of(SCOPES, "int count;"));
}

#[test]
fn unqualified_call_resolves_to_the_method_by_arity() {
    let mut index = GlobalIndex::new();
    let loc = goto(&mut index, SCOPES, "touch(count)").expect("definition");
    assert_eq!(loc.range.start.line, line_of(SCOPES, "void touch(int n)"));
}

#[test]
fn position_outside_the_text_or_off_a_name_gives_nothing() {
    let mut index = GlobalIndex::new();
    let (tree, rope) = index_file(&mut index, MAIN, SCOPES);
    let service = JavaService;
    let far = Position {
        line: 999,
        character: 0,
    };
    assert_eq!(service.goto_definition(&tree, &rope, far, &index, MAIN), None);
    let wide = Position {
        line: 1,
        character: 100_000,
    };
    assert_eq!(
        service.goto_definition(&tree, &rope, wide, &index, MAIN),
        None
    );
    let keyword = at(SCOPES, "class Scopes");
    assert_eq!(
        service.goto_definition(&tree, &rope, keyword, &index, MAIN),
        None
    );
}

#[test]
fn resolver_gives_the_same_answer_for_the_same_input() {
    let mut index = GlobalIndex::new();
    let (tree, rope) = index_file(&mut index, MAIN, SCOPES);
    let service = JavaService;
    for needle in ["limit + count", "local = limit", "touch(count)", "later = 2"] {
        let p = at(SCOPES, needle);
        let first = service.goto_definition(&tree, &rope, p, &index, MAIN);
        let second = service.goto_definition(&tree, &rope, p, &index, MAIN);
        assert_eq!(first, second);
    }
}

#[test]
fn every_answer_lies_in_an_indexed_file() {
    let lib = r#"
package java.lang;
public class String {
    public int length() { return 0; }
}
"#;
    let mut index = GlobalIndex::new();
    index_file(&mut index, "jrsls-std:///java.base/java/lang/String.java", lib);
    let (tree, rope) = index_file(&mut index, MAIN, SCOPES);
    let service = JavaService;
    let mut answers = 0;
    for (line, text) in SCOPES.lines().enumerate() {
        for character in 0..text.len() {
            let p = Position {
                line: line as u32,
                character: character as u32,
            };
            if let Some(loc) = service.goto_definition(&tree, &rope, p, &index, MAIN) {
                answers += 1;
                assert!(
                    index.file_info(&loc.uri).is_some(),
                    "answer outside the index: {}",
                    loc.uri
                );
            }
        }
    }
    assert!(answers > 0);
}

#[test]
fn nested_class_in_scope_beats_the_import() {
    let code = r#"
package org.demo;

import java.util.HashMap;

class Main {
    static class HashMap {}

    void entry() {
        HashMap map = null;
    }
}
"#;
    let lib = r#"
package java.util;
public class HashMap {}
"#;
    let mut index = GlobalIndex::new();
    index_file(&mut index, "file:///workspace/java/util/HashMap.java", lib);
    let loc = goto(&mut index, code, "HashMap map").expect("definition");
    assert_eq!(loc.uri, MAIN);
    assert_eq!(loc.range.start.line, line_of(code, "static class HashMap"));
}

#[test]
fn import_beats_the_class_of_the_same_package() {
    let code = r#"
package org.demo;

import java.util.List;

class Main {
    List items;
}
"#;
    let mut index = GlobalIndex::new();
    index_file(
        &mut index,
        "file:///workspace/org/demo/List.java",
        "package org.demo;\nclass List {}\n",
    );
    index_file(
        &mut index,
        "file:///workspace/java/util/List.java",
        "package java.util;\npublic interface List {}\n",
    );
    let loc = goto(&mut index, code, "List items").expect("definition");
    assert_eq!(loc.uri, "file:///workspace/java/util/List.java");
}

#[test]
fn class_of_the_same_package_beats_java_lang() {
    let code = "package org.demo;\nclass Main {\n    Thing t;\n}\n";
    let mut index = GlobalIndex::new();
    index_file(
        &mut index,
        "file:///workspace/java/lang/Thing.java",
        "package java.lang;\npublic class Thing {}\n",
    );
    index_file(
        &mut index,
        "file:///workspace/org/demo/Thing.java",
        "package org.demo;\nclass Thing {}\n",
    );
    let loc = goto(&mut index, code, "Thing t").expect("definition");
    assert_eq!(loc.uri, "file:///workspace/org/demo/Thing.java");
}

#[test]
fn class_of_the_file_beats_the_class_of_the_package() {
    let elsewhere = "package org.demo;\nclass Thing {}\n";
    let code = "package org.demo;\nclass Main {\n    Thing t;\n}\nclass Thing {}\n";
    let mut index = GlobalIndex::new();
    index_file(&mut index, "file:///workspace/org/demo/Thing.java", elsewhere);
    let loc = goto(&mut index, code, "Thing t").expect("definition");
    assert_eq!(loc.uri, MAIN);
    assert_eq!(loc.range.start.line, 4);
}

const BOX: &str = "package java.util;\npublic class Box {\n    public static void get() {}\n}\n";

const USES_BOX: &str = r#"
package org.demo;

import java.util.Box;

class Main {
    void entry() {
        Box.get();
    }
}
"#;

#[test]
fn archive_member_beats_one_of_another_scheme() {
    let mut index = GlobalIndex::new();
    index_file(&mut index, "untitled:Box", BOX);
    index_file(&mut index, "jrsls-std:///java.base/java/util/Box.java", BOX);
    let loc = goto(&mut index, USES_BOX, "get();").expect("definition");
    assert_eq!(loc.uri, "jrsls-std:///java.base/java/util/Box.java");
}

#[test]
fn file_member_beats_one_of_the_archive() {
    let mut index = GlobalIndex::new();
    index_file(&mut index, "jrsls-std:///java.base/java/util/Box.java", BOX);
    index_file(&mut index, "file:///workspace/java/util/Box.java", BOX);
    let loc = goto(&mut index, USES_BOX, "get();").expect("definition");
    assert_eq!(loc.uri, "file:///workspace/java/util/Box.java");
}

#[test]
fn platform_member_beats_the_rest_of_the_archive() {
    let other = "package org.lib;\npublic class Box {\n    public static void get() {}\n}\n";
    let code = "package org.demo;\nclass Main {\n    void entry() {\n        unknown.get();\n    }\n}\n";
    let mut index = GlobalIndex::new();
    index_file(&mut index, "jrsls-std:///lib/org/lib/Box.java", other);
    index_file(&mut index, "jrsls-std:///java.base/java/util/Box.java", BOX);
    let loc = goto(&mut index, code, "get();").expect("definition");
    assert_eq!(loc.uri, "jrsls-std:///java.base/java/util/Box.java");
}

#[test]
fn unknown_name_gives_nothing() {
    let code = "package org.demo;\nclass Main {\n    Missing m;\n}\n";
    let mut index = GlobalIndex::new();
    index_file(
        &mut index,
        "file:///workspace/com/other/Missing.java",
        "package com.other;\npublic class Missing {}\n",
    );
    assert_eq!(goto(&mut index, code, "Missing m"), None);
}

fn place(fqcn: &str, uri: &str, line: u32) -> ClassLocation {
    let p = Position { line, character: 0 };
    ClassLocation {
        fqcn: fqcn.to_string(),
        uri: uri.to_string(),
        range: Range { start: p, end: p },
    }
}

#[test]
fn class_matchers_pick_the_first_that_fits() {
    let candidates = vec![
        place("com.other.String", "file:///w/com/other/String.java", 1),
        place("java.lang.String", "jrsls-std:///java/lang/String.java", 2),
        place("org.demo.String", "file:///w/org/demo/String.java", 3),
        place("java.lang.String", "file:///w/dup/String.java", 4),
    ];
    let imports = vec![
        "java.util.List".to_string(),
        "org.demo.String".to_string(),
        "com.other.String".to_string(),
    ];
    let hit = match_imported_symbol(&candidates, &imports, "String").expect("import");
    assert_eq!(hit.fqcn, "org.demo.String");
    assert_eq!(hit.range.start.line, 3);
    assert!(match_imported_symbol(&candidates, &imports, "List").is_none());
    assert!(match_imported_symbol(&candidates, &imports, "ring").is_none());

    let hit = match_same_package(&candidates, "com.other", "String").expect("package");
    assert_eq!(hit.range.start.line, 1);
    assert!(match_same_package(&candidates, "com", "other.Strin").is_none());

    let hit = match_same_file(&candidates, "file:///w/dup/String.java").expect("file");
    assert_eq!(hit.range.start.line, 4);
    assert!(match_same_file(&candidates, "file:///w/none.java").is_none());

    let hit = match_java_lang(&candidates).expect("java.lang");
    assert_eq!(hit.range.start.line, 2);
    assert!(match_java_lang(&candidates[..1]).is_none());
}

#[test]
fn fallback_prefers_workspace_files_then_java_lang() {
    let archive = vec![
        place("com.other.String", "jrsls-std:///com/other/String.java", 1),
        place("java.lang.String", "jrsls-std:///java/lang/String.java", 2),
    ];
    assert_eq!(select_fallback(archive).expect("some").range.start.line, 2);
    let mixed = vec![
        place("java.lang.String", "jrsls-std:///java/lang/String.java", 2),
        place("org.demo.String", "file:///w/org/demo/String.java", 3),
        place("org.demo.String", "untitled:Untitled-1", 4),
    ];
    assert_eq!(select_fallback(mixed).expect("some").range.start.line, 3);
    let others = vec![place("a.B", "jrsls-std:///a/B.java", 7)];
    assert_eq!(select_fallback(others).expect("some").range.start.line, 7);
    assert!(select_fallback(Vec::new()).is_none());
}

#[test]
fn priority_goes_by_scheme_then_by_platform_package() {
    assert_eq!(priority_for_uri("file:///w/A.java", "a.A.m"), 0);
    assert_eq!(priority_for_uri("file:///w/A.java", "java.lang.A.m"), 0);
    assert_eq!(
        priority_for_uri("jrsls-std:///java/lang/A.java", "java.lang.A.m"),
        1
    );
    assert_eq!(priority_for_uri("jrsls-std:///a/A.java", "a.A.m"), 2);
    assert_eq!(priority_for_uri("jrsls-std:///javax/A.java", "javax.A.m"), 2);
    assert_eq!(priority_for_uri("untitled:Untitled-1", "java.lang.A.m"), 3);
    assert_eq!(priority_for_uri("https://example.org/A.java", "a.A.m"), 3);
    assert_eq!(priority_for_uri("not a uri", "a.A.m"), 3);
    assert_eq!(priority_for_uri("not a uri", "java.util.A.m"), 3);
}

#[test]
fn qualifier_head_is_resolved_by_imports_package_and_java_lang() {
    let info = FileInfo {
        package_name: Some("org.demo".to_string()),
        imports: vec![
            "java.util.Map".to_string(),
            "net.absent.Data".to_string(),
            "com.other.Data".to_string(),
        ],
        defined_classes: vec![],
    };
    let candidates = vec![
        place("java.lang.Data", "file:///w/java/lang/Data.java", 1),
        place("org.demo.Data", "file:///w/org/demo/Data.java", 2),
        place("com.other.Data", "file:///w/com/other/Data.java", 3),
        place("far.away.Data", "file:///w/far/away/Data.java", 4),
    ];
    // the first import that names a candidate wins, not the first of that name
    assert_eq!(
        resolve_qualifier_fqcn("Data", &candidates, &info).as_deref(),
        Some("com.other.Data")
    );
    assert_eq!(
        resolve_qualifier_fqcn("Data.field.more", &candidates, &info).as_deref(),
        Some("com.other.Data")
    );
    // an import that names no candidate resolves nothing
    assert_eq!(resolve_qualifier_fqcn("Map", &[], &info), None);
    assert_eq!(resolve_qualifier_fqcn("Map.Entry", &[], &info), None);
    // without the import the package decides, then java.lang, then any
    assert_eq!(
        resolve_qualifier_fqcn("Data", &candidates[..2], &info).as_deref(),
        Some("org.demo.Data")
    );
    assert_eq!(
        resolve_qualifier_fqcn("Data", &candidates[..1], &info).as_deref(),
        Some("java.lang.Data")
    );
    assert_eq!(
        resolve_qualifier_fqcn("Data", &candidates[3..], &info).as_deref(),
        Some("far.away.Data")
    );
    assert_eq!(resolve_qualifier_fqcn("Other", &candidates[3..], &info), None);
    assert_eq!(resolve_qualifier_fqcn("Data", &[], &info), None);
}

#[test]
fn qualifier_chain_follows_fields_of_class_type() {
    let code = r#"
package org.demo;

class Engine { void start() {} }
class Car { Engine engine; int wheels; }
class Garage { Car car; }
"#;
    let mut index = GlobalIndex::new();
    index_file(&mut index, MAIN, code);
    let info = index.file_info(MAIN).expect("indexed");
    assert_eq!(
        resolve_qualifier_chain("Garage", &index, &info).as_deref(),
        Some("org.demo.Garage")
    );
    assert_eq!(
        resolve_qualifier_chain("Garage.car.engine", &index, &info).as_deref(),
        Some("org.demo.Engine")
    );
    // a field of primitive type ends the chain
    assert_eq!(resolve_qualifier_chain("Car.wheels", &index, &info), None);
    assert_eq!(resolve_qualifier_chain("Car.missing", &index, &info), None);
    assert_eq!(resolve_qualifier_chain("Nothing.car", &index, &info), None);
}

const TYPES: &str = r#"
class Types {
    long total;

    int size() { return 0; }
    void reset() {}
    String name(int a) { return ""; }
    String name() { return ""; }

    void run(double ratio, Types other) {
        probe(1, 2L, 3.0f, 4.0, "s", 'c', true, (float) ratio, (ratio), new Types(), total,
            other, size(), reset(), name(), undefined);
        try (java.io.Reader in = open()) { probe(in); }
        for (Integer each : list()) { probe(each); }
    }
}
"#;

fn infer_at(needle: &str) -> InferredType {
    let (tree, rope) = parse(TYPES);
    let index = GlobalIndex::new();
    let p = at(TYPES, needle);
    let byte = rope.char_to_byte(rope.line_to_char(p.line as usize) + p.character as usize);
    let mut node = descendant_for_byte(&tree, 0, byte);
    // widen to the largest expression that starts at the needle and is one
    // of the call's arguments
    while let Some(parent) = tree.parent(node) {
        if tree.start_byte(parent) != tree.start_byte(node) {
            break;
        }
        if tree.child_count(parent) > 0 && get_node_text(&tree, parent, &rope).contains(',') {
            break;
        }
        node = parent;
    }
    TypeSolver::new(&tree, &rope, &index, MAIN).infer(node)
}

#[test]
fn solver_types_literals_casts_and_creations() {
    assert_eq!(infer_at("1, 2L"), InferredType::Int);
    assert_eq!(infer_at("2L,"), InferredType::Long);
    assert_eq!(infer_at("3.0f"), InferredType::Float);
    assert_eq!(infer_at("4.0,"), InferredType::Double);
    assert_eq!(infer_at("\"s\""), InferredType::String);
    assert_eq!(infer_at("'c'"), InferredType::Char);
    assert_eq!(infer_at("true,"), InferredType::Boolean);
    assert_eq!(infer_at("(float) ratio"), InferredType::Float);
    assert_eq!(infer_at("(ratio)"), InferredType::Double);
    assert_eq!(
        infer_at("new Types()"),
        InferredType::Class("Types".to_string())
    );
}

#[test]
fn solver_types_names_by_their_declarations() {
    assert_eq!(infer_at("total,"), InferredType::Long);
    assert_eq!(
        infer_at("other, size"),
        InferredType::Class("Types".to_string())
    );
    assert_eq!(infer_at("undefined)"), InferredType::Unknown);
    assert_eq!(
        infer_at("in); }"),
        InferredType::Class("java.io.Reader".to_string())
    );
    assert_eq!(infer_at("each); }"), InferredType::Int);
}

#[test]
fn solver_types_calls_by_the_method_of_that_name_and_arity() {
    assert_eq!(infer_at("size(), reset"), InferredType::Int);
    assert_eq!(infer_at("reset(), name"), InferredType::Unknown);
    assert_eq!(infer_at("name(), undefined"), InferredType::String);
}

#[test]
fn qualifier_is_the_object_before_the_dot() {
    let code = "class A { void f() { alpha.beta.gamma(); alpha.beta.delta = 1; solo(); } }";
    let (tree, rope) = parse(code);
    let node_at = |needle: &str| get_node_at_pos(&tree, &rope, at(code, needle)).expect("name").0;
    assert_eq!(
        resolve_qualifier(&tree, node_at("gamma"), &rope).as_deref(),
        Some("alpha.beta")
    );
    assert_eq!(
        resolve_qualifier(&tree, node_at("delta"), &rope).as_deref(),
        Some("alpha.beta")
    );
    assert_eq!(
        resolve_qualifier(&tree, node_at("beta.gamma"), &rope).as_deref(),
        Some("alpha")
    );
    // the object itself has no qualifier
    assert_eq!(resolve_qualifier(&tree, node_at("alpha.beta.gamma"), &rope), None);
    assert_eq!(resolve_qualifier(&tree, node_at("solo"), &rope), None);
}

#[test]
fn parenthesis_may_follow_after_white_space() {
    let code = "class A { void f() { one(); two \n\t (); three; } }";
    let (tree, rope) = parse(code);
    let node_at = |needle: &str| get_node_at_pos(&tree, &rope, at(code, needle)).expect("name").0;
    assert!(is_followed_by_paren(&tree, node_at("one"), &rope));
    assert!(is_followed_by_paren(&tree, node_at("two"), &rope));
    assert!(!is_followed_by_paren(&tree, node_at("three"), &rope));
}

#[test]
fn text_scan_reads_the_first_line_that_declares_the_name() {
    let rope = Rope::from_str("  List<String> items = make();\nint n;\n\tMap m=x;\nitems = null;\n");
    assert_eq!(
        find_type_by_text_scan(&rope, "items").as_deref(),
        Some("List<String>")
    );
    assert_eq!(find_type_by_text_scan(&rope, "n").as_deref(), Some("int"));
    assert_eq!(find_type_by_text_scan(&rope, "m").as_deref(), Some("Map"));
    assert_eq!(find_type_by_text_scan(&rope, "make"), None);
    assert_eq!(find_type_by_text_scan(&rope, "null").as_deref(), Some("items"));
    assert_eq!(find_type_by_text_scan(&Rope::from_str(""), "x"), None);
}
