use jrsls::indexer::Indexer;
use jrsls::lower::lower;
use jrsls::state::GlobalIndex;
use jrsls::syntax::SyntaxTree;
use ropey::Rope;

fn parse(code: &str) -> (SyntaxTree, Rope) {
    let rope = Rope::from_str(code);
    let mut parser = tree_sitter::Parser::new();
    parser
        .set_language(&tree_sitter_java::LANGUAGE.into())
        .expect("load java grammar");
    let tree = parser.parse(code, None).unwrap();
    (lower(&tree).expect("mirror"), rope)
}

#[test]
fn indexes_package_imports_classes_and_members() {
    let code = "package org.demo;\nimport java.util.List;\nclass A {\n    int x, y;\n    void run(int a, String... rest) {}\n}\ninterface B { void go(); }\n";
    let (tree, rope) = parse(code);
    let mut index = GlobalIndex::new();
    Indexer::update_file(&mut index, "file:///w/A.java", &tree, &rope);

    let info = index.file_info("file:///w/A.java").expect("indexed");
    assert_eq!(info.package_name.as_deref(), Some("org.demo"));
    assert_eq!(info.imports, vec!["java.util.List".to_string()]);
    assert_eq!(info.defined_classes, vec!["A".to_string(), "B".to_string()]);

    let a = index.classes_by_short_name("A");
    assert_eq!(a.len(), 1);
    assert_eq!(a[0].fqcn, "org.demo.A");
    assert_eq!(a[0].uri, "file:///w/A.java");
    assert_eq!(a[0].range.start.line, 2);

    let members = index.members_of_class("org.demo.A");
    let names: Vec<String> = members.iter().map(|m| m.fqmn.clone()).collect();
    assert_eq!(names, vec!["org.demo.A.x", "org.demo.A.y", "org.demo.A.run"]);
    let run = &members[2];
    assert!(!run.is_field);
    assert!(run.is_varargs);
    assert_eq!(run.param_count, 2);
    assert_eq!(run.param_types, vec!["int".to_string(), "String".to_string()]);
    assert!(members[0].is_field);
    assert_eq!(members[0].field_type, Some(jrsls::ast::InferredType::Int));

    let go = index.members_by_name("go");
    assert_eq!(go.len(), 1);
    assert_eq!(go[0].fqmn, "org.demo.B.go");
}

#[test]
fn invalid_uri_leaves_index_unchanged() {
    let (tree, rope) = parse("class A {}");
    let mut index = GlobalIndex::new();
    Indexer::update_file(&mut index, "not a uri", &tree, &rope);
    assert!(index.classes_by_short_name("A").is_empty());
    assert!(index.file_info("not a uri").is_none());
}
