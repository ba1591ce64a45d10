use jrsls::document::{new_parser, ready_parser, Document};
use jrsls::lower::{lower, mirror_of_steps, record_walk, NodeShape, WalkStep};
use jrsls::state::{Position, Range};
use jrsls::syntax::{NodeKind, SyntaxTree};
use ropey::Rope;

fn shape(kind: NodeKind, start_byte: usize, end_byte: usize) -> NodeShape {
    let zero = Position {
        line: 0,
        character: 0,
    };
    NodeShape {
        kind,
        named: true,
        field: None,
        start_byte,
        end_byte,
        range: Range {
            start: zero,
            end: zero,
        },
    }
}

fn layout(tree: &SyntaxTree) -> Vec<(NodeKind, usize, usize, Option<usize>, Vec<usize>)> {
    (0..tree.len())
        .map(|i| {
            (
                tree.kind(i),
                tree.start_byte(i),
                tree.end_byte(i),
                tree.parent(i),
                (0..tree.child_count(i)).map(|k| tree.child(i, k)).collect(),
            )
        })
        .collect()
}

#[test]
fn steps_build_the_mirror_they_describe() {
    let steps = vec![
        WalkStep::Enter(shape(NodeKind::Program, 0, 9)),
        WalkStep::Enter(shape(NodeKind::ClassDeclaration, 0, 4)),
        WalkStep::Enter(shape(NodeKind::Identifier, 1, 2)),
        WalkStep::Leave,
        WalkStep::Enter(shape(NodeKind::ClassBody, 2, 4)),
        WalkStep::Leave,
        WalkStep::Leave,
        WalkStep::Enter(shape(NodeKind::ClassDeclaration, 5, 9)),
        WalkStep::Leave,
        WalkStep::Leave,
    ];
    let tree = mirror_of_steps(&steps).expect("mirror");
    assert_eq!(
        layout(&tree),
        vec![
            (NodeKind::Program, 0, 9, None, vec![1, 4]),
            (NodeKind::ClassDeclaration, 0, 4, Some(0), vec![2, 3]),
            (NodeKind::Identifier, 1, 2, Some(1), vec![]),
            (NodeKind::ClassBody, 2, 4, Some(1), vec![]),
            (NodeKind::ClassDeclaration, 5, 9, Some(0), vec![]),
        ]
    );
}

#[test]
fn steps_without_nodes_build_an_empty_mirror() {
    assert_eq!(mirror_of_steps(&Vec::new()).expect("mirror").len(), 0);
    let only_leaves = vec![WalkStep::Leave, WalkStep::Leave];
    assert_eq!(mirror_of_steps(&only_leaves).expect("mirror").len(), 0);
}

#[test]
fn leaving_more_than_was_entered_starts_a_new_root() {
    let steps = vec![
        WalkStep::Enter(shape(NodeKind::Program, 0, 1)),
        WalkStep::Leave,
        WalkStep::Leave,
        WalkStep::Enter(shape(NodeKind::Block, 1, 2)),
    ];
    let tree = mirror_of_steps(&steps).expect("mirror");
    assert_eq!(
        layout(&tree),
        vec![
            (NodeKind::Program, 0, 1, None, vec![]),
            (NodeKind::Block, 1, 2, None, vec![]),
        ]
    );
}

#[test]
fn node_with_a_backwards_extent_builds_no_mirror() {
    let steps = vec![
        WalkStep::Enter(shape(NodeKind::Program, 0, 9)),
        WalkStep::Enter(shape(NodeKind::Block, 7, 3)),
        WalkStep::Leave,
    ];
    assert!(mirror_of_steps(&steps).is_none());
    let empty_extent = vec![WalkStep::Enter(shape(NodeKind::Program, 4, 4))];
    assert!(mirror_of_steps(&empty_extent).is_some());
}

fn parse(code: &str) -> tree_sitter::Tree {
    let mut parser = new_parser(&tree_sitter_java::LANGUAGE.into()).expect("java grammar");
    parser.parse(code, None).expect("tree")
}

#[test]
fn recorded_walk_enters_every_node_once_and_leaves_it() {
    let code = "class A { int x; void f() { x = 1; } }";
    let parsed = parse(code);
    let steps = record_walk(&parsed).expect("steps");
    assert!(matches!(steps[0], WalkStep::Enter(_)));
    let enters = steps
        .iter()
        .filter(|s| matches!(s, WalkStep::Enter(_)))
        .count();
    let leaves = steps.len() - enters;
    assert_eq!(enters, parsed.root_node().descendant_count());
    assert_eq!(leaves, enters);
    let mut depth: usize = 0;
    for step in &steps {
        match step {
            WalkStep::Enter(_) => depth += 1,
            WalkStep::Leave => {
                assert!(depth > 0);
                depth -= 1;
            }
        }
    }
    assert_eq!(depth, 0);
    match steps[0] {
        WalkStep::Enter(root) => {
            assert_eq!(root.kind, NodeKind::Program);
            assert_eq!(root.start_byte, 0);
            assert_eq!(root.end_byte, code.len());
        }
        WalkStep::Leave => panic!("walk starts off a node"),
    }

    let from_steps = mirror_of_steps(&steps).expect("mirror");
    let direct = lower(&parsed).expect("mirror");
    assert_eq!(layout(&from_steps), layout(&direct));
    assert_eq!(direct.len(), enters);
    assert_eq!(direct.kind(1), NodeKind::ClassDeclaration);
    assert_eq!(direct.parent(1), Some(0));
}

#[test]
fn document_holds_the_text_and_the_mirror_of_the_walk() {
    let code = "class A {}";
    let parsed = parse(code);
    let steps = record_walk(&parsed).expect("steps");
    let expected = layout(&mirror_of_steps(&steps).expect("mirror"));
    let doc = Document::from_walk(Rope::from_str(code), parsed, &steps).expect("document");
    assert_eq!(doc.text.to_string(), code);
    assert_eq!(layout(&doc.mirror), expected);
    assert_eq!(doc.tree.root_node().kind(), "program");

    let broken = vec![WalkStep::Enter(shape(NodeKind::Program, 3, 1))];
    assert!(Document::from_walk(Rope::from_str(code), parse(code), &broken).is_none());

    let mut parser = new_parser(&tree_sitter_java::LANGUAGE.into()).expect("java grammar");
    let opened = Document::open(&mut parser, code).expect("document");
    assert_eq!(opened.text.to_string(), code);
    assert_eq!(layout(&opened.mirror), expected);
}

#[test]
fn document_takes_up_a_parse_only_with_a_tree_and_a_mirror() {
    let mut parser = new_parser(&tree_sitter_java::LANGUAGE.into()).expect("java grammar");
    let mut doc = Document::open(&mut parser, "class A {}").expect("document");
    let before = layout(&doc.mirror);

    let other = parse("interface B { void f(); }");
    let steps = record_walk(&other).expect("steps");
    let expected = layout(&mirror_of_steps(&steps).expect("mirror"));

    // no tree: nothing is taken
    assert!(!doc.take_parse(None, &steps));
    assert_eq!(layout(&doc.mirror), before);
    assert_eq!(doc.tree.root_node().end_byte(), "class A {}".len());

    // steps that build no mirror: nothing is taken
    let broken = vec![WalkStep::Enter(shape(NodeKind::Program, 3, 1))];
    assert!(!doc.take_parse(Some(parse("class C {}")), &broken));
    assert_eq!(layout(&doc.mirror), before);
    assert_eq!(doc.tree.root_node().end_byte(), "class A {}".len());

    // a tree and a mirror: both are taken, the text stays
    assert!(doc.take_parse(Some(other), &steps));
    assert_eq!(layout(&doc.mirror), expected);
    assert_eq!(
        doc.tree.root_node().end_byte(),
        "interface B { void f(); }".len()
    );
    assert_eq!(doc.text.to_string(), "class A {}");
}

#[test]
fn parser_is_handed_out_only_with_a_language() {
    assert!(ready_parser(tree_sitter::Parser::new(), false).is_none());
    let mut parser = tree_sitter::Parser::new();
    let took = parser
        .set_language(&tree_sitter_java::LANGUAGE.into())
        .is_ok();
    assert!(took);
    let mut ready = ready_parser(parser, took).expect("parser");
    assert!(ready.parse("class A {}", None).is_some());
    assert!(new_parser(&tree_sitter_java::LANGUAGE.into()).is_some());
}
