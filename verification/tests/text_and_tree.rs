use jrsls::ast::{
    count_args, get_call_args, get_method_call_arg_count, parse_java_type, InferredType,
};
use jrsls::completion::{
    byte_before, member_completion_context, position_before, qualifier_at_dot, slice_prefix,
    textual_member_context,
};
use jrsls::indexer::{collect_members, get_def_param_types, get_method_def_param_count, Indexer};
use jrsls::inference::{find_declaration_node, infer_expr_type};
use jrsls::lower::{attach, lower};
use jrsls::scope::{
    find_field_in_declaration, prefer_field_first, search_class_member, search_fields_in_class,
    search_scope,
};
use jrsls::state::{GlobalIndex, IndexedMember, Position, Range};
use jrsls::syntax::{node_range, FieldName, NodeKind, SyntaxNode, SyntaxTree};
use jrsls::text::{
    chars_of, find_first, find_last, first_segment, has_last_segment, has_owner, join_dot,
    last_segment, matches_at, split_dots, starts_with, str_eq, trimmed_part,
};
use jrsls::utils::{
    child_by_field, descendant_for_byte, first_child_of_kind, get_node_at_pos, get_node_text,
    has_ancestor_kind,
    named_children_of, offset_for_position, param_name_of, param_nodes, param_type_of,
};
use ropey::Rope;

fn parse(code: &str) -> (SyntaxTree, Rope) {
    let rope = Rope::from_str(code);
    let mut parser = tree_sitter::Parser::new();
    parser
        .set_language(&tree_sitter_java::LANGUAGE.into())
        .expect("load java grammar");
    let parsed = parser.parse(code, None).unwrap();
    (lower(&parsed).expect("mirror"), rope)
}

fn find(tree: &SyntaxTree, rope: &Rope, kind: NodeKind, text: &str) -> usize {
    (0..tree.len())
        .find(|&i| tree.kind(i) == kind && get_node_text(tree, i, rope).starts_with(text))
        .unwrap_or_else(|| panic!("no {:?} starting with {}", kind, text))
}

fn pos(line: u32, character: u32) -> Position {
    Position { line, character }
}

#[test]
fn text_helpers_agree_with_their_meaning() {
    assert!(str_eq("", ""));
    assert!(str_eq("h\u{e9}", "h\u{e9}"));
    assert!(!str_eq("he", "h\u{e9}"));
    assert!(!str_eq("a", "ab"));
    assert_eq!(chars_of("h\u{e9}!"), vec!['h', '\u{e9}', '!']);
    assert!(starts_with("java.lang.String", "java.lang."));
    assert!(starts_with("abc", ""));
    assert!(!starts_with("java", "java.lang."));
    assert!(has_last_segment("java.util.List", "List"));
    assert!(has_last_segment(".List", "List"));
    assert!(!has_last_segment("List", "List"));
    assert!(!has_last_segment("java.util.ArrayList", "List"));
    assert!(has_owner("p.A.m", "p.A"));
    assert!(!has_owner("p.AB.m", "p.A"));
    assert!(!has_owner("p.A", "p.A"));
    assert!(has_owner(".m", ""));
    assert_eq!(join_dot("p.A", "m"), "p.A.m");
    assert_eq!(join_dot("", ""), ".");
    assert_eq!(first_segment("a.b.c"), "a");
    assert_eq!(first_segment("abc"), "abc");
    assert_eq!(first_segment(".x"), "");
    assert_eq!(last_segment("a.b.c"), "c");
    assert_eq!(last_segment("abc"), "abc");
    assert_eq!(last_segment("x."), "");
    assert_eq!(split_dots("a.b.c"), vec!["a", "b", "c"]);
    assert_eq!(split_dots("abc"), vec!["abc"]);
    assert_eq!(split_dots(""), vec![""]);
    assert_eq!(split_dots(".a..b."), vec!["", "a", "", "b", ""]);
    let chars = chars_of("a.b.a");
    assert_eq!(find_first(&chars, '.'), Some(1));
    assert_eq!(find_last(&chars, '.'), Some(3));
    assert_eq!(find_first(&chars, 'z'), None);
    assert_eq!(find_last(&chars, 'a'), Some(4));
    assert!(matches_at(&chars, 2, &chars_of("b.a")));
    assert!(!matches_at(&chars, 0, &chars_of("b")));
    let line = " \t x y \u{a0}\n";
    let chars = chars_of(line);
    assert_eq!(trimmed_part(line, &chars, 0, chars.len()), "x y");
    assert_eq!(trimmed_part(line, &chars, 0, 3), "");
    assert_eq!(trimmed_part(line, &chars, 3, 6), "x y");
}

const CODE: &str = r#"class Box {
    int width, height;
    String label;

    int area(int scale, String... notes) { return width * scale; }
    void reset() { int tmp = 0; width = tmp; }
    int width() { return width; }
}
"#;

#[test]
fn node_text_and_range_follow_the_node() {
    let (tree, rope) = parse(CODE);
    let class = find(&tree, &rope, NodeKind::ClassDeclaration, "class Box");
    assert_eq!(tree.parent(class), Some(0));
    assert_eq!(tree.kind(0), NodeKind::Program);
    let name = child_by_field(&tree, class, FieldName::Name).expect("name");
    assert_eq!(get_node_text(&tree, name, &rope), "Box");
    assert_eq!(tree.field(name), Some(FieldName::Name));
    assert!(tree.is_named(name));
    let range = node_range(&tree, name);
    assert_eq!(range.start, pos(0, 6));
    assert_eq!(range.end, pos(0, 9));
    assert_eq!(tree.start_byte(name), 6);
    assert_eq!(tree.end_byte(name), 9);
    assert!(child_by_field(&tree, name, FieldName::Body).is_none());
    // a rope shorter than the node's extent yields no text
    assert_eq!(get_node_text(&tree, name, &Rope::from_str("class")), "");
}

#[test]
fn text_of_a_node_after_multibyte_chars() {
    let code = "class A { String s = \"\u{e9}\u{e8}\"; int after; }";
    let (tree, rope) = parse(code);
    let after = find(&tree, &rope, NodeKind::Identifier, "after");
    assert_eq!(get_node_text(&tree, after, &rope), "after");
    let column = code.chars().position(|c| c == 'f').unwrap() as u32 - 1;
    let (found, name) = get_node_at_pos(&tree, &rope, pos(0, column)).expect("name");
    assert_eq!(found, after);
    assert_eq!(name, "after");
    let byte = offset_for_position(&rope, pos(0, column)).expect("offset");
    assert_eq!(byte, code.find("after").unwrap());
    assert_eq!(descendant_for_byte(&tree, 0, byte), after);
}

#[test]
fn parameters_and_their_types() {
    let (tree, rope) = parse(CODE);
    let area = find(&tree, &rope, NodeKind::MethodDeclaration, "int area");
    let params = param_nodes(&tree, area);
    assert_eq!(params.len(), 2);
    assert_eq!(tree.kind(params[0]), NodeKind::FormalParameter);
    assert_eq!(tree.kind(params[1]), NodeKind::SpreadParameter);
    let texts = |ids: Vec<Option<usize>>| -> Vec<String> {
        ids.into_iter()
            .map(|n| get_node_text(&tree, n.expect("node"), &rope))
            .collect()
    };
    assert_eq!(
        texts(params.iter().map(|&p| param_type_of(&tree, p)).collect()),
        vec!["int", "String"]
    );
    assert_eq!(
        texts(params.iter().map(|&p| param_name_of(&tree, p)).collect()),
        vec!["scale", "notes"]
    );
    assert_eq!(get_def_param_types(&tree, area, &rope), vec!["int", "String"]);
    assert_eq!(get_method_def_param_count(&tree, area), Some(2));
    let reset = find(&tree, &rope, NodeKind::MethodDeclaration, "void reset");
    assert_eq!(get_method_def_param_count(&tree, reset), Some(0));
    assert!(get_def_param_types(&tree, reset, &rope).is_empty());
    let field = find(&tree, &rope, NodeKind::FieldDeclaration, "int width");
    assert_eq!(get_method_def_param_count(&tree, field), None);
    let type_node = child_by_field(&tree, field, FieldName::Type).expect("type");
    assert_eq!(parse_java_type(&tree, type_node, &rope), InferredType::Int);
}

#[test]
fn call_arguments_are_the_named_children_of_the_list() {
    let code = "class A { void f() { g(1, /* two */ x, h()); k(); v = 1; } }";
    let (tree, rope) = parse(code);
    let g = find(&tree, &rope, NodeKind::Identifier, "g");
    let args = get_call_args(&tree, g);
    let texts: Vec<String> = args.iter().map(|&a| get_node_text(&tree, a, &rope)).collect();
    assert_eq!(texts, vec!["1", "/* two */", "x", "h()"]);
    assert_eq!(count_args(&tree, g), 4);
    assert_eq!(get_method_call_arg_count(&tree, g), Some(4));
    let k = find(&tree, &rope, NodeKind::Identifier, "k");
    assert_eq!(get_method_call_arg_count(&tree, k), Some(0));
    assert!(get_call_args(&tree, k).is_empty());
    let v = find(&tree, &rope, NodeKind::Identifier, "v");
    assert_eq!(get_method_call_arg_count(&tree, v), None);
    assert_eq!(count_args(&tree, v), 0);
    assert!(prefer_field_first(&tree, v));
    assert!(has_ancestor_kind(&tree, args[2], NodeKind::MethodInvocation));
    assert!(has_ancestor_kind(&tree, args[2], NodeKind::Identifier));
    assert!(!has_ancestor_kind(&tree, v, NodeKind::MethodInvocation));
    assert!(has_ancestor_kind(&tree, v, NodeKind::Program));
    assert!(!prefer_field_first(&tree, g));
    let list = tree.parent(args[0]).expect("list");
    assert_eq!(named_children_of(&tree, list), args);
}

#[test]
fn scopes_are_searched_for_declarators() {
    let (tree, rope) = parse(CODE);
    let reset = find(&tree, &rope, NodeKind::MethodDeclaration, "void reset");
    let body = child_by_field(&tree, reset, FieldName::Body).expect("body");
    let found = search_scope(&tree, body, "tmp", &rope).expect("local");
    assert_eq!(found.start, pos(5, 23));
    assert_eq!(found.end, pos(5, 26));
    assert_eq!(search_scope(&tree, body, "width", &rope), None);

    let class = find(&tree, &rope, NodeKind::ClassDeclaration, "class Box");
    let class_body = child_by_field(&tree, class, FieldName::Body).expect("body");
    let height = search_fields_in_class(&tree, class_body, "height", &rope).expect("field");
    assert_eq!(height.start, pos(1, 15));
    // a field and a method share the name `width`: the first in the body wins
    let width = search_fields_in_class(&tree, class_body, "width", &rope).expect("member");
    assert_eq!(width.start, pos(1, 8));
    let area = search_fields_in_class(&tree, class_body, "area", &rope).expect("method");
    assert_eq!(area.start, pos(4, 8));
    assert_eq!(search_fields_in_class(&tree, class_body, "tmp", &rope), None);

    let field = find(&tree, &rope, NodeKind::FieldDeclaration, "int width");
    assert_eq!(
        find_field_in_declaration(&tree, field, "height", &rope).map(|r| r.start),
        Some(pos(1, 15))
    );
    assert_eq!(find_field_in_declaration(&tree, field, "label", &rope), None);
    assert_eq!(find_field_in_declaration(&tree, reset, "tmp", &rope), None);

    let index = GlobalIndex::new();
    let no_args = Vec::new();
    let as_field = search_class_member(
        &tree, class_body, "width", &rope, &no_args, &index, "file:///b", true,
    )
    .expect("field");
    assert_eq!(as_field.start, pos(1, 8));
    let as_call = search_class_member(
        &tree, class_body, "width", &rope, &no_args, &index, "file:///b", false,
    )
    .expect("method");
    assert_eq!(as_call.start, pos(6, 8));
    let only_field = search_class_member(
        &tree, class_body, "label", &rope, &no_args, &index, "file:///b", false,
    )
    .expect("field");
    assert_eq!(only_field.start, pos(2, 11));
}

#[test]
fn declaration_in_scope_is_the_innermost() {
    let code = "class A { int v; void f(int v) { { int v = 1; use(v); } use(v); } void g() { use(v); } }";
    let (tree, rope) = parse(code);
    let uses: Vec<usize> = (0..tree.len())
        .filter(|&i| {
            tree.kind(i) == NodeKind::Identifier
                && get_node_text(&tree, i, &rope) == "v"
                && tree.parent(i).map(|p| format!("{:?}", tree.kind(p))) == Some("Other".to_string())
        })
        .collect();
    assert_eq!(uses.len(), 3);
    let kinds: Vec<NodeKind> = uses
        .iter()
        .map(|&u| tree.kind(find_declaration_node(&tree, u, "v", &rope).expect("declared")))
        .collect();
    assert_eq!(
        kinds,
        vec![
            NodeKind::VariableDeclarator,
            NodeKind::FormalParameter,
            NodeKind::VariableDeclarator
        ]
    );
    let inner = find_declaration_node(&tree, uses[0], "v", &rope).unwrap();
    let field = find_declaration_node(&tree, uses[2], "v", &rope).unwrap();
    assert!(tree.start_byte(inner) > tree.start_byte(field));
    assert_eq!(find_declaration_node(&tree, uses[0], "w", &rope), None);
}

#[test]
fn expression_alone_shows_literal_types_only() {
    let code = "class A { Object o = f(1L, 2, ((3.5)), (int) x, y, \"s\"); }";
    let (tree, rope) = parse(code);
    let f = find(&tree, &rope, NodeKind::Identifier, "f");
    let args = get_call_args(&tree, f);
    let types: Vec<InferredType> = args
        .iter()
        .map(|&a| infer_expr_type(&tree, a, &rope))
        .collect();
    assert_eq!(
        types,
        vec![
            InferredType::Long,
            InferredType::Int,
            InferredType::Double,
            InferredType::Int,
            InferredType::Unknown,
            InferredType::String,
        ]
    );
}

#[test]
fn members_are_collected_from_a_class_body() {
    let (tree, rope) = parse(CODE);
    let class = find(&tree, &rope, NodeKind::ClassDeclaration, "class Box");
    let body = child_by_field(&tree, class, FieldName::Body).expect("body");
    let mut members: Vec<IndexedMember> = Vec::new();
    collect_members(&tree, &rope, body, "p.Box", &mut members, "file:///b");
    let names: Vec<(String, bool, usize, bool)> = members
        .iter()
        .map(|m| (m.fqmn.clone(), m.is_field, m.param_count, m.is_varargs))
        .collect();
    assert_eq!(
        names,
        vec![
            ("p.Box.width".to_string(), true, 0, false),
            ("p.Box.height".to_string(), true, 0, false),
            ("p.Box.label".to_string(), true, 0, false),
            ("p.Box.area".to_string(), false, 2, true),
            ("p.Box.reset".to_string(), false, 0, false),
            ("p.Box.width".to_string(), false, 0, false),
        ]
    );
    assert_eq!(members[2].field_type, Some(InferredType::String));
    assert_eq!(members[3].field_type, None);
    assert!(members.iter().all(|m| m.uri == "file:///b"));

    let record = Indexer::declarations(&tree, &rope, "file:///b");
    assert_eq!(record.uri, "file:///b");
    assert_eq!(record.package_name, None);
    assert_eq!(record.classes.len(), 1);
    assert_eq!(record.classes[0].fqcn, "Box");
    assert_eq!(record.classes[0].range.start, pos(0, 0));
    assert_eq!(record.classes[0].range.end, pos(7, 1));
    assert_eq!(record.members.len(), 6);
    assert_eq!(record.members[0].fqmn, "Box.width");
    let again = Indexer::declarations(&tree, &rope, "file:///b");
    assert_eq!(again.classes, record.classes);
    assert_eq!(again.members, record.members);
    assert_eq!(again.imports, record.imports);
}

#[test]
fn single_segment_package_is_not_taken_for_a_package_name() {
    let (tree, rope) = parse("package solo;\nimport java.util.*;\nclass A {}\n");
    let record = Indexer::declarations(&tree, &rope, "file:///a");
    assert_eq!(record.package_name, None);
    assert_eq!(record.imports, vec!["java.util".to_string()]);
    assert_eq!(record.classes[0].fqcn, "A");
}

fn leaf(parent: Option<usize>) -> SyntaxNode {
    let zero = pos(0, 0);
    SyntaxNode {
        kind: NodeKind::Other,
        named: false,
        field: None,
        start_byte: 1,
        end_byte: 2,
        range: Range {
            start: zero,
            end: zero,
        },
        parent,
        children: Vec::new(),
    }
}

#[test]
fn attached_node_becomes_the_last_child_of_its_parent() {
    let mut nodes: Vec<SyntaxNode> = Vec::new();
    attach(&mut nodes, leaf(None));
    attach(&mut nodes, leaf(Some(0)));
    attach(&mut nodes, leaf(Some(1)));
    attach(&mut nodes, leaf(Some(0)));
    assert_eq!(nodes.len(), 4);
    assert_eq!(nodes[0].children, vec![1, 3]);
    assert_eq!(nodes[1].children, vec![2]);
    assert!(nodes[2].children.is_empty());
    assert_eq!(nodes[3].parent, Some(0));
    let tree = SyntaxTree::from_nodes(nodes).expect("well formed");
    assert_eq!(tree.child_count(0), 2);
    assert_eq!(first_child_of_kind(&tree, 0, NodeKind::Other), Some(1));
    assert_eq!(first_child_of_kind(&tree, 0, NodeKind::Block), None);
}

#[test]
fn cursor_context_is_read_off_the_rope() {
    let rope = Rope::from_str("ab\n\ncd.e\u{e9}f");
    assert_eq!(byte_before(&rope, 0), None);
    assert_eq!(byte_before(&rope, 1), Some('a'));
    assert_eq!(byte_before(&rope, 3), Some('\n'));
    assert_eq!(byte_before(&rope, 11), Some('f'));
    assert_eq!(byte_before(&rope, 10), Some('\u{e9}'));
    assert_eq!(byte_before(&rope, 99), None);
    assert_eq!(position_before(&rope, pos(2, 3)), Some(pos(2, 2)));
    assert_eq!(position_before(&rope, pos(2, 0)), Some(pos(1, 0)));
    assert_eq!(position_before(&rope, pos(1, 0)), Some(pos(0, 2)));
    assert_eq!(position_before(&rope, pos(0, 0)), None);
    assert_eq!(position_before(&rope, pos(9, 0)), None);

    let rope = Rope::from_str("int x;\n  foo . bar.ba\nplain");
    let ctx = textual_member_context(&rope, pos(1, 14)).expect("context");
    assert_eq!(ctx.qualifier, "foo . bar");
    assert_eq!(ctx.prefix, "ba");
    let ctx = textual_member_context(&rope, pos(1, 7)).expect("context");
    assert_eq!(ctx.qualifier, "foo");
    assert_eq!(ctx.prefix, "");
    assert!(textual_member_context(&rope, pos(2, 3)).is_none());
    assert!(textual_member_context(&rope, pos(1, 4)).is_none());
    assert!(textual_member_context(&rope, pos(7, 0)).is_none());
    assert!(textual_member_context(&Rope::from_str(" .x"), pos(0, 3)).is_none());
}

#[test]
fn member_context_comes_from_the_tree_where_it_can() {
    let code = "class A { void f() { first.second.third(); data.field = 1; } }";
    let (tree, rope) = parse(code);
    let col = |needle: &str| code.find(needle).unwrap() as u32;
    let ctx = member_completion_context(&tree, &rope, pos(0, col("third") + 3), Some('h'))
        .expect("context");
    assert_eq!(ctx.qualifier, "first.second");
    assert_eq!(ctx.prefix, "thi");
    let ctx = member_completion_context(&tree, &rope, pos(0, col("field") + 5), Some('d'))
        .expect("context");
    assert_eq!(ctx.qualifier, "data");
    assert_eq!(ctx.prefix, "field");
    let third = find(&tree, &rope, NodeKind::Identifier, "third");
    assert_eq!(slice_prefix(&tree, third, &rope, col("third") as usize + 2), "th");
    assert_eq!(slice_prefix(&tree, third, &rope, col("third") as usize), "");
    assert_eq!(slice_prefix(&tree, third, &rope, 9999), "third");
    // at a dot the node is the dot itself, so its parent is taken
    assert_eq!(
        qualifier_at_dot(&tree, &rope, pos(0, col("second"))).as_deref(),
        Some("first.second")
    );
    // one char after a name the node is the name
    assert_eq!(
        qualifier_at_dot(&tree, &rope, pos(0, col("first") + 1)).as_deref(),
        Some("first")
    );
    assert_eq!(qualifier_at_dot(&tree, &rope, pos(0, 0)), None);
}
