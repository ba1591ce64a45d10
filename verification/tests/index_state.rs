use jrsls::state::{GlobalIndex, IndexedClass, IndexedMember, Position, Range};

fn span(line: u32) -> Range {
    Range {
        start: Position { line, character: 0 },
        end: Position {
            line,
            character: 10,
        },
    }
}

fn class(short: &str, fqcn: &str, uri: &str, line: u32) -> IndexedClass {
    IndexedClass {
        short_name: short.to_string(),
        fqcn: fqcn.to_string(),
        uri: uri.to_string(),
        range: span(line),
    }
}

fn method(name: &str, fqmn: &str, uri: &str, line: u32) -> IndexedMember {
    IndexedMember {
        name: name.to_string(),
        fqmn: fqmn.to_string(),
        uri: uri.to_string(),
        range: span(line),
        is_field: false,
        is_varargs: false,
        param_count: 0,
        param_types: Vec::new(),
        field_type: None,
    }
}

#[test]
fn empty_index_knows_nothing() {
    let index = GlobalIndex::new();
    assert!(index.file_info("file:///a.java").is_none());
    assert!(index.classes_by_short_name("A").is_empty());
    assert!(index.members_by_name("m").is_empty());
    assert!(index.members_of_class("p.A").is_empty());
    let other = GlobalIndex::default();
    assert!(other.classes_by_short_name("A").is_empty());
}

#[test]
fn each_class_is_listed_once_under_its_short_name() {
    let mut index = GlobalIndex::new();
    let a = "file:///w/p/A.java";
    let b = "file:///w/q/A.java";
    index.upsert_file(
        a,
        Some("p".to_string()),
        vec![],
        vec![class("A", "p.A", a, 1), class("B", "p.B", a, 5)],
        vec![],
    );
    index.upsert_file(
        b,
        Some("q".to_string()),
        vec![],
        vec![class("A", "q.A", b, 2)],
        vec![],
    );

    let found = index.classes_by_short_name("A");
    assert_eq!(found.len(), 2);
    let hits = |fqcn: &str, uri: &str| {
        found
            .iter()
            .filter(|c| c.fqcn == fqcn && c.uri == uri)
            .count()
    };
    assert_eq!(hits("p.A", a), 1);
    assert_eq!(hits("q.A", b), 1);
    assert_eq!(found[0].fqcn, "p.A");
    assert_eq!(found[0].range, span(1));
    assert_eq!(found[1].fqcn, "q.A");
    assert_eq!(index.classes_by_short_name("B").len(), 1);
    assert!(index.classes_by_short_name("C").is_empty());
}

#[test]
fn second_upsert_leaves_only_its_own_records() {
    let mut index = GlobalIndex::new();
    let u = "file:///w/p/A.java";
    let other = "file:///w/p/Z.java";
    index.upsert_file(
        other,
        None,
        vec![],
        vec![class("Z", "Z", other, 0)],
        vec![],
    );
    index.upsert_file(
        u,
        Some("p".to_string()),
        vec!["java.util.List".to_string()],
        vec![class("Old", "p.Old", u, 1)],
        vec![method("gone", "p.Old.gone", u, 2)],
    );
    index.upsert_file(
        u,
        Some("r".to_string()),
        vec![],
        vec![class("New", "r.New", u, 3)],
        vec![method("kept", "r.New.kept", u, 4)],
    );

    assert!(index.classes_by_short_name("Old").is_empty());
    assert!(index.members_by_name("gone").is_empty());
    assert!(index.members_of_class("p.Old").is_empty());
    let new = index.classes_by_short_name("New");
    assert_eq!(new.len(), 1);
    assert_eq!(new[0].uri, u);
    assert_eq!(index.members_by_name("kept").len(), 1);

    let info = index.file_info(u).expect("indexed");
    assert_eq!(info.package_name.as_deref(), Some("r"));
    assert!(info.imports.is_empty());
    assert_eq!(info.defined_classes, vec!["New".to_string()]);

    // the other file is untouched and still comes first
    assert_eq!(index.classes_by_short_name("Z").len(), 1);
    assert_eq!(
        index.file_info(other).expect("indexed").defined_classes,
        vec!["Z".to_string()]
    );
}

#[test]
fn members_of_class_go_by_the_owner_prefix() {
    let mut index = GlobalIndex::new();
    let u = "file:///w/p/A.java";
    index.upsert_file(
        u,
        Some("p".to_string()),
        vec![],
        vec![class("A", "p.A", u, 0), class("AB", "p.AB", u, 9)],
        vec![
            method("m", "p.A.m", u, 1),
            method("m", "p.AB.m", u, 10),
            method("n", "p.A.n", u, 2),
        ],
    );
    let of_a: Vec<String> = index
        .members_of_class("p.A")
        .into_iter()
        .map(|m| m.fqmn)
        .collect();
    assert_eq!(of_a, vec!["p.A.m".to_string(), "p.A.n".to_string()]);
    let named_m: Vec<String> = index
        .members_by_name("m")
        .into_iter()
        .map(|m| m.fqmn)
        .collect();
    assert_eq!(named_m, vec!["p.A.m".to_string(), "p.AB.m".to_string()]);
}
