use jrsls::ast::InferredType::{
    Boolean, Char, Double, Float, Int, Long, String, Unknown,
};
use jrsls::ast::{calculate_score, parse_type_name, InferredType};
use jrsls::lang::java::match_member_arity;
use jrsls::state::{MemberLocation, Position, Range};

fn class(name: &str) -> InferredType {
    InferredType::Class(name.to_owned())
}

#[test]
fn score_table_rows() {
    assert_eq!(calculate_score(&Int, &Int), 100);
    assert_eq!(calculate_score(&Unknown, &Int), 1);
    assert_eq!(calculate_score(&Unknown, &class("A")), 1);
    assert_eq!(calculate_score(&Int, &Long), 50);
    assert_eq!(calculate_score(&Int, &Double), 50);
    assert_eq!(calculate_score(&Int, &Float), 40);
    assert_eq!(calculate_score(&Long, &Double), 50);
    assert_eq!(calculate_score(&Long, &Float), 40);
    assert_eq!(calculate_score(&Float, &Double), 50);
    assert_eq!(calculate_score(&Double, &Float), -100);
    assert_eq!(calculate_score(&Double, &Int), -100);
    assert_eq!(calculate_score(&class("A"), &class("A")), 100);
    assert_eq!(calculate_score(&class("A"), &class("B")), 0);
    assert_eq!(calculate_score(&Int, &String), -100);
    assert_eq!(calculate_score(&String, &class("String")), -100);
    assert_eq!(calculate_score(&Long, &Int), -100);
    assert_eq!(calculate_score(&Unknown, &Unknown), 100);
}

#[test]
fn same_type_scores_at_least_as_any_other() {
    let all = vec![
        Int,
        Long,
        Boolean,
        Char,
        String,
        Float,
        Double,
        class("A"),
        class("B"),
        Unknown,
    ];
    for t in &all {
        for u in &all {
            assert!(calculate_score(t, t) >= calculate_score(t, u));
        }
    }
}

#[test]
fn type_names_map_to_types() {
    assert_eq!(parse_type_name("int"), InferredType::Int);
    assert_eq!(parse_type_name("Integer"), InferredType::Int);
    assert_eq!(parse_type_name("long"), InferredType::Long);
    assert_eq!(parse_type_name("Long"), InferredType::Long);
    assert_eq!(parse_type_name("boolean"), InferredType::Boolean);
    assert_eq!(parse_type_name("Boolean"), InferredType::Boolean);
    assert_eq!(parse_type_name("char"), InferredType::Char);
    assert_eq!(parse_type_name("Character"), InferredType::Char);
    assert_eq!(parse_type_name("float"), InferredType::Float);
    assert_eq!(parse_type_name("Float"), InferredType::Float);
    assert_eq!(parse_type_name("double"), InferredType::Double);
    assert_eq!(parse_type_name("Double"), InferredType::Double);
    assert_eq!(parse_type_name("String"), InferredType::String);
    assert_eq!(parse_type_name("ArrayList"), class("ArrayList"));
    assert_eq!(parse_type_name(""), class(""));
}

fn member(is_varargs: bool, param_count: usize) -> MemberLocation {
    let zero = Position {
        line: 0,
        character: 0,
    };
    MemberLocation {
        fqmn: "a.B.m".to_owned(),
        uri: "file:///a/B.java".to_owned(),
        range: Range {
            start: zero,
            end: zero,
        },
        is_field: false,
        is_varargs,
        param_count,
        param_types: Vec::new(),
        field_type: None,
    }
}

#[test]
fn arity_of_plain_and_variadic_members() {
    assert!(match_member_arity(&member(false, 2), 2));
    assert!(!match_member_arity(&member(false, 2), 1));
    assert!(!match_member_arity(&member(false, 2), 3));
    assert!(match_member_arity(&member(true, 2), 1));
    assert!(match_member_arity(&member(true, 2), 2));
    assert!(match_member_arity(&member(true, 2), 5));
    assert!(!match_member_arity(&member(true, 2), 0));
    assert!(match_member_arity(&member(true, 0), 0));
    assert!(match_member_arity(&member(true, 1), 0));
}
