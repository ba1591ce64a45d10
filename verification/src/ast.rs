//! Inferred types of expressions and the score of an argument against a
//! parameter.

use vstd::prelude::*;
use ropey::Rope;
use crate::rope::rope_text;
use crate::syntax::{FieldName, NodeKind, NodeModel, SyntaxTree};
use crate::text::str_eq;
use crate::utils::{
    child_by_field, child_with_field, get_node_text, named_children, named_children_of, node_text,
};

verus! {

/// The type the solver assigns to an expression or reads off a declaration.
#[derive(Debug, PartialEq, Clone)]
pub enum InferredType {
    Int,
    Long,
    Boolean,
    Char,
    String,
    Float,
    Double,
    Class(String),
    Unknown,
}

/// Mathematical model of an [`InferredType`]: class names are char sequences.
pub enum TypeModel {
    Int,
    Long,
    Boolean,
    Char,
    String,
    Float,
    Double,
    Class(Seq<char>),
    Unknown,
}

impl View for InferredType {
    type V = TypeModel;

    open spec fn view(&self) -> TypeModel {
        match *self {
            InferredType::Int => TypeModel::Int,
            InferredType::Long => TypeModel::Long,
            InferredType::Boolean => TypeModel::Boolean,
            InferredType::Char => TypeModel::Char,
            InferredType::String => TypeModel::String,
            InferredType::Float => TypeModel::Float,
            InferredType::Double => TypeModel::Double,
            InferredType::Class(name) => TypeModel::Class(name@),
            InferredType::Unknown => TypeModel::Unknown,
        }
    }
}

/// Score of passing an argument of type `arg` where `param` is declared.
pub open spec fn score_of(arg: TypeModel, param: TypeModel) -> int {
    if arg == param {
        100
    } else {
        match (arg, param) {
            (TypeModel::Unknown, _) => 1,
            (TypeModel::Int, TypeModel::Long) => 50,
            (TypeModel::Int, TypeModel::Float) => 40,
            (TypeModel::Int, TypeModel::Double) => 50,
            (TypeModel::Long, TypeModel::Float) => 40,
            (TypeModel::Long, TypeModel::Double) => 50,
            (TypeModel::Float, TypeModel::Double) => 50,
            (TypeModel::Class(_), TypeModel::Class(_)) => 0,
            _ => -100,
        }
    }
}

/// Scores one argument/parameter pair.
pub fn calculate_score(arg_type: &InferredType, param_type: &InferredType) -> (score: i32)
    ensures
        score == score_of(arg_type@, param_type@),
{
    match arg_type {
        InferredType::Unknown => match param_type {
            InferredType::Unknown => 100,
            _ => 1,
        },
        InferredType::Int => match param_type {
            InferredType::Int => 100,
            InferredType::Long => 50,
            InferredType::Float => 40,
            InferredType::Double => 50,
            _ => -100,
        },
        InferredType::Long => match param_type {
            InferredType::Long => 100,
            InferredType::Float => 40,
            InferredType::Double => 50,
            _ => -100,
        },
        InferredType::Float => match param_type {
            InferredType::Float => 100,
            InferredType::Double => 50,
            _ => -100,
        },
        InferredType::Double => match param_type {
            InferredType::Double => 100,
            _ => -100,
        },
        InferredType::Boolean => match param_type {
            InferredType::Boolean => 100,
            _ => -100,
        },
        InferredType::Char => match param_type {
            InferredType::Char => 100,
            _ => -100,
        },
        InferredType::String => match param_type {
            InferredType::String => 100,
            _ => -100,
        },
        InferredType::Class(a) => match param_type {
            InferredType::Class(b) => if *a == *b {
                100
            } else {
                0
            },
            _ => -100,
        },
    }
}

/// The type that a type name written in source stands for: primitives and
/// their boxes by name, anything else a class of that name.
pub open spec fn type_named(name: Seq<char>) -> TypeModel {
    if name == "int"@ || name == "Integer"@ {
        TypeModel::Int
    } else if name == "long"@ || name == "Long"@ {
        TypeModel::Long
    } else if name == "boolean"@ || name == "Boolean"@ {
        TypeModel::Boolean
    } else if name == "char"@ || name == "Character"@ {
        TypeModel::Char
    } else if name == "float"@ || name == "Float"@ {
        TypeModel::Float
    } else if name == "double"@ || name == "Double"@ {
        TypeModel::Double
    } else if name == "String"@ {
        TypeModel::String
    } else {
        TypeModel::Class(name)
    }
}

/// Reads a type off its name in source.
pub fn parse_type_name(name: &str) -> (t: InferredType)
    ensures
        t@ == type_named(name@),
{
    if str_eq(name, "int") || str_eq(name, "Integer") {
        InferredType::Int
    } else if str_eq(name, "long") || str_eq(name, "Long") {
        InferredType::Long
    } else if str_eq(name, "boolean") || str_eq(name, "Boolean") {
        InferredType::Boolean
    } else if str_eq(name, "char") || str_eq(name, "Character") {
        InferredType::Char
    } else if str_eq(name, "float") || str_eq(name, "Float") {
        InferredType::Float
    } else if str_eq(name, "double") || str_eq(name, "Double") {
        InferredType::Double
    } else if str_eq(name, "String") {
        InferredType::String
    } else {
        InferredType::Class(name.to_owned())
    }
}

/// The type that a type node spells.
pub fn parse_java_type(tree: &SyntaxTree, type_node: usize, rope: &Rope) -> (t: InferredType)
    requires
        type_node < tree@.len(),
    ensures
        t@ == type_named(node_text(tree@, rope_text(*rope), type_node as int)),
{
    let text = get_node_text(tree, type_node, rope);
    parse_type_name(text.as_str())
}

/// The argument list of the call of which node `id` is a part: the
/// `arguments` child of its parent, where that parent is a method call.
pub open spec fn argument_list(nodes: Seq<NodeModel>, id: int) -> Option<int> {
    match nodes[id].parent {
        Some(p) => if 0 <= p < nodes.len() && nodes[p].kind == NodeKind::MethodInvocation {
            child_with_field(nodes, p, FieldName::Arguments)
        } else {
            None
        },
        None => None,
    }
}

/// The argument nodes of the call of which node `id` is a part; none where
/// it is part of no call.
pub open spec fn call_args(nodes: Seq<NodeModel>, id: int) -> Seq<int> {
    match argument_list(nodes, id) {
        Some(a) => named_children(nodes, nodes[a].children),
        None => Seq::empty(),
    }
}

/// The argument list of the call around `id`.
fn argument_list_of(tree: &SyntaxTree, id: usize) -> (r: Option<usize>)
    requires
        id < tree@.len(),
    ensures
        match r {
            Some(a) => argument_list(tree@, id as int) == Some(a as int) && a < tree@.len(),
            None => argument_list(tree@, id as int) is None,
        },
{
    match tree.parent(id) {
        Some(p) => {
            if tree.kind(p) == NodeKind::MethodInvocation {
                child_by_field(tree, p, FieldName::Arguments)
            } else {
                None
            }
        },
        None => None,
    }
}

/// The argument nodes of the call around node `id`.
pub fn get_call_args(tree: &SyntaxTree, id: usize) -> (r: Vec<usize>)
    requires
        id < tree@.len(),
    ensures
        r@.map_values(|c: usize| c as int) == call_args(tree@, id as int),
        forall|j: int| 0 <= j < r.len() ==> #[trigger] r[j] < tree@.len(),
{
    match argument_list_of(tree, id) {
        Some(a) => named_children_of(tree, a),
        None => {
            let r: Vec<usize> = Vec::new();
            assert(r@.map_values(|c: usize| c as int) =~= Seq::<int>::empty());
            r
        },
    }
}

/// How many arguments the call around node `id` passes, if it is part of a
/// call that has an argument list.
pub fn get_method_call_arg_count(tree: &SyntaxTree, id: usize) -> (r: Option<usize>)
    requires
        id < tree@.len(),
    ensures
        r == match argument_list(tree@, id as int) {
            Some(a) => Some(named_children(tree@, tree@[a].children).len() as usize),
            None => None,
        },
{
    match argument_list_of(tree, id) {
        Some(a) => {
            let args = named_children_of(tree, a);
            assert(args@.map_values(|c: usize| c as int).len() == args@.len());
            Some(args.len())
        },
        None => None,
    }
}

/// How many arguments the call around node `id` passes; none where it is
/// part of no call.
pub fn count_args(tree: &SyntaxTree, id: usize) -> (r: usize)
    requires
        id < tree@.len(),
    ensures
        r == call_args(tree@, id as int).len(),
{
    let args = get_call_args(tree, id);
    assert(args@.map_values(|c: usize| c as int).len() == args@.len());
    args.len()
}

} // verus!
