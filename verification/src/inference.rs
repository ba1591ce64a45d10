//! The type solver: the type of an expression, from literals, declarations
//! in scope and the return types of the enclosing class's methods.

use vstd::prelude::*;
use ropey::Rope;
use crate::ast::{parse_java_type, type_named, InferredType, TypeModel};
use crate::rope::rope_text;
use crate::state::GlobalIndex;
use crate::syntax::{FieldName, NodeKind, NodeModel, SyntaxTree};
use crate::text::{chars_of, str_eq};
use crate::utils::{
    child_by_field, child_of_kind, child_with_field, first_child_of_kind, first_some,
    get_node_text, lemma_first_some_end, lemma_first_some_step, method_params, named_children,
    named_children_of, node_text, param_name_node, param_name_of, param_nodes,
};

verus! {

/// Picks the declarator that declares `name`.
pub open spec fn declaring(nodes: Seq<NodeModel>, text: Seq<char>, name: Seq<char>) -> spec_fn(
    int,
) -> Option<int> {
    |d: int|
        if nodes[d].kind == NodeKind::VariableDeclarator {
            match child_with_field(nodes, d, FieldName::Name) {
                Some(n) => if node_text(nodes, text, n) == name {
                    Some(d)
                } else {
                    None
                },
                None => None,
            }
        } else {
            None
        }
}

/// The first declarator of the declaration `decl` that declares `name`.
pub open spec fn declarator_named(
    nodes: Seq<NodeModel>,
    text: Seq<char>,
    decl: int,
    name: Seq<char>,
) -> Option<int> {
    first_some(nodes[decl].children, declaring(nodes, text, name))
}

/// Whether node `c` starts before the byte `limit`, where there is a limit.
pub open spec fn starts_before(nodes: Seq<NodeModel>, c: int, limit: Option<int>) -> bool {
    match limit {
        Some(l) => nodes[c].start_byte < l,
        None => true,
    }
}

/// For a declaration of the kind `kind` that starts before `limit`: its
/// declarator that declares `name`.
pub open spec fn declaring_in(
    nodes: Seq<NodeModel>,
    text: Seq<char>,
    kind: NodeKind,
    name: Seq<char>,
    limit: Option<int>,
) -> spec_fn(int) -> Option<int> {
    |c: int|
        if nodes[c].kind == kind && starts_before(nodes, c, limit) {
            declarator_named(nodes, text, c, name)
        } else {
            None
        }
}

/// The first declarator for `name` among the declarations of kind `kind`
/// that are children of `scope` and start before `limit`.
pub open spec fn declared_in_scope(
    nodes: Seq<NodeModel>,
    text: Seq<char>,
    scope: int,
    kind: NodeKind,
    name: Seq<char>,
    limit: Option<int>,
) -> Option<int> {
    first_some(nodes[scope].children, declaring_in(nodes, text, kind, name, limit))
}

/// A byte limit as a mathematical integer.
pub open spec fn limit_model(limit: Option<usize>) -> Option<int> {
    match limit {
        Some(l) => Some(l as int),
        None => None,
    }
}

/// Picks the parameter named `name`.
pub open spec fn param_named(nodes: Seq<NodeModel>, text: Seq<char>, name: Seq<char>) -> spec_fn(
    int,
) -> Option<int> {
    |p: int|
        match param_name_node(nodes, p) {
            Some(n) => if node_text(nodes, text, n) == name {
                Some(p)
            } else {
                None
            },
            None => None,
        }
}

/// Picks the resource named `name`.
pub open spec fn resource_named(nodes: Seq<NodeModel>, text: Seq<char>, name: Seq<char>) -> spec_fn(
    int,
) -> Option<int> {
    |r: int|
        if nodes[r].kind == NodeKind::Resource {
            match child_with_field(nodes, r, FieldName::Name) {
                Some(n) => if node_text(nodes, text, n) == name {
                    Some(r)
                } else {
                    None
                },
                None => None,
            }
        } else {
            None
        }
}

/// What the scope `scope` itself declares under `name`: a parameter of a
/// method or constructor, a local of a block, the variable of an enhanced
/// `for`, a field of a class, a resource of a `try`, seen from its body or
/// from among the resources.
pub open spec fn declaration_in(
    nodes: Seq<NodeModel>,
    text: Seq<char>,
    scope: int,
    name: Seq<char>,
) -> Option<int> {
    match nodes[scope].kind {
        NodeKind::MethodDeclaration | NodeKind::ConstructorDeclaration => first_some(
            method_params(nodes, scope),
            param_named(nodes, text, name),
        ),
        NodeKind::Block => declared_in_scope(
            nodes,
            text,
            scope,
            NodeKind::LocalVariableDeclaration,
            name,
            None,
        ),
        NodeKind::EnhancedForStatement => match child_with_field(nodes, scope, FieldName::Name) {
            Some(n) => if node_text(nodes, text, n) == name {
                Some(scope)
            } else {
                None
            },
            None => None,
        },
        NodeKind::ClassDeclaration => match child_with_field(nodes, scope, FieldName::Body) {
            Some(body) => declared_in_scope(
                nodes,
                text,
                body,
                NodeKind::FieldDeclaration,
                name,
                None,
            ),
            None => None,
        },
        NodeKind::TryWithResourcesStatement => match child_of_kind(
            nodes,
            scope,
            NodeKind::ResourceSpecification,
        ) {
            Some(list) => first_some(nodes[list].children, resource_named(nodes, text, name)),
            None => None,
        },
        NodeKind::ResourceSpecification => first_some(
            nodes[scope].children,
            resource_named(nodes, text, name),
        ),
        _ => None,
    }
}

/// The declaration of `name` that is in scope at node `id`: what the
/// innermost enclosing scope that declares the name declares.
pub open spec fn declaration_from(
    nodes: Seq<NodeModel>,
    text: Seq<char>,
    id: int,
    name: Seq<char>,
) -> Option<int>
    decreases id,
{
    match nodes[id].parent {
        Some(p) => if 0 <= p < id {
            match declaration_in(nodes, text, p, name) {
                Some(d) => Some(d),
                None => declaration_from(nodes, text, p, name),
            }
        } else {
            None
        },
        None => None,
    }
}

/// The type spelled by the `type` field of node `id`; unknown without one.
pub open spec fn type_field_of(nodes: Seq<NodeModel>, text: Seq<char>, id: int) -> TypeModel {
    match child_with_field(nodes, id, FieldName::Type) {
        Some(t) => type_named(node_text(nodes, text, t)),
        None => TypeModel::Unknown,
    }
}

/// The declared type of the declaration `d`: for a declarator that of the
/// declaration around it, for a parameter, loop variable or resource its
/// own. A variadic parameter has none.
pub open spec fn declared_type(nodes: Seq<NodeModel>, text: Seq<char>, d: int) -> TypeModel {
    match nodes[d].kind {
        NodeKind::VariableDeclarator => match nodes[d].parent {
            Some(p) => if 0 <= p < nodes.len() && (nodes[p].kind
                == NodeKind::LocalVariableDeclaration || nodes[p].kind
                == NodeKind::FieldDeclaration) {
                type_field_of(nodes, text, p)
            } else {
                TypeModel::Unknown
            },
            None => TypeModel::Unknown,
        },
        NodeKind::FormalParameter | NodeKind::EnhancedForStatement | NodeKind::Resource => type_field_of(
            nodes,
            text,
            d,
        ),
        _ => TypeModel::Unknown,
    }
}

/// Picks the method named `name`; with `arity` given, only one with that
/// many parameters.
pub open spec fn method_named(
    nodes: Seq<NodeModel>,
    text: Seq<char>,
    name: Seq<char>,
    arity: Option<int>,
) -> spec_fn(int) -> Option<int> {
    |m: int|
        if nodes[m].kind == NodeKind::MethodDeclaration && (match child_with_field(
            nodes,
            m,
            FieldName::Name,
        ) {
            Some(n) => node_text(nodes, text, n) == name,
            None => false,
        }) && (match arity {
            Some(a) => method_params(nodes, m).len() == a,
            None => true,
        }) {
            Some(m)
        } else {
            None
        }
}

/// The method of the class `class` that a call of `name` with `arity`
/// arguments means: the first of that name and arity, else the first of that
/// name.
pub open spec fn method_in_class(
    nodes: Seq<NodeModel>,
    text: Seq<char>,
    class: int,
    name: Seq<char>,
    arity: int,
) -> Option<int> {
    match child_with_field(nodes, class, FieldName::Body) {
        Some(body) => match first_some(
            nodes[body].children,
            method_named(nodes, text, name, Some(arity)),
        ) {
            Some(m) => Some(m),
            None => first_some(nodes[body].children, method_named(nodes, text, name, None)),
        },
        None => None,
    }
}

/// The method that a call of `name` at node `id` means: that of the
/// innermost enclosing class that has one.
pub open spec fn method_from(
    nodes: Seq<NodeModel>,
    text: Seq<char>,
    id: int,
    name: Seq<char>,
    arity: int,
) -> Option<int>
    decreases id,
{
    match nodes[id].parent {
        Some(p) => if 0 <= p < id {
            let here = if nodes[p].kind == NodeKind::ClassDeclaration {
                method_in_class(nodes, text, p, name, arity)
            } else {
                None
            };
            match here {
                Some(m) => Some(m),
                None => method_from(nodes, text, p, name, arity),
            }
        } else {
            None
        },
        None => None,
    }
}

/// The return type of the method `m`; unknown for `void`.
pub open spec fn return_type(nodes: Seq<NodeModel>, text: Seq<char>, m: int) -> TypeModel {
    match child_with_field(nodes, m, FieldName::Type) {
        Some(t) => if nodes[t].kind == NodeKind::VoidType {
            TypeModel::Unknown
        } else {
            type_named(node_text(nodes, text, t))
        },
        None => TypeModel::Unknown,
    }
}

/// The arguments of the call `call` itself.
pub open spec fn own_args(nodes: Seq<NodeModel>, call: int) -> Seq<int> {
    match child_with_field(nodes, call, FieldName::Arguments) {
        Some(a) => named_children(nodes, nodes[a].children),
        None => Seq::empty(),
    }
}

/// The type of the call `call`: the return type of the method it means.
pub open spec fn call_type(nodes: Seq<NodeModel>, text: Seq<char>, call: int) -> TypeModel {
    match child_with_field(nodes, call, FieldName::Name) {
        Some(n) => match method_from(
            nodes,
            text,
            call,
            node_text(nodes, text, n),
            own_args(nodes, call).len() as int,
        ) {
            Some(m) => return_type(nodes, text, m),
            None => TypeModel::Unknown,
        },
        None => TypeModel::Unknown,
    }
}

/// Whether `s` ends with the char `a` or the char `b`.
pub open spec fn ends_in(s: Seq<char>, a: char, b: char) -> bool {
    s.len() > 0 && (s.last() == a || s.last() == b)
}

/// The type of the expression at node `id`.
pub open spec fn inferred(nodes: Seq<NodeModel>, text: Seq<char>, id: int) -> TypeModel
    decreases nodes.len() - id,
{
    match nodes[id].kind {
        NodeKind::DecimalIntegerLiteral => if ends_in(node_text(nodes, text, id), 'L', 'l') {
            TypeModel::Long
        } else {
            TypeModel::Int
        },
        NodeKind::DecimalFloatingPointLiteral => if ends_in(node_text(nodes, text, id), 'f', 'F') {
            TypeModel::Float
        } else {
            TypeModel::Double
        },
        NodeKind::StringLiteral => TypeModel::String,
        NodeKind::True | NodeKind::False => TypeModel::Boolean,
        NodeKind::CharacterLiteral => TypeModel::Char,
        NodeKind::ParenthesizedExpression => {
            let inner = named_children(nodes, nodes[id].children);
            if inner.len() > 0 && id < inner[0] < nodes.len() {
                inferred(nodes, text, inner[0])
            } else {
                TypeModel::Unknown
            }
        },
        NodeKind::CastExpression | NodeKind::ObjectCreationExpression => type_field_of(
            nodes,
            text,
            id,
        ),
        NodeKind::Identifier => match declaration_from(
            nodes,
            text,
            id,
            node_text(nodes, text, id),
        ) {
            Some(d) => declared_type(nodes, text, d),
            None => TypeModel::Unknown,
        },
        NodeKind::MethodInvocation => call_type(nodes, text, id),
        _ => TypeModel::Unknown,
    }
}

/// The first declarator for `target_name` among the declarations of kind
/// `kind` that are children of `scope` and start before `limit`.
pub fn find_in_scope(
    tree: &SyntaxTree,
    rope: &Rope,
    scope: usize,
    kind: NodeKind,
    target_name: &str,
    limit: Option<usize>,
) -> (r: Option<usize>)
    requires
        scope < tree@.len(),
    ensures
        match r {
            Some(d) => declared_in_scope(
                tree@,
                rope_text(*rope),
                scope as int,
                kind,
                target_name@,
                limit_model(limit),
            ) == Some(d as int) && scope < d < tree@.len(),
            None => declared_in_scope(
                tree@,
                rope_text(*rope),
                scope as int,
                kind,
                target_name@,
                limit_model(limit),
            ) is None,
        },
{
    let ghost text = rope_text(*rope);
    let ghost f = declaring_in(tree@, text, kind, target_name@, limit_model(limit));
    let ghost items = tree@[scope as int].children;
    let n = tree.child_count(scope);
    let mut k: usize = 0;
    proof {
        lemma_first_some_end(items, f);
    }
    while k < n
        invariant
            k <= n,
            n == items.len(),
            scope < tree@.len(),
            text == rope_text(*rope),
            items == tree@[scope as int].children,
            f == declaring_in(tree@, text, kind, target_name@, limit_model(limit)),
            first_some(items, f) == first_some(items.skip(k as int), f),
        decreases n - k,
    {
        let c = tree.child(scope, k);
        proof {
            lemma_first_some_step(items, f, k as int);
        }
        let early = match limit {
            Some(l) => tree.start_byte(c) < l,
            None => true,
        };
        if tree.kind(c) == kind && early {
            match find_in_declarators(tree, rope, c, target_name) {
                Some(d) => {
                    return Some(d);
                },
                None => {},
            }
        }
        k += 1;
    }
    proof {
        lemma_first_some_end(items, f);
    }
    None
}

/// The first declarator of `declaration_node` that declares `target_name`.
pub fn find_in_declarators(
    tree: &SyntaxTree,
    rope: &Rope,
    declaration_node: usize,
    target_name: &str,
) -> (r: Option<usize>)
    requires
        declaration_node < tree@.len(),
    ensures
        match r {
            Some(d) => declarator_named(
                tree@,
                rope_text(*rope),
                declaration_node as int,
                target_name@,
            ) == Some(d as int) && declaration_node < d < tree@.len(),
            None => declarator_named(
                tree@,
                rope_text(*rope),
                declaration_node as int,
                target_name@,
            ) is None,
        },
{
    let ghost text = rope_text(*rope);
    let ghost f = declaring(tree@, text, target_name@);
    let ghost items = tree@[declaration_node as int].children;
    let n = tree.child_count(declaration_node);
    let mut k: usize = 0;
    proof {
        lemma_first_some_end(items, f);
    }
    while k < n
        invariant
            k <= n,
            n == items.len(),
            declaration_node < tree@.len(),
            text == rope_text(*rope),
            items == tree@[declaration_node as int].children,
            f == declaring(tree@, text, target_name@),
            first_some(items, f) == first_some(items.skip(k as int), f),
        decreases n - k,
    {
        let d = tree.child(declaration_node, k);
        proof {
            lemma_first_some_step(items, f, k as int);
        }
        if tree.kind(d) == NodeKind::VariableDeclarator {
            match child_by_field(tree, d, FieldName::Name) {
                Some(name_node) => {
                    if str_eq(get_node_text(tree, name_node, rope).as_str(), target_name) {
                        return Some(d);
                    }
                },
                None => {},
            }
        }
        k += 1;
    }
    proof {
        lemma_first_some_end(items, f);
    }
    None
}

/// The parameter of `method` that is named `target_name`.
pub fn find_param(tree: &SyntaxTree, rope: &Rope, method: usize, target_name: &str) -> (r: Option<
    usize,
>)
    requires
        method < tree@.len(),
    ensures
        match r {
            Some(p) => first_some(
                method_params(tree@, method as int),
                param_named(tree@, rope_text(*rope), target_name@),
            ) == Some(p as int) && method < p < tree@.len(),
            None => first_some(
                method_params(tree@, method as int),
                param_named(tree@, rope_text(*rope), target_name@),
            ) is None,
        },
{
    let params = param_nodes(tree, method);
    let ghost text = rope_text(*rope);
    let ghost f = param_named(tree@, text, target_name@);
    let ghost items = method_params(tree@, method as int);
    let mut k: usize = 0;
    proof {
        lemma_first_some_end(items, f);
    }
    while k < params.len()
        invariant
            k <= params.len(),
            text == rope_text(*rope),
            items == params@.map_values(|c: usize| c as int),
            items == method_params(tree@, method as int),
            forall|j: int| 0 <= j < params.len() ==> method < #[trigger] params[j] < tree@.len(),
            f == param_named(tree@, text, target_name@),
            first_some(items, f) == first_some(items.skip(k as int), f),
        decreases params.len() - k,
    {
        let p = params[k];
        proof {
            lemma_first_some_step(items, f, k as int);
            assert(items[k as int] == p as int);
        }
        match param_name_of(tree, p) {
            Some(name_node) => {
                if str_eq(get_node_text(tree, name_node, rope).as_str(), target_name) {
                    return Some(p);
                }
            },
            None => {},
        }
        k += 1;
    }
    proof {
        lemma_first_some_end(items, f);
    }
    None
}

/// The resource named `target_name` among the children of `scope`.
fn find_resource(tree: &SyntaxTree, rope: &Rope, scope: usize, target_name: &str) -> (r: Option<
    usize,
>)
    requires
        scope < tree@.len(),
    ensures
        match r {
            Some(p) => first_some(
                tree@[scope as int].children,
                resource_named(tree@, rope_text(*rope), target_name@),
            ) == Some(p as int) && p < tree@.len(),
            None => first_some(
                tree@[scope as int].children,
                resource_named(tree@, rope_text(*rope), target_name@),
            ) is None,
        },
{
    let ghost text = rope_text(*rope);
    let ghost f = resource_named(tree@, text, target_name@);
    let ghost items = tree@[scope as int].children;
    let n = tree.child_count(scope);
    let mut k: usize = 0;
    proof {
        lemma_first_some_end(items, f);
    }
    while k < n
        invariant
            k <= n,
            n == items.len(),
            scope < tree@.len(),
            text == rope_text(*rope),
            items == tree@[scope as int].children,
            f == resource_named(tree@, text, target_name@),
            first_some(items, f) == first_some(items.skip(k as int), f),
        decreases n - k,
    {
        let c = tree.child(scope, k);
        proof {
            lemma_first_some_step(items, f, k as int);
        }
        if tree.kind(c) == NodeKind::Resource {
            match child_by_field(tree, c, FieldName::Name) {
                Some(name_node) => {
                    if str_eq(get_node_text(tree, name_node, rope).as_str(), target_name) {
                        return Some(c);
                    }
                },
                None => {},
            }
        }
        k += 1;
    }
    proof {
        lemma_first_some_end(items, f);
    }
    None
}

/// What `scope` itself declares under `target_name`.
fn declaration_in_scope(tree: &SyntaxTree, rope: &Rope, scope: usize, target_name: &str) -> (r:
    Option<usize>)
    requires
        scope < tree@.len(),
    ensures
        match r {
            Some(d) => declaration_in(tree@, rope_text(*rope), scope as int, target_name@) == Some(
                d as int,
            ) && d < tree@.len(),
            None => declaration_in(tree@, rope_text(*rope), scope as int, target_name@) is None,
        },
{
    match tree.kind(scope) {
        NodeKind::MethodDeclaration | NodeKind::ConstructorDeclaration => find_param(
            tree,
            rope,
            scope,
            target_name,
        ),
        NodeKind::Block => find_in_scope(
            tree,
            rope,
            scope,
            NodeKind::LocalVariableDeclaration,
            target_name,
            None,
        ),
        NodeKind::EnhancedForStatement => match child_by_field(tree, scope, FieldName::Name) {
            Some(n) => {
                if str_eq(get_node_text(tree, n, rope).as_str(), target_name) {
                    Some(scope)
                } else {
                    None
                }
            },
            None => None,
        },
        NodeKind::ClassDeclaration => match child_by_field(tree, scope, FieldName::Body) {
            Some(body) => find_in_scope(
                tree,
                rope,
                body,
                NodeKind::FieldDeclaration,
                target_name,
                None,
            ),
            None => None,
        },
        NodeKind::TryWithResourcesStatement => match first_child_of_kind(
            tree,
            scope,
            NodeKind::ResourceSpecification,
        ) {
            Some(list) => find_resource(tree, rope, list, target_name),
            None => None,
        },
        NodeKind::ResourceSpecification => find_resource(tree, rope, scope, target_name),
        _ => None,
    }
}

/// The declaration of `target_name` that is in scope at `start_node`.
pub fn find_declaration_node(
    tree: &SyntaxTree,
    start_node: usize,
    target_name: &str,
    rope: &Rope,
) -> (r: Option<usize>)
    requires
        start_node < tree@.len(),
    ensures
        match r {
            Some(d) => declaration_from(
                tree@,
                rope_text(*rope),
                start_node as int,
                target_name@,
            ) == Some(d as int) && d < tree@.len(),
            None => declaration_from(tree@, rope_text(*rope), start_node as int, target_name@)
                is None,
        },
{
    let ghost text = rope_text(*rope);
    let mut curr = start_node;
    loop
        invariant
            curr < tree@.len(),
            text == rope_text(*rope),
            declaration_from(tree@, text, start_node as int, target_name@) == declaration_from(
                tree@,
                text,
                curr as int,
                target_name@,
            ),
        decreases curr,
    {
        match tree.parent(curr) {
            Some(p) => {
                match declaration_in_scope(tree, rope, p, target_name) {
                    Some(d) => {
                        return Some(d);
                    },
                    None => {},
                }
                curr = p;
            },
            None => {
                return None;
            },
        }
    }
}

/// The first method of `body` named `target_name`, of the arity given if one is.
fn find_method_in_body(
    tree: &SyntaxTree,
    rope: &Rope,
    body: usize,
    target_name: &str,
    arity: Option<usize>,
) -> (r: Option<usize>)
    requires
        body < tree@.len(),
    ensures
        match r {
            Some(m) => first_some(
                tree@[body as int].children,
                method_named(
                    tree@,
                    rope_text(*rope),
                    target_name@,
                    match arity {
                        Some(a) => Some(a as int),
                        None => None,
                    },
                ),
            ) == Some(m as int) && body < m < tree@.len(),
            None => first_some(
                tree@[body as int].children,
                method_named(
                    tree@,
                    rope_text(*rope),
                    target_name@,
                    match arity {
                        Some(a) => Some(a as int),
                        None => None,
                    },
                ),
            ) is None,
        },
{
    let ghost text = rope_text(*rope);
    let ghost want = match arity {
        Some(a) => Some(a as int),
        None => None,
    };
    let ghost f = method_named(tree@, text, target_name@, want);
    let ghost items = tree@[body as int].children;
    let n = tree.child_count(body);
    let mut k: usize = 0;
    proof {
        lemma_first_some_end(items, f);
    }
    while k < n
        invariant
            k <= n,
            n == items.len(),
            body < tree@.len(),
            text == rope_text(*rope),
            want == (match arity {
                Some(a) => Some(a as int),
                None => None,
            }),
            items == tree@[body as int].children,
            f == method_named(tree@, text, target_name@, want),
            first_some(items, f) == first_some(items.skip(k as int), f),
        decreases n - k,
    {
        let m = tree.child(body, k);
        proof {
            lemma_first_some_step(items, f, k as int);
        }
        if tree.kind(m) == NodeKind::MethodDeclaration {
            let named = match child_by_field(tree, m, FieldName::Name) {
                Some(name_node) => str_eq(
                    get_node_text(tree, name_node, rope).as_str(),
                    target_name,
                ),
                None => false,
            };
            if named {
                let fits = match arity {
                    Some(a) => {
                        let params = param_nodes(tree, m);
                        assert(params@.map_values(|c: usize| c as int).len() == params@.len());
                        params.len() == a
                    },
                    None => true,
                };
                if fits {
                    return Some(m);
                }
            }
        }
        k += 1;
    }
    proof {
        lemma_first_some_end(items, f);
    }
    None
}

/// The method that a call of `target_name` with `arity` arguments at
/// `start_node` means.
pub fn find_method_definition_node(
    tree: &SyntaxTree,
    start_node: usize,
    target_name: &str,
    arity: usize,
    rope: &Rope,
) -> (r: Option<usize>)
    requires
        start_node < tree@.len(),
    ensures
        match r {
            Some(m) => method_from(
                tree@,
                rope_text(*rope),
                start_node as int,
                target_name@,
                arity as int,
            ) == Some(m as int) && m < tree@.len(),
            None => method_from(
                tree@,
                rope_text(*rope),
                start_node as int,
                target_name@,
                arity as int,
            ) is None,
        },
{
    let ghost text = rope_text(*rope);
    let mut curr = start_node;
    loop
        invariant
            curr < tree@.len(),
            text == rope_text(*rope),
            method_from(tree@, text, start_node as int, target_name@, arity as int) == method_from(
                tree@,
                text,
                curr as int,
                target_name@,
                arity as int,
            ),
        decreases curr,
    {
        match tree.parent(curr) {
            Some(p) => {
                if tree.kind(p) == NodeKind::ClassDeclaration {
                    match child_by_field(tree, p, FieldName::Body) {
                        Some(body) => {
                            match find_method_in_body(tree, rope, body, target_name, Some(arity)) {
                                Some(m) => {
                                    return Some(m);
                                },
                                None => {},
                            }
                            match find_method_in_body(tree, rope, body, target_name, None) {
                                Some(m) => {
                                    return Some(m);
                                },
                                None => {},
                            }
                        },
                        None => {},
                    }
                }
                curr = p;
            },
            None => {
                return None;
            },
        }
    }
}

/// Whether `s` ends with the char `a` or the char `b`.
fn ends_with_either(s: &str, a: char, b: char) -> (r: bool)
    ensures
        r == ends_in(s@, a, b),
{
    let v = chars_of(s);
    v.len() > 0 && (v[v.len() - 1] == a || v[v.len() - 1] == b)
}

/// Infers types of expressions of one document.
pub struct TypeSolver<'a> {
    pub tree: &'a SyntaxTree,
    pub rope: &'a Rope,
    pub index: &'a GlobalIndex,
    pub current_uri: &'a str,
}

impl<'a> TypeSolver<'a> {
    /// A solver for the document `tree` with the text `rope`.
    pub fn new(
        tree: &'a SyntaxTree,
        rope: &'a Rope,
        index: &'a GlobalIndex,
        current_uri: &'a str,
    ) -> (r: Self)
        ensures
            r.tree == tree,
            r.rope == rope,
            r.index == index,
            r.current_uri == current_uri,
    {
        Self { tree, rope, index, current_uri }
    }

    /// The type spelled by the `type` field of node `id`.
    fn type_field(&self, id: usize) -> (t: InferredType)
        requires
            id < self.tree@.len(),
        ensures
            t@ == type_field_of(self.tree@, rope_text(*self.rope), id as int),
    {
        match child_by_field(self.tree, id, FieldName::Type) {
            Some(t) => parse_java_type(self.tree, t, self.rope),
            None => InferredType::Unknown,
        }
    }

    /// The declared type of the variable that `identifier_node` names.
    fn resolve_variable_type(&self, identifier_node: usize) -> (t: InferredType)
        requires
            identifier_node < self.tree@.len(),
        ensures
            t@ == (match declaration_from(
                self.tree@,
                rope_text(*self.rope),
                identifier_node as int,
                node_text(self.tree@, rope_text(*self.rope), identifier_node as int),
            ) {
                Some(d) => declared_type(self.tree@, rope_text(*self.rope), d),
                None => TypeModel::Unknown,
            }),
    {
        let var_name = get_node_text(self.tree, identifier_node, self.rope);
        match find_declaration_node(self.tree, identifier_node, var_name.as_str(), self.rope) {
            Some(d) => match self.tree.kind(d) {
                NodeKind::VariableDeclarator => match self.tree.parent(d) {
                    Some(p) => {
                        let pk = self.tree.kind(p);
                        if pk == NodeKind::LocalVariableDeclaration || pk
                            == NodeKind::FieldDeclaration {
                            self.type_field(p)
                        } else {
                            InferredType::Unknown
                        }
                    },
                    None => InferredType::Unknown,
                },
                NodeKind::FormalParameter | NodeKind::EnhancedForStatement | NodeKind::Resource => self.type_field(
                    d,
                ),
                _ => InferredType::Unknown,
            },
            None => InferredType::Unknown,
        }
    }

    /// The return type of the method that `invocation_node` calls.
    fn resolve_method_return_type(&self, invocation_node: usize) -> (t: InferredType)
        requires
            invocation_node < self.tree@.len(),
        ensures
            t@ == call_type(self.tree@, rope_text(*self.rope), invocation_node as int),
    {
        let name_node = match child_by_field(self.tree, invocation_node, FieldName::Name) {
            Some(n) => n,
            None => {
                return InferredType::Unknown;
            },
        };
        let method_name = get_node_text(self.tree, name_node, self.rope);
        let arity = match child_by_field(self.tree, invocation_node, FieldName::Arguments) {
            Some(a) => {
                let args = named_children_of(self.tree, a);
                assert(args@.map_values(|c: usize| c as int).len() == args@.len());
                args.len()
            },
            None => 0,
        };
        match find_method_definition_node(
            self.tree,
            invocation_node,
            method_name.as_str(),
            arity,
            self.rope,
        ) {
            Some(m) => match child_by_field(self.tree, m, FieldName::Type) {
                Some(t) => {
                    if self.tree.kind(t) == NodeKind::VoidType {
                        InferredType::Unknown
                    } else {
                        parse_java_type(self.tree, t, self.rope)
                    }
                },
                None => InferredType::Unknown,
            },
            None => InferredType::Unknown,
        }
    }

    /// The type of the expression at `node`.
    pub fn infer(&self, node: usize) -> (t: InferredType)
        requires
            node < self.tree@.len(),
        ensures
            t@ == inferred(self.tree@, rope_text(*self.rope), node as int),
        decreases self.tree@.len() - node,
    {
        match self.tree.kind(node) {
            NodeKind::DecimalIntegerLiteral => {
                let text = get_node_text(self.tree, node, self.rope);
                if ends_with_either(text.as_str(), 'L', 'l') {
                    InferredType::Long
                } else {
                    InferredType::Int
                }
            },
            NodeKind::DecimalFloatingPointLiteral => {
                let text = get_node_text(self.tree, node, self.rope);
                if ends_with_either(text.as_str(), 'f', 'F') {
                    InferredType::Float
                } else {
                    InferredType::Double
                }
            },
            NodeKind::StringLiteral => InferredType::String,
            NodeKind::True | NodeKind::False => InferredType::Boolean,
            NodeKind::CharacterLiteral => InferredType::Char,
            NodeKind::ParenthesizedExpression => {
                let inner = named_children_of(self.tree, node);
                if inner.len() > 0 {
                    assert(inner@.map_values(|c: usize| c as int)[0] == inner[0] as int);
                    self.infer(inner[0])
                } else {
                    assert(inner@.map_values(|c: usize| c as int).len() == 0);
                    InferredType::Unknown
                }
            },
            NodeKind::CastExpression | NodeKind::ObjectCreationExpression => self.type_field(node),
            NodeKind::Identifier => self.resolve_variable_type(node),
            NodeKind::MethodInvocation => self.resolve_method_return_type(node),
            _ => InferredType::Unknown,
        }
    }
}

/// The type of a literal, cast or parenthesised expression, read off the
/// expression alone; unknown for anything that needs a declaration.
pub fn infer_expr_type(tree: &SyntaxTree, node: usize, rope: &Rope) -> (t: InferredType)
    requires
        node < tree@.len(),
    ensures
        t@ == literal_type(tree@, rope_text(*rope), node as int),
    decreases tree@.len() - node,
{
    match tree.kind(node) {
        NodeKind::DecimalIntegerLiteral => {
            let text = get_node_text(tree, node, rope);
            if ends_with_either(text.as_str(), 'L', 'l') {
                InferredType::Long
            } else {
                InferredType::Int
            }
        },
        NodeKind::DecimalFloatingPointLiteral => {
            let text = get_node_text(tree, node, rope);
            if ends_with_either(text.as_str(), 'f', 'F') {
                InferredType::Float
            } else {
                InferredType::Double
            }
        },
        NodeKind::StringLiteral => InferredType::String,
        NodeKind::True | NodeKind::False => InferredType::Boolean,
        NodeKind::CharacterLiteral => InferredType::Char,
        NodeKind::CastExpression => match child_by_field(tree, node, FieldName::Type) {
            Some(t) => parse_java_type(tree, t, rope),
            None => InferredType::Unknown,
        },
        NodeKind::ParenthesizedExpression => {
            let inner = named_children_of(tree, node);
            if inner.len() > 0 {
                assert(inner@.map_values(|c: usize| c as int)[0] == inner[0] as int);
                infer_expr_type(tree, inner[0], rope)
            } else {
                assert(inner@.map_values(|c: usize| c as int).len() == 0);
                InferredType::Unknown
            }
        },
        _ => InferredType::Unknown,
    }
}

/// The type of the expression at node `id` as far as the expression alone
/// shows it.
pub open spec fn literal_type(nodes: Seq<NodeModel>, text: Seq<char>, id: int) -> TypeModel
    decreases nodes.len() - id,
{
    match nodes[id].kind {
        NodeKind::DecimalIntegerLiteral => if ends_in(node_text(nodes, text, id), 'L', 'l') {
            TypeModel::Long
        } else {
            TypeModel::Int
        },
        NodeKind::DecimalFloatingPointLiteral => if ends_in(node_text(nodes, text, id), 'f', 'F') {
            TypeModel::Float
        } else {
            TypeModel::Double
        },
        NodeKind::StringLiteral => TypeModel::String,
        NodeKind::True | NodeKind::False => TypeModel::Boolean,
        NodeKind::CharacterLiteral => TypeModel::Char,
        NodeKind::CastExpression => type_field_of(nodes, text, id),
        NodeKind::ParenthesizedExpression => {
            let inner = named_children(nodes, nodes[id].children);
            if inner.len() > 0 && id < inner[0] < nodes.len() {
                literal_type(nodes, text, inner[0])
            } else {
                TypeModel::Unknown
            }
        },
        _ => TypeModel::Unknown,
    }
}

} // verus!
