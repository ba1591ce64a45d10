//! Lookup inside the document: parameters and locals in scope, and the
//! members of the enclosing classes, with overloads told apart by how well
//! they fit the call.

use vstd::prelude::*;
use ropey::Rope;
use crate::ast::{calculate_score, parse_java_type, score_of, type_named};
use crate::inference::{
    declarator_named, declared_in_scope, find_in_declarators, find_in_scope, find_param, inferred,
    param_named, TypeSolver,
};
use crate::indexer::has_varargs;
use crate::rope::rope_text;
use crate::state::{GlobalIndex, Range};
use crate::syntax::{node_range, FieldName, NodeKind, NodeModel, SyntaxTree};
use crate::text::str_eq;
use crate::utils::{
    child_by_field, child_with_field, first_some, get_node_text, lemma_first_some_end,
    lemma_first_some_step, method_params, node_text, param_name_node, param_name_of, param_nodes,
    param_type_node, param_type_of,
};

verus! {

/// The node that names what the declarator `d` declares.
pub open spec fn name_of(nodes: Seq<NodeModel>, d: Option<int>) -> Option<int> {
    match d {
        Some(d) => child_with_field(nodes, d, FieldName::Name),
        None => None,
    }
}

/// The span of a node, if there is a node.
pub open spec fn range_of(nodes: Seq<NodeModel>, n: Option<int>) -> Option<Range> {
    match n {
        Some(n) => Some(nodes[n].range),
        None => None,
    }
}

/// What the scope `scope` itself declares under `name` for a reference at
/// byte `limit`: a parameter of a method or constructor, or a local that a
/// block, method or program declares before the reference. The result is
/// the node that holds the declared name.
pub open spec fn local_in(
    nodes: Seq<NodeModel>,
    text: Seq<char>,
    scope: int,
    name: Seq<char>,
    limit: int,
) -> Option<int> {
    let kind = nodes[scope].kind;
    let by_param = if kind == NodeKind::MethodDeclaration || kind
        == NodeKind::ConstructorDeclaration {
        match first_some(method_params(nodes, scope), param_named(nodes, text, name)) {
            Some(p) => param_name_node(nodes, p),
            None => None,
        }
    } else {
        None
    };
    match by_param {
        Some(n) => Some(n),
        None => if kind == NodeKind::Block || kind == NodeKind::MethodDeclaration || kind
            == NodeKind::Program {
            name_of(
                nodes,
                declared_in_scope(
                    nodes,
                    text,
                    scope,
                    NodeKind::LocalVariableDeclaration,
                    name,
                    Some(limit),
                ),
            )
        } else {
            None
        },
    }
}

/// The parameter or local named `name` that is in scope at node `id` for a
/// reference at byte `limit`: the innermost scope wins, and a local counts
/// only where its declaration starts before the reference.
pub open spec fn local_from(
    nodes: Seq<NodeModel>,
    text: Seq<char>,
    id: int,
    name: Seq<char>,
    limit: int,
) -> Option<int>
    decreases id,
{
    match local_in(nodes, text, id, name, limit) {
        Some(n) => Some(n),
        None => match nodes[id].parent {
            Some(p) => if 0 <= p < id {
                local_from(nodes, text, p, name, limit)
            } else {
                None
            },
            None => None,
        },
    }
}

/// What `scope` itself declares under `name` for a reference at byte `limit`.
fn local_in_scope(tree: &SyntaxTree, rope: &Rope, scope: usize, name: &str, limit: usize) -> (r:
    Option<usize>)
    requires
        scope < tree@.len(),
    ensures
        match r {
            Some(n) => local_in(tree@, rope_text(*rope), scope as int, name@, limit as int) == Some(
                n as int,
            ) && n < tree@.len(),
            None => local_in(tree@, rope_text(*rope), scope as int, name@, limit as int) is None,
        },
{
    let kind = tree.kind(scope);
    if kind == NodeKind::MethodDeclaration || kind == NodeKind::ConstructorDeclaration {
        match find_param(tree, rope, scope, name) {
            Some(p) => {
                match param_name_of(tree, p) {
                    Some(n) => {
                        return Some(n);
                    },
                    None => {},
                }
            },
            None => {},
        }
    }
    if kind == NodeKind::Block || kind == NodeKind::MethodDeclaration || kind == NodeKind::Program {
        match find_in_scope(
            tree,
            rope,
            scope,
            NodeKind::LocalVariableDeclaration,
            name,
            Some(limit),
        ) {
            Some(d) => child_by_field(tree, d, FieldName::Name),
            None => None,
        }
    } else {
        None
    }
}

/// Where the parameter or local `name` that is in scope at `node` is
/// declared.
pub fn find_local_variable(tree: &SyntaxTree, node: usize, rope: &Rope, name: &str) -> (r: Option<
    Range,
>)
    requires
        node < tree@.len(),
    ensures
        r == range_of(
            tree@,
            local_from(
                tree@,
                rope_text(*rope),
                node as int,
                name@,
                tree@[node as int].start_byte,
            ),
        ),
{
    let ghost text = rope_text(*rope);
    let limit = tree.start_byte(node);
    let mut curr = node;
    loop
        invariant
            curr < tree@.len(),
            text == rope_text(*rope),
            limit == tree@[node as int].start_byte,
            local_from(tree@, text, node as int, name@, limit as int) == local_from(
                tree@,
                text,
                curr as int,
                name@,
                limit as int,
            ),
        decreases curr,
    {
        match local_in_scope(tree, rope, curr, name, limit) {
            Some(n) => {
                return Some(node_range(tree, n));
            },
            None => {},
        }
        match tree.parent(curr) {
            Some(p) => {
                curr = p;
            },
            None => {
                return None;
            },
        }
    }
}

/// Where the first local declared directly in `scope_node` under
/// `target_name` is named.
pub fn search_scope(tree: &SyntaxTree, scope_node: usize, target_name: &str, rope: &Rope) -> (r:
    Option<Range>)
    requires
        scope_node < tree@.len(),
    ensures
        r == range_of(
            tree@,
            name_of(
                tree@,
                declared_in_scope(
                    tree@,
                    rope_text(*rope),
                    scope_node as int,
                    NodeKind::LocalVariableDeclaration,
                    target_name@,
                    None,
                ),
            ),
        ),
{
    match find_in_scope(
        tree,
        rope,
        scope_node,
        NodeKind::LocalVariableDeclaration,
        target_name,
        None,
    ) {
        Some(d) => match child_by_field(tree, d, FieldName::Name) {
            Some(n) => Some(node_range(tree, n)),
            None => None,
        },
        None => None,
    }
}

/// Where the field declaration `node` names `target_name`, if it is a field
/// declaration and declares that name.
pub fn find_field_in_declaration(
    tree: &SyntaxTree,
    node: usize,
    target_name: &str,
    rope: &Rope,
) -> (r: Option<Range>)
    requires
        node < tree@.len(),
    ensures
        r == range_of(
            tree@,
            if tree@[node as int].kind == NodeKind::FieldDeclaration {
                name_of(tree@, declarator_named(tree@, rope_text(*rope), node as int, target_name@))
            } else {
                None
            },
        ),
{
    if tree.kind(node) != NodeKind::FieldDeclaration {
        return None;
    }
    match find_in_declarators(tree, rope, node, target_name) {
        Some(d) => match child_by_field(tree, d, FieldName::Name) {
            Some(n) => Some(node_range(tree, n)),
            None => None,
        },
        None => None,
    }
}

/// For a child of a class body: the node that names `name`, if the child is
/// a field declaration that declares it or a method of that name.
pub open spec fn member_named(nodes: Seq<NodeModel>, text: Seq<char>, name: Seq<char>) -> spec_fn(
    int,
) -> Option<int> {
    |c: int|
        if nodes[c].kind == NodeKind::FieldDeclaration {
            name_of(nodes, declarator_named(nodes, text, c, name))
        } else if nodes[c].kind == NodeKind::MethodDeclaration {
            match child_with_field(nodes, c, FieldName::Name) {
                Some(n) => if node_text(nodes, text, n) == name {
                    Some(n)
                } else {
                    None
                },
                None => None,
            }
        } else {
            None
        }
}

/// Where the first field or method of `class_body` with the name
/// `target_name` is named.
pub fn search_fields_in_class(
    tree: &SyntaxTree,
    class_body: usize,
    target_name: &str,
    rope: &Rope,
) -> (r: Option<Range>)
    requires
        class_body < tree@.len(),
    ensures
        r == range_of(
            tree@,
            first_some(
                tree@[class_body as int].children,
                member_named(tree@, rope_text(*rope), target_name@),
            ),
        ),
{
    let ghost text = rope_text(*rope);
    let ghost f = member_named(tree@, text, target_name@);
    let ghost items = tree@[class_body as int].children;
    let n = tree.child_count(class_body);
    let mut k: usize = 0;
    proof {
        lemma_first_some_end(items, f);
    }
    while k < n
        invariant
            k <= n,
            n == items.len(),
            class_body < tree@.len(),
            text == rope_text(*rope),
            items == tree@[class_body as int].children,
            f == member_named(tree@, text, target_name@),
            first_some(items, f) == first_some(items.skip(k as int), f),
        decreases n - k,
    {
        let c = tree.child(class_body, k);
        proof {
            lemma_first_some_step(items, f, k as int);
        }
        let kind = tree.kind(c);
        if kind == NodeKind::FieldDeclaration {
            match find_in_declarators(tree, rope, c, target_name) {
                Some(d) => match child_by_field(tree, d, FieldName::Name) {
                    Some(name_node) => {
                        return Some(node_range(tree, name_node));
                    },
                    None => {},
                },
                None => {},
            }
        } else if kind == NodeKind::MethodDeclaration {
            match child_by_field(tree, c, FieldName::Name) {
                Some(name_node) => {
                    if str_eq(get_node_text(tree, name_node, rope).as_str(), target_name) {
                        return Some(node_range(tree, name_node));
                    }
                },
                None => {},
            }
        }
        k += 1;
    }
    proof {
        lemma_first_some_end(items, f);
    }
    None
}

/// The parameter against which argument `i` is held: its own, or the last
/// one for the arguments that a variadic parameter takes up.
pub open spec fn param_index(params: int, varargs: bool, i: int) -> int {
    if varargs && i >= params - 1 {
        params - 1
    } else {
        i
    }
}

/// Whether a call with `args` arguments fits `params` parameters by number.
pub open spec fn count_fits(params: int, varargs: bool, args: int) -> bool {
    if varargs {
        args >= params - 1
    } else {
        args == params
    }
}

/// The score of argument `i` of `args` against the parameter of the method
/// declaration `m` that it falls to; none where it has no parameter, the
/// parameter spells no type, or the score is negative.
pub open spec fn arg_score(
    nodes: Seq<NodeModel>,
    text: Seq<char>,
    m: int,
    args: Seq<int>,
    i: int,
) -> Option<int> {
    let params = method_params(nodes, m);
    let p = param_index(params.len() as int, has_varargs(nodes, m), i);
    if 0 <= p < params.len() {
        match param_type_node(nodes, params[p]) {
            Some(t) => {
                let s = score_of(
                    inferred(nodes, text, args[i]),
                    type_named(node_text(nodes, text, t)),
                );
                if s < 0 {
                    None
                } else {
                    Some(s)
                }
            },
            None => None,
        }
    } else {
        None
    }
}

/// The sum of the scores of the first `n` arguments; none as soon as one of
/// them has none.
pub open spec fn args_score(
    nodes: Seq<NodeModel>,
    text: Seq<char>,
    m: int,
    args: Seq<int>,
    n: int,
) -> Option<int>
    decreases n,
{
    if n <= 0 {
        Some(0)
    } else {
        match args_score(nodes, text, m, args, n - 1) {
            Some(acc) => match arg_score(nodes, text, m, args, n - 1) {
                Some(s) => Some(acc + s),
                None => None,
            },
            None => None,
        }
    }
}

/// How well the method declaration `m` fits a call with the arguments
/// `args`: none where the numbers do not fit or an argument is rejected.
pub open spec fn declaration_score(
    nodes: Seq<NodeModel>,
    text: Seq<char>,
    m: int,
    args: Seq<int>,
) -> Option<int> {
    if count_fits(
        method_params(nodes, m).len() as int,
        has_varargs(nodes, m),
        args.len() as int,
    ) {
        args_score(nodes, text, m, args, args.len() as int)
    } else {
        None
    }
}

/// Once an argument is rejected, no longer sum has a value.
pub proof fn lemma_args_score_rejected(
    nodes: Seq<NodeModel>,
    text: Seq<char>,
    m: int,
    args: Seq<int>,
    k: int,
    n: int,
)
    requires
        0 <= k <= n,
        args_score(nodes, text, m, args, k) is None,
    ensures
        args_score(nodes, text, m, args, n) is None,
    decreases n,
{
    if n > k {
        lemma_args_score_rejected(nodes, text, m, args, k, n - 1);
    }
}

/// How well the method declaration `m` fits a call with the arguments
/// `args`.
pub fn score_declaration(solver: &TypeSolver<'_>, m: usize, args: &Vec<usize>) -> (r: Option<i128>)
    requires
        m < solver.tree@.len(),
        forall|j: int| 0 <= j < args.len() ==> #[trigger] args[j] < solver.tree@.len(),
    ensures
        match r {
            Some(s) => declaration_score(
                solver.tree@,
                rope_text(*solver.rope),
                m as int,
                args@.map_values(|c: usize| c as int),
            ) == Some(s as int),
            None => declaration_score(
                solver.tree@,
                rope_text(*solver.rope),
                m as int,
                args@.map_values(|c: usize| c as int),
            ) is None,
        },
{
    let tree = solver.tree;
    let rope = solver.rope;
    let ghost nodes = tree@;
    let ghost text = rope_text(*rope);
    let ghost ids = args@.map_values(|c: usize| c as int);
    let params = param_nodes(tree, m);
    let ghost pids = method_params(nodes, m as int);
    assert(pids.len() == params.len());
    let varargs = params.len() > 0 && tree.kind(params[params.len() - 1])
        == NodeKind::SpreadParameter;
    proof {
        if params.len() > 0 {
            assert(pids.last() == params[params.len() - 1] as int);
        }
    }
    let fits = if varargs {
        args.len() >= params.len() - 1
    } else {
        args.len() == params.len()
    };
    if !fits {
        return None;
    }
    let mut total: i128 = 0;
    let mut i: usize = 0;
    while i < args.len()
        invariant
            i <= args.len(),
            tree == solver.tree,
            rope == solver.rope,
            nodes == tree@,
            text == rope_text(*rope),
            m < nodes.len(),
            ids == args@.map_values(|c: usize| c as int),
            pids == method_params(nodes, m as int),
            pids == params@.map_values(|c: usize| c as int),
            forall|j: int| 0 <= j < params.len() ==> #[trigger] params[j] < nodes.len(),
            forall|j: int| 0 <= j < args.len() ==> #[trigger] args[j] < nodes.len(),
            varargs == has_varargs(nodes, m as int),
            count_fits(pids.len() as int, varargs, args.len() as int),
            args_score(nodes, text, m as int, ids, i as int) == Some(total as int),
            0 <= total <= 100 * i,
        decreases args.len() - i,
    {
        let p = if varargs && i >= params.len() - 1 {
            params.len() - 1
        } else {
            i
        };
        if p >= params.len() {
            proof {
                assert(arg_score(nodes, text, m as int, ids, i as int) is None);
                lemma_args_score_rejected(nodes, text, m as int, ids, i + 1, args.len() as int);
            }
            return None;
        }
        assert(pids[p as int] == params[p as int] as int);
        assert(ids[i as int] == args[i as int] as int);
        let t = match param_type_of(tree, params[p]) {
            Some(t) => t,
            None => {
                proof {
                    assert(arg_score(nodes, text, m as int, ids, i as int) is None);
                    lemma_args_score_rejected(nodes, text, m as int, ids, i + 1, args.len() as int);
                }
                return None;
            },
        };
        let arg_type = solver.infer(args[i]);
        let param_type = parse_java_type(tree, t, rope);
        let score = calculate_score(&arg_type, &param_type);
        if score < 0 {
            proof {
                assert(arg_score(nodes, text, m as int, ids, i as int) is None);
                lemma_args_score_rejected(nodes, text, m as int, ids, i + 1, args.len() as int);
            }
            return None;
        }
        total = total + score as i128;
        i += 1;
    }
    Some(total)
}

/// Picks the method named `name`, with its score against `args`.
pub open spec fn method_score(
    nodes: Seq<NodeModel>,
    text: Seq<char>,
    name: Seq<char>,
    args: Seq<int>,
    c: int,
) -> Option<int> {
    if nodes[c].kind == NodeKind::MethodDeclaration && (match child_with_field(
        nodes,
        c,
        FieldName::Name,
    ) {
        Some(n) => node_text(nodes, text, n) == name,
        None => false,
    }) {
        declaration_score(nodes, text, c, args)
    } else {
        None
    }
}

/// The best-scoring method named `name` among the first `n` of `children`,
/// with its score; of several that score best, the first.
pub open spec fn best_method(
    nodes: Seq<NodeModel>,
    text: Seq<char>,
    children: Seq<int>,
    name: Seq<char>,
    args: Seq<int>,
    n: int,
) -> Option<(int, int)>
    decreases n,
{
    if n <= 0 {
        None
    } else {
        let prev = best_method(nodes, text, children, name, args, n - 1);
        match method_score(nodes, text, name, args, children[n - 1]) {
            Some(s) => match prev {
                Some((_, best)) => if s > best {
                    Some((children[n - 1], s))
                } else {
                    prev
                },
                None => Some((children[n - 1], s)),
            },
            None => prev,
        }
    }
}

/// The member of the class body `body` that a reference to `name` means:
/// for a plain reference the first field of that name, else the method that
/// fits best; for a call the method that fits best, else the field. The
/// result is the node that holds the declared name.
pub open spec fn class_member(
    nodes: Seq<NodeModel>,
    text: Seq<char>,
    body: int,
    name: Seq<char>,
    args: Seq<int>,
    prefer_field: bool,
) -> Option<int> {
    let field = name_of(
        nodes,
        declared_in_scope(nodes, text, body, NodeKind::FieldDeclaration, name, None),
    );
    let method = match best_method(
        nodes,
        text,
        nodes[body].children,
        name,
        args,
        nodes[body].children.len() as int,
    ) {
        Some((m, _)) => child_with_field(nodes, m, FieldName::Name),
        None => None,
    };
    if prefer_field {
        match field {
            Some(f) => Some(f),
            None => method,
        }
    } else {
        match method {
            Some(m) => Some(m),
            None => field,
        }
    }
}

/// Where the member of `class_body` that a reference to `target_name`
/// means is named.
pub fn search_class_member(
    tree: &SyntaxTree,
    class_body: usize,
    target_name: &str,
    rope: &Rope,
    call_args: &Vec<usize>,
    index: &GlobalIndex,
    uri: &str,
    prefer_field: bool,
) -> (r: Option<Range>)
    requires
        class_body < tree@.len(),
        forall|j: int| 0 <= j < call_args.len() ==> #[trigger] call_args[j] < tree@.len(),
    ensures
        r == range_of(
            tree@,
            class_member(
                tree@,
                rope_text(*rope),
                class_body as int,
                target_name@,
                call_args@.map_values(|c: usize| c as int),
                prefer_field,
            ),
        ),
{
    let ghost nodes = tree@;
    let ghost text = rope_text(*rope);
    let ghost ids = call_args@.map_values(|c: usize| c as int);
    let field = match find_in_scope(
        tree,
        rope,
        class_body,
        NodeKind::FieldDeclaration,
        target_name,
        None,
    ) {
        Some(d) => child_by_field(tree, d, FieldName::Name),
        None => None,
    };
    if prefer_field {
        match field {
            Some(f) => {
                return Some(node_range(tree, f));
            },
            None => {},
        }
    }
    let solver = TypeSolver::new(tree, rope, index, uri);
    let ghost items = nodes[class_body as int].children;
    let n = tree.child_count(class_body);
    let mut best: Option<(usize, i128)> = None;
    let mut k: usize = 0;
    while k < n
        invariant
            k <= n,
            n == items.len(),
            class_body < nodes.len(),
            nodes == tree@,
            text == rope_text(*rope),
            solver.tree == tree,
            solver.rope == rope,
            ids == call_args@.map_values(|c: usize| c as int),
            forall|j: int| 0 <= j < call_args.len() ==> #[trigger] call_args[j] < nodes.len(),
            items == nodes[class_body as int].children,
            match best {
                Some((m, s)) => best_method(nodes, text, items, target_name@, ids, k as int)
                    == Some((m as int, s as int)) && m < nodes.len(),
                None => best_method(nodes, text, items, target_name@, ids, k as int) is None,
            },
        decreases n - k,
    {
        let c = tree.child(class_body, k);
        if tree.kind(c) == NodeKind::MethodDeclaration {
            let named = match child_by_field(tree, c, FieldName::Name) {
                Some(name_node) => str_eq(
                    get_node_text(tree, name_node, rope).as_str(),
                    target_name,
                ),
                None => false,
            };
            if named {
                match score_declaration(&solver, c, call_args) {
                    Some(s) => {
                        let better = match best {
                            Some((_, b)) => s > b,
                            None => true,
                        };
                        if better {
                            best = Some((c, s));
                        }
                    },
                    None => {},
                }
            }
        }
        k += 1;
    }
    let method = match best {
        Some((m, _)) => child_by_field(tree, m, FieldName::Name),
        None => None,
    };
    match method {
        Some(m) => Some(node_range(tree, m)),
        None => match field {
            Some(f) => Some(node_range(tree, f)),
            None => None,
        },
    }
}

/// The member named `name` that is in scope at node `id`: that of the
/// innermost enclosing class that has one.
pub open spec fn member_from(
    nodes: Seq<NodeModel>,
    text: Seq<char>,
    id: int,
    name: Seq<char>,
    args: Seq<int>,
    prefer_field: bool,
) -> Option<int>
    decreases id,
{
    match nodes[id].parent {
        Some(p) => if 0 <= p < id {
            let here = if nodes[p].kind == NodeKind::ClassDeclaration {
                match child_with_field(nodes, p, FieldName::Body) {
                    Some(body) => class_member(nodes, text, body, name, args, prefer_field),
                    None => None,
                }
            } else {
                None
            };
            match here {
                Some(n) => Some(n),
                None => member_from(nodes, text, p, name, args, prefer_field),
            }
        } else {
            None
        },
        None => None,
    }
}

/// Whether a reference at node `id` prefers a field to a method of the same
/// name: it does unless it is the name of a call.
pub open spec fn prefers_field(nodes: Seq<NodeModel>, id: int) -> bool {
    crate::utils::parent_kind(nodes, id) != Some(NodeKind::MethodInvocation)
}

/// Whether a reference at `node` prefers a field to a method.
pub fn prefer_field_first(tree: &SyntaxTree, node: usize) -> (r: bool)
    requires
        node < tree@.len(),
    ensures
        r == prefers_field(tree@, node as int),
{
    match tree.parent(node) {
        Some(p) => tree.kind(p) != NodeKind::MethodInvocation,
        None => true,
    }
}

/// Where the member of an enclosing class that a reference to
/// `target_name` at `start_node` means is named.
pub fn find_definition_in_file(
    tree: &SyntaxTree,
    start_node: usize,
    target_name: &str,
    rope: &Rope,
    call_args: &Vec<usize>,
    index: &GlobalIndex,
    uri: &str,
) -> (r: Option<Range>)
    requires
        start_node < tree@.len(),
        forall|j: int| 0 <= j < call_args.len() ==> #[trigger] call_args[j] < tree@.len(),
    ensures
        r == range_of(
            tree@,
            member_from(
                tree@,
                rope_text(*rope),
                start_node as int,
                target_name@,
                call_args@.map_values(|c: usize| c as int),
                prefers_field(tree@, start_node as int),
            ),
        ),
{
    let ghost text = rope_text(*rope);
    let ghost ids = call_args@.map_values(|c: usize| c as int);
    let prefer_field = prefer_field_first(tree, start_node);
    let mut curr = start_node;
    loop
        invariant
            curr < tree@.len(),
            text == rope_text(*rope),
            ids == call_args@.map_values(|c: usize| c as int),
            forall|j: int| 0 <= j < call_args.len() ==> #[trigger] call_args[j] < tree@.len(),
            prefer_field == prefers_field(tree@, start_node as int),
            member_from(tree@, text, start_node as int, target_name@, ids, prefer_field)
                == member_from(tree@, text, curr as int, target_name@, ids, prefer_field),
        decreases curr,
    {
        match tree.parent(curr) {
            Some(p) => {
                if tree.kind(p) == NodeKind::ClassDeclaration {
                    match child_by_field(tree, p, FieldName::Body) {
                        Some(body) => {
                            match search_class_member(
                                tree,
                                body,
                                target_name,
                                rope,
                                call_args,
                                index,
                                uri,
                                prefer_field,
                            ) {
                                Some(range) => {
                                    return Some(range);
                                },
                                None => {},
                            }
                        },
                        None => {},
                    }
                }
                curr = p;
            },
            None => {
                return None;
            },
        }
    }
}

} // verus!
