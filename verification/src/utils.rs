//! Reading the mirror: the text of a node, its children by field, and the
//! node under a position.

use vstd::prelude::*;
use ropey::Rope;
use crate::rope::{
    byte_offset, char_at_byte, line_count, line_start, rope_byte_to_char, rope_char_to_byte,
    rope_len_bytes, rope_len_chars, rope_len_lines, rope_line_to_char, rope_slice, rope_text,
};
use crate::state::Position;
use crate::syntax::{FieldName, NodeKind, NodeModel, SyntaxTree};

verus! {

/// The first of `items` for which `f` yields something, and what it yields.
pub open spec fn first_some<A, T>(items: Seq<A>, f: spec_fn(A) -> Option<T>) -> Option<T>
    decreases items.len(),
{
    if items.len() == 0 {
        None
    } else {
        match f(items[0]) {
            Some(x) => Some(x),
            None => first_some(items.drop_first(), f),
        }
    }
}

/// One step of a scan for the first item for which `f` yields something.
pub proof fn lemma_first_some_step<A, T>(items: Seq<A>, f: spec_fn(A) -> Option<T>, k: int)
    requires
        0 <= k < items.len(),
    ensures
        first_some(items.skip(k), f) == match f(items[k]) {
            Some(x) => Some(x),
            None => first_some(items.skip(k + 1), f),
        },
{
    assert(items.skip(k).drop_first() =~= items.skip(k + 1));
    assert(items.skip(k)[0] == items[k]);
}

/// A scan that ran through all items found nothing.
pub proof fn lemma_first_some_end<A, T>(items: Seq<A>, f: spec_fn(A) -> Option<T>)
    ensures
        first_some(items.skip(items.len() as int), f) is None,
        items.skip(0) == items,
{
    assert(items.skip(0) =~= items);
}

/// What `f` yields for each of `items`, joined in order.
pub open spec fn flat_collect<A, T>(items: Seq<A>, f: spec_fn(A) -> Seq<T>) -> Seq<T>
    decreases items.len(),
{
    if items.len() == 0 {
        Seq::empty()
    } else {
        flat_collect(items.drop_last(), f) + f(items.last())
    }
}

/// One step of a collection over `items`.
pub proof fn lemma_flat_collect_step<A, T>(items: Seq<A>, f: spec_fn(A) -> Seq<T>, k: int)
    requires
        0 <= k < items.len(),
    ensures
        flat_collect(items.take(k + 1), f) == flat_collect(items.take(k), f) + f(items[k]),
{
    assert(items.take(k + 1).drop_last() =~= items.take(k));
    assert(items.take(k + 1).last() == items[k]);
}

/// A collection over no items is empty; over all items it is the whole.
pub proof fn lemma_flat_collect_ends<A, T>(items: Seq<A>, f: spec_fn(A) -> Seq<T>)
    ensures
        flat_collect(items.take(0), f) == Seq::<T>::empty(),
        items.take(items.len() as int) == items,
{
    assert(items.take(0) =~= Seq::<A>::empty());
    assert(items.take(items.len() as int) =~= items);
}

/// What holds of all that `f` yields holds of all that is collected.
pub proof fn lemma_flat_collect_all<A, T>(
    items: Seq<A>,
    f: spec_fn(A) -> Seq<T>,
    holds: spec_fn(T) -> bool,
)
    requires
        forall|k: int, j: int|
            0 <= k < items.len() && 0 <= j < f(items[k]).len() ==> holds(
                #[trigger] f(items[k])[j],
            ),
    ensures
        forall|j: int|
            0 <= j < flat_collect(items, f).len() ==> holds(#[trigger] flat_collect(items, f)[j]),
    decreases items.len(),
{
    if items.len() > 0 {
        let front = items.drop_last();
        assert forall|k: int, j: int|
            0 <= k < front.len() && 0 <= j < f(front[k]).len() implies holds(
            #[trigger] f(front[k])[j],
        ) by {
            assert(front[k] == items[k]);
        }
        lemma_flat_collect_all(front, f, holds);
        let before = flat_collect(front, f);
        let last = f(items.last());
        assert forall|j: int| 0 <= j < (before + last).len() implies holds(
            #[trigger] (before + last)[j],
        ) by {
            if j < before.len() {
                assert((before + last)[j] == before[j]);
            } else {
                assert((before + last)[j] == last[j - before.len()]);
                assert(items.last() == items[items.len() - 1]);
                assert(holds(f(items[items.len() - 1])[j - before.len()]));
            }
        }
    }
}

/// The chars of the text that node `id` spans; none where its extent does
/// not lie in the text.
pub open spec fn node_text(nodes: Seq<NodeModel>, text: Seq<char>, id: int) -> Seq<char> {
    let n = nodes[id];
    let from = char_at_byte(text, n.start_byte);
    let to = char_at_byte(text, n.end_byte);
    if n.start_byte <= n.end_byte <= byte_offset(text, text.len() as int) && 0 <= from <= to
        <= text.len() {
        text.subrange(from, to)
    } else {
        Seq::empty()
    }
}

/// The source text of node `id`.
pub fn get_node_text(tree: &SyntaxTree, id: usize, rope: &Rope) -> (s: String)
    requires
        id < tree@.len(),
    ensures
        s@ == node_text(tree@, rope_text(*rope), id as int),
{
    let start = tree.start_byte(id);
    let end = tree.end_byte(id);
    if end > rope_len_bytes(rope) {
        return String::new();
    }
    let from = rope_byte_to_char(rope, start);
    let to = rope_byte_to_char(rope, end);
    if from > to {
        return String::new();
    }
    rope_slice(rope, from, to)
}

/// Picks the nodes held under `field`.
pub open spec fn held_under(nodes: Seq<NodeModel>, field: FieldName) -> spec_fn(int) -> Option<
    int,
> {
    |c: int|
        if nodes[c].field == Some(field) {
            Some(c)
        } else {
            None
        }
}

/// The first child of node `id` that its parent holds under `field`.
pub open spec fn child_with_field(nodes: Seq<NodeModel>, id: int, field: FieldName) -> Option<int> {
    first_some(nodes[id].children, held_under(nodes, field))
}

/// The first child of node `id` held under `field`.
pub fn child_by_field(tree: &SyntaxTree, id: usize, field: FieldName) -> (r: Option<usize>)
    requires
        id < tree@.len(),
    ensures
        match r {
            Some(c) => child_with_field(tree@, id as int, field) == Some(c as int) && id < c
                < tree@.len(),
            None => child_with_field(tree@, id as int, field) is None,
        },
{
    let ghost f = held_under(tree@, field);
    let ghost items = tree@[id as int].children;
    let n = tree.child_count(id);
    let mut k: usize = 0;
    proof {
        lemma_first_some_end(items, f);
    }
    while k < n
        invariant
            k <= n,
            n == items.len(),
            id < tree@.len(),
            items == tree@[id as int].children,
            f == held_under(tree@, field),
            first_some(items, f) == first_some(items.skip(k as int), f),
        decreases n - k,
    {
        let c = tree.child(id, k);
        proof {
            lemma_first_some_step(items, f, k as int);
        }
        if tree.field(c) == Some(field) {
            return Some(c);
        }
        k += 1;
    }
    proof {
        lemma_first_some_end(items, f);
    }
    None
}

/// The named children of a node, in order.
pub open spec fn named_children(nodes: Seq<NodeModel>, children: Seq<int>) -> Seq<int> {
    children.filter(|c: int| nodes[c].named)
}

/// The named children of node `id`.
pub fn named_children_of(tree: &SyntaxTree, id: usize) -> (r: Vec<usize>)
    requires
        id < tree@.len(),
    ensures
        r@.map_values(|c: usize| c as int) == named_children(tree@, tree@[id as int].children),
        forall|j: int| 0 <= j < r.len() ==> id < #[trigger] r[j] < tree@.len(),
{
    let ghost pred = |c: int| tree@[c].named;
    let ghost items = tree@[id as int].children;
    let n = tree.child_count(id);
    let mut out: Vec<usize> = Vec::new();
    let mut k: usize = 0;
    assert(items.take(0) =~= Seq::<int>::empty());
    assert(out@.map_values(|c: usize| c as int) =~= Seq::<int>::empty());
    while k < n
        invariant
            k <= n,
            n == items.len(),
            id < tree@.len(),
            items == tree@[id as int].children,
            pred == |c: int| tree@[c].named,
            out@.map_values(|c: usize| c as int) == items.take(k as int).filter(pred),
            forall|j: int| 0 <= j < out.len() ==> id < #[trigger] out[j] < tree@.len(),
        decreases n - k,
    {
        let c = tree.child(id, k);
        let ghost before = out@.map_values(|c: usize| c as int);
        proof {
            assert(items.take(k + 1) =~= items.take(k as int).push(items[k as int]));
            reveal(Seq::filter);
            assert(items.take(k + 1).drop_last() =~= items.take(k as int));
        }
        if tree.is_named(c) {
            out.push(c);
            assert(out@.map_values(|c: usize| c as int) =~= before.push(c as int));
        }
        k += 1;
    }
    assert(items.take(n as int) =~= items);
    out
}

/// Whether node `c` reaches to `byte`: a node with an extent when it ends
/// after the byte, an empty node when it ends at or after it.
pub open spec fn reaches(nodes: Seq<NodeModel>, c: int, byte: int) -> bool {
    if nodes[c].start_byte == nodes[c].end_byte {
        nodes[c].end_byte >= byte
    } else {
        nodes[c].end_byte > byte
    }
}

/// Picks the nodes that reach to `byte`.
pub open spec fn reaching(nodes: Seq<NodeModel>, byte: int) -> spec_fn(int) -> Option<int> {
    |c: int|
        if reaches(nodes, c, byte) {
            Some(c)
        } else {
            None
        }
}

/// The child of node `id` into which a search for `byte` descends: the first
/// child that reaches to the byte, provided it also starts at or before it.
pub open spec fn covering_child(nodes: Seq<NodeModel>, id: int, byte: int) -> Option<int> {
    match first_some(nodes[id].children, reaching(nodes, byte)) {
        Some(c) => if nodes[c].start_byte <= byte {
            Some(c)
        } else {
            None
        },
        None => None,
    }
}

/// The smallest node at or below node `id` that covers `byte`.
pub open spec fn deepest_at(nodes: Seq<NodeModel>, id: int, byte: int) -> int
    decreases nodes.len() - id,
{
    match covering_child(nodes, id, byte) {
        Some(c) => if id < c < nodes.len() {
            deepest_at(nodes, c, byte)
        } else {
            id
        },
        None => id,
    }
}

/// The child of node `id` into which a search for `byte` descends.
fn covering_child_of(tree: &SyntaxTree, id: usize, byte: usize) -> (r: Option<usize>)
    requires
        id < tree@.len(),
    ensures
        match r {
            Some(c) => covering_child(tree@, id as int, byte as int) == Some(c as int) && id < c
                < tree@.len(),
            None => covering_child(tree@, id as int, byte as int) is None,
        },
{
    let ghost f = reaching(tree@, byte as int);
    let ghost items = tree@[id as int].children;
    let n = tree.child_count(id);
    let mut k: usize = 0;
    proof {
        lemma_first_some_end(items, f);
    }
    while k < n
        invariant
            k <= n,
            n == items.len(),
            id < tree@.len(),
            items == tree@[id as int].children,
            f == reaching(tree@, byte as int),
            first_some(items, f) == first_some(items.skip(k as int), f),
        decreases n - k,
    {
        let c = tree.child(id, k);
        proof {
            lemma_first_some_step(items, f, k as int);
        }
        let start = tree.start_byte(c);
        let end = tree.end_byte(c);
        let hit = if start == end {
            end >= byte
        } else {
            end > byte
        };
        if hit {
            if start <= byte {
                return Some(c);
            } else {
                return None;
            }
        }
        k += 1;
    }
    proof {
        lemma_first_some_end(items, f);
    }
    None
}

/// The smallest node at or below node `id` that covers `byte`.
pub fn descendant_for_byte(tree: &SyntaxTree, id: usize, byte: usize) -> (r: usize)
    requires
        id < tree@.len(),
    ensures
        r == deepest_at(tree@, id as int, byte as int),
        id <= r < tree@.len(),
{
    let mut cur = id;
    loop
        invariant
            id <= cur < tree@.len(),
            deepest_at(tree@, id as int, byte as int) == deepest_at(tree@, cur as int, byte as int),
        decreases tree@.len() - cur,
    {
        match covering_child_of(tree, cur, byte) {
            Some(c) => {
                cur = c;
            },
            None => {
                return cur;
            },
        }
    }
}

/// The char index that a position stands for, where its line exists and the
/// column does not run past the end of the text.
pub open spec fn char_index_at(text: Seq<char>, position: Position) -> Option<int> {
    if position.line < line_count(text) && line_start(text, position.line as int)
        + position.character <= text.len() {
        Some(line_start(text, position.line as int) + position.character)
    } else {
        None
    }
}

/// The byte offset that a position stands for.
pub open spec fn byte_at(text: Seq<char>, position: Position) -> Option<int> {
    match char_index_at(text, position) {
        Some(i) => Some(byte_offset(text, i)),
        None => None,
    }
}

/// The char index of a position.
pub fn char_index_for_position(rope: &Rope, position: Position) -> (r: Option<usize>)
    ensures
        match r {
            Some(i) => char_index_at(rope_text(*rope), position) == Some(i as int),
            None => char_index_at(rope_text(*rope), position) is None,
        },
{
    let line = position.line as usize;
    if line >= rope_len_lines(rope) {
        return None;
    }
    let start = rope_line_to_char(rope, line);
    let len = rope_len_chars(rope);
    let column = position.character as usize;
    if column > len - start {
        return None;
    }
    Some(start + column)
}

/// The byte offset of a position.
pub fn offset_for_position(rope: &Rope, position: Position) -> (r: Option<usize>)
    ensures
        match r {
            Some(b) => byte_at(rope_text(*rope), position) == Some(b as int),
            None => byte_at(rope_text(*rope), position) is None,
        },
{
    match char_index_for_position(rope, position) {
        Some(i) => Some(rope_char_to_byte(rope, i)),
        None => None,
    }
}

/// Whether a node of this kind names something that can be looked up.
pub open spec fn is_name_kind(kind: NodeKind) -> bool {
    kind == NodeKind::Identifier || kind == NodeKind::TypeIdentifier || kind
        == NodeKind::FieldIdentifier
}

/// The name node under a position: the smallest node that covers the
/// position, if it is an identifier of some kind.
pub open spec fn name_node_at(nodes: Seq<NodeModel>, text: Seq<char>, position: Position) -> Option<
    int,
> {
    match byte_at(text, position) {
        Some(b) => if nodes.len() > 0 && is_name_kind(nodes[deepest_at(nodes, 0, b)].kind) {
            Some(deepest_at(nodes, 0, b))
        } else {
            None
        },
        None => None,
    }
}

/// The identifier under a position, with its text.
pub fn get_node_at_pos(tree: &SyntaxTree, rope: &Rope, position: Position) -> (r: Option<
    (usize, String),
>)
    ensures
        match r {
            Some((id, name)) => {
                &&& name_node_at(tree@, rope_text(*rope), position) == Some(id as int)
                &&& id < tree@.len()
                &&& name@ == node_text(tree@, rope_text(*rope), id as int)
            },
            None => name_node_at(tree@, rope_text(*rope), position) is None,
        },
{
    let byte = match offset_for_position(rope, position) {
        Some(b) => b,
        None => {
            return None;
        },
    };
    if tree.len() == 0 {
        return None;
    }
    let id = descendant_for_byte(tree, 0, byte);
    let kind = tree.kind(id);
    if kind == NodeKind::Identifier || kind == NodeKind::TypeIdentifier || kind
        == NodeKind::FieldIdentifier {
        Some((id, get_node_text(tree, id, rope)))
    } else {
        None
    }
}

/// The kind of the parent of node `id`, if it has one.
pub open spec fn parent_kind(nodes: Seq<NodeModel>, id: int) -> Option<NodeKind> {
    match nodes[id].parent {
        Some(p) => if 0 <= p < nodes.len() {
            Some(nodes[p].kind)
        } else {
            None
        },
        None => None,
    }
}

/// Whether node `c` declares a parameter, plain or variadic.
pub open spec fn is_param(nodes: Seq<NodeModel>, c: int) -> bool {
    nodes[c].kind == NodeKind::FormalParameter || nodes[c].kind == NodeKind::SpreadParameter
}

/// The parameter declarations among `children`, in order.
pub open spec fn params_in(nodes: Seq<NodeModel>, children: Seq<int>) -> Seq<int> {
    children.filter(|c: int| is_param(nodes, c))
}

/// The parameter declarations of the method or constructor `method`.
pub open spec fn method_params(nodes: Seq<NodeModel>, method: int) -> Seq<int> {
    match child_with_field(nodes, method, FieldName::Parameters) {
        Some(p) => params_in(nodes, nodes[p].children),
        None => Seq::empty(),
    }
}

/// The parameter declarations of the method or constructor `method`.
pub fn param_nodes(tree: &SyntaxTree, method: usize) -> (r: Vec<usize>)
    requires
        method < tree@.len(),
    ensures
        r@.map_values(|c: usize| c as int) == method_params(tree@, method as int),
        forall|j: int| 0 <= j < r.len() ==> method < #[trigger] r[j] < tree@.len(),
{
    let list = match child_by_field(tree, method, FieldName::Parameters) {
        Some(p) => p,
        None => {
            let r: Vec<usize> = Vec::new();
            assert(r@.map_values(|c: usize| c as int) =~= Seq::<int>::empty());
            return r;
        },
    };
    let ghost pred = |c: int| is_param(tree@, c);
    let ghost items = tree@[list as int].children;
    let n = tree.child_count(list);
    let mut out: Vec<usize> = Vec::new();
    let mut k: usize = 0;
    assert(items.take(0) =~= Seq::<int>::empty());
    assert(out@.map_values(|c: usize| c as int) =~= Seq::<int>::empty());
    while k < n
        invariant
            k <= n,
            n == items.len(),
            method < list < tree@.len(),
            items == tree@[list as int].children,
            pred == |c: int| is_param(tree@, c),
            out@.map_values(|c: usize| c as int) == items.take(k as int).filter(pred),
            forall|j: int| 0 <= j < out.len() ==> method < #[trigger] out[j] < tree@.len(),
        decreases n - k,
    {
        let c = tree.child(list, k);
        let ghost before = out@.map_values(|c: usize| c as int);
        proof {
            reveal(Seq::filter);
            assert(items.take(k + 1).drop_last() =~= items.take(k as int));
        }
        let kind = tree.kind(c);
        if kind == NodeKind::FormalParameter || kind == NodeKind::SpreadParameter {
            out.push(c);
            assert(out@.map_values(|c: usize| c as int) =~= before.push(c as int));
        }
        k += 1;
    }
    assert(items.take(n as int) =~= items);
    out
}

/// Picks the named nodes that are not modifiers.
pub open spec fn type_like(nodes: Seq<NodeModel>) -> spec_fn(int) -> Option<int> {
    |c: int|
        if nodes[c].named && nodes[c].kind != NodeKind::Modifiers {
            Some(c)
        } else {
            None
        }
}

/// Picks the nodes of kind `kind`.
pub open spec fn of_kind(nodes: Seq<NodeModel>, kind: NodeKind) -> spec_fn(int) -> Option<int> {
    |c: int|
        if nodes[c].kind == kind {
            Some(c)
        } else {
            None
        }
}

/// The first child of node `id` that has the kind `kind`.
pub open spec fn child_of_kind(nodes: Seq<NodeModel>, id: int, kind: NodeKind) -> Option<int> {
    first_some(nodes[id].children, of_kind(nodes, kind))
}

/// The first child of node `id` that has the kind `kind`.
pub fn first_child_of_kind(tree: &SyntaxTree, id: usize, kind: NodeKind) -> (r: Option<usize>)
    requires
        id < tree@.len(),
    ensures
        match r {
            Some(c) => child_of_kind(tree@, id as int, kind) == Some(c as int) && id < c
                < tree@.len(),
            None => child_of_kind(tree@, id as int, kind) is None,
        },
{
    let ghost f = of_kind(tree@, kind);
    let ghost items = tree@[id as int].children;
    let n = tree.child_count(id);
    let mut k: usize = 0;
    proof {
        lemma_first_some_end(items, f);
    }
    while k < n
        invariant
            k <= n,
            n == items.len(),
            id < tree@.len(),
            items == tree@[id as int].children,
            f == of_kind(tree@, kind),
            first_some(items, f) == first_some(items.skip(k as int), f),
        decreases n - k,
    {
        let c = tree.child(id, k);
        proof {
            lemma_first_some_step(items, f, k as int);
        }
        if tree.kind(c) == kind {
            return Some(c);
        }
        k += 1;
    }
    proof {
        lemma_first_some_end(items, f);
    }
    None
}

/// The node that spells the type of the parameter `param`: its `type`
/// field, or for a variadic parameter, which has no fields, its first named
/// child after the modifiers.
pub open spec fn param_type_node(nodes: Seq<NodeModel>, param: int) -> Option<int> {
    if nodes[param].kind == NodeKind::SpreadParameter {
        first_some(nodes[param].children, type_like(nodes))
    } else {
        child_with_field(nodes, param, FieldName::Type)
    }
}

/// The node that spells the type of the parameter `param`.
pub fn param_type_of(tree: &SyntaxTree, param: usize) -> (r: Option<usize>)
    requires
        param < tree@.len(),
    ensures
        match r {
            Some(c) => param_type_node(tree@, param as int) == Some(c as int) && param < c
                < tree@.len(),
            None => param_type_node(tree@, param as int) is None,
        },
{
    if tree.kind(param) != NodeKind::SpreadParameter {
        return child_by_field(tree, param, FieldName::Type);
    }
    let ghost f = type_like(tree@);
    let ghost items = tree@[param as int].children;
    let n = tree.child_count(param);
    let mut k: usize = 0;
    proof {
        lemma_first_some_end(items, f);
    }
    while k < n
        invariant
            k <= n,
            n == items.len(),
            param < tree@.len(),
            tree@[param as int].kind == NodeKind::SpreadParameter,
            items == tree@[param as int].children,
            f == type_like(tree@),
            first_some(items, f) == first_some(items.skip(k as int), f),
        decreases n - k,
    {
        let c = tree.child(param, k);
        proof {
            lemma_first_some_step(items, f, k as int);
        }
        if tree.is_named(c) && tree.kind(c) != NodeKind::Modifiers {
            return Some(c);
        }
        k += 1;
    }
    proof {
        lemma_first_some_end(items, f);
    }
    None
}

/// The node that names the parameter `param`: its `name` field, or for a
/// variadic parameter the name of the declarator it holds.
pub open spec fn param_name_node(nodes: Seq<NodeModel>, param: int) -> Option<int> {
    if nodes[param].kind == NodeKind::SpreadParameter {
        match child_of_kind(nodes, param, NodeKind::VariableDeclarator) {
            Some(d) => if param < d < nodes.len() {
                child_with_field(nodes, d, FieldName::Name)
            } else {
                None
            },
            None => None,
        }
    } else {
        child_with_field(nodes, param, FieldName::Name)
    }
}

/// The node that names the parameter `param`.
pub fn param_name_of(tree: &SyntaxTree, param: usize) -> (r: Option<usize>)
    requires
        param < tree@.len(),
    ensures
        match r {
            Some(c) => param_name_node(tree@, param as int) == Some(c as int) && param < c
                < tree@.len(),
            None => param_name_node(tree@, param as int) is None,
        },
{
    if tree.kind(param) == NodeKind::SpreadParameter {
        match first_child_of_kind(tree, param, NodeKind::VariableDeclarator) {
            Some(d) => child_by_field(tree, d, FieldName::Name),
            None => None,
        }
    } else {
        child_by_field(tree, param, FieldName::Name)
    }
}

/// Whether node `id` or one of the nodes around it has the kind `kind`.
pub open spec fn within_kind(nodes: Seq<NodeModel>, id: int, kind: NodeKind) -> bool
    decreases id,
{
    nodes[id].kind == kind || (match nodes[id].parent {
        Some(p) => 0 <= p < id && within_kind(nodes, p, kind),
        None => false,
    })
}

/// Whether `node` or one of the nodes around it has the kind `kind`.
pub fn has_ancestor_kind(tree: &SyntaxTree, node: usize, kind: NodeKind) -> (r: bool)
    requires
        node < tree@.len(),
    ensures
        r == within_kind(tree@, node as int, kind),
{
    let mut curr = node;
    loop
        invariant
            curr < tree@.len(),
            within_kind(tree@, node as int, kind) == within_kind(tree@, curr as int, kind),
        decreases curr,
    {
        if tree.kind(curr) == kind {
            return true;
        }
        match tree.parent(curr) {
            Some(p) => {
                curr = p;
            },
            None => {
                return false;
            },
        }
    }
}

} // verus!
