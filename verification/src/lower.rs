//! From a parse tree to its mirror. The parse tree is tree-sitter's; it is
//! walked with a cursor, and what the cursor reports is taken as it comes.

use vstd::prelude::*;
use tree_sitter::{Tree, TreeCursor};
use crate::state::{Position, Range};
use crate::syntax::{node_wf, tree_wf, FieldName, NodeKind, NodeModel, SyntaxNode, SyntaxTree};

verus! {

/// `tree_sitter::Tree`, opaque to the verifier.
#[verifier::external_type_specification]
#[verifier::external_body]
pub struct ExTree(Tree);

/// `tree_sitter::TreeCursor`, opaque to the verifier.
#[verifier::external_type_specification]
#[verifier::external_body]
pub struct ExTreeCursor<'a>(TreeCursor<'a>);

/// What a cursor reports of the node it stands on.
pub struct NodeFacts<'a> {
    pub kind: &'a str,
    pub named: bool,
    pub field: Option<&'a str>,
    pub start_byte: usize,
    pub end_byte: usize,
    pub start_row: usize,
    pub start_column: usize,
    pub end_row: usize,
    pub end_column: usize,
}

/// `Tree::walk`: a cursor on the root of the tree.
#[verifier::external_body]
fn tree_walk<'a>(tree: &'a Tree) -> TreeCursor<'a> {
    tree.walk()
}

/// The accessors of `Node` and `TreeCursor::field_name`, read off the node
/// under the cursor. Nothing is claimed of what they report.
#[verifier::external_body]
fn cursor_facts<'a>(cursor: &TreeCursor<'a>) -> NodeFacts<'a> {
    let node = cursor.node();
    let start = node.start_position();
    let end = node.end_position();
    NodeFacts {
        kind: node.kind(),
        named: node.is_named(),
        field: cursor.field_name(),
        start_byte: node.start_byte(),
        end_byte: node.end_byte(),
        start_row: start.row,
        start_column: start.column,
        end_row: end.row,
        end_column: end.column,
    }
}

/// `TreeCursor::goto_first_child`: whether the cursor moved.
#[verifier::external_body]
fn cursor_goto_first_child(cursor: &mut TreeCursor<'_>) -> bool {
    cursor.goto_first_child()
}

/// `TreeCursor::goto_next_sibling`: whether the cursor moved.
#[verifier::external_body]
fn cursor_goto_next_sibling(cursor: &mut TreeCursor<'_>) -> bool {
    cursor.goto_next_sibling()
}

/// `TreeCursor::goto_parent`: whether the cursor moved.
#[verifier::external_body]
fn cursor_goto_parent(cursor: &mut TreeCursor<'_>) -> bool {
    cursor.goto_parent()
}

/// The node that the facts describe, not yet placed: `None` where an extent
/// runs backwards or a line or column does not fit 32 bits.
pub fn node_of_facts(facts: &NodeFacts<'_>, parent: Option<usize>) -> (r: Option<SyntaxNode>)
    ensures
        match r {
            Some(n) => {
                &&& facts.start_byte <= facts.end_byte
                &&& facts.start_row <= u32::MAX && facts.start_column <= u32::MAX
                &&& facts.end_row <= u32::MAX && facts.end_column <= u32::MAX
                &&& n.kind == crate::syntax::kind_named(facts.kind@)
                &&& n.named == facts.named
                &&& n.field == match facts.field {
                    Some(f) => Some(crate::syntax::field_named(f@)),
                    None => None,
                }
                &&& n.start_byte == facts.start_byte && n.end_byte == facts.end_byte
                &&& n.range.start.line == facts.start_row && n.range.start.character
                    == facts.start_column
                &&& n.range.end.line == facts.end_row && n.range.end.character == facts.end_column
                &&& n.parent == parent
                &&& n.children@.len() == 0
            },
            None => facts.start_byte > facts.end_byte || facts.start_row > u32::MAX
                || facts.start_column > u32::MAX || facts.end_row > u32::MAX || facts.end_column
                > u32::MAX,
        },
{
    let limit: usize = 0xFFFF_FFFF;
    if facts.start_byte > facts.end_byte || facts.start_row > limit || facts.start_column > limit
        || facts.end_row > limit || facts.end_column > limit {
        return None;
    }
    let field = match facts.field {
        Some(f) => Some(FieldName::from_name(f)),
        None => None,
    };
    Some(
        SyntaxNode {
            kind: NodeKind::from_name(facts.kind),
            named: facts.named,
            field,
            start_byte: facts.start_byte,
            end_byte: facts.end_byte,
            range: Range {
                start: Position {
                    line: facts.start_row as u32,
                    character: facts.start_column as u32,
                },
                end: Position { line: facts.end_row as u32, character: facts.end_column as u32 },
            },
            parent,
            children: Vec::new(),
        },
    )
}

/// The nodes once `node` is placed after them: it is the last node, and
/// its parent, where it has one, holds it as its last child.
pub open spec fn placed(nodes: Seq<NodeModel>, node: NodeModel) -> Seq<NodeModel> {
    match node.parent {
        Some(p) => nodes.update(
            p,
            NodeModel {
                kind: nodes[p].kind,
                named: nodes[p].named,
                field: nodes[p].field,
                start_byte: nodes[p].start_byte,
                end_byte: nodes[p].end_byte,
                range: nodes[p].range,
                parent: nodes[p].parent,
                children: nodes[p].children.push(nodes.len() as int),
            },
        ).push(node),
        None => nodes.push(node),
    }
}

/// Places `node` after the nodes laid out so far and enters it among the
/// children of its parent. A mirror stays a mirror.
pub fn attach(nodes: &mut Vec<SyntaxNode>, node: SyntaxNode)
    requires
        tree_wf(old(nodes).deep_view()),
        node.start_byte <= node.end_byte,
        node.children@.len() == 0,
        match node.parent {
            Some(p) => p < old(nodes).len(),
            None => true,
        },
    ensures
        final(nodes).deep_view() == placed(old(nodes).deep_view(), node.deep_view()),
        tree_wf(final(nodes).deep_view()),
        final(nodes).len() == old(nodes).len() + 1,
{
    let ghost before = nodes.deep_view();
    let id = nodes.len();
    let parent = node.parent;
    nodes.push(node);
    match parent {
        Some(p) => {
            nodes[p].children.push(id);
        },
        None => {},
    }
    proof {
        let after = nodes.deep_view();
        let expected = placed(before, node.deep_view());
        assert(after.len() == expected.len());
        assert forall|i: int| 0 <= i < after.len() implies after[i] == expected[i] by {
            if i < id {
                if parent == Some(i as usize) {
                    assert(after[i].children =~= before[i].children.push(id as int));
                } else {
                    assert(after[i].children =~= before[i].children);
                }
            } else {
                assert(after[i].children =~= node.deep_view().children);
            }
        }
        assert(after =~= expected);
        assert forall|i: int| 0 <= i < after.len() implies node_wf(after, i) by {
            if i < id {
                assert(node_wf(before, i));
                assert(after[i].parent == before[i].parent);
                assert(after[i].start_byte == before[i].start_byte);
                assert(after[i].end_byte == before[i].end_byte);
                if parent == Some(i as usize) {
                    assert(after[i].children =~= before[i].children.push(id as int));
                    assert forall|k: int| 0 <= k < after[i].children.len() implies {
                        &&& i < #[trigger] after[i].children[k] < after.len()
                        &&& after[after[i].children[k]].parent == Some(i)
                    } by {
                        if k < before[i].children.len() {
                            assert(after[i].children[k] == before[i].children[k]);
                            let c = before[i].children[k];
                            assert(after[c].parent == before[c].parent);
                        }
                    }
                } else {
                    assert(after[i].children =~= before[i].children);
                    assert forall|k: int| 0 <= k < after[i].children.len() implies {
                        &&& i < #[trigger] after[i].children[k] < after.len()
                        &&& after[after[i].children[k]].parent == Some(i)
                    } by {
                        let c = before[i].children[k];
                        assert(after[c].parent == before[c].parent);
                    }
                }
            } else {
                assert(after[i].children.len() == 0);
            }
        }
    }
}

/// The mirror of a parse tree: its nodes in document order. `None` where a
/// node's extent runs backwards, a line or column does not fit 32 bits, or
/// the tree has more nodes than can be counted.
pub fn lower(tree: &Tree) -> (r: Option<SyntaxTree>)
    ensures
        match r {
            Some(t) => tree_wf(t@) && t@.len() > 0,
            None => true,
        },
{
    match record_walk(tree) {
        Some(steps) => mirror_of_steps(&steps),
        None => None,
    }
}

/// What a walk needs of a node to place it: its kind and its extent.
#[derive(Debug, Clone, Copy)]
pub struct NodeShape {
    pub kind: NodeKind,
    pub named: bool,
    pub field: Option<FieldName>,
    pub start_byte: usize,
    pub end_byte: usize,
    pub range: Range,
}

/// One step of a walk over a tree in document order: onto a node, which
/// then lies under the nodes entered and not yet left, or off the node
/// entered last.
#[derive(Debug, Clone, Copy)]
pub enum WalkStep {
    Enter(NodeShape),
    Leave,
}

/// The shape that the facts describe: none where an extent runs backwards
/// or a line or column does not fit 32 bits.
pub fn shape_of_facts(facts: &NodeFacts<'_>) -> (r: Option<NodeShape>)
    ensures
        match r {
            Some(s) => {
                &&& facts.start_byte <= facts.end_byte
                &&& facts.start_row <= u32::MAX && facts.start_column <= u32::MAX
                &&& facts.end_row <= u32::MAX && facts.end_column <= u32::MAX
                &&& s.kind == crate::syntax::kind_named(facts.kind@)
                &&& s.named == facts.named
                &&& s.field == match facts.field {
                    Some(f) => Some(crate::syntax::field_named(f@)),
                    None => None,
                }
                &&& s.start_byte == facts.start_byte && s.end_byte == facts.end_byte
                &&& s.range.start.line == facts.start_row && s.range.start.character
                    == facts.start_column
                &&& s.range.end.line == facts.end_row && s.range.end.character == facts.end_column
            },
            None => facts.start_byte > facts.end_byte || facts.start_row > u32::MAX
                || facts.start_column > u32::MAX || facts.end_row > u32::MAX || facts.end_column
                > u32::MAX,
        },
{
    match node_of_facts(facts, None) {
        Some(n) => Some(
            NodeShape {
                kind: n.kind,
                named: n.named,
                field: n.field,
                start_byte: n.start_byte,
                end_byte: n.end_byte,
                range: n.range,
            },
        ),
        None => None,
    }
}

/// The steps of the walk over `tree` in document order, as its cursor
/// takes them. None where a node has no shape or the steps cannot be
/// counted. A walk that is recorded starts on a node.
pub fn record_walk(tree: &Tree) -> (r: Option<Vec<WalkStep>>)
    ensures
        match r {
            Some(steps) => steps.len() > 0 && steps[0] is Enter,
            None => true,
        },
{
    let mut cursor = tree_walk(tree);
    let mut steps: Vec<WalkStep> = Vec::new();
    let mut open: usize = 0;
    let mut more = true;
    while more
        invariant
            open <= steps.len(),
            steps.len() > 0 ==> steps[0] is Enter,
            !more ==> steps.len() > 0,
        decreases usize::MAX - steps.len(),
    {
        if steps.len() == usize::MAX {
            return None;
        }
        let facts = cursor_facts(&cursor);
        let shape = match shape_of_facts(&facts) {
            Some(s) => s,
            None => {
                return None;
            },
        };
        steps.push(WalkStep::Enter(shape));
        open = open + 1;
        let ghost entered = steps.len();
        if !cursor_goto_first_child(&mut cursor) {
            let mut climbing = true;
            while climbing
                invariant
                    open <= steps.len(),
                    climbing ==> open > 0,
                    steps.len() >= entered > 0,
                    steps[0] is Enter,
                decreases
                    open + (if climbing {
                        1int
                    } else {
                        0int
                    }),
            {
                if steps.len() == usize::MAX {
                    return None;
                }
                steps.push(WalkStep::Leave);
                open = open - 1;
                if cursor_goto_next_sibling(&mut cursor) {
                    climbing = false;
                } else if open == 0 || !cursor_goto_parent(&mut cursor) {
                    more = false;
                    climbing = false;
                }
            }
        }
    }
    Some(steps)
}

/// A mirror under construction: the nodes laid out so far, and the nodes
/// entered and not yet left, outermost first.
pub struct Build {
    pub nodes: Seq<NodeModel>,
    pub path: Seq<int>,
}

/// The node of the shape `shape` under `parent`, not yet with children.
pub open spec fn shaped(shape: NodeShape, parent: Option<int>) -> NodeModel {
    NodeModel {
        kind: shape.kind,
        named: shape.named,
        field: shape.field,
        start_byte: shape.start_byte as int,
        end_byte: shape.end_byte as int,
        range: shape.range,
        parent,
        children: Seq::empty(),
    }
}

/// The construction after one more step. Entering places a node as the
/// last child of the node entered last, or as a root where none is
/// entered; it fails where the node's extent runs backwards. Leaving takes
/// the node entered last off the path.
pub open spec fn stepped(b: Build, step: WalkStep) -> Option<Build> {
    match step {
        WalkStep::Enter(shape) => if shape.start_byte <= shape.end_byte {
            Some(
                Build {
                    nodes: placed(
                        b.nodes,
                        shaped(
                            shape,
                            if b.path.len() > 0 {
                                Some(b.path.last())
                            } else {
                                None
                            },
                        ),
                    ),
                    path: b.path.push(b.nodes.len() as int),
                },
            )
        } else {
            None
        },
        WalkStep::Leave => Some(
            Build {
                nodes: b.nodes,
                path: if b.path.len() > 0 {
                    b.path.drop_last()
                } else {
                    b.path
                },
            },
        ),
    }
}

/// The construction after the first `n` steps.
pub open spec fn walked(steps: Seq<WalkStep>, n: int) -> Option<Build>
    decreases n,
{
    if n <= 0 {
        Some(Build { nodes: Seq::empty(), path: Seq::empty() })
    } else {
        match walked(steps, n - 1) {
            Some(b) => stepped(b, steps[n - 1]),
            None => None,
        }
    }
}

/// The nodes that the steps build; none where a step fails.
pub open spec fn built(steps: Seq<WalkStep>) -> Option<Seq<NodeModel>> {
    match walked(steps, steps.len() as int) {
        Some(b) => Some(b.nodes),
        None => None,
    }
}

/// Once a step has failed, the walk has failed.
pub proof fn lemma_walk_fails(steps: Seq<WalkStep>, k: int, n: int)
    requires
        0 <= k <= n,
        walked(steps, k) is None,
    ensures
        walked(steps, n) is None,
    decreases n,
{
    if n > k {
        lemma_walk_fails(steps, k, n - 1);
    }
}

/// The mirror that the steps of a walk build: each node entered lies under
/// the node entered last before it and not yet left. None where a node's
/// extent runs backwards. Steps that start on a node build a mirror with a
/// root.
pub fn mirror_of_steps(steps: &Vec<WalkStep>) -> (r: Option<SyntaxTree>)
    ensures
        match r {
            Some(t) => built(steps@) == Some(t@) && tree_wf(t@),
            None => built(steps@) is None,
        },
        r is Some && steps.len() > 0 && steps[0] is Enter ==> r->0@.len() > 0,
{
    let mut nodes: Vec<SyntaxNode> = Vec::new();
    let mut path: Vec<usize> = Vec::new();
    let mut i: usize = 0;
    proof {
        assert(nodes.deep_view() =~= Seq::<NodeModel>::empty());
        assert(path@.map_values(|p: usize| p as int) =~= Seq::<int>::empty());
    }
    while i < steps.len()
        invariant
            i <= steps.len(),
            tree_wf(nodes.deep_view()),
            forall|k: int| 0 <= k < path.len() ==> path[k] < nodes.len(),
            walked(steps@, i as int) == Some(
                Build { nodes: nodes.deep_view(), path: path@.map_values(|p: usize| p as int) },
            ),
            i > 0 && steps[0] is Enter ==> nodes.len() > 0,
        decreases steps.len() - i,
    {
        let ghost before = Build {
            nodes: nodes.deep_view(),
            path: path@.map_values(|p: usize| p as int),
        };
        match steps[i] {
            WalkStep::Enter(shape) => {
                if shape.start_byte > shape.end_byte {
                    proof {
                        assert(stepped(before, steps@[i as int]) is None);
                        lemma_walk_fails(steps@, i + 1, steps.len() as int);
                    }
                    return None;
                }
                let parent = if path.len() > 0 {
                    Some(path[path.len() - 1])
                } else {
                    None
                };
                let node = SyntaxNode {
                    kind: shape.kind,
                    named: shape.named,
                    field: shape.field,
                    start_byte: shape.start_byte,
                    end_byte: shape.end_byte,
                    range: shape.range,
                    parent,
                    children: Vec::new(),
                };
                let id = nodes.len();
                proof {
                    let model_parent = if before.path.len() > 0 {
                        Some(before.path.last())
                    } else {
                        None
                    };
                    assert(node.deep_view().children =~= Seq::<int>::empty());
                    assert(node.deep_view() == shaped(shape, model_parent));
                }
                attach(&mut nodes, node);
                path.push(id);
                proof {
                    assert(path@.map_values(|p: usize| p as int) =~= before.path.push(id as int));
                }
            },
            WalkStep::Leave => {
                if path.len() > 0 {
                    path.pop();
                    proof {
                        assert(path@.map_values(|p: usize| p as int) =~= before.path.drop_last());
                    }
                }
            },
        }
        i += 1;
    }
    Some(SyntaxTree::assemble(nodes))
}

} // verus!
