//! The outline of a document: its classes, their members, and the types
//! nested in them.

use vstd::prelude::*;
use ropey::Rope;
use crate::rope::rope_text;
use crate::state::Range;
use crate::syntax::{node_range, FieldName, NodeKind, NodeModel, SyntaxTree};
use crate::utils::{child_by_field, child_with_field, get_node_text, node_text};

verus! {

/// What kind of thing a symbol of the outline is.
#[derive(Debug, Clone, Copy, PartialEq, Eq, Structural)]
pub enum SymbolKind {
    Class,
    Interface,
    Method,
    Constructor,
    Enum,
    Field,
}

/// One symbol of the outline, with the symbols nested in it.
#[derive(Debug, PartialEq, Eq)]
pub struct DocumentSymbol {
    pub name: String,
    pub detail: Option<String>,
    pub kind: SymbolKind,
    pub range: Range,
    pub selection_range: Range,
    pub children: Option<Vec<DocumentSymbol>>,
}

/// Model of a [`DocumentSymbol`].
pub struct SymbolModel {
    pub name: Seq<char>,
    pub detail: Option<Seq<char>>,
    pub kind: SymbolKind,
    pub range: Range,
    pub selection_range: Range,
    pub children: Option<Seq<SymbolModel>>,
}

/// What a symbol says.
pub open spec fn symbol_model(s: DocumentSymbol) -> SymbolModel
    decreases s,
{
    SymbolModel {
        name: s.name@,
        detail: s.detail.deep_view(),
        kind: s.kind,
        range: s.range,
        selection_range: s.selection_range,
        children: match s.children {
            Some(v) => Some(symbols_model(v@)),
            None => None,
        },
    }
}

/// What a list of symbols says.
pub open spec fn symbols_model(v: Seq<DocumentSymbol>) -> Seq<SymbolModel>
    decreases v,
{
    if v.len() == 0 {
        Seq::empty()
    } else {
        symbols_model(v.drop_last()).push(symbol_model(v.last()))
    }
}

/// The model of a list with one more symbol.
pub proof fn lemma_symbols_push(v: Seq<DocumentSymbol>, s: DocumentSymbol)
    ensures
        symbols_model(v.push(s)) == symbols_model(v).push(symbol_model(s)),
{
    assert(v.push(s).drop_last() =~= v);
}

/// The model of two lists joined.
pub proof fn lemma_symbols_concat(a: Seq<DocumentSymbol>, b: Seq<DocumentSymbol>)
    ensures
        symbols_model(a + b) == symbols_model(a) + symbols_model(b),
    decreases b.len(),
{
    if b.len() == 0 {
        assert(a + b =~= a);
        assert(symbols_model(a) + symbols_model(b) =~= symbols_model(a));
    } else {
        assert((a + b).drop_last() =~= a + b.drop_last());
        assert((a + b).last() == b.last());
        lemma_symbols_concat(a, b.drop_last());
        assert(symbols_model(a + b) =~= symbols_model(a) + symbols_model(b));
    }
}

/// The kind of symbol that a node of the kind `kind` makes, if it makes one
/// by itself.
pub open spec fn symbol_kind_of(kind: NodeKind) -> Option<SymbolKind> {
    match kind {
        NodeKind::ClassDeclaration => Some(SymbolKind::Class),
        NodeKind::InterfaceDeclaration => Some(SymbolKind::Interface),
        NodeKind::MethodDeclaration => Some(SymbolKind::Method),
        NodeKind::ConstructorDeclaration => Some(SymbolKind::Constructor),
        NodeKind::EnumDeclaration => Some(SymbolKind::Enum),
        _ => None,
    }
}

/// Whether symbols of this kind carry the symbols declared in them.
pub open spec fn holds_members(kind: SymbolKind) -> bool {
    kind == SymbolKind::Class || kind == SymbolKind::Interface || kind == SymbolKind::Enum
}

/// Whether a node of this kind passes the symbols of its children on to the
/// list around it.
pub open spec fn is_transparent(kind: NodeKind) -> bool {
    kind == NodeKind::ClassBody || kind == NodeKind::Program || kind == NodeKind::EnumBody
}

/// The node that names node `c`: its `name` field, or the node itself.
pub open spec fn name_or_self(nodes: Seq<NodeModel>, c: int) -> int {
    match child_with_field(nodes, c, FieldName::Name) {
        Some(n) => n,
        None => c,
    }
}

/// The text of the `type` field of node `c`, if it has one.
pub open spec fn type_text(nodes: Seq<NodeModel>, text: Seq<char>, c: int) -> Option<Seq<char>> {
    match child_with_field(nodes, c, FieldName::Type) {
        Some(t) => Some(node_text(nodes, text, t)),
        None => None,
    }
}

/// The field symbols of the first `k` children of the field declaration
/// `decl`: one per declarator, with the declared type as detail.
pub open spec fn field_symbols(nodes: Seq<NodeModel>, text: Seq<char>, decl: int, k: int) -> Seq<
    SymbolModel,
>
    decreases k,
{
    if k <= 0 {
        Seq::empty()
    } else {
        let d = nodes[decl].children[k - 1];
        let rest = field_symbols(nodes, text, decl, k - 1);
        if nodes[d].kind == NodeKind::VariableDeclarator {
            rest.push(
                SymbolModel {
                    name: node_text(nodes, text, name_or_self(nodes, d)),
                    detail: Some(
                        match type_text(nodes, text, decl) {
                            Some(t) => t,
                            None => Seq::empty(),
                        },
                    ),
                    kind: SymbolKind::Field,
                    range: nodes[d].range,
                    selection_range: nodes[name_or_self(nodes, d)].range,
                    children: None,
                },
            )
        } else {
            rest
        }
    }
}

/// The symbols of the first `k` children of node `id`, in order: a class,
/// interface or enum with the symbols of its own children nested in it; a
/// method with its return type as detail; a constructor; the fields of a
/// field declaration; and, flattened into the list, the symbols of a class
/// body, enum body or program.
pub open spec fn outline(nodes: Seq<NodeModel>, text: Seq<char>, id: int, k: int) -> Seq<
    SymbolModel,
>
    decreases nodes.len() - id, k,
{
    if k <= 0 {
        Seq::empty()
    } else {
        let c = nodes[id].children[k - 1];
        let rest = outline(nodes, text, id, k - 1);
        if !(id < c < nodes.len()) {
            rest
        } else if nodes[c].kind == NodeKind::FieldDeclaration {
            rest + field_symbols(nodes, text, c, nodes[c].children.len() as int)
        } else {
            match symbol_kind_of(nodes[c].kind) {
                Some(kind) => rest.push(
                    SymbolModel {
                        name: node_text(nodes, text, name_or_self(nodes, c)),
                        detail: if kind == SymbolKind::Method {
                            type_text(nodes, text, c)
                        } else {
                            None
                        },
                        kind,
                        range: nodes[c].range,
                        selection_range: nodes[name_or_self(nodes, c)].range,
                        children: if holds_members(kind) && outline(
                            nodes,
                            text,
                            c,
                            nodes[c].children.len() as int,
                        ).len() > 0 {
                            Some(outline(nodes, text, c, nodes[c].children.len() as int))
                        } else {
                            None
                        },
                    },
                ),
                None => if is_transparent(nodes[c].kind) {
                    rest + outline(nodes, text, c, nodes[c].children.len() as int)
                } else {
                    rest
                },
            }
        }
    }
}

/// The outline of a whole document: the symbols under its root.
pub open spec fn document_outline(nodes: Seq<NodeModel>, text: Seq<char>) -> Seq<SymbolModel> {
    if nodes.len() > 0 {
        outline(nodes, text, 0, nodes[0].children.len() as int)
    } else {
        Seq::empty()
    }
}

/// The kind of symbol that a node of the kind `kind` makes.
fn symbol_kind_for(kind: NodeKind) -> (r: Option<SymbolKind>)
    ensures
        r == symbol_kind_of(kind),
{
    match kind {
        NodeKind::ClassDeclaration => Some(SymbolKind::Class),
        NodeKind::InterfaceDeclaration => Some(SymbolKind::Interface),
        NodeKind::MethodDeclaration => Some(SymbolKind::Method),
        NodeKind::ConstructorDeclaration => Some(SymbolKind::Constructor),
        NodeKind::EnumDeclaration => Some(SymbolKind::Enum),
        _ => None,
    }
}

/// The node that names node `c`.
fn name_node_of(tree: &SyntaxTree, c: usize) -> (r: usize)
    requires
        c < tree@.len(),
    ensures
        r == name_or_self(tree@, c as int),
        r < tree@.len(),
{
    match child_by_field(tree, c, FieldName::Name) {
        Some(n) => n,
        None => c,
    }
}

/// The text of the `type` field of node `c`.
fn type_text_of(tree: &SyntaxTree, rope: &Rope, c: usize) -> (r: Option<String>)
    requires
        c < tree@.len(),
    ensures
        r.deep_view() == type_text(tree@, rope_text(*rope), c as int),
{
    match child_by_field(tree, c, FieldName::Type) {
        Some(t) => Some(get_node_text(tree, t, rope)),
        None => None,
    }
}

/// Adds the field symbols of the field declaration `decl`.
fn push_field_symbols(tree: &SyntaxTree, rope: &Rope, decl: usize, symbols: &mut Vec<DocumentSymbol>)
    requires
        decl < tree@.len(),
    ensures
        symbols_model(final(symbols)@) == symbols_model(old(symbols)@) + field_symbols(
            tree@,
            rope_text(*rope),
            decl as int,
            tree@[decl as int].children.len() as int,
        ),
{
    let ghost nodes = tree@;
    let ghost text = rope_text(*rope);
    let ghost base = symbols_model(symbols@);
    let n = tree.child_count(decl);
    let mut k: usize = 0;
    assert(base + Seq::<SymbolModel>::empty() =~= base);
    while k < n
        invariant
            k <= n,
            decl < nodes.len(),
            n == nodes[decl as int].children.len(),
            nodes == tree@,
            text == rope_text(*rope),
            symbols_model(symbols@) == base + field_symbols(nodes, text, decl as int, k as int),
        decreases n - k,
    {
        let d = tree.child(decl, k);
        if tree.kind(d) == NodeKind::VariableDeclarator {
            let name_node = name_node_of(tree, d);
            let declared = match type_text_of(tree, rope, decl) {
                Some(t) => t,
                None => String::new(),
            };
            let symbol = DocumentSymbol {
                name: get_node_text(tree, name_node, rope),
                detail: Some(declared),
                kind: SymbolKind::Field,
                range: node_range(tree, d),
                selection_range: node_range(tree, name_node),
                children: None,
            };
            proof {
                lemma_symbols_push(symbols@, symbol);
            }
            symbols.push(symbol);
            assert(symbols_model(symbols@) =~= base + field_symbols(
                nodes,
                text,
                decl as int,
                k + 1,
            ));
        }
        k += 1;
    }
}

/// The symbols under `node`.
pub fn traverse_node(tree: &SyntaxTree, node: usize, rope: &Rope) -> (r: Vec<DocumentSymbol>)
    requires
        node < tree@.len(),
    ensures
        symbols_model(r@) == outline(
            tree@,
            rope_text(*rope),
            node as int,
            tree@[node as int].children.len() as int,
        ),
    decreases tree@.len() - node,
{
    let ghost nodes = tree@;
    let ghost text = rope_text(*rope);
    let mut symbols: Vec<DocumentSymbol> = Vec::new();
    let n = tree.child_count(node);
    let mut k: usize = 0;
    while k < n
        invariant
            k <= n,
            node < nodes.len(),
            n == nodes[node as int].children.len(),
            nodes == tree@,
            text == rope_text(*rope),
            symbols_model(symbols@) == outline(nodes, text, node as int, k as int),
        decreases n - k,
    {
        let child = tree.child(node, k);
        let kind = tree.kind(child);
        let ghost before = symbols_model(symbols@);
        if kind == NodeKind::FieldDeclaration {
            push_field_symbols(tree, rope, child, &mut symbols);
        } else {
            match symbol_kind_for(kind) {
                Some(s_kind) => {
                    let name_node = name_node_of(tree, child);
                    let detail = if s_kind == SymbolKind::Method {
                        type_text_of(tree, rope, child)
                    } else {
                        None
                    };
                    let children = if s_kind == SymbolKind::Class || s_kind
                        == SymbolKind::Interface || s_kind == SymbolKind::Enum {
                        let inner = traverse_node(tree, child, rope);
                        if inner.len() == 0 {
                            assert(symbols_model(inner@).len() == 0);
                            None
                        } else {
                            assert(symbols_model(inner@).len() > 0) by {
                                assert(symbols_model(inner@) == symbols_model(
                                    inner@.drop_last(),
                                ).push(symbol_model(inner@.last())));
                            }
                            Some(inner)
                        }
                    } else {
                        None
                    };
                    let symbol = DocumentSymbol {
                        name: get_node_text(tree, name_node, rope),
                        detail,
                        kind: s_kind,
                        range: node_range(tree, child),
                        selection_range: node_range(tree, name_node),
                        children,
                    };
                    proof {
                        lemma_symbols_push(symbols@, symbol);
                    }
                    symbols.push(symbol);
                },
                None => {
                    if kind == NodeKind::ClassBody || kind == NodeKind::Program || kind
                        == NodeKind::EnumBody {
                        let mut inner = traverse_node(tree, child, rope);
                        proof {
                            lemma_symbols_concat(symbols@, inner@);
                        }
                        symbols.append(&mut inner);
                    }
                },
            }
        }
        k += 1;
    }
    symbols
}

/// The outline of the document.
pub fn document_symbols(tree: &SyntaxTree, rope: &Rope) -> (r: Vec<DocumentSymbol>)
    ensures
        symbols_model(r@) == document_outline(tree@, rope_text(*rope)),
{
    if tree.len() == 0 {
        return Vec::new();
    }
    traverse_node(tree, 0, rope)
}

} // verus!
