//! The syntax mirror of a document: the nodes of its parse tree in document
//! order, each with its kind, its extent and its place among the others.

use vstd::prelude::*;
use crate::state::Range;
use crate::text::str_eq;

verus! {

/// The node kinds that the lookup rules tell apart.
#[derive(Debug, Clone, Copy, PartialEq, Eq, Structural)]
pub enum NodeKind {
    Program,
    PackageDeclaration,
    ImportDeclaration,
    ClassDeclaration,
    InterfaceDeclaration,
    EnumDeclaration,
    RecordDeclaration,
    AnnotationTypeDeclaration,
    ClassBody,
    EnumBody,
    MethodDeclaration,
    ConstructorDeclaration,
    FieldDeclaration,
    VariableDeclarator,
    LocalVariableDeclaration,
    FormalParameter,
    SpreadParameter,
    Block,
    EnhancedForStatement,
    TryWithResourcesStatement,
    ResourceSpecification,
    Resource,
    MethodInvocation,
    FieldAccess,
    Identifier,
    TypeIdentifier,
    FieldIdentifier,
    ScopedIdentifier,
    DecimalIntegerLiteral,
    DecimalFloatingPointLiteral,
    StringLiteral,
    True,
    False,
    CharacterLiteral,
    ParenthesizedExpression,
    CastExpression,
    ObjectCreationExpression,
    VoidType,
    Modifiers,
    Other,
}

/// The field names under which a parent holds a child.
#[derive(Debug, Clone, Copy, PartialEq, Eq, Structural)]
pub enum FieldName {
    Name,
    Type,
    Parameters,
    Body,
    Object,
    Arguments,
    Other,
}

/// The kind that the grammar's name for a node stands for.
pub open spec fn kind_named(name: Seq<char>) -> NodeKind {
    if name == "program"@ {
        NodeKind::Program
    } else if name == "package_declaration"@ {
        NodeKind::PackageDeclaration
    } else if name == "import_declaration"@ {
        NodeKind::ImportDeclaration
    } else if name == "class_declaration"@ {
        NodeKind::ClassDeclaration
    } else if name == "interface_declaration"@ {
        NodeKind::InterfaceDeclaration
    } else if name == "enum_declaration"@ {
        NodeKind::EnumDeclaration
    } else if name == "record_declaration"@ {
        NodeKind::RecordDeclaration
    } else if name == "annotation_type_declaration"@ {
        NodeKind::AnnotationTypeDeclaration
    } else if name == "class_body"@ {
        NodeKind::ClassBody
    } else if name == "enum_body"@ {
        NodeKind::EnumBody
    } else if name == "method_declaration"@ {
        NodeKind::MethodDeclaration
    } else if name == "constructor_declaration"@ {
        NodeKind::ConstructorDeclaration
    } else if name == "field_declaration"@ {
        NodeKind::FieldDeclaration
    } else if name == "variable_declarator"@ {
        NodeKind::VariableDeclarator
    } else if name == "local_variable_declaration"@ {
        NodeKind::LocalVariableDeclaration
    } else if name == "formal_parameter"@ {
        NodeKind::FormalParameter
    } else if name == "spread_parameter"@ {
        NodeKind::SpreadParameter
    } else if name == "block"@ {
        NodeKind::Block
    } else if name == "enhanced_for_statement"@ {
        NodeKind::EnhancedForStatement
    } else if name == "try_with_resources_statement"@ {
        NodeKind::TryWithResourcesStatement
    } else if name == "resource_specification"@ {
        NodeKind::ResourceSpecification
    } else if name == "resource"@ {
        NodeKind::Resource
    } else if name == "method_invocation"@ {
        NodeKind::MethodInvocation
    } else if name == "field_access"@ {
        NodeKind::FieldAccess
    } else if name == "identifier"@ {
        NodeKind::Identifier
    } else if name == "type_identifier"@ {
        NodeKind::TypeIdentifier
    } else if name == "field_identifier"@ {
        NodeKind::FieldIdentifier
    } else if name == "scoped_identifier"@ {
        NodeKind::ScopedIdentifier
    } else if name == "decimal_integer_literal"@ {
        NodeKind::DecimalIntegerLiteral
    } else if name == "decimal_floating_point_literal"@ {
        NodeKind::DecimalFloatingPointLiteral
    } else if name == "string_literal"@ {
        NodeKind::StringLiteral
    } else if name == "true"@ {
        NodeKind::True
    } else if name == "false"@ {
        NodeKind::False
    } else if name == "character_literal"@ {
        NodeKind::CharacterLiteral
    } else if name == "parenthesized_expression"@ {
        NodeKind::ParenthesizedExpression
    } else if name == "cast_expression"@ {
        NodeKind::CastExpression
    } else if name == "object_creation_expression"@ {
        NodeKind::ObjectCreationExpression
    } else if name == "void_type"@ {
        NodeKind::VoidType
    } else if name == "modifiers"@ {
        NodeKind::Modifiers
    } else {
        NodeKind::Other
    }
}

/// The field that a field name of the grammar stands for.
pub open spec fn field_named(name: Seq<char>) -> FieldName {
    if name == "name"@ {
        FieldName::Name
    } else if name == "type"@ {
        FieldName::Type
    } else if name == "parameters"@ {
        FieldName::Parameters
    } else if name == "body"@ {
        FieldName::Body
    } else if name == "object"@ {
        FieldName::Object
    } else if name == "arguments"@ {
        FieldName::Arguments
    } else {
        FieldName::Other
    }
}

impl NodeKind {
    /// Reads a kind off the grammar's name for it.
    pub fn from_name(name: &str) -> (k: NodeKind)
        ensures
            k == kind_named(name@),
    {
        if str_eq(name, "program") {
            NodeKind::Program
        } else if str_eq(name, "package_declaration") {
            NodeKind::PackageDeclaration
        } else if str_eq(name, "import_declaration") {
            NodeKind::ImportDeclaration
        } else if str_eq(name, "class_declaration") {
            NodeKind::ClassDeclaration
        } else if str_eq(name, "interface_declaration") {
            NodeKind::InterfaceDeclaration
        } else if str_eq(name, "enum_declaration") {
            NodeKind::EnumDeclaration
        } else if str_eq(name, "record_declaration") {
            NodeKind::RecordDeclaration
        } else if str_eq(name, "annotation_type_declaration") {
            NodeKind::AnnotationTypeDeclaration
        } else if str_eq(name, "class_body") {
            NodeKind::ClassBody
        } else if str_eq(name, "enum_body") {
            NodeKind::EnumBody
        } else if str_eq(name, "method_declaration") {
            NodeKind::MethodDeclaration
        } else if str_eq(name, "constructor_declaration") {
            NodeKind::ConstructorDeclaration
        } else if str_eq(name, "field_declaration") {
            NodeKind::FieldDeclaration
        } else if str_eq(name, "variable_declarator") {
            NodeKind::VariableDeclarator
        } else if str_eq(name, "local_variable_declaration") {
            NodeKind::LocalVariableDeclaration
        } else if str_eq(name, "formal_parameter") {
            NodeKind::FormalParameter
        } else if str_eq(name, "spread_parameter") {
            NodeKind::SpreadParameter
        } else if str_eq(name, "block") {
            NodeKind::Block
        } else if str_eq(name, "enhanced_for_statement") {
            NodeKind::EnhancedForStatement
        } else if str_eq(name, "try_with_resources_statement") {
            NodeKind::TryWithResourcesStatement
        } else if str_eq(name, "resource_specification") {
            NodeKind::ResourceSpecification
        } else if str_eq(name, "resource") {
            NodeKind::Resource
        } else if str_eq(name, "method_invocation") {
            NodeKind::MethodInvocation
        } else if str_eq(name, "field_access") {
            NodeKind::FieldAccess
        } else if str_eq(name, "identifier") {
            NodeKind::Identifier
        } else if str_eq(name, "type_identifier") {
            NodeKind::TypeIdentifier
        } else if str_eq(name, "field_identifier") {
            NodeKind::FieldIdentifier
        } else if str_eq(name, "scoped_identifier") {
            NodeKind::ScopedIdentifier
        } else if str_eq(name, "decimal_integer_literal") {
            NodeKind::DecimalIntegerLiteral
        } else if str_eq(name, "decimal_floating_point_literal") {
            NodeKind::DecimalFloatingPointLiteral
        } else if str_eq(name, "string_literal") {
            NodeKind::StringLiteral
        } else if str_eq(name, "true") {
            NodeKind::True
        } else if str_eq(name, "false") {
            NodeKind::False
        } else if str_eq(name, "character_literal") {
            NodeKind::CharacterLiteral
        } else if str_eq(name, "parenthesized_expression") {
            NodeKind::ParenthesizedExpression
        } else if str_eq(name, "cast_expression") {
            NodeKind::CastExpression
        } else if str_eq(name, "object_creation_expression") {
            NodeKind::ObjectCreationExpression
        } else if str_eq(name, "void_type") {
            NodeKind::VoidType
        } else if str_eq(name, "modifiers") {
            NodeKind::Modifiers
        } else {
            NodeKind::Other
        }
    }

    /// Whether this kind declares a class, interface, enum, record or
    /// annotation type.
    pub open spec fn is_class_like(self) -> bool {
        self == NodeKind::ClassDeclaration || self == NodeKind::InterfaceDeclaration || self
            == NodeKind::EnumDeclaration || self == NodeKind::RecordDeclaration || self
            == NodeKind::AnnotationTypeDeclaration
    }

    /// Whether this kind declares a class, interface, enum, record or
    /// annotation type.
    pub fn class_like(self) -> (r: bool)
        ensures
            r == self.is_class_like(),
    {
        self == NodeKind::ClassDeclaration || self == NodeKind::InterfaceDeclaration || self
            == NodeKind::EnumDeclaration || self == NodeKind::RecordDeclaration || self
            == NodeKind::AnnotationTypeDeclaration
    }
}

impl FieldName {
    /// Reads a field off the grammar's name for it.
    pub fn from_name(name: &str) -> (f: FieldName)
        ensures
            f == field_named(name@),
    {
        if str_eq(name, "name") {
            FieldName::Name
        } else if str_eq(name, "type") {
            FieldName::Type
        } else if str_eq(name, "parameters") {
            FieldName::Parameters
        } else if str_eq(name, "body") {
            FieldName::Body
        } else if str_eq(name, "object") {
            FieldName::Object
        } else if str_eq(name, "arguments") {
            FieldName::Arguments
        } else {
            FieldName::Other
        }
    }
}

/// One node of the mirror.
#[derive(Debug, Clone)]
pub struct SyntaxNode {
    pub kind: NodeKind,
    pub named: bool,
    pub field: Option<FieldName>,
    pub start_byte: usize,
    pub end_byte: usize,
    pub range: Range,
    pub parent: Option<usize>,
    pub children: Vec<usize>,
}

/// Model of a node: its children and parent are positions in the sequence of
/// all nodes.
pub struct NodeModel {
    pub kind: NodeKind,
    pub named: bool,
    pub field: Option<FieldName>,
    pub start_byte: int,
    pub end_byte: int,
    pub range: Range,
    pub parent: Option<int>,
    pub children: Seq<int>,
}

impl DeepView for SyntaxNode {
    type V = NodeModel;

    open spec fn deep_view(&self) -> NodeModel {
        NodeModel {
            kind: self.kind,
            named: self.named,
            field: self.field,
            start_byte: self.start_byte as int,
            end_byte: self.end_byte as int,
            range: self.range,
            parent: match self.parent {
                Some(p) => Some(p as int),
                None => None,
            },
            children: self.children@.map_values(|c: usize| c as int),
        }
    }
}

/// Node `i` stands after its parent and before its children, and each child
/// names it as parent.
pub open spec fn node_wf(nodes: Seq<NodeModel>, i: int) -> bool {
    &&& nodes[i].start_byte <= nodes[i].end_byte
    &&& match nodes[i].parent {
        Some(p) => 0 <= p < i,
        None => true,
    }
    &&& forall|k: int|
        0 <= k < nodes[i].children.len() ==> {
            &&& i < #[trigger] nodes[i].children[k] < nodes.len()
            &&& nodes[nodes[i].children[k]].parent == Some(i)
        }
}

/// The nodes form a forest laid out in document order.
pub open spec fn tree_wf(nodes: Seq<NodeModel>) -> bool {
    forall|i: int| 0 <= i < nodes.len() ==> node_wf(nodes, i)
}

/// The syntax mirror of one document. Node 0, where there is one, is the
/// root.
pub struct SyntaxTree {
    nodes: Vec<SyntaxNode>,
}

impl View for SyntaxTree {
    type V = Seq<NodeModel>;

    closed spec fn view(&self) -> Seq<NodeModel> {
        self.nodes.deep_view()
    }
}

impl SyntaxTree {
    /// Every mirror is laid out as a forest in document order.
    #[verifier::type_invariant]
    spec fn well_formed(self) -> bool {
        tree_wf(self.nodes.deep_view())
    }

    /// A mirror of the given nodes, if they are laid out as a mirror must be.
    pub fn from_nodes(nodes: Vec<SyntaxNode>) -> (r: Option<SyntaxTree>)
        ensures
            match r {
                Some(t) => t@ == nodes.deep_view() && tree_wf(nodes.deep_view()),
                None => !tree_wf(nodes.deep_view()),
            },
    {
        let ghost model = nodes.deep_view();
        let n = nodes.len();
        let mut i: usize = 0;
        while i < n
            invariant
                i <= n,
                n == nodes.len(),
                model == nodes.deep_view(),
                forall|j: int| 0 <= j < i ==> node_wf(model, j),
            decreases n - i,
        {
            let node = &nodes[i];
            let ok_parent = match node.parent {
                Some(p) => p < i,
                None => true,
            };
            if node.start_byte > node.end_byte || !ok_parent {
                assert(!node_wf(model, i as int));
                return None;
            }
            let mut k: usize = 0;
            while k < node.children.len()
                invariant
                    k <= node.children.len(),
                    i < n,
                    n == nodes.len(),
                    model == nodes.deep_view(),
                    node == &nodes[i as int],
                    forall|j: int|
                        0 <= j < k ==> {
                            &&& i < #[trigger] model[i as int].children[j] < model.len()
                            &&& model[model[i as int].children[j]].parent == Some(i as int)
                        },
                decreases node.children.len() - k,
            {
                let c = node.children[k];
                assert(model[i as int].children[k as int] == c);
                if c <= i || c >= n {
                    assert(!node_wf(model, i as int));
                    return None;
                }
                let back = match nodes[c].parent {
                    Some(p) => p == i,
                    None => false,
                };
                if !back {
                    assert(!node_wf(model, i as int));
                    return None;
                }
                k += 1;
            }
            i += 1;
        }
        Some(SyntaxTree { nodes })
    }

    /// A mirror of nodes known to be laid out as a mirror must be.
    pub(crate) fn assemble(nodes: Vec<SyntaxNode>) -> (t: SyntaxTree)
        requires
            tree_wf(nodes.deep_view()),
        ensures
            t@ == nodes.deep_view(),
    {
        SyntaxTree { nodes }
    }

    /// How many nodes the mirror has.
    pub fn len(&self) -> (n: usize)
        ensures
            n == self@.len(),
    {
        self.nodes.len()
    }

    /// The kind of node `id`.
    pub fn kind(&self, id: usize) -> (k: NodeKind)
        requires
            id < self@.len(),
        ensures
            k == self@[id as int].kind,
    {
        self.nodes[id].kind
    }

    /// Whether node `id` is a named node of the grammar.
    pub fn is_named(&self, id: usize) -> (b: bool)
        requires
            id < self@.len(),
        ensures
            b == self@[id as int].named,
    {
        self.nodes[id].named
    }

    /// The field under which the parent holds node `id`.
    pub fn field(&self, id: usize) -> (f: Option<FieldName>)
        requires
            id < self@.len(),
        ensures
            f == self@[id as int].field,
    {
        self.nodes[id].field
    }

    /// Where node `id` starts, in bytes.
    pub fn start_byte(&self, id: usize) -> (b: usize)
        requires
            id < self@.len(),
        ensures
            b == self@[id as int].start_byte,
    {
        self.nodes[id].start_byte
    }

    /// Where node `id` ends, in bytes.
    pub fn end_byte(&self, id: usize) -> (b: usize)
        requires
            id < self@.len(),
        ensures
            b == self@[id as int].end_byte,
            self@[id as int].start_byte <= b,
    {
        proof {
            use_type_invariant(self);
            assert(node_wf(self@, id as int));
        }
        self.nodes[id].end_byte
    }

    /// The parent of node `id`.
    pub fn parent(&self, id: usize) -> (p: Option<usize>)
        requires
            id < self@.len(),
        ensures
            match p {
                Some(x) => self@[id as int].parent == Some(x as int) && x < id,
                None => self@[id as int].parent is None,
            },
    {
        proof {
            use_type_invariant(self);
            assert(node_wf(self@, id as int));
        }
        self.nodes[id].parent
    }

    /// How many children node `id` has.
    pub fn child_count(&self, id: usize) -> (n: usize)
        requires
            id < self@.len(),
        ensures
            n == self@[id as int].children.len(),
    {
        self.nodes[id].children.len()
    }

    /// The `k`-th child of node `id`.
    pub fn child(&self, id: usize, k: usize) -> (c: usize)
        requires
            id < self@.len(),
            k < self@[id as int].children.len(),
        ensures
            c == self@[id as int].children[k as int],
            id < c < self@.len(),
    {
        proof {
            use_type_invariant(self);
            assert(node_wf(self@, id as int));
        }
        self.nodes[id].children[k]
    }
}

/// The span of node `id` in lines and columns.
pub fn node_range(tree: &SyntaxTree, id: usize) -> (r: Range)
    requires
        id < tree@.len(),
    ensures
        r == tree@[id as int].range,
{
    tree.nodes[id].range
}

} // verus!
