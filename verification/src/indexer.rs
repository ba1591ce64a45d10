//! From a document's mirror to what the index holds of it: its package, its
//! imports, its classes and their direct members.

use vstd::prelude::*;
use ropey::Rope;
use crate::ast::{parse_java_type, type_named, TypeModel};
use crate::rope::rope_text;
use crate::state::{
    filed_under_uri, index_wf, upserted, FileModel, FileRecord, GlobalIndex, IndexedClass,
    IndexedClassModel, IndexedMember, IndexedMemberModel,
};
use crate::syntax::{node_range, FieldName, NodeKind, NodeModel, SyntaxTree};
use crate::text::{dotted, join_dot};
use crate::uri::{scheme_of, uri_scheme};
use crate::utils::{
    child_by_field, child_with_field, flat_collect, get_node_text, lemma_flat_collect_all,
    lemma_flat_collect_ends, lemma_flat_collect_step, method_params, node_text, param_nodes, param_type_node, param_type_of,
    parent_kind,
};

verus! {

/// Builds the index records of documents.
pub struct Indexer;

/// The text of the type of parameter `param`; empty where it spells none.
pub open spec fn param_type_text(nodes: Seq<NodeModel>, text: Seq<char>, param: int) -> Seq<char> {
    match param_type_node(nodes, param) {
        Some(t) => node_text(nodes, text, t),
        None => Seq::empty(),
    }
}

/// The texts of the parameter types of `method`, one per parameter.
pub open spec fn def_param_types(nodes: Seq<NodeModel>, text: Seq<char>, method: int) -> Seq<
    Seq<char>,
> {
    method_params(nodes, method).map_values(|p: int| param_type_text(nodes, text, p))
}

/// Whether the last parameter of `method` is variadic.
pub open spec fn has_varargs(nodes: Seq<NodeModel>, method: int) -> bool {
    let params = method_params(nodes, method);
    params.len() > 0 && nodes[params.last()].kind == NodeKind::SpreadParameter
}

/// A qualified name: the owner, a dot and the name; the bare name where
/// there is no owner.
pub open spec fn qualified(owner: Option<Seq<char>>, name: Seq<char>) -> Seq<char> {
    match owner {
        Some(o) => dotted(o, name),
        None => name,
    }
}

/// What is common to the members collected from one class body.
pub struct MemberScope {
    pub nodes: Seq<NodeModel>,
    pub text: Seq<char>,
    pub uri: Seq<char>,
    pub fqcn: Seq<char>,
}

/// The member that the method declaration `m` contributes, if it has a name.
pub open spec fn method_member(scope: MemberScope, m: int) -> Seq<IndexedMemberModel> {
    match child_with_field(scope.nodes, m, FieldName::Name) {
        Some(name_node) => seq![
            IndexedMemberModel {
                name: node_text(scope.nodes, scope.text, name_node),
                fqmn: dotted(scope.fqcn, node_text(scope.nodes, scope.text, name_node)),
                uri: scope.uri,
                range: scope.nodes[name_node].range,
                is_field: false,
                is_varargs: has_varargs(scope.nodes, m),
                param_count: method_params(scope.nodes, m).len(),
                param_types: def_param_types(scope.nodes, scope.text, m),
                field_type: None,
            },
        ],
        None => Seq::empty(),
    }
}

/// The declared type of the field declaration `decl`.
pub open spec fn declared_field_type(nodes: Seq<NodeModel>, text: Seq<char>, decl: int) -> Option<
    TypeModel,
> {
    match child_with_field(nodes, decl, FieldName::Type) {
        Some(t) => Some(type_named(node_text(nodes, text, t))),
        None => None,
    }
}

/// For a child of the field declaration `decl`: the member it contributes,
/// if it is a declarator with a name.
pub open spec fn declarator_member(scope: MemberScope, decl: int) -> spec_fn(int) -> Seq<
    IndexedMemberModel,
> {
    |d: int|
        if scope.nodes[d].kind == NodeKind::VariableDeclarator {
            match child_with_field(scope.nodes, d, FieldName::Name) {
                Some(name_node) => seq![
                    IndexedMemberModel {
                        name: node_text(scope.nodes, scope.text, name_node),
                        fqmn: dotted(scope.fqcn, node_text(scope.nodes, scope.text, name_node)),
                        uri: scope.uri,
                        range: scope.nodes[name_node].range,
                        is_field: true,
                        is_varargs: false,
                        param_count: 0,
                        param_types: Seq::empty(),
                        field_type: declared_field_type(scope.nodes, scope.text, decl),
                    },
                ],
                None => Seq::empty(),
            }
        } else {
            Seq::empty()
        }
}

/// For a child of a class body: the members it contributes. A method
/// contributes one, a field declaration one per declarator.
pub open spec fn child_members(scope: MemberScope) -> spec_fn(int) -> Seq<IndexedMemberModel> {
    |c: int|
        if scope.nodes[c].kind == NodeKind::MethodDeclaration {
            method_member(scope, c)
        } else if scope.nodes[c].kind == NodeKind::FieldDeclaration {
            flat_collect(scope.nodes[c].children, declarator_member(scope, c))
        } else {
            Seq::empty()
        }
}

/// The members that the class body `body` declares directly.
pub open spec fn body_members(scope: MemberScope, body: int) -> Seq<IndexedMemberModel> {
    flat_collect(scope.nodes[body].children, child_members(scope))
}

/// Whether node `i` is the name of a package declaration.
pub open spec fn is_package_name(nodes: Seq<NodeModel>, i: int) -> bool {
    nodes[i].kind == NodeKind::ScopedIdentifier && parent_kind(nodes, i) == Some(
        NodeKind::PackageDeclaration,
    )
}

/// Whether node `i` is the name of an import declaration.
pub open spec fn is_import_name(nodes: Seq<NodeModel>, i: int) -> bool {
    nodes[i].kind == NodeKind::ScopedIdentifier && parent_kind(nodes, i) == Some(
        NodeKind::ImportDeclaration,
    )
}

/// Whether node `i` is the name of a class-like declaration.
pub open spec fn is_class_name(nodes: Seq<NodeModel>, i: int) -> bool {
    nodes[i].kind == NodeKind::Identifier && nodes[i].field == Some(FieldName::Name) && (
    match parent_kind(nodes, i) {
        Some(k) => k.is_class_like(),
        None => false,
    })
}

/// The package in force before node `n`: the last package name among the
/// nodes before it.
pub open spec fn package_before(nodes: Seq<NodeModel>, text: Seq<char>, n: int) -> Option<
    Seq<char>,
>
    decreases n,
{
    if n <= 0 {
        None
    } else if is_package_name(nodes, n - 1) {
        Some(node_text(nodes, text, n - 1))
    } else {
        package_before(nodes, text, n - 1)
    }
}

/// The qualified name of the class named by node `i`.
pub open spec fn class_fqcn(nodes: Seq<NodeModel>, text: Seq<char>, i: int) -> Seq<char> {
    qualified(package_before(nodes, text, i), node_text(nodes, text, i))
}

/// For a node: the import it names, if it names one.
pub open spec fn import_at(nodes: Seq<NodeModel>, text: Seq<char>) -> spec_fn(int) -> Seq<
    Seq<char>,
> {
    |i: int|
        if is_import_name(nodes, i) {
            seq![node_text(nodes, text, i)]
        } else {
            Seq::empty()
        }
}

/// For a node: the class it names, if it names one. The class spans its
/// whole declaration.
pub open spec fn class_at(nodes: Seq<NodeModel>, text: Seq<char>, uri: Seq<char>) -> spec_fn(
    int,
) -> Seq<IndexedClassModel> {
    |i: int|
        if is_class_name(nodes, i) {
            seq![
                IndexedClassModel {
                    short_name: node_text(nodes, text, i),
                    fqcn: class_fqcn(nodes, text, i),
                    uri: uri,
                    range: nodes[nodes[i].parent->0].range,
                },
            ]
        } else {
            Seq::empty()
        }
}

/// For a node: the members of the class it names, if it names one.
pub open spec fn members_at(nodes: Seq<NodeModel>, text: Seq<char>, uri: Seq<char>) -> spec_fn(
    int,
) -> Seq<IndexedMemberModel> {
    |i: int|
        if is_class_name(nodes, i) {
            match child_with_field(nodes, nodes[i].parent->0, FieldName::Body) {
                Some(body) => body_members(
                    MemberScope { nodes, text, uri, fqcn: class_fqcn(nodes, text, i) },
                    body,
                ),
                None => Seq::empty(),
            }
        } else {
            Seq::empty()
        }
}

/// The positions of all nodes, in document order.
pub open spec fn all_nodes(nodes: Seq<NodeModel>) -> Seq<int> {
    Seq::new(nodes.len(), |i: int| i)
}

/// What a document declares: the record that the index holds of it.
pub open spec fn declared(nodes: Seq<NodeModel>, text: Seq<char>, uri: Seq<char>) -> FileModel {
    FileModel {
        uri,
        package_name: package_before(nodes, text, nodes.len() as int),
        imports: flat_collect(all_nodes(nodes), import_at(nodes, text)),
        classes: flat_collect(all_nodes(nodes), class_at(nodes, text, uri)),
        members: flat_collect(all_nodes(nodes), members_at(nodes, text, uri)),
    }
}

/// Every class and member that a document declares is filed under the
/// document's URI.
pub proof fn lemma_declared_is_filed(nodes: Seq<NodeModel>, text: Seq<char>, uri: Seq<char>)
    ensures
        filed_under_uri(declared(nodes, text, uri)),
{
    let ids = all_nodes(nodes);
    let fc = class_at(nodes, text, uri);
    let fm = members_at(nodes, text, uri);
    let class_filed = |c: IndexedClassModel| c.uri == uri;
    let member_filed = |m: IndexedMemberModel| m.uri == uri;
    lemma_flat_collect_all(ids, fc, class_filed);
    assert forall|k: int, j: int|
        0 <= k < ids.len() && 0 <= j < fm(ids[k]).len() implies member_filed(
        #[trigger] fm(ids[k])[j],
    ) by {
        let i = ids[k];
        if is_class_name(nodes, i) {
            match child_with_field(nodes, nodes[i].parent->0, FieldName::Body) {
                Some(body) => {
                    let scope = MemberScope { nodes, text, uri, fqcn: class_fqcn(nodes, text, i) };
                    let inner = child_members(scope);
                    assert forall|a: int, b: int|
                        0 <= a < nodes[body].children.len() && 0 <= b < inner(
                            nodes[body].children[a],
                        ).len() implies member_filed(
                        #[trigger] inner(nodes[body].children[a])[b],
                    ) by {
                        let c = nodes[body].children[a];
                        if nodes[c].kind == NodeKind::FieldDeclaration {
                            lemma_flat_collect_all(
                                nodes[c].children,
                                declarator_member(scope, c),
                                member_filed,
                            );
                        }
                    }
                    lemma_flat_collect_all(nodes[body].children, inner, member_filed);
                },
                None => {},
            }
        }
    }
    lemma_flat_collect_all(ids, fm, member_filed);
    let rec = declared(nodes, text, uri);
    assert forall|k: int| 0 <= k < rec.classes.len() implies (#[trigger] rec.classes[k]).uri
        == rec.uri by {
        assert(class_filed(rec.classes[k]));
    }
    assert forall|k: int| 0 <= k < rec.members.len() implies (#[trigger] rec.members[k]).uri
        == rec.uri by {
        assert(member_filed(rec.members[k]));
    }
}

/// The texts of the parameter types of `method_node`.
pub fn get_def_param_types(tree: &SyntaxTree, method_node: usize, rope: &Rope) -> (r: Vec<String>)
    requires
        method_node < tree@.len(),
    ensures
        r.deep_view() == def_param_types(tree@, rope_text(*rope), method_node as int),
{
    let params = param_nodes(tree, method_node);
    let ghost ids = method_params(tree@, method_node as int);
    let mut types: Vec<String> = Vec::new();
    let mut k: usize = 0;
    while k < params.len()
        invariant
            k <= params.len(),
            ids == params@.map_values(|c: usize| c as int),
            forall|j: int| 0 <= j < params.len() ==> #[trigger] params[j] < tree@.len(),
            types.len() == k,
            forall|j: int|
                0 <= j < k ==> types@[j]@ == param_type_text(tree@, rope_text(*rope), ids[j]),
        decreases params.len() - k,
    {
        let p = params[k];
        assert(ids[k as int] == p as int);
        let t = match param_type_of(tree, p) {
            Some(t) => get_node_text(tree, t, rope),
            None => String::new(),
        };
        types.push(t);
        k += 1;
    }
    assert(types.deep_view() =~= def_param_types(tree@, rope_text(*rope), method_node as int));
    types
}

/// How many parameters the method declaration `method_node` has.
pub fn get_method_def_param_count(tree: &SyntaxTree, method_node: usize) -> (r: Option<usize>)
    requires
        method_node < tree@.len(),
    ensures
        r == (if tree@[method_node as int].kind == NodeKind::MethodDeclaration && child_with_field(
            tree@,
            method_node as int,
            FieldName::Parameters,
        ) is Some {
            Some(method_params(tree@, method_node as int).len() as usize)
        } else {
            None
        }),
{
    if tree.kind(method_node) != NodeKind::MethodDeclaration {
        return None;
    }
    match child_by_field(tree, method_node, FieldName::Parameters) {
        Some(_) => {
            let params = param_nodes(tree, method_node);
            assert(params@.map_values(|c: usize| c as int).len() == params@.len());
            Some(params.len())
        },
        None => None,
    }
}

/// Adds the member that the method declaration `m` contributes.
fn method_member_of(
    tree: &SyntaxTree,
    rope: &Rope,
    m: usize,
    fqcn: &str,
    uri: &str,
    members: &mut Vec<IndexedMember>,
)
    requires
        m < tree@.len(),
    ensures
        final(members).deep_view() == old(members).deep_view() + method_member(
            MemberScope { nodes: tree@, text: rope_text(*rope), uri: uri@, fqcn: fqcn@ },
            m as int,
        ),
{
    let ghost before = members.deep_view();
    match child_by_field(tree, m, FieldName::Name) {
        Some(name_node) => {
            let name = get_node_text(tree, name_node, rope);
            let fqmn = join_dot(fqcn, name.as_str());
            let params = param_nodes(tree, m);
            assert(params@.map_values(|c: usize| c as int).len() == params@.len());
            let is_varargs = params.len() > 0 && tree.kind(params[params.len() - 1])
                == NodeKind::SpreadParameter;
            proof {
                let ids = params@.map_values(|c: usize| c as int);
                if params.len() > 0 {
                    assert(ids.last() == params[params.len() - 1] as int);
                }
            }
            let member = IndexedMember {
                name,
                fqmn,
                uri: uri.to_owned(),
                range: node_range(tree, name_node),
                is_field: false,
                is_varargs,
                param_count: params.len(),
                param_types: get_def_param_types(tree, m, rope),
                field_type: None,
            };
            members.push(member);
            assert(members.deep_view() =~= before.push(member.deep_view()));
            assert(members.deep_view() =~= before + seq![member.deep_view()]);
        },
        None => {
            assert(before + Seq::<IndexedMemberModel>::empty() =~= before);
        },
    }
}

/// Adds the members that the field declaration `decl` contributes.
fn field_members_of(
    tree: &SyntaxTree,
    rope: &Rope,
    decl: usize,
    fqcn: &str,
    uri: &str,
    members: &mut Vec<IndexedMember>,
)
    requires
        decl < tree@.len(),
    ensures
        final(members).deep_view() == old(members).deep_view() + flat_collect(
            tree@[decl as int].children,
            declarator_member(
                MemberScope { nodes: tree@, text: rope_text(*rope), uri: uri@, fqcn: fqcn@ },
                decl as int,
            ),
        ),
{
    let ghost scope = MemberScope { nodes: tree@, text: rope_text(*rope), uri: uri@, fqcn: fqcn@ };
    let ghost f = declarator_member(scope, decl as int);
    let ghost items = tree@[decl as int].children;
    let ghost base = members.deep_view();
    let n = tree.child_count(decl);
    let mut k: usize = 0;
    proof {
        lemma_flat_collect_ends(items, f);
        assert(base + Seq::<IndexedMemberModel>::empty() =~= base);
    }
    while k < n
        invariant
            k <= n,
            n == items.len(),
            decl < tree@.len(),
            items == tree@[decl as int].children,
            scope == (MemberScope { nodes: tree@, text: rope_text(*rope), uri: uri@, fqcn: fqcn@ }),
            f == declarator_member(scope, decl as int),
            members.deep_view() == base + flat_collect(items.take(k as int), f),
        decreases n - k,
    {
        let d = tree.child(decl, k);
        let ghost before = members.deep_view();
        proof {
            lemma_flat_collect_step(items, f, k as int);
        }
        let mut added = false;
        if tree.kind(d) == NodeKind::VariableDeclarator {
            match child_by_field(tree, d, FieldName::Name) {
                Some(name_node) => {
                    let name = get_node_text(tree, name_node, rope);
                    let fqmn = join_dot(fqcn, name.as_str());
                    let field_type = match child_by_field(tree, decl, FieldName::Type) {
                        Some(t) => Some(parse_java_type(tree, t, rope)),
                        None => None,
                    };
                    let member = IndexedMember {
                        name,
                        fqmn,
                        uri: uri.to_owned(),
                        range: node_range(tree, name_node),
                        is_field: true,
                        is_varargs: false,
                        param_count: 0,
                        param_types: Vec::new(),
                        field_type,
                    };
                    assert(member.param_types.deep_view() =~= Seq::<Seq<char>>::empty());
                    members.push(member);
                    assert(members.deep_view() =~= before.push(member.deep_view()));
                    assert(members.deep_view() =~= before + seq![member.deep_view()]);
                    added = true;
                },
                None => {},
            }
        }
        proof {
            if !added {
                assert(before + Seq::<IndexedMemberModel>::empty() =~= before);
            }
            assert(members.deep_view() =~= base + (flat_collect(items.take(k as int), f) + f(
                items[k as int],
            )));
        }
        k += 1;
    }
    proof {
        lemma_flat_collect_ends(items, f);
    }
}

/// Adds to `members` what the class body `class_body` declares directly.
pub fn collect_members(
    tree: &SyntaxTree,
    rope: &Rope,
    class_body: usize,
    fqcn: &str,
    members: &mut Vec<IndexedMember>,
    uri: &str,
)
    requires
        class_body < tree@.len(),
    ensures
        final(members).deep_view() == old(members).deep_view() + body_members(
            MemberScope { nodes: tree@, text: rope_text(*rope), uri: uri@, fqcn: fqcn@ },
            class_body as int,
        ),
{
    let ghost scope = MemberScope { nodes: tree@, text: rope_text(*rope), uri: uri@, fqcn: fqcn@ };
    let ghost f = child_members(scope);
    let ghost items = tree@[class_body as int].children;
    let ghost base = members.deep_view();
    let n = tree.child_count(class_body);
    let mut k: usize = 0;
    proof {
        lemma_flat_collect_ends(items, f);
        assert(base + Seq::<IndexedMemberModel>::empty() =~= base);
    }
    while k < n
        invariant
            k <= n,
            n == items.len(),
            class_body < tree@.len(),
            items == tree@[class_body as int].children,
            scope == (MemberScope { nodes: tree@, text: rope_text(*rope), uri: uri@, fqcn: fqcn@ }),
            f == child_members(scope),
            members.deep_view() == base + flat_collect(items.take(k as int), f),
        decreases n - k,
    {
        let c = tree.child(class_body, k);
        let ghost before = members.deep_view();
        proof {
            lemma_flat_collect_step(items, f, k as int);
        }
        let kind = tree.kind(c);
        if kind == NodeKind::MethodDeclaration {
            method_member_of(tree, rope, c, fqcn, uri, members);
        } else if kind == NodeKind::FieldDeclaration {
            field_members_of(tree, rope, c, fqcn, uri, members);
        } else {
            assert(before + Seq::<IndexedMemberModel>::empty() =~= before);
        }
        proof {
            assert(members.deep_view() =~= base + (flat_collect(items.take(k as int), f) + f(
                items[k as int],
            )));
        }
        k += 1;
    }
    proof {
        lemma_flat_collect_ends(items, f);
    }
}

impl Indexer {
    /// What the document declares, as the record to file under `uri`.
    pub fn declarations(tree: &SyntaxTree, rope: &Rope, uri: &str) -> (r: FileRecord)
        ensures
            r.deep_view() == declared(tree@, rope_text(*rope), uri@),
    {
        let ghost nodes = tree@;
        let ghost text = rope_text(*rope);
        let ghost ids = all_nodes(nodes);
        let ghost fi = import_at(nodes, text);
        let ghost fc = class_at(nodes, text, uri@);
        let ghost fm = members_at(nodes, text, uri@);
        let mut package_name: Option<String> = None;
        let mut imports: Vec<String> = Vec::new();
        let mut classes: Vec<IndexedClass> = Vec::new();
        let mut members: Vec<IndexedMember> = Vec::new();
        let n = tree.len();
        let mut i: usize = 0;
        proof {
            lemma_flat_collect_ends(ids, fi);
            lemma_flat_collect_ends(ids, fc);
            lemma_flat_collect_ends(ids, fm);
            assert(imports.deep_view() =~= Seq::<Seq<char>>::empty());
            assert(classes.deep_view() =~= Seq::<IndexedClassModel>::empty());
            assert(members.deep_view() =~= Seq::<IndexedMemberModel>::empty());
        }
        while i < n
            invariant
                i <= n,
                n == nodes.len(),
                nodes == tree@,
                text == rope_text(*rope),
                ids == all_nodes(nodes),
                fi == import_at(nodes, text),
                fc == class_at(nodes, text, uri@),
                fm == members_at(nodes, text, uri@),
                package_name.deep_view() == package_before(nodes, text, i as int),
                imports.deep_view() == flat_collect(ids.take(i as int), fi),
                classes.deep_view() == flat_collect(ids.take(i as int), fc),
                members.deep_view() == flat_collect(ids.take(i as int), fm),
            decreases n - i,
        {
            proof {
                lemma_flat_collect_step(ids, fi, i as int);
                lemma_flat_collect_step(ids, fc, i as int);
                lemma_flat_collect_step(ids, fm, i as int);
                assert(ids[i as int] == i as int);
            }
            let ghost imports_before = imports.deep_view();
            let ghost classes_before = classes.deep_view();
            let ghost members_before = members.deep_view();
            let kind = tree.kind(i);
            let parent = tree.parent(i);
            let mut is_import = false;
            let mut is_class = false;
            match parent {
                Some(p) => {
                    let pk = tree.kind(p);
                    if kind == NodeKind::ScopedIdentifier {
                        if pk == NodeKind::PackageDeclaration {
                            package_name = Some(get_node_text(tree, i, rope));
                        } else if pk == NodeKind::ImportDeclaration {
                            let import = get_node_text(tree, i, rope);
                            imports.push(import);
                            assert(imports.deep_view() =~= imports_before + seq![import@]);
                            is_import = true;
                        }
                    } else if kind == NodeKind::Identifier && tree.field(i) == Some(FieldName::Name)
                        && pk.class_like() {
                        let short_name = get_node_text(tree, i, rope);
                        let fqcn = match &package_name {
                            Some(pkg) => join_dot(pkg.as_str(), short_name.as_str()),
                            None => short_name.clone(),
                        };
                        assert(fqcn@ == class_fqcn(nodes, text, i as int));
                        match child_by_field(tree, p, FieldName::Body) {
                            Some(body) => {
                                collect_members(tree, rope, body, fqcn.as_str(), &mut members, uri);
                            },
                            None => {
                                assert(members_before + Seq::<IndexedMemberModel>::empty()
                                    =~= members_before);
                            },
                        }
                        let class = IndexedClass {
                            short_name,
                            fqcn,
                            uri: uri.to_owned(),
                            range: node_range(tree, p),
                        };
                        classes.push(class);
                        assert(classes.deep_view() =~= classes_before + seq![class.deep_view()]);
                        is_class = true;
                    }
                },
                None => {},
            }
            proof {
                if !is_import {
                    assert(!is_import_name(nodes, i as int));
                    assert(imports_before + Seq::<Seq<char>>::empty() =~= imports_before);
                }
                if !is_class {
                    assert(!is_class_name(nodes, i as int));
                    assert(classes_before + Seq::<IndexedClassModel>::empty() =~= classes_before);
                    assert(members_before + Seq::<IndexedMemberModel>::empty() =~= members_before);
                }
            }
            i += 1;
        }
        proof {
            lemma_flat_collect_ends(ids, fi);
            assert(ids.len() == n);
        }
        FileRecord { uri: uri.to_owned(), package_name, imports, classes, members }
    }

    /// Brings the index up to date with a document: files what the document
    /// declares under `uri`, in place of what was filed there. A `uri` that
    /// is no absolute URL leaves the index as it is.
    pub fn update_file(index: &mut GlobalIndex, uri: &str, tree: &SyntaxTree, rope: &Rope)
        ensures
            final(index).deep_view() == (match scheme_of(uri@) {
                Some(_) => upserted(
                    old(index).deep_view(),
                    declared(tree@, rope_text(*rope), uri@),
                ),
                None => old(index).deep_view(),
            }),
            index_wf(final(index).deep_view()),
    {
        if uri_scheme(uri).is_none() {
            index.well_filed();
            return ;
        }
        proof {
            lemma_declared_is_filed(tree@, rope_text(*rope), uri@);
        }
        let record = Indexer::declarations(tree, rope, uri);
        index.upsert_file(
            uri,
            record.package_name,
            record.imports,
            record.classes,
            record.members,
        );
    }
}

} // verus!
