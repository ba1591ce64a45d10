//! Lookup across the workspace: what a qualifier stands for, and which
//! member of its class a reference means.

use vstd::prelude::*;
use ropey::Rope;
use crate::ast::{calculate_score, parse_type_name, score_of, type_named, InferredType, TypeModel};
use crate::inference::{declarator_named, find_in_declarators, inferred, TypeSolver};
use crate::lang::java::{
    arity_fits, imported_symbol, java_lang_symbol, match_imported_symbol, match_java_lang,
    match_member_arity, match_same_package, qualifier_fqcn, resolve_qualifier_fqcn,
    same_package_symbol,
};
use crate::scope::param_index;
use crate::state::{Location, LocationModel};
use crate::textscan::{find_type_by_text_scan, scanned_type};
use crate::uri::{priority_for_uri, priority_of, scheme_of};
use crate::rope::{
    byte_offset, char_at_byte, rope_byte_to_char, rope_char, rope_len_bytes, rope_len_chars,
    rope_text,
};
use crate::state::{
    classes_by_short_name, members_of_class, ClassLocation, ClassModel, FileInfo, FileInfoModel,
    FileModel, GlobalIndex, MemberLocation, MemberModel,
};
use crate::syntax::{FieldName, NodeKind, NodeModel, SyntaxTree};
use crate::text::{
    begins_with_owner, char_is_whitespace, ends_with_segment, first_segment, first_segment_of,
    has_last_segment, has_owner, is_space, segments_of, split_dots,
};
use crate::utils::{
    child_by_field, child_with_field, first_some, get_node_text, lemma_first_some_end,
    lemma_first_some_step, node_text, parent_kind,
};

verus! {

/// The node that qualifies the reference at node `id`: the `object` of the
/// field access or method call of which it is a part, unless it is that
/// object itself.
pub open spec fn qualifier_node(nodes: Seq<NodeModel>, id: int) -> Option<int> {
    if parent_kind(nodes, id) == Some(NodeKind::FieldAccess) || parent_kind(nodes, id) == Some(
        NodeKind::MethodInvocation,
    ) {
        match child_with_field(nodes, nodes[id].parent->0, FieldName::Object) {
            Some(o) => if o != id {
                Some(o)
            } else {
                None
            },
            None => None,
        }
    } else {
        None
    }
}

/// The node that qualifies the reference at `node`.
pub fn qualifier_of(tree: &SyntaxTree, node: usize) -> (r: Option<usize>)
    requires
        node < tree@.len(),
    ensures
        match r {
            Some(o) => qualifier_node(tree@, node as int) == Some(o as int) && o < tree@.len(),
            None => qualifier_node(tree@, node as int) is None,
        },
{
    match tree.parent(node) {
        Some(p) => {
            let kind = tree.kind(p);
            if kind == NodeKind::FieldAccess || kind == NodeKind::MethodInvocation {
                match child_by_field(tree, p, FieldName::Object) {
                    Some(o) => if o != node {
                        Some(o)
                    } else {
                        None
                    },
                    None => None,
                }
            } else {
                None
            }
        },
        None => None,
    }
}

/// The text of the qualifier of the reference at `node`.
pub fn resolve_qualifier(tree: &SyntaxTree, node: usize, rope: &Rope) -> (r: Option<String>)
    requires
        node < tree@.len(),
    ensures
        r.deep_view() == (match qualifier_node(tree@, node as int) {
            Some(o) => Some(node_text(tree@, rope_text(*rope), o)),
            None => None,
        }),
{
    match qualifier_of(tree, node) {
        Some(o) => Some(get_node_text(tree, o, rope)),
        None => None,
    }
}

/// The first char of `text` at or after index `i` that is no white space.
pub open spec fn next_solid(text: Seq<char>, i: int) -> Option<char>
    decreases text.len() - i,
{
    if i < 0 || i >= text.len() {
        None
    } else if is_space(text[i]) {
        next_solid(text, i + 1)
    } else {
        Some(text[i])
    }
}

/// Whether an opening parenthesis follows node `id`, white space apart.
pub open spec fn followed_by_paren(nodes: Seq<NodeModel>, text: Seq<char>, id: int) -> bool {
    nodes[id].end_byte <= byte_offset(text, text.len() as int) && next_solid(
        text,
        char_at_byte(text, nodes[id].end_byte),
    ) == Some('(')
}

/// Whether an opening parenthesis follows `node`.
#[verifier::loop_isolation(false)]
pub fn is_followed_by_paren(tree: &SyntaxTree, node: usize, rope: &Rope) -> (r: bool)
    requires
        node < tree@.len(),
    ensures
        r == followed_by_paren(tree@, rope_text(*rope), node as int),
{
    let end = tree.end_byte(node);
    if end > rope_len_bytes(rope) {
        return false;
    }
    let ghost text = rope_text(*rope);
    let len = rope_len_chars(rope);
    let mut i = rope_byte_to_char(rope, end);
    let ghost from = i as int;
    while i < len
        invariant
            i <= len,
            len == text.len(),
            text == rope_text(*rope),
            next_solid(text, from) == next_solid(text, i as int),
        decreases len - i,
    {
        let ch = rope_char(rope, i);
        if !char_is_whitespace(ch) {
            return ch == '(';
        }
        i += 1;
    }
    false
}

/// The qualified name that the class name `name` stands for in a file with
/// the facts `info`, among the classes `candidates` of that short name: the
/// imported one, else the one of the file's package, else the one of
/// `java.lang`, else the first candidate. None without candidates.
pub open spec fn class_among(
    candidates: Seq<ClassModel>,
    info: Option<FileInfoModel>,
    name: Seq<char>,
) -> Option<Seq<char>> {
    if candidates.len() == 0 {
        None
    } else {
        let imported = match info {
            Some(i) => imported_symbol(candidates, i.imports, name),
            None => None,
        };
        match imported {
            Some(c) => Some(c.fqcn),
            None => {
                let packaged = match info {
                    Some(i) => match i.package_name {
                        Some(pkg) => same_package_symbol(candidates, pkg, name),
                        None => None,
                    },
                    None => None,
                };
                match packaged {
                    Some(c) => Some(c.fqcn),
                    None => match java_lang_symbol(candidates) {
                        Some(c) => Some(c.fqcn),
                        None => Some(candidates[0].fqcn),
                    },
                }
            },
        }
    }
}

/// The qualified name that the class name `name` stands for, going by the
/// index.
pub open spec fn class_for_name(
    files: Seq<FileModel>,
    info: Option<FileInfoModel>,
    name: Seq<char>,
) -> Option<Seq<char>> {
    class_among(classes_by_short_name(files, name), info, name)
}

/// The qualified name that `name` stands for among `candidates`.
pub fn resolve_class_among(
    candidates: &Vec<ClassLocation>,
    name: &str,
    file_info: Option<&FileInfo>,
) -> (r: Option<String>)
    ensures
        r.deep_view() == class_among(candidates.deep_view(), file_info.deep_view(), name@),
{
    if candidates.len() == 0 {
        return None;
    }
    let all = candidates.as_slice();
    assert(all.deep_view() =~= candidates.deep_view());
    match file_info {
        Some(info) => {
            let imports = info.imports.as_slice();
            assert(imports.deep_view() =~= info.imports.deep_view());
            match match_imported_symbol(all, imports, name) {
                Some(loc) => {
                    return Some(loc.fqcn);
                },
                None => {},
            }
            match &info.package_name {
                Some(pkg) => {
                    match match_same_package(all, pkg.as_str(), name) {
                        Some(loc) => {
                            return Some(loc.fqcn);
                        },
                        None => {},
                    }
                },
                None => {},
            }
        },
        None => {},
    }
    match match_java_lang(all) {
        Some(loc) => {
            return Some(loc.fqcn);
        },
        None => {},
    }
    Some(candidates[0].fqcn.clone())
}

/// The qualified name that the class name `name` stands for.
pub fn resolve_class_from_name(name: &str, index: &GlobalIndex, file_info: Option<&FileInfo>) -> (r:
    Option<String>)
    ensures
        r.deep_view() == class_for_name(index.deep_view(), file_info.deep_view(), name@),
{
    let candidates = index.classes_by_short_name(name);
    resolve_class_among(&candidates, name, file_info)
}

/// Picks the field whose qualified name ends in a dot and `part`.
pub open spec fn field_named(part: Seq<char>) -> spec_fn(MemberModel) -> Option<MemberModel> {
    |m: MemberModel|
        if m.is_field && ends_with_segment(m.fqmn, part) {
            Some(m)
        } else {
            None
        }
}

/// The class of the field `part` of the class `current`: the class that the
/// field's declared type names, resolved like a class name, or that name as
/// it stands where the index knows no such class. None where the class has
/// no such field or the field is of no class type.
pub open spec fn chain_step(
    files: Seq<FileModel>,
    info: FileInfoModel,
    current: Seq<char>,
    part: Seq<char>,
) -> Option<Seq<char>> {
    match first_some(members_of_class(files, current), field_named(part)) {
        Some(m) => match m.field_type {
            Some(TypeModel::Class(n)) => Some(
                match class_for_name(files, Some(info), n) {
                    Some(fqcn) => fqcn,
                    None => n,
                },
            ),
            _ => None,
        },
        None => None,
    }
}

/// The class reached from `current` through the fields `parts`, one after
/// the other.
pub open spec fn chain_from(
    files: Seq<FileModel>,
    info: FileInfoModel,
    current: Seq<char>,
    parts: Seq<Seq<char>>,
) -> Option<Seq<char>>
    decreases parts.len(),
{
    if parts.len() == 0 {
        Some(current)
    } else {
        match chain_step(files, info, current, parts[0]) {
            Some(next) => chain_from(files, info, next, parts.drop_first()),
            None => None,
        }
    }
}

/// The class that the dotted qualifier `qualifier` stands for: its first
/// segment read as a class name, each further segment as a field of the
/// class reached so far.
pub open spec fn qualifier_chain(
    files: Seq<FileModel>,
    info: FileInfoModel,
    qualifier: Seq<char>,
) -> Option<Seq<char>> {
    let parts = segments_of(qualifier);
    match class_for_name(files, Some(info), parts[0]) {
        Some(c) => chain_from(files, info, c, parts.drop_first()),
        None => None,
    }
}

/// The class of the field `part` of the class `current`.
fn chain_step_of(index: &GlobalIndex, file_info: &FileInfo, current: &str, part: &str) -> (r:
    Option<String>)
    ensures
        r.deep_view() == chain_step(index.deep_view(), file_info.deep_view(), current@, part@),
{
    let members = index.members_of_class(current);
    let ghost items = members.deep_view();
    let ghost f = field_named(part@);
    let mut k: usize = 0;
    proof {
        lemma_first_some_end(items, f);
    }
    while k < members.len()
        invariant
            k <= members.len(),
            items == members.deep_view(),
            items == members_of_class(index.deep_view(), current@),
            f == field_named(part@),
            first_some(items, f) == first_some(items.skip(k as int), f),
        decreases members.len() - k,
    {
        proof {
            lemma_first_some_step(items, f, k as int);
        }
        let m = &members[k];
        if m.is_field && has_last_segment(m.fqmn.as_str(), part) {
            return match &m.field_type {
                Some(InferredType::Class(n)) => {
                    match resolve_class_from_name(n.as_str(), index, Some(file_info)) {
                        Some(fqcn) => Some(fqcn),
                        None => Some(n.clone()),
                    }
                },
                _ => None,
            };
        }
        k += 1;
    }
    proof {
        lemma_first_some_end(items, f);
    }
    None
}

/// The class that the dotted qualifier `qualifier` stands for.
#[verifier::loop_isolation(false)]
pub fn resolve_qualifier_chain(qualifier: &str, index: &GlobalIndex, file_info: &FileInfo) -> (r:
    Option<String>)
    ensures
        r.deep_view() == qualifier_chain(index.deep_view(), file_info.deep_view(), qualifier@),
{
    let parts = split_dots(qualifier);
    let ghost segs = segments_of(qualifier@);
    let ghost files = index.deep_view();
    let ghost info = file_info.deep_view();
    let mut current = match resolve_class_from_name(parts[0].as_str(), index, Some(file_info)) {
        Some(c) => c,
        None => {
            return None;
        },
    };
    let ghost first = current@;
    let mut i: usize = 1;
    assert(segs.skip(1) =~= segs.drop_first());
    while i < parts.len()
        invariant
            1 <= i <= parts.len(),
            segs == parts.deep_view(),
            files == index.deep_view(),
            info == file_info.deep_view(),
            chain_from(files, info, first, segs.drop_first()) == chain_from(
                files,
                info,
                current@,
                segs.skip(i as int),
            ),
        decreases parts.len() - i,
    {
        proof {
            assert(segs.skip(i as int)[0] == parts[i as int]@);
            assert(segs.skip(i as int).drop_first() =~= segs.skip(i + 1));
        }
        current = match chain_step_of(index, file_info, current.as_str(), parts[i].as_str()) {
            Some(next) => next,
            None => {
                return None;
            },
        };
        i += 1;
    }
    assert(segs.skip(parts.len() as int).len() == 0);
    Some(current)
}

/// For a declaration of a local or a field: the text of its type, if it
/// declares `name`.
pub open spec fn typing(nodes: Seq<NodeModel>, text: Seq<char>, name: Seq<char>) -> spec_fn(
    int,
) -> Option<Seq<char>> {
    |i: int|
        if nodes[i].kind == NodeKind::LocalVariableDeclaration || nodes[i].kind
            == NodeKind::FieldDeclaration {
            match child_with_field(nodes, i, FieldName::Type) {
                Some(t) => if declarator_named(nodes, text, i, name) is Some {
                    Some(node_text(nodes, text, t))
                } else {
                    None
                },
                None => None,
            }
        } else {
            None
        }
}

/// The positions of all nodes, last first.
pub open spec fn nodes_backwards(nodes: Seq<NodeModel>) -> Seq<int> {
    Seq::new(nodes.len(), |k: int| nodes.len() - 1 - k)
}

/// The type text under which the document declares a local or field named
/// `name`, whatever its scope: that of the last such declaration.
pub open spec fn identifier_type(nodes: Seq<NodeModel>, text: Seq<char>, name: Seq<char>) -> Option<
    Seq<char>,
> {
    first_some(nodes_backwards(nodes), typing(nodes, text, name))
}

/// The type text under which the document declares a local or field named
/// `name`.
pub fn find_identifier_type(tree: &SyntaxTree, rope: &Rope, name: &str) -> (r: Option<String>)
    ensures
        r.deep_view() == identifier_type(tree@, rope_text(*rope), name@),
{
    let ghost text = rope_text(*rope);
    let ghost f = typing(tree@, text, name@);
    let ghost items = nodes_backwards(tree@);
    let n = tree.len();
    let mut k: usize = 0;
    proof {
        lemma_first_some_end(items, f);
    }
    while k < n
        invariant
            k <= n,
            n == tree@.len(),
            text == rope_text(*rope),
            items == nodes_backwards(tree@),
            f == typing(tree@, text, name@),
            first_some(items, f) == first_some(items.skip(k as int), f),
        decreases n - k,
    {
        let i = n - 1 - k;
        proof {
            lemma_first_some_step(items, f, k as int);
            assert(items[k as int] == i as int);
        }
        let kind = tree.kind(i);
        if kind == NodeKind::LocalVariableDeclaration || kind == NodeKind::FieldDeclaration {
            match child_by_field(tree, i, FieldName::Type) {
                Some(t) => {
                    if find_in_declarators(tree, rope, i, name).is_some() {
                        return Some(get_node_text(tree, t, rope));
                    }
                },
                None => {},
            }
        }
        k += 1;
    }
    proof {
        lemma_first_some_end(items, f);
    }
    None
}

/// The type text under which the document declares the variable `name`, as
/// far as can be told without regard to scope: by its declarations, else by
/// the look of its lines.
pub open spec fn variable_type(nodes: Seq<NodeModel>, text: Seq<char>, name: Seq<char>) -> Option<
    Seq<char>,
> {
    match identifier_type(nodes, text, name) {
        Some(t) => Some(t),
        None => scanned_type(text, name),
    }
}

/// The class of the variable `name`: the class that its type names, or the
/// type as it stands where the index knows no such class.
pub open spec fn variable_class(
    nodes: Seq<NodeModel>,
    text: Seq<char>,
    files: Seq<FileModel>,
    info: FileInfoModel,
    name: Seq<char>,
) -> Option<Seq<char>> {
    match variable_type(nodes, text, name) {
        Some(t) => Some(
            match class_for_name(files, Some(info), t) {
                Some(c) => c,
                None => t,
            },
        ),
        None => None,
    }
}

/// The class of the variable `name`.
pub fn resolve_variable_class(
    tree: &SyntaxTree,
    rope: &Rope,
    name: &str,
    index: &GlobalIndex,
    file_info: &FileInfo,
) -> (r: Option<String>)
    ensures
        r.deep_view() == variable_class(
            tree@,
            rope_text(*rope),
            index.deep_view(),
            file_info.deep_view(),
            name@,
        ),
{
    let declared = match find_identifier_type(tree, rope, name) {
        Some(t) => Some(t),
        None => find_type_by_text_scan(rope, name),
    };
    match declared {
        Some(t) => match resolve_class_from_name(t.as_str(), index, Some(file_info)) {
            Some(c) => Some(c),
            None => Some(t),
        },
        None => None,
    }
}

/// The class that owns the members meant by the qualifier `qualifier`: the
/// class that the qualifier names as a chain; else the class of the
/// variable of that name; else what the file's imports and package make of
/// the qualifier's head among the indexed classes of that short name.
pub open spec fn owner_of(
    nodes: Seq<NodeModel>,
    text: Seq<char>,
    files: Seq<FileModel>,
    info: FileInfoModel,
    qualifier: Seq<char>,
) -> Option<Seq<char>> {
    match qualifier_chain(files, info, qualifier) {
        Some(c) => Some(c),
        None => match variable_class(nodes, text, files, info, qualifier) {
            Some(c) => Some(c),
            None => qualifier_fqcn(
                qualifier,
                classes_by_short_name(files, first_segment_of(qualifier)),
                info,
            ),
        },
    }
}

/// The class that owns the members meant by `qualifier`.
pub fn resolve_qualifier_type(
    tree: &SyntaxTree,
    rope: &Rope,
    qualifier: &str,
    index: &GlobalIndex,
    file_info: &FileInfo,
) -> (r: Option<String>)
    ensures
        r.deep_view() == owner_of(
            tree@,
            rope_text(*rope),
            index.deep_view(),
            file_info.deep_view(),
            qualifier@,
        ),
{
    match resolve_qualifier_chain(qualifier, index, file_info) {
        Some(c) => {
            return Some(c);
        },
        None => {},
    }
    match resolve_variable_class(tree, rope, qualifier, index, file_info) {
        Some(c) => {
            return Some(c);
        },
        None => {},
    }
    let head = first_segment(qualifier);
    let candidates = index.classes_by_short_name(head.as_str());
    let all = candidates.as_slice();
    assert(all.deep_view() =~= candidates.deep_view());
    resolve_qualifier_fqcn(qualifier, all, file_info)
}

/// The score of argument `i` of `args` against the parameter type of the
/// member that it falls to; none where it has no parameter or the score is
/// negative.
pub open spec fn member_arg_score(
    nodes: Seq<NodeModel>,
    text: Seq<char>,
    member: MemberModel,
    args: Seq<int>,
    i: int,
) -> Option<int> {
    let p = param_index(member.param_types.len() as int, member.is_varargs, i);
    if 0 <= p < member.param_types.len() {
        let s = score_of(inferred(nodes, text, args[i]), type_named(member.param_types[p]));
        if s < 0 {
            None
        } else {
            Some(s)
        }
    } else {
        None
    }
}

/// The sum of the scores of the first `n` arguments against the member;
/// none as soon as one of them has none.
pub open spec fn member_args_score(
    nodes: Seq<NodeModel>,
    text: Seq<char>,
    member: MemberModel,
    args: Seq<int>,
    n: int,
) -> Option<int>
    decreases n,
{
    if n <= 0 {
        Some(0)
    } else {
        match member_args_score(nodes, text, member, args, n - 1) {
            Some(acc) => match member_arg_score(nodes, text, member, args, n - 1) {
                Some(s) => Some(acc + s),
                None => None,
            },
            None => None,
        }
    }
}

/// How well an indexed member fits a call with the arguments `args`. A
/// member without recorded parameter types fits any call with score 0; any
/// other is rejected as soon as one argument scores negative against its
/// parameter.
pub open spec fn member_score(
    nodes: Seq<NodeModel>,
    text: Seq<char>,
    member: MemberModel,
    args: Seq<int>,
) -> Option<int> {
    if member.param_types.len() == 0 {
        Some(0)
    } else {
        member_args_score(nodes, text, member, args, args.len() as int)
    }
}

/// Once an argument is rejected, no longer sum has a value.
pub proof fn lemma_member_score_rejected(
    nodes: Seq<NodeModel>,
    text: Seq<char>,
    member: MemberModel,
    args: Seq<int>,
    k: int,
    n: int,
)
    requires
        0 <= k <= n,
        member_args_score(nodes, text, member, args, k) is None,
    ensures
        member_args_score(nodes, text, member, args, n) is None,
    decreases n,
{
    if n > k {
        lemma_member_score_rejected(nodes, text, member, args, k, n - 1);
    }
}

/// How well `member` fits a call with the arguments `call_args`.
pub fn score_member(solver: &TypeSolver<'_>, member: &MemberLocation, call_args: &Vec<usize>) -> (r:
    Option<i128>)
    requires
        forall|j: int| 0 <= j < call_args.len() ==> #[trigger] call_args[j] < solver.tree@.len(),
    ensures
        match r {
            Some(s) => member_score(
                solver.tree@,
                rope_text(*solver.rope),
                member.deep_view(),
                call_args@.map_values(|c: usize| c as int),
            ) == Some(s as int) && 0 <= s <= 100 * call_args.len(),
            None => member_score(
                solver.tree@,
                rope_text(*solver.rope),
                member.deep_view(),
                call_args@.map_values(|c: usize| c as int),
            ) is None,
        },
{
    let ghost nodes = solver.tree@;
    let ghost text = rope_text(*solver.rope);
    let ghost ids = call_args@.map_values(|c: usize| c as int);
    let ghost model = member.deep_view();
    let count = member.param_types.len();
    if count == 0 {
        return Some(0);
    }
    let mut total: i128 = 0;
    let mut i: usize = 0;
    while i < call_args.len()
        invariant
            i <= call_args.len(),
            nodes == solver.tree@,
            text == rope_text(*solver.rope),
            ids == call_args@.map_values(|c: usize| c as int),
            model == member.deep_view(),
            count == member.param_types.len(),
            count > 0,
            forall|j: int| 0 <= j < call_args.len() ==> #[trigger] call_args[j] < nodes.len(),
            member_args_score(nodes, text, model, ids, i as int) == Some(total as int),
            0 <= total <= 100 * i,
        decreases call_args.len() - i,
    {
        let p = if member.is_varargs && i >= count - 1 {
            count - 1
        } else {
            i
        };
        assert(ids[i as int] == call_args[i as int] as int);
        if p >= count {
            proof {
                assert(member_arg_score(nodes, text, model, ids, i as int) is None);
                lemma_member_score_rejected(nodes, text, model, ids, i + 1, call_args.len() as int);
            }
            return None;
        }
        assert(model.param_types[p as int] == member.param_types[p as int]@);
        let arg_type = solver.infer(call_args[i]);
        let param_type = parse_type_name(member.param_types[p].as_str());
        let score = calculate_score(&arg_type, &param_type);
        if score < 0 {
            proof {
                assert(member_arg_score(nodes, text, model, ids, i as int) is None);
                lemma_member_score_rejected(nodes, text, model, ids, i + 1, call_args.len() as int);
            }
            return None;
        }
        total = total + score as i128;
        i += 1;
    }
    Some(total)
}

/// What ranks one member against another; compared part by part, in the
/// order of the fields, the smaller first.
pub struct MemberKey {
    pub kind_rank: int,
    pub varargs: int,
    pub neg_score: int,
    pub distance: int,
    pub priority: int,
}

/// Whether the key `a` ranks strictly before the key `b`.
pub open spec fn key_less(a: MemberKey, b: MemberKey) -> bool {
    if a.kind_rank != b.kind_rank {
        a.kind_rank < b.kind_rank
    } else if a.varargs != b.varargs {
        a.varargs < b.varargs
    } else if a.neg_score != b.neg_score {
        a.neg_score < b.neg_score
    } else if a.distance != b.distance {
        a.distance < b.distance
    } else {
        a.priority < b.priority
    }
}

/// A member rank as computed.
#[derive(Debug, Clone, Copy)]
pub struct RankKey {
    pub kind_rank: u8,
    pub varargs: bool,
    pub neg_score: i128,
    pub distance: usize,
    pub priority: i32,
}

impl View for RankKey {
    type V = MemberKey;

    open spec fn view(&self) -> MemberKey {
        MemberKey {
            kind_rank: self.kind_rank as int,
            varargs: if self.varargs {
                1
            } else {
                0
            },
            neg_score: self.neg_score as int,
            distance: self.distance as int,
            priority: self.priority as int,
        }
    }
}

impl RankKey {
    /// Whether this key ranks strictly before `other`.
    pub fn before(&self, other: &RankKey) -> (r: bool)
        ensures
            r == key_less(self@, other@),
    {
        if self.kind_rank != other.kind_rank {
            self.kind_rank < other.kind_rank
        } else if self.varargs != other.varargs {
            !self.varargs
        } else if self.neg_score != other.neg_score {
            self.neg_score < other.neg_score
        } else if self.distance != other.distance {
            self.distance < other.distance
        } else {
            self.priority < other.priority
        }
    }
}

/// How far apart two counts are.
pub open spec fn distance(a: int, b: int) -> int {
    if a >= b {
        a - b
    } else {
        b - a
    }
}

/// How a reference is made, as far as the choice among members goes.
pub struct Usage {
    /// The class that must own the member, where the qualifier names one.
    pub owner: Option<Seq<char>>,
    /// Whether the reference is the name of a call.
    pub call_like: bool,
    /// The arguments of the call.
    pub args: Seq<int>,
}

/// Whether the member can be meant at all: it belongs to the owner, is no
/// field where a call is made, and fits the call by number.
pub open spec fn admissible(usage: Usage, m: MemberModel) -> bool {
    &&& match usage.owner {
        Some(o) => begins_with_owner(m.fqmn, o),
        None => true,
    }
    &&& !(usage.call_like && m.is_field)
    &&& arity_fits(m, usage.args.len())
}

/// The rank of a member that fits the call with the score `score`: for a
/// plain reference without arguments fields come first; then members
/// without a variadic parameter; then the higher score; then the parameter
/// count nearer to the argument count; then the place it comes from: a
/// file, the archive's platform packages, the rest of the archive, any
/// other scheme.
pub open spec fn scored_key(usage: Usage, m: MemberModel, score: int) -> MemberKey {
    MemberKey {
        kind_rank: if !usage.call_like && usage.args.len() == 0 && !m.is_field {
            1
        } else {
            0
        },
        varargs: if m.is_varargs {
            1
        } else {
            0
        },
        neg_score: -score,
        distance: distance(m.param_count as int, usage.args.len() as int),
        priority: priority_of(scheme_of(m.uri), m.fqmn),
    }
}

/// The rank of a member where no member fits the call by type: members
/// without a variadic parameter first, then by the place they come from,
/// then the fewer parameters.
pub open spec fn unscored_key(m: MemberModel) -> MemberKey {
    MemberKey {
        kind_rank: 0,
        varargs: if m.is_varargs {
            1
        } else {
            0
        },
        neg_score: priority_of(scheme_of(m.uri), m.fqmn),
        distance: m.param_count as int,
        priority: 0,
    }
}

/// The rank of member `m` in the round `scored`, if it takes part in it: in
/// the scored round the admissible members that fit the call by type, in the
/// other all admissible members.
pub open spec fn round_key(
    nodes: Seq<NodeModel>,
    text: Seq<char>,
    usage: Usage,
    m: MemberModel,
    scored: bool,
) -> Option<MemberKey> {
    if !admissible(usage, m) {
        None
    } else if scored {
        match member_score(nodes, text, m, usage.args) {
            Some(s) => Some(scored_key(usage, m, s)),
            None => None,
        }
    } else {
        Some(unscored_key(m))
    }
}

/// The position of the best-ranked member among the first `n` that take
/// part in the round, with its rank; of several that rank best, the first.
pub open spec fn best_member(
    nodes: Seq<NodeModel>,
    text: Seq<char>,
    usage: Usage,
    members: Seq<MemberModel>,
    scored: bool,
    n: int,
) -> Option<(int, MemberKey)>
    decreases n,
{
    if n <= 0 {
        None
    } else {
        let prev = best_member(nodes, text, usage, members, scored, n - 1);
        match round_key(nodes, text, usage, members[n - 1], scored) {
            Some(key) => match prev {
                Some((_, best)) => if key_less(key, best) {
                    Some((n - 1, key))
                } else {
                    prev
                },
                None => Some((n - 1, key)),
            },
            None => prev,
        }
    }
}

/// The member that the reference means: the best-ranked of those that fit
/// the call by type; where none does, the best-ranked of those that fit it
/// by number.
pub open spec fn chosen_member(
    nodes: Seq<NodeModel>,
    text: Seq<char>,
    usage: Usage,
    members: Seq<MemberModel>,
) -> Option<MemberModel> {
    match best_member(nodes, text, usage, members, true, members.len() as int) {
        Some((i, _)) => Some(members[i]),
        None => match best_member(nodes, text, usage, members, false, members.len() as int) {
            Some((i, _)) => Some(members[i]),
            None => None,
        },
    }
}

/// The usage as the spec sees it.
pub open spec fn usage_of(owner: Option<String>, call_like: bool, call_args: Vec<usize>) -> Usage {
    Usage {
        owner: owner.deep_view(),
        call_like,
        args: call_args@.map_values(|c: usize| c as int),
    }
}

/// The member among `members` that a reference means, given the class that
/// must own it, whether it is a call, and the arguments.
pub fn choose_member(
    solver: &TypeSolver<'_>,
    members: &Vec<MemberLocation>,
    owner: &Option<String>,
    call_like: bool,
    call_args: &Vec<usize>,
) -> (r: Option<usize>)
    requires
        forall|j: int| 0 <= j < call_args.len() ==> #[trigger] call_args[j] < solver.tree@.len(),
    ensures
        match r {
            Some(i) => i < members.len() && chosen_member(
                solver.tree@,
                rope_text(*solver.rope),
                usage_of(*owner, call_like, *call_args),
                members.deep_view(),
            ) == Some(members[i as int].deep_view()),
            None => chosen_member(
                solver.tree@,
                rope_text(*solver.rope),
                usage_of(*owner, call_like, *call_args),
                members.deep_view(),
            ) is None,
        },
{
    let ghost nodes = solver.tree@;
    let ghost text = rope_text(*solver.rope);
    let ghost usage = usage_of(*owner, call_like, *call_args);
    let ghost models = members.deep_view();
    let arg_count = call_args.len();
    assert(usage.args.len() == arg_count);
    let mut best_scored: Option<(usize, RankKey)> = None;
    let mut best_other: Option<(usize, RankKey)> = None;
    let mut k: usize = 0;
    while k < members.len()
        invariant
            k <= members.len(),
            nodes == solver.tree@,
            text == rope_text(*solver.rope),
            usage == usage_of(*owner, call_like, *call_args),
            models == members.deep_view(),
            arg_count == call_args.len(),
            usage.args.len() == arg_count,
            forall|j: int| 0 <= j < call_args.len() ==> #[trigger] call_args[j] < nodes.len(),
            match best_scored {
                Some((i, key)) => i < k && best_member(nodes, text, usage, models, true, k as int)
                    == Some((i as int, key@)),
                None => best_member(nodes, text, usage, models, true, k as int) is None,
            },
            match best_other {
                Some((i, key)) => i < k && best_member(nodes, text, usage, models, false, k as int)
                    == Some((i as int, key@)),
                None => best_member(nodes, text, usage, models, false, k as int) is None,
            },
        decreases members.len() - k,
    {
        let m = &members[k];
        assert(models[k as int] == m.deep_view());
        let owned = match owner {
            Some(o) => has_owner(m.fqmn.as_str(), o.as_str()),
            None => true,
        };
        if owned && !(call_like && m.is_field) && match_member_arity(m, arg_count) {
            let priority = priority_for_uri(m.uri.as_str(), m.fqmn.as_str());
            let other = RankKey {
                kind_rank: 0,
                varargs: m.is_varargs,
                neg_score: priority as i128,
                distance: m.param_count,
                priority: 0,
            };
            let better = match &best_other {
                Some((_, b)) => other.before(b),
                None => true,
            };
            if better {
                best_other = Some((k, other));
            }
            match score_member(solver, m, call_args) {
                Some(score) => {
                    let key = RankKey {
                        kind_rank: if !call_like && arg_count == 0 && !m.is_field {
                            1
                        } else {
                            0
                        },
                        varargs: m.is_varargs,
                        neg_score: -score,
                        distance: if m.param_count >= arg_count {
                            m.param_count - arg_count
                        } else {
                            arg_count - m.param_count
                        },
                        priority,
                    };
                    let better = match &best_scored {
                        Some((_, b)) => key.before(b),
                        None => true,
                    };
                    if better {
                        best_scored = Some((k, key));
                    }
                },
                None => {},
            }
        }
        k += 1;
    }
    match best_scored {
        Some((i, _)) => Some(i),
        None => match best_other {
            Some((i, _)) => Some(i),
            None => None,
        },
    }
}

/// Whether the reference at node `id` is the name of a call: it is part of
/// a method call, or an opening parenthesis follows it.
pub open spec fn call_like(nodes: Seq<NodeModel>, text: Seq<char>, id: int) -> bool {
    parent_kind(nodes, id) == Some(NodeKind::MethodInvocation) || followed_by_paren(
        nodes,
        text,
        id,
    )
}

/// Whether the reference at node `id` can mean a member of another class:
/// it has a qualifier, is part of a field access or method call, or is the
/// name of a call.
pub open spec fn member_lookup_allowed(nodes: Seq<NodeModel>, text: Seq<char>, id: int) -> bool {
    qualifier_node(nodes, id) is Some || parent_kind(nodes, id) == Some(NodeKind::FieldAccess)
        || call_like(nodes, text, id)
}

/// The member that the reference at node `id` means among `members`, the
/// members of its name: where member lookup is allowed, the chosen one among
/// those of the class that the qualifier stands for, or among all where
/// there is no qualifier or it stands for nothing known.
pub open spec fn member_match(
    nodes: Seq<NodeModel>,
    text: Seq<char>,
    id: int,
    members: Seq<MemberModel>,
    files: Seq<FileModel>,
    info: FileInfoModel,
    args: Seq<int>,
) -> Option<LocationModel> {
    if member_lookup_allowed(nodes, text, id) {
        let owner = match qualifier_node(nodes, id) {
            Some(q) => owner_of(nodes, text, files, info, node_text(nodes, text, q)),
            None => None,
        };
        match chosen_member(
            nodes,
            text,
            Usage { owner, call_like: call_like(nodes, text, id), args },
            members,
        ) {
            Some(m) => Some(LocationModel { uri: m.uri, range: m.range }),
            None => None,
        }
    } else {
        None
    }
}

/// Whether the reference at `node` is the name of a call.
pub fn is_call_like(tree: &SyntaxTree, node: usize, rope: &Rope) -> (r: bool)
    requires
        node < tree@.len(),
    ensures
        r == call_like(tree@, rope_text(*rope), node as int),
{
    let in_call = match tree.parent(node) {
        Some(p) => tree.kind(p) == NodeKind::MethodInvocation,
        None => false,
    };
    in_call || is_followed_by_paren(tree, node, rope)
}

/// The member that the reference at `node` means among `members`.
pub fn match_member(
    tree: &SyntaxTree,
    node: usize,
    rope: &Rope,
    members: &Vec<MemberLocation>,
    file_info: &FileInfo,
    index: &GlobalIndex,
    call_args: &Vec<usize>,
    current_uri: &str,
) -> (r: Option<Location>)
    requires
        node < tree@.len(),
        forall|j: int| 0 <= j < call_args.len() ==> #[trigger] call_args[j] < tree@.len(),
    ensures
        r.deep_view() == member_match(
            tree@,
            rope_text(*rope),
            node as int,
            members.deep_view(),
            index.deep_view(),
            file_info.deep_view(),
            call_args@.map_values(|c: usize| c as int),
        ),
{
    let qualifier = qualifier_of(tree, node);
    let calling = is_call_like(tree, node, rope);
    let in_access = match tree.parent(node) {
        Some(p) => tree.kind(p) == NodeKind::FieldAccess,
        None => false,
    };
    if qualifier.is_none() && !in_access && !calling {
        return None;
    }
    let owner = match qualifier {
        Some(q) => {
            let text = get_node_text(tree, q, rope);
            resolve_qualifier_type(tree, rope, text.as_str(), index, file_info)
        },
        None => None,
    };
    let solver = TypeSolver::new(tree, rope, index, current_uri);
    match choose_member(&solver, members, &owner, calling, call_args) {
        Some(i) => Some(members[i].location()),
        None => None,
    }
}

} // verus!
