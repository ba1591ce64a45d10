//! The Java service: go-to-definition, completion and the document outline.

use vstd::prelude::*;
use ropey::Rope;
use tree_sitter::Language;
use crate::ast::{call_args, get_call_args};
use crate::completion::{complete, completion_items, CompletionItem};
use crate::outline::{document_outline, document_symbols, symbols_model, DocumentSymbol};
use crate::lang::LanguageService;
use crate::resolve::{match_member, member_match, qualifier_node, qualifier_of};
use crate::rope::rope_text;
use crate::scope::{
    find_definition_in_file, find_local_variable, local_from, member_from, prefers_field,
};
use crate::state::{
    classes_by_short_name, file_facts, members_by_name, ClassLocation, ClassModel, FileInfo,
    FileInfoModel, FileModel, GlobalIndex, Location, LocationModel, MemberLocation, MemberModel,
    Position, Range,
};
use crate::syntax::{node_range, FieldName, NodeModel, SyntaxTree};
use crate::uri::{scheme_of, uri_scheme};
use crate::utils::{
    child_by_field, child_with_field, get_node_at_pos, get_node_text, name_node_at, node_text,
};
use crate::text::{
    dotted, ends_with_segment, first_segment, first_segment_of, has_last_segment, is_prefix,
    join_dot, starts_with, str_eq,
};
use crate::utils::{first_some, lemma_first_some_end, lemma_first_some_step};

verus! {

/// The Java language service.
pub struct JavaService;

/// Picks the class whose qualified name is `fqcn`.
pub open spec fn with_fqcn(fqcn: Seq<char>) -> spec_fn(ClassModel) -> Option<ClassModel> {
    |c: ClassModel|
        if c.fqcn == fqcn {
            Some(c)
        } else {
            None
        }
}

/// The first candidate whose qualified name is `fqcn`.
pub open spec fn first_with_fqcn(candidates: Seq<ClassModel>, fqcn: Seq<char>) -> Option<
    ClassModel,
> {
    first_some(candidates, with_fqcn(fqcn))
}

/// For an import: the candidate it names, if its last segment is `target`.
pub open spec fn import_hit(candidates: Seq<ClassModel>, target: Seq<char>) -> spec_fn(
    Seq<char>,
) -> Option<ClassModel> {
    |import: Seq<char>|
        if ends_with_segment(import, target) {
            first_with_fqcn(candidates, import)
        } else {
            None
        }
}

/// The class that an explicit import brings in under the name `target`: for
/// the first import that ends in `.target` and names a candidate, the first
/// such candidate.
pub open spec fn imported_symbol(
    candidates: Seq<ClassModel>,
    imports: Seq<Seq<char>>,
    target: Seq<char>,
) -> Option<ClassModel> {
    first_some(imports, import_hit(candidates, target))
}

/// The class `target` of the package `package`: the first candidate whose
/// qualified name is the package, a dot, and the target.
pub open spec fn same_package_symbol(
    candidates: Seq<ClassModel>,
    package: Seq<char>,
    target: Seq<char>,
) -> Option<ClassModel> {
    first_with_fqcn(candidates, dotted(package, target))
}

/// Picks the class declared in the file `uri`.
pub open spec fn in_file(uri: Seq<char>) -> spec_fn(ClassModel) -> Option<ClassModel> {
    |c: ClassModel|
        if c.uri == uri {
            Some(c)
        } else {
            None
        }
}

/// The first candidate declared in the file `uri`.
pub open spec fn same_file_symbol(candidates: Seq<ClassModel>, uri: Seq<char>) -> Option<
    ClassModel,
> {
    first_some(candidates, in_file(uri))
}

/// Picks the class that lies in `java.lang`.
pub open spec fn in_java_lang() -> spec_fn(ClassModel) -> Option<ClassModel> {
    |c: ClassModel|
        if is_prefix("java.lang."@, c.fqcn) {
            Some(c)
        } else {
            None
        }
}

/// The first candidate of `java.lang`.
pub open spec fn java_lang_symbol(candidates: Seq<ClassModel>) -> Option<ClassModel> {
    first_some(candidates, in_java_lang())
}

/// Whether a call with `arg_count` arguments fits the member by number: the
/// same number of parameters, or, with a variadic last parameter, at least
/// all but that one.
pub open spec fn arity_fits(member: MemberModel, arg_count: nat) -> bool {
    if member.is_varargs {
        arg_count + 1 >= member.param_count
    } else {
        arg_count == member.param_count
    }
}

/// The position of the first candidate whose qualified name is `fqcn`.
fn find_with_fqcn(candidates: &[ClassLocation], fqcn: &str) -> (r: Option<usize>)
    ensures
        match r {
            Some(k) => k < candidates.len() && first_with_fqcn(candidates.deep_view(), fqcn@)
                == Some(candidates[k as int].deep_view()),
            None => first_with_fqcn(candidates.deep_view(), fqcn@) is None,
        },
{
    let ghost items = candidates.deep_view();
    let ghost f = with_fqcn(fqcn@);
    let mut k: usize = 0;
    proof {
        lemma_first_some_end(items, f);
    }
    while k < candidates.len()
        invariant
            k <= candidates.len(),
            items == candidates.deep_view(),
            f == with_fqcn(fqcn@),
            first_some(items, f) == first_some(items.skip(k as int), f),
        decreases candidates.len() - k,
    {
        proof {
            lemma_first_some_step(items, f, k as int);
        }
        if str_eq(candidates[k].fqcn.as_str(), fqcn) {
            return Some(k);
        }
        k += 1;
    }
    proof {
        lemma_first_some_end(items, f);
    }
    None
}

/// The class that an explicit import brings in under the name
/// `target_name`.
pub fn match_imported_symbol(
    candidates: &[ClassLocation],
    imports: &[String],
    target_name: &str,
) -> (r: Option<ClassLocation>)
    ensures
        r.deep_view() == imported_symbol(
            candidates.deep_view(),
            imports.deep_view(),
            target_name@,
        ),
{
    let ghost items = imports.deep_view();
    let ghost f = import_hit(candidates.deep_view(), target_name@);
    let mut i: usize = 0;
    proof {
        lemma_first_some_end(items, f);
    }
    while i < imports.len()
        invariant
            i <= imports.len(),
            items == imports.deep_view(),
            f == import_hit(candidates.deep_view(), target_name@),
            first_some(items, f) == first_some(items.skip(i as int), f),
        decreases imports.len() - i,
    {
        proof {
            lemma_first_some_step(items, f, i as int);
        }
        let import = imports[i].as_str();
        if has_last_segment(import, target_name) {
            match find_with_fqcn(candidates, import) {
                Some(k) => {
                    return Some(candidates[k].duplicate());
                },
                None => {},
            }
        }
        i += 1;
    }
    proof {
        lemma_first_some_end(items, f);
    }
    None
}

/// The class `target_name` of the package `package_name`.
pub fn match_same_package(
    candidates: &[ClassLocation],
    package_name: &str,
    target_name: &str,
) -> (r: Option<ClassLocation>)
    ensures
        r.deep_view() == same_package_symbol(
            candidates.deep_view(),
            package_name@,
            target_name@,
        ),
{
    let potential_fqcn = join_dot(package_name, target_name);
    match find_with_fqcn(candidates, potential_fqcn.as_str()) {
        Some(k) => Some(candidates[k].duplicate()),
        None => None,
    }
}

/// The first candidate declared in the file `current_uri`.
pub fn match_same_file(candidates: &[ClassLocation], current_uri: &str) -> (r: Option<
    ClassLocation,
>)
    ensures
        r.deep_view() == same_file_symbol(candidates.deep_view(), current_uri@),
{
    let ghost items = candidates.deep_view();
    let ghost f = in_file(current_uri@);
    let mut k: usize = 0;
    proof {
        lemma_first_some_end(items, f);
    }
    while k < candidates.len()
        invariant
            k <= candidates.len(),
            items == candidates.deep_view(),
            f == in_file(current_uri@),
            first_some(items, f) == first_some(items.skip(k as int), f),
        decreases candidates.len() - k,
    {
        proof {
            lemma_first_some_step(items, f, k as int);
        }
        if str_eq(candidates[k].uri.as_str(), current_uri) {
            return Some(candidates[k].duplicate());
        }
        k += 1;
    }
    proof {
        lemma_first_some_end(items, f);
    }
    None
}

/// The first candidate of `java.lang`.
pub fn match_java_lang(candidates: &[ClassLocation]) -> (r: Option<ClassLocation>)
    ensures
        r.deep_view() == java_lang_symbol(candidates.deep_view()),
{
    let ghost items = candidates.deep_view();
    let ghost f = in_java_lang();
    let mut k: usize = 0;
    proof {
        lemma_first_some_end(items, f);
    }
    while k < candidates.len()
        invariant
            k <= candidates.len(),
            items == candidates.deep_view(),
            f == in_java_lang(),
            first_some(items, f) == first_some(items.skip(k as int), f),
        decreases candidates.len() - k,
    {
        proof {
            lemma_first_some_step(items, f, k as int);
        }
        if starts_with(candidates[k].fqcn.as_str(), "java.lang.") {
            return Some(candidates[k].duplicate());
        }
        k += 1;
    }
    proof {
        lemma_first_some_end(items, f);
    }
    None
}

/// Whether a call with `arg_count` arguments fits the member by number.
pub fn match_member_arity(member: &MemberLocation, arg_count: usize) -> (r: bool)
    ensures
        r == arity_fits(member.deep_view(), arg_count as nat),
{
    if member.is_varargs {
        arg_count >= member.param_count.saturating_sub(1)
    } else {
        arg_count == member.param_count
    }
}

/// Picks the class whose short name, going by its qualified name, is `name`.
pub open spec fn with_short_name(name: Seq<char>) -> spec_fn(ClassModel) -> Option<ClassModel> {
    |c: ClassModel|
        if ends_with_segment(c.fqcn, name) || c.fqcn == name {
            Some(c)
        } else {
            None
        }
}

/// The qualified name that the head of a qualifier stands for among the
/// candidates: the candidate that an import of the file names under the
/// head; else the candidate of the file's package; else a candidate of
/// `java.lang`; else any candidate of that short name.
pub open spec fn qualifier_fqcn(
    qualifier: Seq<char>,
    candidates: Seq<ClassModel>,
    info: FileInfoModel,
) -> Option<Seq<char>> {
    let head = first_segment_of(qualifier);
    match imported_symbol(candidates, info.imports, head) {
        Some(c) => Some(c.fqcn),
        None => {
            let packaged = match info.package_name {
                Some(pkg) => first_with_fqcn(candidates, dotted(pkg, head)),
                None => None,
            };
            match packaged {
                Some(c) => Some(c.fqcn),
                None => match java_lang_symbol(candidates) {
                    Some(c) => Some(c.fqcn),
                    None => match first_some(candidates, with_short_name(head)) {
                        Some(c) => Some(c.fqcn),
                        None => None,
                    },
                },
            }
        },
    }
}

/// The qualified name that the head of `qualifier` stands for.
#[verifier::loop_isolation(false)]
pub fn resolve_qualifier_fqcn(
    qualifier: &str,
    class_candidates: &[ClassLocation],
    file_info: &FileInfo,
) -> (r: Option<String>)
    ensures
        r.deep_view() == qualifier_fqcn(
            qualifier@,
            class_candidates.deep_view(),
            file_info.deep_view(),
        ),
{
    let head_text = first_segment(qualifier);
    let head = head_text.as_str();
    let imports = file_info.imports.as_slice();
    assert(imports.deep_view() =~= file_info.imports.deep_view());
    match match_imported_symbol(class_candidates, imports, head) {
        Some(c) => {
            return Some(c.fqcn);
        },
        None => {},
    }
    match &file_info.package_name {
        Some(pkg) => {
            let fqcn = join_dot(pkg.as_str(), head);
            match find_with_fqcn(class_candidates, fqcn.as_str()) {
                Some(k) => {
                    return Some(class_candidates[k].fqcn.clone());
                },
                None => {},
            }
        },
        None => {},
    }
    match match_java_lang(class_candidates) {
        Some(c) => {
            return Some(c.fqcn);
        },
        None => {},
    }
    let ghost items = class_candidates.deep_view();
    let ghost g = with_short_name(head@);
    let mut k: usize = 0;
    proof {
        lemma_first_some_end(items, g);
    }
    while k < class_candidates.len()
        invariant
            k <= class_candidates.len(),
            items == class_candidates.deep_view(),
            g == with_short_name(head@),
            first_some(items, g) == first_some(items.skip(k as int), g),
        decreases class_candidates.len() - k,
    {
        proof {
            lemma_first_some_step(items, g, k as int);
        }
        let fqcn = class_candidates[k].fqcn.as_str();
        if has_last_segment(fqcn, head) || str_eq(fqcn, head) {
            return Some(class_candidates[k].fqcn.clone());
        }
        k += 1;
    }
    proof {
        lemma_first_some_end(items, g);
    }
    None
}

/// Where a class ranks when nothing is known of the referring file: classes
/// of the workspace and of unsaved buffers first, then those of
/// `java.lang`, then all else.
pub open spec fn class_rank(c: ClassModel) -> int {
    if scheme_of(c.uri) == Some("file"@) || scheme_of(c.uri) == Some("untitled"@) {
        0
    } else if is_prefix("java.lang."@, c.fqcn) {
        1
    } else {
        2
    }
}

/// Picks the class of rank `rank`.
pub open spec fn ranked(rank: int) -> spec_fn(ClassModel) -> Option<ClassModel> {
    |c: ClassModel|
        if class_rank(c) == rank {
            Some(c)
        } else {
            None
        }
}

/// The candidate to fall back on: the first of the best rank that occurs.
pub open spec fn fallback_class(candidates: Seq<ClassModel>) -> Option<ClassModel> {
    match first_some(candidates, ranked(0)) {
        Some(c) => Some(c),
        None => match first_some(candidates, ranked(1)) {
            Some(c) => Some(c),
            None => first_some(candidates, ranked(2)),
        },
    }
}

/// The place of a class as a location.
pub open spec fn class_place(c: Option<ClassModel>) -> Option<LocationModel> {
    match c {
        Some(c) => Some(LocationModel { uri: c.uri, range: c.range }),
        None => None,
    }
}

/// The rank of a class when nothing is known of the referring file.
fn rank_of(c: &ClassLocation) -> (r: u8)
    ensures
        r == class_rank(c.deep_view()),
{
    let scheme = uri_scheme(c.uri.as_str());
    let local = match &scheme {
        Some(s) => str_eq(s.as_str(), "file") || str_eq(s.as_str(), "untitled"),
        None => false,
    };
    if local {
        0
    } else if starts_with(c.fqcn.as_str(), "java.lang.") {
        1
    } else {
        2
    }
}

/// The position of the first candidate of rank `rank`.
fn first_of_rank(candidates: &Vec<ClassLocation>, ranks: &Vec<u8>, rank: u8) -> (r: Option<usize>)
    requires
        ranks.len() == candidates.len(),
        forall|j: int|
            0 <= j < ranks.len() ==> #[trigger] ranks[j] == class_rank(candidates[j].deep_view()),
    ensures
        match r {
            Some(k) => k < candidates.len() && first_some(
                candidates.deep_view(),
                ranked(rank as int),
            ) == Some(candidates[k as int].deep_view()),
            None => first_some(candidates.deep_view(), ranked(rank as int)) is None,
        },
{
    let ghost items = candidates.deep_view();
    let ghost f = ranked(rank as int);
    let mut k: usize = 0;
    proof {
        lemma_first_some_end(items, f);
    }
    while k < candidates.len()
        invariant
            k <= candidates.len(),
            ranks.len() == candidates.len(),
            forall|j: int|
                0 <= j < ranks.len() ==> #[trigger] ranks[j] == class_rank(
                    candidates[j].deep_view(),
                ),
            items == candidates.deep_view(),
            f == ranked(rank as int),
            first_some(items, f) == first_some(items.skip(k as int), f),
        decreases candidates.len() - k,
    {
        proof {
            lemma_first_some_step(items, f, k as int);
        }
        if ranks[k] == rank {
            return Some(k);
        }
        k += 1;
    }
    proof {
        lemma_first_some_end(items, f);
    }
    None
}

/// The candidate to fall back on where nothing is known of the referring
/// file.
pub fn select_fallback(candidates: Vec<ClassLocation>) -> (r: Option<Location>)
    ensures
        r.deep_view() == class_place(fallback_class(candidates.deep_view())),
{
    let mut ranks: Vec<u8> = Vec::new();
    let mut i: usize = 0;
    while i < candidates.len()
        invariant
            i <= candidates.len(),
            ranks.len() == i,
            forall|j: int|
                0 <= j < i ==> #[trigger] ranks[j] == class_rank(candidates[j].deep_view()),
        decreases candidates.len() - i,
    {
        ranks.push(rank_of(&candidates[i]));
        i += 1;
    }
    match first_of_rank(&candidates, &ranks, 0) {
        Some(k) => {
            return Some(candidates[k].location());
        },
        None => {},
    }
    match first_of_rank(&candidates, &ranks, 1) {
        Some(k) => {
            return Some(candidates[k].location());
        },
        None => {},
    }
    match first_of_rank(&candidates, &ranks, 2) {
        Some(k) => Some(candidates[k].location()),
        None => None,
    }
}

/// Picks the class-like declaration named `name`.
pub open spec fn class_named(nodes: Seq<NodeModel>, text: Seq<char>, name: Seq<char>) -> spec_fn(
    int,
) -> Option<int> {
    |c: int|
        if nodes[c].kind.is_class_like() {
            match child_with_field(nodes, c, FieldName::Name) {
                Some(n) => if node_text(nodes, text, n) == name {
                    Some(c)
                } else {
                    None
                },
                None => None,
            }
        } else {
            None
        }
}

/// The class named `name` that a class around node `id` declares in its
/// body: that of the innermost such class.
pub open spec fn nested_class(
    nodes: Seq<NodeModel>,
    text: Seq<char>,
    id: int,
    name: Seq<char>,
) -> Option<int>
    decreases id,
{
    match nodes[id].parent {
        Some(p) => if 0 <= p < id {
            let here = if nodes[p].kind.is_class_like() {
                match child_with_field(nodes, p, FieldName::Body) {
                    Some(body) => first_some(nodes[body].children, class_named(nodes, text, name)),
                    None => None,
                }
            } else {
                None
            };
            match here {
                Some(c) => Some(c),
                None => nested_class(nodes, text, p, name),
            }
        } else {
            None
        },
        None => None,
    }
}

/// The class-like declaration named `name` among the children of `body`.
fn class_in_body(tree: &SyntaxTree, rope: &Rope, body: usize, name: &str) -> (r: Option<usize>)
    requires
        body < tree@.len(),
    ensures
        match r {
            Some(c) => first_some(
                tree@[body as int].children,
                class_named(tree@, rope_text(*rope), name@),
            ) == Some(c as int) && c < tree@.len(),
            None => first_some(
                tree@[body as int].children,
                class_named(tree@, rope_text(*rope), name@),
            ) is None,
        },
{
    let ghost text = rope_text(*rope);
    let ghost f = class_named(tree@, text, name@);
    let ghost items = tree@[body as int].children;
    let n = tree.child_count(body);
    let mut k: usize = 0;
    proof {
        lemma_first_some_end(items, f);
    }
    while k < n
        invariant
            k <= n,
            n == items.len(),
            body < tree@.len(),
            text == rope_text(*rope),
            items == tree@[body as int].children,
            f == class_named(tree@, text, name@),
            first_some(items, f) == first_some(items.skip(k as int), f),
        decreases n - k,
    {
        let c = tree.child(body, k);
        proof {
            lemma_first_some_step(items, f, k as int);
        }
        if tree.kind(c).class_like() {
            match child_by_field(tree, c, FieldName::Name) {
                Some(name_node) => {
                    if str_eq(get_node_text(tree, name_node, rope).as_str(), name) {
                        return Some(c);
                    }
                },
                None => {},
            }
        }
        k += 1;
    }
    proof {
        lemma_first_some_end(items, f);
    }
    None
}

/// The class named `name` that a class around `node` declares in its body.
pub fn find_nested_class(tree: &SyntaxTree, node: usize, rope: &Rope, name: &str) -> (r: Option<
    usize,
>)
    requires
        node < tree@.len(),
    ensures
        match r {
            Some(c) => nested_class(tree@, rope_text(*rope), node as int, name@) == Some(c as int)
                && c < tree@.len(),
            None => nested_class(tree@, rope_text(*rope), node as int, name@) is None,
        },
{
    let ghost text = rope_text(*rope);
    let mut curr = node;
    loop
        invariant
            curr < tree@.len(),
            text == rope_text(*rope),
            nested_class(tree@, text, node as int, name@) == nested_class(
                tree@,
                text,
                curr as int,
                name@,
            ),
        decreases curr,
    {
        match tree.parent(curr) {
            Some(p) => {
                if tree.kind(p).class_like() {
                    match child_by_field(tree, p, FieldName::Body) {
                        Some(body) => {
                            match class_in_body(tree, rope, body, name) {
                                Some(c) => {
                                    return Some(c);
                                },
                                None => {},
                            }
                        },
                        None => {},
                    }
                }
                curr = p;
            },
            None => {
                return None;
            },
        }
    }
}

/// A place in the document `uri`.
pub open spec fn here(uri: Seq<char>, range: Option<Range>) -> Option<LocationModel> {
    match range {
        Some(r) => Some(LocationModel { uri, range: r }),
        None => None,
    }
}

/// What the document itself defines for the reference at node `id`: for a
/// reference without qualifier the parameter or local in scope, else the
/// member of an enclosing class; for any reference, failing that, the class
/// of that name nested in an enclosing class.
pub open spec fn definition_in_document(nodes: Seq<NodeModel>, text: Seq<char>, id: int) -> Option<
    Range,
> {
    let name = node_text(nodes, text, id);
    let local = if qualifier_node(nodes, id) is None {
        match local_from(nodes, text, id, name, nodes[id].start_byte) {
            Some(n) => Some(n),
            None => member_from(
                nodes,
                text,
                id,
                name,
                call_args(nodes, id),
                prefers_field(nodes, id),
            ),
        }
    } else {
        None
    };
    match local {
        Some(n) => Some(nodes[n].range),
        None => match nested_class(nodes, text, id, name) {
            Some(c) => Some(nodes[c].range),
            None => None,
        },
    }
}

/// What the workspace defines for the reference at node `id` in a file with
/// the facts `info`: the imported class of its name, since an import says
/// outright which class is meant, even where the file declares a class of
/// that name beside it; else the class of its name in the file; else the
/// class of its name in the file's package; else the member it means; else
/// the class of its name in `java.lang`.
pub open spec fn definition_in_workspace(
    nodes: Seq<NodeModel>,
    text: Seq<char>,
    id: int,
    files: Seq<FileModel>,
    info: FileInfoModel,
    uri: Seq<char>,
) -> Option<LocationModel> {
    let name = node_text(nodes, text, id);
    let candidates = classes_by_short_name(files, name);
    match imported_symbol(candidates, info.imports, name) {
        Some(c) => class_place(Some(c)),
        None => match same_file_symbol(candidates, uri) {
            Some(c) => class_place(Some(c)),
            None => {
                let packaged = match info.package_name {
                    Some(pkg) => same_package_symbol(candidates, pkg, name),
                    None => None,
                };
                match packaged {
                    Some(c) => class_place(Some(c)),
                    None => match member_match(
                        nodes,
                        text,
                        id,
                        members_by_name(files, name),
                        files,
                        info,
                        call_args(nodes, id),
                    ) {
                        Some(l) => Some(l),
                        None => class_place(java_lang_symbol(candidates)),
                    },
                }
            },
        },
    }
}

/// The definition that the reference at node `id` of the document `uri`
/// means. The document's own definitions come first; then, where the index
/// knows the file, the workspace's, and where it does not, the best-ranked
/// class of that name.
pub open spec fn definition_of(
    nodes: Seq<NodeModel>,
    text: Seq<char>,
    id: int,
    files: Seq<FileModel>,
    uri: Seq<char>,
) -> Option<LocationModel> {
    match definition_in_document(nodes, text, id) {
        Some(range) => Some(LocationModel { uri, range }),
        None => match file_facts(files, uri) {
            Some(info) => definition_in_workspace(nodes, text, id, files, info, uri),
            None => class_place(
                fallback_class(classes_by_short_name(files, node_text(nodes, text, id))),
            ),
        },
    }
}

/// The definition that the name under `position` means; none where no name
/// stands there.
pub open spec fn definition(
    nodes: Seq<NodeModel>,
    text: Seq<char>,
    position: Position,
    files: Seq<FileModel>,
    uri: Seq<char>,
) -> Option<LocationModel> {
    match name_node_at(nodes, text, position) {
        Some(id) => definition_of(nodes, text, id, files, uri),
        None => None,
    }
}

/// `tree_sitter_java::LANGUAGE` as a `tree_sitter::Language`.
#[verifier::external_body]
fn java_language() -> Language {
    tree_sitter_java::LANGUAGE.into()
}

/// What the document itself defines for the reference at `node`.
fn locate_in_document(
    tree: &SyntaxTree,
    rope: &Rope,
    node: usize,
    name: &str,
    index: &GlobalIndex,
    current_uri: &str,
) -> (r: Option<Range>)
    requires
        node < tree@.len(),
        name@ == node_text(tree@, rope_text(*rope), node as int),
    ensures
        r == definition_in_document(tree@, rope_text(*rope), node as int),
{
    if qualifier_of(tree, node).is_none() {
        match find_local_variable(tree, node, rope, name) {
            Some(range) => {
                return Some(range);
            },
            None => {},
        }
        let args = get_call_args(tree, node);
        match find_definition_in_file(tree, node, name, rope, &args, index, current_uri) {
            Some(range) => {
                return Some(range);
            },
            None => {},
        }
    }
    match find_nested_class(tree, node, rope, name) {
        Some(c) => Some(node_range(tree, c)),
        None => None,
    }
}

/// What the workspace defines for the reference at `node`.
fn locate_in_workspace(
    tree: &SyntaxTree,
    rope: &Rope,
    node: usize,
    name: &str,
    index: &GlobalIndex,
    file_info: &FileInfo,
    current_uri: &str,
) -> (r: Option<Location>)
    requires
        node < tree@.len(),
        name@ == node_text(tree@, rope_text(*rope), node as int),
    ensures
        r.deep_view() == definition_in_workspace(
            tree@,
            rope_text(*rope),
            node as int,
            index.deep_view(),
            file_info.deep_view(),
            current_uri@,
        ),
{
    let candidates = index.classes_by_short_name(name);
    let all = candidates.as_slice();
    assert(all.deep_view() =~= candidates.deep_view());
    let imports = file_info.imports.as_slice();
    assert(imports.deep_view() =~= file_info.imports.deep_view());
    match match_imported_symbol(all, imports, name) {
        Some(loc) => {
            return Some(loc.location());
        },
        None => {},
    }
    match match_same_file(all, current_uri) {
        Some(loc) => {
            return Some(loc.location());
        },
        None => {},
    }
    match &file_info.package_name {
        Some(pkg) => {
            match match_same_package(all, pkg.as_str(), name) {
                Some(loc) => {
                    return Some(loc.location());
                },
                None => {},
            }
        },
        None => {},
    }
    let members = index.members_by_name(name);
    let args = get_call_args(tree, node);
    match match_member(tree, node, rope, &members, file_info, index, &args, current_uri) {
        Some(loc) => {
            return Some(loc);
        },
        None => {},
    }
    match match_java_lang(all) {
        Some(loc) => Some(loc.location()),
        None => None,
    }
}

impl LanguageService for JavaService {
    /// The Java grammar.
    fn language(&self) -> Language {
        java_language()
    }

    /// The outline of the document.
    fn document_symbol(&self, tree: &SyntaxTree, rope: &Rope) -> (r: Vec<DocumentSymbol>)
        ensures
            symbols_model(r@) == document_outline(tree@, rope_text(*rope)),
    {
        document_symbols(tree, rope)
    }

    /// What to propose at `position`.
    fn completion(
        &self,
        tree: &SyntaxTree,
        rope: &Rope,
        position: Position,
        index: &GlobalIndex,
        current_uri: &str,
        keywords: &[String],
    ) -> (r: Option<Vec<CompletionItem>>)
        ensures
            r.deep_view() == completion_items(
                tree@,
                rope_text(*rope),
                position,
                index.deep_view(),
                current_uri@,
                keywords.deep_view(),
            ),
    {
        complete(tree, rope, position, index, current_uri, keywords)
    }

    /// Where the name under `position` is defined.
    fn goto_definition(
        &self,
        tree: &SyntaxTree,
        rope: &Rope,
        position: Position,
        index: &GlobalIndex,
        current_uri: &str,
    ) -> (r: Option<Location>)
        ensures
            r.deep_view() == definition(
                tree@,
                rope_text(*rope),
                position,
                index.deep_view(),
                current_uri@,
            ),
    {
        let (node, name) = match get_node_at_pos(tree, rope, position) {
            Some(found) => found,
            None => {
                return None;
            },
        };
        match locate_in_document(tree, rope, node, name.as_str(), index, current_uri) {
            Some(range) => {
                return Some(Location { uri: current_uri.to_owned(), range });
            },
            None => {},
        }
        match index.file_info(current_uri) {
            Some(info) => locate_in_workspace(
                tree,
                rope,
                node,
                name.as_str(),
                index,
                &info,
                current_uri,
            ),
            None => select_fallback(index.classes_by_short_name(name.as_str())),
        }
    }
}

} // verus!
