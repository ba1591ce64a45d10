//! What holds of every answer that the resolver gives.

use vstd::prelude::*;
use crate::ast::{score_of, TypeModel};
use crate::lang::java::{
    definition, first_with_fqcn, import_hit, imported_symbol, in_file, in_java_lang, with_fqcn,
};
use crate::resolve::{best_member, chosen_member, member_arg_score, member_score, Usage};
use crate::state::{
    class_model_of, classes_by_short_name, classes_named, file_facts, file_position,
    filed_under_uri, index_wf, member_model_of, members_by_name, members_named, uris_of,
    ClassModel, FileModel, IndexedClassModel, IndexedMemberModel, LocationModel, MemberModel,
    Position,
};
use crate::syntax::NodeModel;
use crate::utils::first_some;

verus! {

/// Nothing scores better against a parameter type than that type itself.
pub proof fn lemma_same_type_scores_best(t: TypeModel, u: TypeModel)
    ensures
        score_of(t, t) == 100,
        score_of(t, t) >= score_of(t, u),
{
}

/// A member with recorded parameter types is rejected as soon as one
/// argument scores negative against the parameter it falls to.
pub proof fn lemma_negative_pair_rejects(
    nodes: Seq<NodeModel>,
    text: Seq<char>,
    member: MemberModel,
    args: Seq<int>,
    i: int,
)
    requires
        member.param_types.len() > 0,
        0 <= i < args.len(),
        member_arg_score(nodes, text, member, args, i) is None,
    ensures
        member_score(nodes, text, member, args) is None,
{
    crate::resolve::lemma_member_score_rejected(
        nodes,
        text,
        member,
        args,
        i + 1,
        args.len() as int,
    );
}

/// The resolver's answer is a function of the document, the position and
/// the index: two answers to the same question are the same answer.
pub proof fn lemma_answers_agree(
    nodes: Seq<NodeModel>,
    text: Seq<char>,
    position: Position,
    files: Seq<FileModel>,
    uri: Seq<char>,
    first: Option<LocationModel>,
    second: Option<LocationModel>,
)
    requires
        first == definition(nodes, text, position, files, uri),
        second == definition(nodes, text, position, files, uri),
    ensures
        first == second,
{
}

/// What a scan finds is what the picker yields for one of the items.
pub proof fn lemma_first_some_witness<A, T>(items: Seq<A>, f: spec_fn(A) -> Option<T>)
    ensures
        match first_some(items, f) {
            Some(y) => exists|k: int| 0 <= k < items.len() && f(#[trigger] items[k]) == Some(y),
            None => true,
        },
    decreases items.len(),
{
    if items.len() > 0 {
        match f(items[0]) {
            Some(x) => {
                assert(f(items[0]) == Some(x));
            },
            None => {
                let rest = items.drop_first();
                lemma_first_some_witness(rest, f);
                match first_some(rest, f) {
                    Some(y) => {
                        let k = choose|k: int| 0 <= k < rest.len() && f(#[trigger] rest[k]) == Some(y);
                        assert(rest[k] == items[k + 1]);
                        assert(f(items[k + 1]) == Some(y));
                    },
                    None => {},
                }
            },
        }
    }
}

/// Whether the class is filed under a URI of the index.
pub open spec fn class_indexed(files: Seq<FileModel>, c: ClassModel) -> bool {
    uris_of(files).contains(c.uri)
}

/// Whether the member is filed under a URI of the index.
pub open spec fn member_indexed(files: Seq<FileModel>, m: MemberModel) -> bool {
    uris_of(files).contains(m.uri)
}

/// Classes picked from a file carry the file's URI.
proof fn lemma_classes_named_filed(classes: Seq<IndexedClassModel>, name: Seq<char>, uri: Seq<char>)
    requires
        forall|k: int| 0 <= k < classes.len() ==> (#[trigger] classes[k]).uri == uri,
    ensures
        forall|j: int|
            0 <= j < classes_named(classes, name).len() ==> (#[trigger] classes_named(
                classes,
                name,
            )[j]).uri == uri,
    decreases classes.len(),
{
    if classes.len() > 0 {
        let front = classes.drop_last();
        assert forall|k: int| 0 <= k < front.len() implies (#[trigger] front[k]).uri == uri by {
            assert(front[k] == classes[k]);
        }
        lemma_classes_named_filed(front, name, uri);
        assert(classes.last() == classes[classes.len() - 1]);
        let rest = classes_named(front, name);
        let all = classes_named(classes, name);
        assert forall|j: int| 0 <= j < all.len() implies (#[trigger] all[j]).uri == uri by {
            if classes.last().short_name == name {
                assert(all == rest.push(class_model_of(classes.last())));
                if j < rest.len() {
                    assert(all[j] == rest[j]);
                }
            }
        }
    }
}

/// Members picked from a file carry the file's URI.
proof fn lemma_members_named_filed(
    members: Seq<IndexedMemberModel>,
    name: Seq<char>,
    uri: Seq<char>,
)
    requires
        forall|k: int| 0 <= k < members.len() ==> (#[trigger] members[k]).uri == uri,
    ensures
        forall|j: int|
            0 <= j < members_named(members, name).len() ==> (#[trigger] members_named(
                members,
                name,
            )[j]).uri == uri,
    decreases members.len(),
{
    if members.len() > 0 {
        let front = members.drop_last();
        assert forall|k: int| 0 <= k < front.len() implies (#[trigger] front[k]).uri == uri by {
            assert(front[k] == members[k]);
        }
        lemma_members_named_filed(front, name, uri);
        assert(members.last() == members[members.len() - 1]);
        let rest = members_named(front, name);
        let all = members_named(members, name);
        assert forall|j: int| 0 <= j < all.len() implies (#[trigger] all[j]).uri == uri by {
            if members.last().name == name {
                assert(all == rest.push(member_model_of(members.last())));
                if j < rest.len() {
                    assert(all[j] == rest[j]);
                }
            }
        }
    }
}

/// A URI of the files but the last, or of the last, is a URI of all.
proof fn lemma_uris_grow(files: Seq<FileModel>, uri: Seq<char>)
    requires
        files.len() > 0,
        uris_of(files.drop_last()).contains(uri) || files.last().uri == uri,
    ensures
        uris_of(files).contains(uri),
{
    let all = uris_of(files);
    if files.last().uri == uri {
        assert(all[files.len() - 1] == uri);
    } else {
        let front = uris_of(files.drop_last());
        let k = choose|k: int| 0 <= k < front.len() && front[k] == uri;
        assert(all[k] == uri);
    }
}

/// Every class that a lookup by short name hands out is filed under a URI
/// of the index.
pub proof fn lemma_classes_are_indexed(files: Seq<FileModel>, name: Seq<char>)
    requires
        index_wf(files),
    ensures
        forall|j: int|
            0 <= j < classes_by_short_name(files, name).len() ==> class_indexed(
                files,
                #[trigger] classes_by_short_name(files, name)[j],
            ),
    decreases files.len(),
{
    if files.len() > 0 {
        let front = files.drop_last();
        assert(index_wf(front)) by {
            assert forall|i: int| 0 <= i < front.len() implies filed_under_uri(
                #[trigger] front[i],
            ) by {
                assert(front[i] == files[i]);
            }
            assert forall|i: int, j: int| 0 <= i < j < front.len() implies front[i].uri
                != front[j].uri by {
                assert(front[i] == files[i]);
                assert(front[j] == files[j]);
            }
        }
        lemma_classes_are_indexed(front, name);
        let last = files.last();
        assert(last == files[files.len() - 1]);
        assert(filed_under_uri(last));
        lemma_classes_named_filed(last.classes, name, last.uri);
        let before = classes_by_short_name(front, name);
        let here = classes_named(last.classes, name);
        assert forall|j: int| 0 <= j < (before + here).len() implies class_indexed(
            files,
            #[trigger] (before + here)[j],
        ) by {
            if j < before.len() {
                assert((before + here)[j] == before[j]);
                assert(class_indexed(front, before[j]));
                lemma_uris_grow(files, before[j].uri);
            } else {
                assert((before + here)[j] == here[j - before.len()]);
                lemma_uris_grow(files, here[j - before.len()].uri);
            }
        }
    }
}

/// Every member that a lookup by name hands out is filed under a URI of the
/// index.
pub proof fn lemma_members_are_indexed(files: Seq<FileModel>, name: Seq<char>)
    requires
        index_wf(files),
    ensures
        forall|j: int|
            0 <= j < members_by_name(files, name).len() ==> member_indexed(
                files,
                #[trigger] members_by_name(files, name)[j],
            ),
    decreases files.len(),
{
    if files.len() > 0 {
        let front = files.drop_last();
        assert(index_wf(front)) by {
            assert forall|i: int| 0 <= i < front.len() implies filed_under_uri(
                #[trigger] front[i],
            ) by {
                assert(front[i] == files[i]);
            }
            assert forall|i: int, j: int| 0 <= i < j < front.len() implies front[i].uri
                != front[j].uri by {
                assert(front[i] == files[i]);
                assert(front[j] == files[j]);
            }
        }
        lemma_members_are_indexed(front, name);
        let last = files.last();
        assert(last == files[files.len() - 1]);
        assert(filed_under_uri(last));
        lemma_members_named_filed(last.members, name, last.uri);
        let before = members_by_name(front, name);
        let here = members_named(last.members, name);
        assert forall|j: int| 0 <= j < (before + here).len() implies member_indexed(
            files,
            #[trigger] (before + here)[j],
        ) by {
            if j < before.len() {
                assert((before + here)[j] == before[j]);
                assert(member_indexed(front, before[j]));
                lemma_uris_grow(files, before[j].uri);
            } else {
                assert((before + here)[j] == here[j - before.len()]);
                lemma_uris_grow(files, here[j - before.len()].uri);
            }
        }
    }
}

/// The best member among the first `n` is one of them.
proof fn lemma_best_member_in_range(
    nodes: Seq<NodeModel>,
    text: Seq<char>,
    usage: Usage,
    members: Seq<MemberModel>,
    scored: bool,
    n: int,
)
    requires
        0 <= n <= members.len(),
    ensures
        match best_member(nodes, text, usage, members, scored, n) {
            Some((i, _)) => 0 <= i < n,
            None => true,
        },
    decreases n,
{
    if n > 0 {
        lemma_best_member_in_range(nodes, text, usage, members, scored, n - 1);
    }
}

/// The member chosen among some members is one of them.
pub proof fn lemma_chosen_is_candidate(
    nodes: Seq<NodeModel>,
    text: Seq<char>,
    usage: Usage,
    members: Seq<MemberModel>,
)
    ensures
        match chosen_member(nodes, text, usage, members) {
            Some(m) => members.contains(m),
            None => true,
        },
{
    lemma_best_member_in_range(nodes, text, usage, members, true, members.len() as int);
    lemma_best_member_in_range(nodes, text, usage, members, false, members.len() as int);
}

/// A picker that yields only what it is given picks a candidate.
proof fn lemma_picked_class_is_candidate(candidates: Seq<ClassModel>, f: spec_fn(ClassModel) -> Option<ClassModel>)
    requires
        forall|c: ClassModel| (#[trigger] f(c)) is Some ==> f(c) == Some(c),
    ensures
        match first_some(candidates, f) {
            Some(c) => candidates.contains(c),
            None => true,
        },
{
    lemma_first_some_witness(candidates, f);
}

/// The imported class is one of the candidates.
proof fn lemma_import_is_candidate(
    candidates: Seq<ClassModel>,
    imports: Seq<Seq<char>>,
    target: Seq<char>,
)
    ensures
        match imported_symbol(candidates, imports, target) {
            Some(c) => candidates.contains(c),
            None => true,
        },
{
    let f = import_hit(candidates, target);
    lemma_first_some_witness(imports, f);
    match imported_symbol(candidates, imports, target) {
        Some(c) => {
            let k = choose|k: int| 0 <= k < imports.len() && f(#[trigger] imports[k]) == Some(c);
            assert(first_with_fqcn(candidates, imports[k]) == Some(c));
            lemma_picked_class_is_candidate(candidates, with_fqcn(imports[k]));
        },
        None => {},
    }
}

/// The resolver answers with a place in the index: where the index is well
/// formed and knows the document, the URI of every definition that the
/// resolver finds is the URI of an indexed file.
pub proof fn lemma_definition_is_indexed(
    nodes: Seq<NodeModel>,
    text: Seq<char>,
    position: Position,
    files: Seq<FileModel>,
    uri: Seq<char>,
)
    requires
        index_wf(files),
        file_position(files, uri) is Some,
    ensures
        match definition(nodes, text, position, files, uri) {
            Some(loc) => uris_of(files).contains(loc.uri),
            None => true,
        },
{
    uris_of(files).index_of_first_ensures(uri);
    match crate::utils::name_node_at(nodes, text, position) {
        Some(id) => {
            let name = crate::utils::node_text(nodes, text, id);
            let candidates = classes_by_short_name(files, name);
            let members = members_by_name(files, name);
            lemma_classes_are_indexed(files, name);
            lemma_members_are_indexed(files, name);
            let info = file_facts(files, uri)->0;
            lemma_import_is_candidate(candidates, info.imports, name);
            match info.package_name {
                Some(pkg) => {
                    lemma_picked_class_is_candidate(
                        candidates,
                        with_fqcn(crate::text::dotted(pkg, name)),
                    );
                },
                None => {},
            }
            lemma_picked_class_is_candidate(candidates, in_file(uri));
            lemma_picked_class_is_candidate(candidates, in_java_lang());
            assert forall|c: ClassModel| candidates.contains(c) implies class_indexed(
                files,
                c,
            ) by {
                let j = choose|j: int| 0 <= j < candidates.len() && candidates[j] == c;
                assert(class_indexed(files, candidates[j]));
            }
            if crate::resolve::member_lookup_allowed(nodes, text, id) {
                let owner = match crate::resolve::qualifier_node(nodes, id) {
                    Some(q) => crate::resolve::owner_of(
                        nodes,
                        text,
                        files,
                        info,
                        crate::utils::node_text(nodes, text, q),
                    ),
                    None => None,
                };
                let usage = Usage {
                    owner,
                    call_like: crate::resolve::call_like(nodes, text, id),
                    args: crate::ast::call_args(nodes, id),
                };
                lemma_chosen_is_candidate(nodes, text, usage, members);
                match chosen_member(nodes, text, usage, members) {
                    Some(m) => {
                        let j = choose|j: int| 0 <= j < members.len() && members[j] == m;
                        assert(member_indexed(files, members[j]));
                    },
                    None => {},
                }
            }
        },
        None => {},
    }
}

} // verus!
