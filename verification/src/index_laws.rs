//! What holds of the index whatever is filed in it.

use vstd::prelude::*;
use crate::state::{
    class_model_of, classes_by_short_name, classes_named, facts_of, file_facts, file_position,
    filed_under_uri, index_wf, upserted, uris_of, ClassModel, FileModel, IndexedClassModel,
};

verus! {

/// How many of `locs` carry the qualified name `fqcn` and the URI `uri`.
pub open spec fn occurrences(locs: Seq<ClassModel>, fqcn: Seq<char>, uri: Seq<char>) -> nat
    decreases locs.len(),
{
    if locs.len() == 0 {
        0
    } else {
        let rest = occurrences(locs.drop_last(), fqcn, uri);
        if locs.last().fqcn == fqcn && locs.last().uri == uri {
            rest + 1
        } else {
            rest
        }
    }
}

/// Occurrences in two lists joined add up.
proof fn lemma_occurrences_concat(
    a: Seq<ClassModel>,
    b: Seq<ClassModel>,
    fqcn: Seq<char>,
    uri: Seq<char>,
)
    ensures
        occurrences(a + b, fqcn, uri) == occurrences(a, fqcn, uri) + occurrences(b, fqcn, uri),
    decreases b.len(),
{
    if b.len() == 0 {
        assert(a + b =~= a);
    } else {
        assert((a + b).drop_last() =~= a + b.drop_last());
        assert((a + b).last() == b.last());
        lemma_occurrences_concat(a, b.drop_last(), fqcn, uri);
    }
}

/// Classes filed under another URI do not count.
proof fn lemma_other_file_has_none(
    classes: Seq<IndexedClassModel>,
    name: Seq<char>,
    fqcn: Seq<char>,
    uri: Seq<char>,
)
    requires
        forall|k: int| 0 <= k < classes.len() ==> (#[trigger] classes[k]).uri != uri,
    ensures
        occurrences(classes_named(classes, name), fqcn, uri) == 0,
    decreases classes.len(),
{
    if classes.len() > 0 {
        let front = classes.drop_last();
        assert forall|k: int| 0 <= k < front.len() implies (#[trigger] front[k]).uri != uri by {
            assert(front[k] == classes[k]);
        }
        lemma_other_file_has_none(front, name, fqcn, uri);
        let rest = classes_named(front, name);
        if classes.last().short_name == name {
            assert(rest.push(class_model_of(classes.last())).drop_last() =~= rest);
        }
    }
}

/// Among the first `n` classes of its file, class `k` counts once it is reached.
proof fn lemma_own_file_has_one(classes: Seq<IndexedClassModel>, k: int, n: int)
    requires
        0 <= k < classes.len(),
        0 <= n <= classes.len(),
        forall|j: int|
            0 <= j < classes.len() && j != k ==> !((#[trigger] classes[j]).short_name
                == classes[k].short_name && classes[j].fqcn == classes[k].fqcn),
    ensures
        occurrences(
            classes_named(classes.take(n), classes[k].short_name),
            classes[k].fqcn,
            classes[k].uri,
        ) == (if n > k {
            1nat
        } else {
            0nat
        }),
    decreases n,
{
    let c = classes[k];
    if n > 0 {
        let part = classes.take(n);
        assert(part.drop_last() =~= classes.take(n - 1));
        assert(part.last() == classes[n - 1]);
        lemma_own_file_has_one(classes, k, n - 1);
        let rest = classes_named(classes.take(n - 1), c.short_name);
        if part.last().short_name == c.short_name {
            assert(rest.push(class_model_of(part.last())).drop_last() =~= rest);
        }
    } else {
        assert(classes.take(0) =~= Seq::<IndexedClassModel>::empty());
    }
}

/// Among the first `n` files, the class counts once its file is reached.
proof fn lemma_listed_once_upto(files: Seq<FileModel>, f: int, k: int, n: int)
    requires
        index_wf(files),
        0 <= f < files.len(),
        0 <= k < files[f].classes.len(),
        0 <= n <= files.len(),
        forall|j: int|
            0 <= j < files[f].classes.len() && j != k ==> !((#[trigger] files[f].classes[j]).short_name
                == files[f].classes[k].short_name && files[f].classes[j].fqcn
                == files[f].classes[k].fqcn),
    ensures
        occurrences(
            classes_by_short_name(files.take(n), files[f].classes[k].short_name),
            files[f].classes[k].fqcn,
            files[f].classes[k].uri,
        ) == (if n > f {
            1nat
        } else {
            0nat
        }),
    decreases n,
{
    let c = files[f].classes[k];
    if n > 0 {
        let part = files.take(n);
        assert(part.drop_last() =~= files.take(n - 1));
        assert(part.last() == files[n - 1]);
        lemma_listed_once_upto(files, f, k, n - 1);
        let before = classes_by_short_name(files.take(n - 1), c.short_name);
        let here = classes_named(files[n - 1].classes, c.short_name);
        lemma_occurrences_concat(before, here, c.fqcn, c.uri);
        assert(filed_under_uri(files[f]));
        assert(c.uri == files[f].uri);
        if n - 1 == f {
            assert(files[f].classes.take(files[f].classes.len() as int) =~= files[f].classes);
            lemma_own_file_has_one(files[f].classes, k, files[f].classes.len() as int);
        } else {
            let other = files[n - 1];
            assert(filed_under_uri(other));
            assert(other.uri != files[f].uri);
            lemma_other_file_has_none(other.classes, c.short_name, c.fqcn, c.uri);
        }
    } else {
        assert(files.take(0) =~= Seq::<FileModel>::empty());
    }
}

/// A class of an indexed file is found by its short name, and found once:
/// the lookup holds exactly one location with its qualified name and its
/// URI, provided its file declares no second class of that short name and
/// qualified name.
pub proof fn lemma_class_listed_once(files: Seq<FileModel>, f: int, k: int)
    requires
        index_wf(files),
        0 <= f < files.len(),
        0 <= k < files[f].classes.len(),
        forall|j: int|
            0 <= j < files[f].classes.len() && j != k ==> !((#[trigger] files[f].classes[j]).short_name
                == files[f].classes[k].short_name && files[f].classes[j].fqcn
                == files[f].classes[k].fqcn),
    ensures
        occurrences(
            classes_by_short_name(files, files[f].classes[k].short_name),
            files[f].classes[k].fqcn,
            files[f].classes[k].uri,
        ) == 1,
{
    lemma_listed_once_upto(files, f, k, files.len() as int);
    assert(files.take(files.len() as int) =~= files);
}

/// Filing a URI a second time leaves the index as if only the second filing
/// had been made: nothing of the first stays behind.
pub proof fn lemma_upsert_replaces(files: Seq<FileModel>, first: FileModel, second: FileModel)
    requires
        first.uri == second.uri,
    ensures
        upserted(upserted(files, first), second) == upserted(files, second),
{
    let uri = first.uri;
    let uris = uris_of(files);
    uris.index_of_first_ensures(uri);
    let mid = upserted(files, first);
    let mid_uris = uris_of(mid);
    mid_uris.index_of_first_ensures(uri);
    match file_position(files, uri) {
        Some(k) => {
            assert(mid == files.update(k, first));
            assert(mid_uris[k] == uri);
            assert(mid_uris.contains(uri));
            let k2 = mid_uris.index_of_first(uri).unwrap();
            if k2 < k {
                assert(mid_uris[k2] == uris[k2]);
            }
            if k < k2 {
                assert(mid_uris[k] == uri);
            }
            assert(k2 == k);
            assert(mid.update(k, second) =~= files.update(k, second));
        },
        None => {
            let n = files.len() as int;
            assert(mid == files.push(first));
            assert(mid_uris[n] == uri);
            assert(mid_uris.contains(uri));
            let k2 = mid_uris.index_of_first(uri).unwrap();
            if k2 < n {
                assert(mid_uris[k2] == uris[k2]);
                assert(uris.contains(uri));
            }
            assert(k2 == n);
            assert(mid.update(n, second) =~= files.push(second));
        },
    }
}

/// Filing declarations that carry the URI they are filed under keeps the
/// index invariant, and the file's facts are then those just filed.
pub proof fn lemma_upsert_keeps_invariant(files: Seq<FileModel>, rec: FileModel)
    requires
        index_wf(files),
        filed_under_uri(rec),
    ensures
        index_wf(upserted(files, rec)),
        file_facts(upserted(files, rec), rec.uri) == Some(facts_of(rec)),
{
    let uris = uris_of(files);
    uris.index_of_first_ensures(rec.uri);
    let after = upserted(files, rec);
    let after_uris = uris_of(after);
    after_uris.index_of_first_ensures(rec.uri);
    match file_position(files, rec.uri) {
        Some(k) => {
            assert(after == files.update(k, rec));
            assert forall|i: int, j: int| 0 <= i < j < after.len() implies after[i].uri
                != after[j].uri by {
                assert(after[i].uri == files[i].uri);
                assert(after[j].uri == files[j].uri);
            }
            assert forall|i: int| 0 <= i < after.len() implies filed_under_uri(
                #[trigger] after[i],
            ) by {
                if i != k {
                    assert(after[i] == files[i]);
                }
            }
            assert(after_uris[k] == rec.uri);
            assert(after_uris.contains(rec.uri));
            let k2 = after_uris.index_of_first(rec.uri).unwrap();
            if k2 != k {
                assert(after[k2].uri == after_uris[k2]);
                assert(after[k].uri == after_uris[k]);
            }
        },
        None => {
            let n = files.len() as int;
            assert(after == files.push(rec));
            assert forall|i: int, j: int| 0 <= i < j < after.len() implies after[i].uri
                != after[j].uri by {
                if j == n {
                    assert(uris[i] == files[i].uri);
                    if files[i].uri == rec.uri {
                        assert(uris.contains(rec.uri));
                    }
                }
            }
            assert forall|i: int| 0 <= i < after.len() implies filed_under_uri(
                #[trigger] after[i],
            ) by {
                if i != n {
                    assert(after[i] == files[i]);
                }
            }
            assert(after_uris[n] == rec.uri);
            assert(after_uris.contains(rec.uri));
            let k2 = after_uris.index_of_first(rec.uri).unwrap();
            if k2 != n {
                assert(after[k2].uri == after_uris[k2]);
                assert(after[k2].uri == files[k2].uri);
                assert(uris[k2] == rec.uri);
                assert(uris.contains(rec.uri));
            }
        },
    }
}

} // verus!
