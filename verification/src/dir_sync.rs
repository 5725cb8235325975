//! `dir_sync` archives on disk: which received archive is the latest.
use vstd::prelude::*;

use crate::strmap::{compare_chars, lemma_lt_trans, seq_lt};
use crate::text::{append_chars, chars_of, ends_with, ends_with_chars, starts_with, starts_with_at, string_of};

verus! {

/// A `dir_sync` archive of the task: `backup_{task}_sync_…zip`, or the legacy
/// `sync_{task}_…zip`.
pub open spec fn is_sync_archive(name: Seq<char>, task_name: Seq<char>) -> bool {
    ends_with(name, ".zip"@) && (starts_with(name, "backup_"@ + task_name + "_sync_"@)
        || starts_with(name, "sync_"@ + task_name + "_"@))
}

/// The greatest of the task's archive names (names sort by their time stamp).
pub open spec fn is_latest_archive(names: Seq<String>, task_name: Seq<char>, best: Seq<char>) -> bool {
    (exists|i: int| 0 <= i < names.len() && #[trigger] names[i]@ == best) && is_sync_archive(
        best,
        task_name,
    ) && forall|i: int|
        0 <= i < names.len() && is_sync_archive(#[trigger] names[i]@, task_name) ==> !seq_lt(
            best,
            names[i]@,
        )
}

/// The latest `dir_sync` archive among the file names of a connection's backup
/// directory.
pub fn latest_sync_archive(names: &Vec<String>, task_name: &str) -> (r: Option<String>)
    ensures
        r is None <==> forall|i: int|
            0 <= i < names@.len() ==> !is_sync_archive(#[trigger] names@[i]@, task_name@),
        r matches Some(b) ==> is_latest_archive(names@, task_name@, b@),
{
    let mut p1 = chars_of("backup_");
    append_chars(&mut p1, &chars_of(task_name));
    append_chars(&mut p1, &chars_of("_sync_"));
    let mut p2 = chars_of("sync_");
    append_chars(&mut p2, &chars_of(task_name));
    append_chars(&mut p2, &chars_of("_"));
    let zip = chars_of(".zip");
    let mut best: Option<Vec<char>> = None;
    let mut i: usize = 0;
    while i < names.len()
        invariant
            i <= names.len(),
            p1@ == "backup_"@ + task_name@ + "_sync_"@,
            p2@ == "sync_"@ + task_name@ + "_"@,
            zip@ == ".zip"@,
            best is None <==> forall|k: int|
                0 <= k < i ==> !is_sync_archive(#[trigger] names@[k]@, task_name@),
            best matches Some(b) ==> (exists|k: int| 0 <= k < i && #[trigger] names@[k]@ == b@)
                && is_sync_archive(b@, task_name@) && forall|k: int|
                0 <= k < i && is_sync_archive(#[trigger] names@[k]@, task_name@) ==> !seq_lt(
                    b@,
                    names@[k]@,
                ),
        decreases names.len() - i,
    {
        let name = chars_of(names[i].as_str());
        assert(name@.skip(0) =~= name@);
        let ok = ends_with_chars(&name, &zip) && (starts_with_at(&name, 0, &p1) || starts_with_at(
            &name,
            0,
            &p2,
        ));
        assert(ok == is_sync_archive(names@[i as int]@, task_name@));
        if ok {
            let take = match &best {
                None => true,
                Some(b) => compare_chars(&name, b) > 0,
            };
            if take {
                proof {
                    if best is Some {
                        let b = best->0@;
                        assert forall|k: int|
                            0 <= k < i + 1 && is_sync_archive(
                                #[trigger] names@[k]@,
                                task_name@,
                            ) implies !seq_lt(name@, names@[k]@) by {
                            if k < i {
                                assert(!seq_lt(b, names@[k]@));
                                if seq_lt(name@, names@[k]@) {
                                    lemma_lt_trans(b, name@, names@[k]@);
                                }
                            } else {
                                crate::strmap::lemma_lt_irrefl(name@);
                            }
                        }
                    } else {
                        assert forall|k: int|
                            0 <= k < i + 1 && is_sync_archive(
                                #[trigger] names@[k]@,
                                task_name@,
                            ) implies !seq_lt(name@, names@[k]@) by {
                            crate::strmap::lemma_lt_irrefl(name@);
                        }
                    }
                }
                best = Some(name);
            } else {
                proof {
                    let b = best->0@;
                    assert(!seq_lt(b, name@));
                }
            }
        }
        i = i + 1;
    }
    match best {
        Some(b) => Some(string_of(&b)),
        None => None,
    }
}

} // verus!
