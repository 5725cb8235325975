//! Flags suspicious backup sizes (tiny archive, large drop vs last OK run).
use vstd::prelude::*;

use crate::text::{append_chars, chars_of, join, str_eq, string_of};
use crate::validation::{normalize_task_type, spec_normalize_task_type};

verus! {

/// Empty or failed archives are usually well under 1 KB; compressed DB dumps can be tens of KB.
pub const TINY_ARCHIVE_BYTES: u64 = 1024;

/// Task types whose result is an archive file.
pub open spec fn spec_is_archive_type(t: Seq<char>) -> bool {
    t == "mysql_dump"@ || t == "postgresql_dump"@ || t == "db_dump"@ || t == "files_archive"@ || t
        == "file_archive"@ || t == "dir_sync"@
}

/// The anomaly flags of a downloaded backup. `size_dropped` says whether the
/// new size is under half of the previous successful one; that ratio is
/// computed in floating point by the caller.
pub open spec fn spec_detect(task_type: Seq<char>, file_size: u64, size_dropped: bool) -> Seq<
    Seq<char>,
> {
    let t = spec_normalize_task_type(task_type);
    if t == "shell"@ {
        Seq::empty()
    } else {
        let tiny: Seq<Seq<char>> = if spec_is_archive_type(t) && file_size < TINY_ARCHIVE_BYTES {
            seq!["tiny_file"@]
        } else {
            Seq::empty()
        };
        let drop: Seq<Seq<char>> = if size_dropped {
            seq!["size_drop"@]
        } else {
            Seq::empty()
        };
        tiny + drop
    }
}

fn is_archive_type(task_type: &str) -> (r: bool)
    ensures
        r == spec_is_archive_type(task_type@),
{
    str_eq(task_type, "mysql_dump") || str_eq(task_type, "postgresql_dump") || str_eq(
        task_type,
        "db_dump",
    ) || str_eq(task_type, "files_archive") || str_eq(task_type, "file_archive") || str_eq(
        task_type,
        "dir_sync",
    )
}

pub open spec fn strings_view(v: Seq<String>) -> Seq<Seq<char>> {
    v.map_values(|s: String| s@)
}

/// Flags for a downloaded backup: `tiny_file`, `size_drop`.
pub fn detect(task_type: &str, file_size: u64, size_dropped: bool) -> (r: Vec<String>)
    ensures
        strings_view(r@) == spec_detect(task_type@, file_size, size_dropped),
        named_archive_type(task_type@) && file_size < 1024 ==> r@.len() >= 1 && r@[0]@
            == "tiny_file"@,
        task_type@ == "shell"@ ==> r@.len() == 0,
        task_type@ != "shell"@ ==> (size_dropped <==> (r@.len() >= 1 && r@.last()@
            == "size_drop"@)),
{
    proof {
        law_detect_flags(task_type@, file_size, size_dropped);
    }
    let normalized = normalize_task_type(task_type);
    if str_eq(normalized, "shell") {
        let v: Vec<String> = Vec::new();
        assert(strings_view(v@) =~= Seq::<Seq<char>>::empty());
        return v;
    }
    let mut flags: Vec<String> = Vec::new();
    if is_archive_type(normalized) && file_size < TINY_ARCHIVE_BYTES {
        flags.push(string_of(&chars_of("tiny_file")));
    }
    let ghost tiny = strings_view(flags@);
    if size_dropped {
        flags.push(string_of(&chars_of("size_drop")));
    }
    assert(strings_view(flags@) =~= spec_detect(task_type@, file_size, size_dropped));
    flags
}

/// The flags joined with commas; `None` when there are none.
pub fn flags_to_string(flags: &[String]) -> (r: Option<String>)
    ensures
        flags@.len() == 0 ==> r is None,
        flags@.len() > 0 ==> r is Some && r->0@ == join(strings_view(flags@), seq![',']),
{
    if flags.len() == 0 {
        return None;
    }
    let mut out: Vec<char> = Vec::new();
    let ghost fs = strings_view(flags@);
    let mut i: usize = 0;
    while i < flags.len()
        invariant
            i <= flags.len(),
            fs == strings_view(flags@),
            out@ == join(fs.take(i as int), seq![',']),
        decreases flags.len() - i,
    {
        if i > 0 {
            out.push(',');
        }
        let f = chars_of(flags[i].as_str());
        append_chars(&mut out, &f);
        proof {
            let t = fs.take(i + 1);
            assert(t.drop_last() =~= fs.take(i as int));
            assert(t.last() == flags@[i as int]@);
            if i == 0 {
                assert(t =~= seq![flags@[0]@]);
            }
        }
        i = i + 1;
    }
    assert(fs.take(flags.len() as int) =~= fs);
    Some(string_of(&out))
}

/// The types whose result is an archive, by name.
pub open spec fn named_archive_type(t: Seq<char>) -> bool {
    t == "mysql_dump"@ || t == "postgresql_dump"@ || t == "db_dump"@ || t == "files_archive"@ || t
        == "file_archive"@ || t == "dir_sync"@
}

/// A file under 1 KB from any archive type (`mysql_dump`, `postgresql_dump`,
/// `db_dump`, `files_archive`, `file_archive`, `dir_sync`) is flagged
/// `tiny_file` first; a file of 1 KB or more never is; `size_drop` is the
/// last flag exactly when the size dropped, for every type but `shell`, which
/// gets no flags.
pub proof fn law_detect_flags(task_type: Seq<char>, file_size: u64, size_dropped: bool)
    ensures
        named_archive_type(task_type) && file_size < 1024 ==> spec_detect(
            task_type,
            file_size,
            size_dropped,
        ).len() >= 1 && spec_detect(task_type, file_size, size_dropped)[0] == "tiny_file"@,
        file_size >= 1024 ==> !spec_detect(task_type, file_size, size_dropped).contains(
            "tiny_file"@,
        ),
        task_type == "shell"@ ==> spec_detect(task_type, file_size, size_dropped).len() == 0,
        task_type != "shell"@ ==> (size_dropped <==> (spec_detect(
            task_type,
            file_size,
            size_dropped,
        ).len() >= 1 && spec_detect(task_type, file_size, size_dropped).last() == "size_drop"@)),
        spec_detect(task_type, file_size, size_dropped).len() <= 2,
{
    reveal_strlit("mysql_dump");
    reveal_strlit("postgresql_dump");
    reveal_strlit("db_dump");
    reveal_strlit("files_archive");
    reveal_strlit("file_archive");
    reveal_strlit("dir_sync");
    reveal_strlit("shell");
    reveal_strlit("tiny_file");
    reveal_strlit("size_drop");
    assert("tiny_file"@.len() == 9);
    assert("size_drop"@.len() == 9);
    assert("tiny_file"@[0] != "size_drop"@[0]);
    assert("shell"@.len() == 5);
    assert("file_archive"@.len() == 12);
    assert("files_archive"@.len() == 13);
    let f = spec_detect(task_type, file_size, size_dropped);
    if file_size >= 1024 && f.contains("tiny_file"@) {
        let k = choose|k: int| 0 <= k < f.len() && f[k] == "tiny_file"@;
        assert(f[k] == "size_drop"@);
    }
}

} // verus!
