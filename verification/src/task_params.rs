//! Task parameters: the list of task types, one-line summaries of a task's
//! data, the encryption flag, and the data objects built from what a user
//! entered.
use vstd::prelude::*;

use crate::i18n::{fill, reps_view, Translator};
use crate::json::{bool_of, object_get, set_member, str_of, u64_of, Json, JsonNumber};
use crate::text::{
    append_chars, chars_of, decimal, decimal_chars, join, join_chars, parse_u64, parse_u64_chars,
    str_eq, string_of, trim, trim_chars,
};
use crate::validation::{normalize_task_type, spec_normalize_task_type};

verus! {

/// The task types a user can pick, in menu order.
pub const TASK_TYPES: [&'static str; 6] = [
    "mysql_dump",
    "postgresql_dump",
    "sqlite_dump",
    "files_archive",
    "dir_sync",
    "shell",
];

/// Internal cancellation marker (locale-independent).
pub const CANCELLED: &'static str = "__cancelled__";

/// The name a task type is shown under.
pub fn display_task_type(t: &str) -> (r: &str)
    ensures
        r@ == spec_normalize_task_type(t@),
{
    normalize_task_type(t)
}

/// The non-empty strings of an array, in order (other items are skipped).
pub open spec fn nonempty_strs(items: Seq<Json>) -> Seq<Seq<char>>
    decreases items.len(),
{
    if items.len() == 0 {
        Seq::empty()
    } else {
        let rest = nonempty_strs(items.drop_last());
        match items.last() {
            Json::Str(s) => if s@.len() > 0 {
                rest.push(s@)
            } else {
                rest
            },
            _ => rest,
        }
    }
}

/// The ignore patterns of an archive task as shown to the user: the array's
/// non-empty strings joined by ", ", a plain string, or `em` when there are none.
pub open spec fn spec_ignore_display(em: Seq<char>, data: Json) -> Seq<char> {
    match data.field("ignore"@) {
        Some(Json::Array(a)) => {
            let items = nonempty_strs(a@);
            if items.len() == 0 {
                em
            } else {
                join(items, ", "@)
            }
        },
        Some(Json::Str(s)) => if s@.len() == 0 {
            em
        } else {
            s@
        },
        _ => em,
    }
}

/// Formats the ignore patterns of an archive task's data.
pub fn ignore_patterns_display(tr: &Translator, data: &Json) -> (r: String)
    ensures
        r@ == spec_ignore_display(tr.text("task.params_em_dash"@), *data),
{
    let em = tr.t("task.params_em_dash");
    match data.get("ignore") {
        Some(Json::Array(arr)) => {
            let mut items: Vec<Vec<char>> = Vec::new();
            let mut i: usize = 0;
            while i < arr.len()
                invariant
                    i <= arr.len(),
                    items@.map_values(|w: Vec<char>| w@) == nonempty_strs(arr@.take(i as int)),
                decreases arr.len() - i,
            {
                let ghost before = items@.map_values(|w: Vec<char>| w@);
                assert(arr@.take(i + 1).drop_last() =~= arr@.take(i as int));
                assert(arr@.take(i + 1).last() == arr@[i as int]);
                match &arr[i] {
                    Json::Str(s) => {
                        if !s.as_str().is_empty() {
                            items.push(chars_of(s.as_str()));
                            assert(items@.map_values(|w: Vec<char>| w@) =~= before.push(s@));
                        }
                    },
                    _ => {},
                }
                i = i + 1;
            }
            assert(arr@.take(arr.len() as int) =~= arr@);
            if items.len() == 0 {
                em
            } else {
                let sep: Vec<char> = vec![',', ' '];
                proof {
                    reveal_strlit(", ");
                }
                assert(sep@ =~= ", "@);
                string_of(&join_chars(&items, &sep))
            }
        },
        Some(Json::Str(s)) => {
            if s.as_str().is_empty() {
                em
            } else {
                string_of(&chars_of(s.as_str()))
            }
        },
        _ => em,
    }
}

/// `v` when it is a non-empty text, `em` otherwise.
pub open spec fn text_or(v: Option<Seq<char>>, em: Seq<char>) -> Seq<char> {
    match v {
        Some(p) => if p.len() > 0 {
            p
        } else {
            em
        },
        None => em,
    }
}

/// The source directory of an archive task (`source_path`, else the older `source`).
pub open spec fn archive_source(data: Json) -> Option<Seq<char>> {
    match data.field("source_path"@) {
        Some(v) => str_of(Some(v)),
        None => str_of(data.field("source"@)),
    }
}

/// A number member, or `default` when it is missing or not a `u64`.
pub open spec fn u64_or(v: Option<u64>, default: u64) -> u64 {
    match v {
        Some(n) => n,
        None => default,
    }
}

/// The one-line parameter summary of a task (`None` data: unreadable JSON).
pub open spec fn spec_params_summary(tr: Translator, task_type: Seq<char>, data: Option<Json>) -> Seq<
    char,
> {
    let tt = spec_normalize_task_type(task_type);
    let em = tr.text("task.params_em_dash"@);
    match data {
        None => Seq::empty(),
        Some(d) => if tt == "files_archive"@ {
            fill(
                tr.text("task.params_path"@),
                seq![
                    ("path"@, text_or(archive_source(d), em)),
                    ("ignore"@, spec_ignore_display(em, d)),
                ],
            )
        } else if tt == "dir_sync"@ {
            fill(
                tr.text("task.params_dir_sync"@),
                seq![
                    ("path"@, text_or(str_of(d.field("source_path"@)), em)),
                    ("days"@, decimal(u64_or(u64_of(d.field("first_sync_days"@)), 0) as nat)),
                    ("batch"@, decimal(u64_or(u64_of(d.field("max_batch_mb"@)), 200) as nat)),
                ],
            )
        } else {
            Seq::empty()
        },
    }
}

/// `s` as an owned string when it is non-empty, `em` otherwise.
fn text_or_default(s: Option<&str>, em: &String) -> (r: String)
    ensures
        r@ == text_or(crate::json::opt_str_view(s), em@),
{
    match s {
        Some(p) => if !p.is_empty() {
            string_of(&chars_of(p))
        } else {
            string_of(&chars_of(em.as_str()))
        },
        None => string_of(&chars_of(em.as_str())),
    }
}

/// One-line summary of a task's parameters for the task list.
pub fn params_summary(tr: &Translator, task_type: &str, data: Option<&Json>) -> (r: String)
    ensures
        r@ == spec_params_summary(
            *tr,
            task_type@,
            match data {
                Some(d) => Some(*d),
                None => None,
            },
        ),
{
    let tt = normalize_task_type(task_type);
    let d = match data {
        Some(d) => d,
        None => return String::new(),
    };
    let em = tr.t("task.params_em_dash");
    if str_eq(tt, "files_archive") {
        let src = match d.get("source_path") {
            Some(Json::Str(s)) => Some(s.as_str()),
            Some(_) => None,
            None => d.str_field("source"),
        };
        let path = text_or_default(src, &em);
        let ignore = ignore_patterns_display(tr, d);
        let reps = [("path", path.as_str()), ("ignore", ignore.as_str())];
        assert(reps_view(reps@) =~= seq![
            ("path"@, text_or(archive_source(*d), em@)),
            ("ignore"@, spec_ignore_display(em@, *d)),
        ]);
        tr.t_fmt("task.params_path", &reps)
    } else if str_eq(tt, "dir_sync") {
        let path = text_or_default(d.str_field("source_path"), &em);
        let days_n = match d.u64_field("first_sync_days") {
            Some(n) => n,
            None => 0,
        };
        let batch_n = match d.u64_field("max_batch_mb") {
            Some(n) => n,
            None => 200,
        };
        let days = string_of(&decimal_chars(days_n));
        let batch = string_of(&decimal_chars(batch_n));
        let reps = [("path", path.as_str()), ("days", days.as_str()), ("batch", batch.as_str())];
        assert(reps_view(reps@) =~= seq![
            ("path"@, text_or(str_of(d.field("source_path"@)), em@)),
            ("days"@, decimal(days_n as nat)),
            ("batch"@, decimal(batch_n as nat)),
        ]);
        tr.t_fmt("task.params_dir_sync", &reps)
    } else {
        String::new()
    }
}

/// The `encrypt` flag of a task's data (off when missing or unreadable).
pub open spec fn spec_encrypt_flag(data: Option<Json>) -> bool {
    match data {
        Some(d) => bool_of(d.field("encrypt"@)) == Some(true),
        None => false,
    }
}

/// Reads the `encrypt` flag of a task's data.
pub fn read_encrypt_flag(data: Option<&Json>) -> (r: bool)
    ensures
        r == spec_encrypt_flag(
            match data {
                Some(d) => Some(*d),
                None => None,
            },
        ),
{
    match data {
        Some(d) => match d.bool_field("encrypt") {
            Some(b) => b,
            None => false,
        },
        None => false,
    }
}

/// The encryption state of a task as shown in lists: not applicable for
/// `dir_sync`, otherwise on or off by the data's flag.
pub fn encrypt_display(tr: &Translator, task_type: &str, data: Option<&Json>) -> (r: String)
    ensures
        spec_normalize_task_type(task_type@) == "dir_sync"@ ==> r@ == tr.text("encrypt.na"@),
        spec_normalize_task_type(task_type@) != "dir_sync"@ ==> r@ == tr.text(
            if spec_encrypt_flag(
                match data {
                    Some(d) => Some(*d),
                    None => None,
                },
            ) {
                "encrypt.on"@
            } else {
                "encrypt.off"@
            },
        ),
{
    if str_eq(normalize_task_type(task_type), "dir_sync") {
        return tr.encrypt_state(false, true);
    }
    tr.encrypt_state(read_encrypt_flag(data), false)
}

/// Why task data cannot take the encryption flag.
#[derive(Debug, Clone, PartialEq, Eq)]
pub enum TaskDataError {
    /// The data is not a JSON object.
    NotObject,
}

impl TaskDataError {
    pub fn message(&self) -> (r: String)
        ensures
            r@ == "Task data must be a JSON object"@,
    {
        string_of(&chars_of("Task data must be a JSON object"))
    }
}

/// The encryption flag stored for a task type (never on for `dir_sync`).
pub open spec fn stored_encrypt_flag(task_type: Seq<char>, encrypt: bool) -> bool {
    spec_normalize_task_type(task_type) != "dir_sync"@ && encrypt
}

/// Sets the `encrypt` member of a task's data object.
pub fn merge_encrypt_flag(task_type: &str, data: Json, encrypt: bool) -> (r: Result<
    Json,
    TaskDataError,
>)
    ensures
        !(data is Object) ==> r == Err::<Json, TaskDataError>(TaskDataError::NotObject),
        data is Object ==> r is Ok && r->Ok_0 is Object,
        r matches Ok(j) ==> j.field("encrypt"@) == Some(
            Json::Bool(stored_encrypt_flag(task_type@, encrypt)),
        ),
        r matches Ok(j) ==> forall|k: Seq<char>|
            k != "encrypt"@ ==> #[trigger] j.field(k) == data.field(k),
{
    let flag = if str_eq(normalize_task_type(task_type), "dir_sync") {
        false
    } else {
        encrypt
    };
    match data {
        Json::Object(mut es) => {
            let ghost old_es = es@;
            set_member(&mut es, "encrypt", Json::Bool(flag));
            Ok(Json::Object(es))
        },
        _ => Err(TaskDataError::NotObject),
    }
}

/// The pieces of `s` between occurrences of `c` (`str::split`): at least one.
pub open spec fn split_on(s: Seq<char>, c: char) -> Seq<Seq<char>>
    decreases s.len(),
{
    if s.len() == 0 {
        seq![Seq::empty()]
    } else {
        let rest = split_on(s.drop_last(), c);
        if s.last() == c {
            rest.push(Seq::empty())
        } else {
            rest.update(rest.len() - 1, rest.last().push(s.last()))
        }
    }
}

pub proof fn lemma_split_on_nonempty(s: Seq<char>, c: char)
    ensures
        split_on(s, c).len() >= 1,
    decreases s.len(),
{
    if s.len() > 0 {
        lemma_split_on_nonempty(s.drop_last(), c);
    }
}

/// The trimmed pieces that are not empty, in order.
pub open spec fn trimmed_nonempty(ps: Seq<Seq<char>>) -> Seq<Seq<char>>
    decreases ps.len(),
{
    if ps.len() == 0 {
        Seq::empty()
    } else {
        let rest = trimmed_nonempty(ps.drop_last());
        if trim(ps.last()).len() > 0 {
            rest.push(trim(ps.last()))
        } else {
            rest
        }
    }
}

/// A comma-separated list as entered: split on `,`, trimmed, empty items dropped.
pub open spec fn spec_split_list(s: Seq<char>) -> Seq<Seq<char>> {
    trimmed_nonempty(split_on(s, ','))
}

pub open spec fn strings_view(v: Seq<String>) -> Seq<Seq<char>> {
    v.map_values(|x: String| x@)
}

/// The pieces of `s` between occurrences of `c` (`str::split`).
pub fn split_chars(s: &[char], c: char) -> (r: Vec<Vec<char>>)
    ensures
        r@.map_values(|w: Vec<char>| w@) == split_on(s@, c),
{
    let mut pieces: Vec<Vec<char>> = Vec::new();
    pieces.push(Vec::new());
    assert(pieces@.map_values(|w: Vec<char>| w@) =~= split_on(s@.take(0), c));
    let mut i: usize = 0;
    while i < s.len()
        invariant
            i <= s.len(),
            pieces@.map_values(|w: Vec<char>| w@) == split_on(s@.take(i as int), c),
        decreases s.len() - i,
    {
        let ghost t = s@.take(i + 1);
        assert(t.drop_last() =~= s@.take(i as int));
        assert(t.last() == s@[i as int]);
        proof {
            lemma_split_on_nonempty(s@.take(i as int), c);
        }
        let ghost before = pieces@.map_values(|w: Vec<char>| w@);
        if s[i] == c {
            pieces.push(Vec::new());
            assert(pieces@.map_values(|w: Vec<char>| w@) =~= before.push(Seq::empty()));
        } else {
            let mut last = pieces.pop().unwrap();
            last.push(s[i]);
            pieces.push(last);
            assert(pieces@.map_values(|w: Vec<char>| w@) =~= before.update(
                before.len() - 1,
                before.last().push(s@[i as int]),
            ));
        }
        i = i + 1;
    }
    assert(s@.take(s.len() as int) =~= s@);
    pieces
}

/// Splits a comma-separated list of ignore patterns or script arguments.
pub fn split_list(input: &str) -> (r: Vec<String>)
    ensures
        strings_view(r@) == spec_split_list(input@),
{
    let s = chars_of(input);
    let pieces = split_chars(&s, ',');
    let ghost ps = pieces@.map_values(|w: Vec<char>| w@);
    let mut out: Vec<String> = Vec::new();
    let mut j: usize = 0;
    while j < pieces.len()
        invariant
            j <= pieces.len(),
            ps == pieces@.map_values(|w: Vec<char>| w@),
            strings_view(out@) == trimmed_nonempty(ps.take(j as int)),
        decreases pieces.len() - j,
    {
        assert(ps.take(j + 1).drop_last() =~= ps.take(j as int));
        assert(ps.take(j + 1).last() == pieces@[j as int]@);
        let t = trim_chars(&pieces[j]);
        let ghost before = strings_view(out@);
        if t.len() > 0 {
            out.push(string_of(&t));
            assert(strings_view(out@) =~= before.push(t@));
        }
        j = j + 1;
    }
    assert(ps.take(pieces.len() as int) =~= ps);
    out
}

/// Whether a requested batch size was changed or deserves a note.
#[derive(Debug, Clone, Copy, PartialEq, Eq)]
pub enum BatchNotice {
    /// Within the usual range.
    Plain,
    /// Above the usual 200 MB: allowed, with a note.
    Large,
    /// Above 500 MB: capped at 500.
    Capped,
}

/// The batch size a `dir_sync` task stores for what the user entered:
/// unreadable input counts as 200 MB, and the value is kept within 1..=500.
pub open spec fn spec_batch_limit(input: Seq<char>) -> (u64, BatchNotice) {
    let parsed = match parse_u64(input) {
        Some(n) => n,
        None => 200u64,
    };
    let mb: u64 = if parsed < 1 {
        1
    } else if parsed > 500 {
        500
    } else {
        parsed
    };
    let notice = if parsed > 500 {
        BatchNotice::Capped
    } else if parsed > 200 {
        BatchNotice::Large
    } else {
        BatchNotice::Plain
    };
    (mb, notice)
}

/// Reads the maximum batch size (MB) of a `dir_sync` task.
pub fn batch_limit(input: &str) -> (r: (u64, BatchNotice))
    ensures
        r == spec_batch_limit(input@),
{
    let parsed = match parse_u64_chars(&chars_of(input)) {
        Some(n) => n,
        None => 200,
    };
    let mb = if parsed < 1 {
        1
    } else if parsed > 500 {
        500
    } else {
        parsed
    };
    let notice = if parsed > 500 {
        BatchNotice::Capped
    } else if parsed > 200 {
        BatchNotice::Large
    } else {
        BatchNotice::Plain
    };
    (mb, notice)
}

/// Reads the days of history a first `dir_sync` fetches (0 when unreadable).
pub fn first_sync_days(input: &str) -> (r: u64)
    ensures
        r == u64_or(parse_u64(input@), 0),
{
    match parse_u64_chars(&chars_of(input)) {
        Some(n) => n,
        None => 0,
    }
}

/// A JSON number holding `n`.
pub open spec fn is_number(v: Json, n: u64) -> bool {
    v matches Json::Number(num) && num.as_u64 == Some(n) && num.as_i64 == (if n <= i64::MAX {
        Some(n as i64)
    } else {
        None::<i64>
    }) && num.text@ == decimal(n as nat)
}

/// The JSON number for `n`.
pub fn number_json(n: u64) -> (r: Json)
    ensures
        is_number(r, n),
{
    let as_i64 = if n <= 9223372036854775807u64 {
        Some(n as i64)
    } else {
        None
    };
    Json::Number(JsonNumber { as_i64, as_u64: Some(n), text: string_of(&decimal_chars(n)) })
}

/// The JSON string for `s`.
pub fn string_json(s: &str) -> (r: Json)
    ensures
        str_of(Some(r)) == Some(s@),
{
    Json::Str(string_of(&chars_of(s)))
}

/// A member of a data object.
fn member(key: &str, value: Json) -> (r: (String, Json))
    ensures
        r.0@ == key@,
        r.1 == value,
{
    (string_of(&chars_of(key)), value)
}

/// Data of a `sqlite_dump` task.
pub fn sqlite_data(db_path: &str) -> (r: Json)
    ensures
        r matches Json::Object(es) && es@.len() == 1 && es@[0].0@ == "db_path"@ && str_of(
            Some(es@[0].1),
        ) == Some(db_path@),
{
    let mut es: Vec<(String, Json)> = Vec::new();
    es.push(member("db_path", string_json(db_path)));
    Json::Object(es)
}

/// The items of a JSON array of strings.
pub open spec fn array_of_strings(v: Json, items: Seq<Seq<char>>) -> bool {
    v matches Json::Array(a) && a@.len() == items.len() && forall|i: int|
        0 <= i < items.len() ==> str_of(Some(#[trigger] a@[i])) == Some(items[i])
}

/// Data of a `files_archive` task.
pub fn files_archive_data(source_path: &str, ignore: &Vec<String>) -> (r: Json)
    ensures
        r matches Json::Object(es) && es@.len() == 2 && es@[0].0@ == "source_path"@ && str_of(
            Some(es@[0].1),
        ) == Some(source_path@) && es@[1].0@ == "ignore"@ && array_of_strings(
            es@[1].1,
            strings_view(ignore@),
        ),
{
    let mut items: Vec<Json> = Vec::new();
    let mut i: usize = 0;
    while i < ignore.len()
        invariant
            i <= ignore.len(),
            items@.len() == i,
            forall|k: int| 0 <= k < i ==> str_of(Some(#[trigger] items@[k])) == Some(ignore@[k]@),
        decreases ignore.len() - i,
    {
        items.push(string_json(ignore[i].as_str()));
        i = i + 1;
    }
    let mut es: Vec<(String, Json)> = Vec::new();
    es.push(member("source_path", string_json(source_path)));
    es.push(member("ignore", Json::Array(items)));
    Json::Object(es)
}

/// Data of a `dir_sync` task.
pub fn dir_sync_data(source_path: &str, first_sync_days: u64, max_batch_mb: u64) -> (r: Json)
    ensures
        r matches Json::Object(es) && es@.len() == 3 && es@[0].0@ == "source_path"@ && str_of(
            Some(es@[0].1),
        ) == Some(source_path@) && es@[1].0@ == "first_sync_days"@ && is_number(
            es@[1].1,
            first_sync_days,
        ) && es@[2].0@ == "max_batch_mb"@ && is_number(es@[2].1, max_batch_mb),
{
    let mut es: Vec<(String, Json)> = Vec::new();
    es.push(member("source_path", string_json(source_path)));
    es.push(member("first_sync_days", number_json(first_sync_days)));
    es.push(member("max_batch_mb", number_json(max_batch_mb)));
    Json::Object(es)
}

/// The database a dump task talks to (`postgresql` or `mysql`).
pub open spec fn spec_provider(task_type: Seq<char>) -> Seq<char> {
    if task_type == "postgresql_dump"@ {
        "postgresql"@
    } else {
        "mysql"@
    }
}

/// Default host and port offered for a dump task's database.
pub fn db_dump_defaults(task_type: &str) -> (r: (&'static str, &'static str))
    ensures
        task_type@ == "postgresql_dump"@ ==> r.0@ == "localhost"@ && r.1@ == "5432"@,
        task_type@ != "postgresql_dump"@ ==> r.0@ == "127.0.0.1"@ && r.1@ == "3306"@,
{
    if str_eq(task_type, "postgresql_dump") {
        ("localhost", "5432")
    } else {
        ("127.0.0.1", "3306")
    }
}

/// Data of a `mysql_dump` or `postgresql_dump` task.
pub fn db_dump_data(
    task_type: &str,
    db_name: &str,
    db_user: &str,
    db_pass: &str,
    db_host: &str,
    db_port: u16,
) -> (r: Json)
    ensures
        r matches Json::Object(es) && es@.len() == 6 && es@[0].0@ == "db_name"@ && str_of(
            Some(es@[0].1),
        ) == Some(db_name@) && es@[1].0@ == "db_user"@ && str_of(Some(es@[1].1)) == Some(
            db_user@,
        ) && es@[2].0@ == "db_pass"@ && str_of(Some(es@[2].1)) == Some(db_pass@) && es@[3].0@
            == "db_host"@ && str_of(Some(es@[3].1)) == Some(db_host@) && es@[4].0@ == "db_port"@
            && is_number(es@[4].1, db_port as u64) && es@[5].0@ == "provider"@ && str_of(
            Some(es@[5].1),
        ) == Some(spec_provider(task_type@)),
{
    let provider = if str_eq(task_type, "postgresql_dump") {
        "postgresql"
    } else {
        "mysql"
    };
    let mut es: Vec<(String, Json)> = Vec::new();
    es.push(member("db_name", string_json(db_name)));
    es.push(member("db_user", string_json(db_user)));
    es.push(member("db_pass", string_json(db_pass)));
    es.push(member("db_host", string_json(db_host)));
    es.push(member("db_port", number_json(db_port as u64)));
    es.push(member("provider", string_json(provider)));
    Json::Object(es)
}

/// A task type whose data holds a database password.
pub open spec fn spec_is_dump_task(task_type: Seq<char>) -> bool {
    let t = spec_normalize_task_type(task_type);
    t == "mysql_dump"@ || t == "mariadb_dump"@ || t == "postgresql_dump"@
}

/// Whether a task type's data holds a database password.
pub fn is_dump_task(task_type: &str) -> (r: bool)
    ensures
        r == spec_is_dump_task(task_type@),
{
    let t = normalize_task_type(task_type);
    str_eq(t, "mysql_dump") || str_eq(t, "mariadb_dump") || str_eq(t, "postgresql_dump")
}

/// The data of a dump task with its saved database password blanked, for
/// production mode; `None` when there is nothing to clear (another task
/// type, data that is not an object, or no non-empty `db_pass`).
pub fn clear_dump_password(task_type: &str, data: Json) -> (r: Option<Json>)
    ensures
        ({
            let has_pass = data is Object && (str_of(data.field("db_pass"@)) matches Some(p)
                && p.len() > 0);
            &&& !(spec_is_dump_task(task_type@) && has_pass) ==> r is None
            &&& spec_is_dump_task(task_type@) && has_pass ==> (r matches Some(j) && j is Object
                && str_of(j.field("db_pass"@)) == Some(Seq::<char>::empty()) && forall|k: Seq<char>|
                k != "db_pass"@ ==> #[trigger] j.field(k) == data.field(k))
        }),
{
    if !is_dump_task(task_type) {
        return None;
    }
    let has_pass = match data.str_field("db_pass") {
        Some(p) => !p.is_empty(),
        None => false,
    };
    if !has_pass {
        return None;
    }
    match data {
        Json::Object(mut es) => {
            set_member(&mut es, "db_pass", Json::Str(String::new()));
            Some(Json::Object(es))
        },
        _ => None,
    }
}

/// The member `first` of an object, else its member `second`.
pub open spec fn field_either(existing: Option<Json>, first: Seq<char>, second: Seq<char>) -> Option<Json> {
    match existing {
        Some(v) => match v.field(first) {
            Some(x) => Some(x),
            None => v.field(second),
        },
        None => None,
    }
}

fn get_either<'a>(existing: Option<&'a Json>, first: &str, second: &str) -> (r: Option<&'a Json>)
    ensures
        match r {
            Some(x) => field_either(
                match existing {
                    Some(v) => Some(*v),
                    None => None,
                },
                first@,
                second@,
            ) == Some(*x),
            None => field_either(
                match existing {
                    Some(v) => Some(*v),
                    None => None,
                },
                first@,
                second@,
            ) is None,
        },
{
    match existing {
        Some(v) => match v.get(first) {
            Some(x) => Some(x),
            None => v.get(second),
        },
        None => None,
    }
}

/// The texts among the values of an array, in order.
pub open spec fn texts_in(a: Seq<Json>) -> Seq<Seq<char>>
    decreases a.len(),
{
    if a.len() == 0 {
        Seq::empty()
    } else {
        let rest = texts_in(a.drop_last());
        match a.last() {
            Json::Str(s) => rest.push(s@),
            _ => rest,
        }
    }
}

pub open spec fn opt_json(o: Option<&Json>) -> Option<Json> {
    match o {
        Some(v) => Some(*v),
        None => None,
    }
}

/// Script name offered when editing a shell task: `script_name`, else `script`, when a string.
pub fn shell_default_script(existing: Option<&Json>) -> (r: String)
    ensures
        r@ == match str_of(field_either(opt_json(existing), "script_name"@, "script"@)) {
            Some(t) => t,
            None => Seq::<char>::empty(),
        },
{
    proof {
        reveal_strlit("script_name");
        reveal_strlit("script");
    }
    match get_either(existing, "script_name", "script") {
        Some(Json::Str(t)) => string_of(&chars_of(t.as_str())),
        _ => String::new(),
    }
}

/// Arguments offered when editing a shell task: the texts of the array under
/// `script_args` (else `args`), joined with `, `.
pub fn shell_default_args(existing: Option<&Json>) -> (r: String)
    ensures
        r@ == match field_either(opt_json(existing), "script_args"@, "args"@) {
            Some(Json::Array(a)) => join(texts_in(a@), ", "@),
            _ => Seq::<char>::empty(),
        },
{
    proof {
        reveal_strlit("script_args");
        reveal_strlit("args");
    }
    match get_either(existing, "script_args", "args") {
        Some(Json::Array(a)) => {
            let mut parts: Vec<Vec<char>> = Vec::new();
            let mut i: usize = 0;
            while i < a.len()
                invariant
                    i <= a@.len(),
                    parts@.map_values(|w: Vec<char>| w@) == texts_in(a@.take(i as int)),
                decreases a@.len() - i,
            {
                let ghost before = parts@.map_values(|w: Vec<char>| w@);
                assert(a@.take(i + 1).drop_last() =~= a@.take(i as int));
                match &a[i] {
                    Json::Str(t) => {
                        parts.push(chars_of(t.as_str()));
                        assert(parts@.map_values(|w: Vec<char>| w@) =~= before.push(t@));
                    },
                    _ => {},
                }
                i = i + 1;
            }
            assert(a@.take(a@.len() as int) =~= a@);
            let sep = chars_of(", ");
            string_of(&join_chars(&parts, &sep))
        },
        _ => String::new(),
    }
}

/// The timeout value offered when editing a shell task: `timeout_secs`, else `timeout`.
pub fn shell_timeout_value(existing: Option<&Json>) -> (r: Option<&Json>)
    ensures
        opt_json(r) == field_either(opt_json(existing), "timeout_secs"@, "timeout"@),
{
    proof {
        reveal_strlit("timeout_secs");
        reveal_strlit("timeout");
    }
    get_either(existing, "timeout_secs", "timeout")
}

/// Timeout used when the entered one is not a number.
pub const SHELL_DEFAULT_TIMEOUT_SECS: u64 = 60;

/// Data of a `shell` task from what a user entered: the script, the
/// comma-separated arguments and the timeout in seconds.
pub fn shell_data(script: &str, args: &str, timeout: &str) -> (r: Json)
    ensures
        r matches Json::Object(es) && es@.len() == 3 && es@[0].0@ == "script_name"@ && str_of(
            Some(es@[0].1),
        ) == Some(script@) && es@[1].0@ == "script_args"@ && array_of_strings(
            es@[1].1,
            spec_split_list(args@),
        ) && es@[2].0@ == "timeout_secs"@ && is_number(
            es@[2].1,
            match parse_u64(timeout@) {
                Some(n) => n,
                None => SHELL_DEFAULT_TIMEOUT_SECS,
            },
        ),
{
    let items = split_list(args);
    let mut arr: Vec<Json> = Vec::new();
    let mut i: usize = 0;
    while i < items.len()
        invariant
            i <= items@.len(),
            arr@.len() == i,
            forall|k: int| 0 <= k < i ==> str_of(Some(#[trigger] arr@[k])) == Some(items@[k]@),
        decreases items@.len() - i,
    {
        arr.push(string_json(items[i].as_str()));
        i = i + 1;
    }
    proof {
        assert forall|k: int| 0 <= k < items@.len() implies str_of(Some(#[trigger] arr@[k]))
            == Some(spec_split_list(args@)[k]) by {
            assert(strings_view(items@)[k] == items@[k]@);
        }
    }
    let secs = match parse_u64_chars(&chars_of(timeout)) {
        Some(n) => n,
        None => SHELL_DEFAULT_TIMEOUT_SECS,
    };
    let mut es: Vec<(String, Json)> = Vec::new();
    es.push(member("script_name", string_json(script)));
    es.push(member("script_args", Json::Array(arr)));
    es.push(member("timeout_secs", number_json(secs)));
    Json::Object(es)
}

} // verus!
