//! Protocol helpers: download file names, archive labels, device id display.
use vstd::prelude::*;

use crate::anomaly::{detect, flags_to_string, spec_detect, strings_view};
use crate::json::{i64_of, opt_str_view, str_of, u64_of, Json};
use crate::task_params::string_json;
use crate::models::{enabled_only, Task};
use crate::run_tracker::{pending_from_task, PendingRun};
use crate::task_params::u64_or;
use crate::text::{
    append_chars, chars_of, contains, contains_chars, ends_with, ends_with_chars, join, last_pos,
    rfind_char, slice_chars, starts_with, starts_with_at, str_eq, string_of, strip_all_suffix,
    strip_all_suffix_chars,
};
use vstd::string::StringSliceAdditionalSpecFns;
use crate::validation::{normalize_task_type, spec_normalize_task_type};

verus! {

/// The last `/`-separated segment of a download URL, unless it is empty.
pub open spec fn spec_filename_from_url(url: Seq<char>) -> Option<Seq<char>> {
    let seg = url.skip(last_pos(url, '/') + 1);
    if seg.len() > 0 {
        Some(seg)
    } else {
        None
    }
}

/// The file name a download URL ends with.
pub fn filename_from_download_url(url: &str) -> (r: Option<String>)
    ensures
        r is Some <==> spec_filename_from_url(url@) is Some,
        r matches Some(f) ==> f@ == spec_filename_from_url(url@)->0,
{
    let v = chars_of(url);
    let start = match rfind_char(&v, '/') {
        Some(i) => i + 1,
        None => 0,
    };
    let seg = slice_chars(&v, start, v.len());
    assert(seg@ =~= v@.skip(last_pos(v@, '/') + 1));
    if seg.len() > 0 {
        Some(string_of(&seg))
    } else {
        None
    }
}

/// The label a task type carries in backup file names.
pub open spec fn spec_backup_file_label(task_type: Seq<char>) -> Seq<char> {
    let t = spec_normalize_task_type(task_type);
    if t == "mysql_dump"@ || t == "mariadb_dump"@ {
        "mysql"@
    } else if t == "postgresql_dump"@ {
        "postgresql"@
    } else if t == "sqlite_dump"@ {
        "sqlite"@
    } else if t == "files_archive"@ {
        "files"@
    } else if t == "dir_sync"@ {
        "sync"@
    } else if t == "shell"@ {
        "shell"@
    } else {
        t
    }
}

/// The label a task type carries in backup file names (`backup_{name}_{label}_…`).
pub fn backup_file_label(task_type: &str) -> (r: &str)
    ensures
        r@ == spec_backup_file_label(task_type@),
        task_type@ == "mysql_dump"@ || task_type@ == "mariadb_dump"@ ==> r@ == "mysql"@,
        task_type@ == "postgresql_dump"@ ==> r@ == "postgresql"@,
        task_type@ == "sqlite_dump"@ ==> r@ == "sqlite"@,
        task_type@ == "files_archive"@ || task_type@ == "file_archive"@ ==> r@ == "files"@,
        task_type@ == "dir_sync"@ ==> r@ == "sync"@,
        task_type@ == "shell"@ ==> r@ == "shell"@,
{
    proof {
        law_backup_file_labels();
    }
    let t = normalize_task_type(task_type);
    if str_eq(t, "mysql_dump") || str_eq(t, "mariadb_dump") {
        "mysql"
    } else if str_eq(t, "postgresql_dump") {
        "postgresql"
    } else if str_eq(t, "sqlite_dump") {
        "sqlite"
    } else if str_eq(t, "files_archive") {
        "files"
    } else if str_eq(t, "dir_sync") {
        "sync"
    } else if str_eq(t, "shell") {
        "shell"
    } else {
        t
    }
}

/// A shortened device id for logs: `first8...last8` for a full id, the first
/// sixteen bytes and `...` for a shorter one over sixteen bytes, else the id.
pub open spec fn spec_device_id_short(id: &str) -> Seq<char> {
    let b = id.spec_bytes();
    if b.len() >= 64 {
        vstd::utf8::decode_utf8(b.take(8)) + "..."@ + vstd::utf8::decode_utf8(b.skip(56))
    } else if b.len() > 16 {
        vstd::utf8::decode_utf8(b.take(16)) + "..."@
    } else {
        id@
    }
}

/// Shortens a device id for display; the cut points are byte offsets.
pub fn device_id_short(id: &str) -> (r: String)
    requires
        id.spec_bytes().len() <= usize::MAX,
        id.spec_bytes().len() >= 64 ==> vstd::utf8::is_char_boundary(id.spec_bytes(), 8)
            && vstd::utf8::is_char_boundary(id.spec_bytes(), 56),
        16 < id.spec_bytes().len() < 64 ==> vstd::utf8::is_char_boundary(id.spec_bytes(), 16),
    ensures
        r@ == spec_device_id_short(id),
{
    broadcast use vstd::utf8::encode_utf8_decode_utf8;

    let n = id.len();
    assert(n as int == id.spec_bytes().len());
    if n >= 64 {
        let (a, _) = id.split_at(8);
        let (_, b) = id.split_at(56);
        proof {
            assert(a@ == vstd::utf8::decode_utf8(a.spec_bytes()));
            assert(b@ == vstd::utf8::decode_utf8(b.spec_bytes()));
            assert(id.spec_bytes().subrange(0, 8) =~= id.spec_bytes().take(8));
            assert(id.spec_bytes().subrange(56, id.spec_bytes().len() as int) =~= id.spec_bytes().skip(56));
            assert(a@ == vstd::utf8::decode_utf8(id.spec_bytes().take(8)));
            assert(b@ == vstd::utf8::decode_utf8(id.spec_bytes().skip(56)));
        }
        let mut v = chars_of(a);
        let dots = chars_of("...");
        append_chars(&mut v, &dots);
        let bv = chars_of(b);
        append_chars(&mut v, &bv);
        string_of(&v)
    } else if n > 16 {
        assert(16 < id.spec_bytes().len() < 64);
        let (a, _) = id.split_at(16);
        proof {
            assert(a@ == vstd::utf8::decode_utf8(a.spec_bytes()));
            assert(id.spec_bytes().subrange(0, 16) =~= id.spec_bytes().take(16));
        }
        let mut v = chars_of(a);
        let dots = chars_of("...");
        append_chars(&mut v, &dots);
        string_of(&v)
    } else {
        let v = chars_of(id);
        string_of(&v)
    }
}

// ---------------------------------------------------------------------------
// Messages from the server
// ---------------------------------------------------------------------------

/// `v`, or `d` when it is missing.
pub open spec fn text_or_else(v: Option<Seq<char>>, d: Seq<char>) -> Seq<char> {
    match v {
        Some(t) => t,
        None => d,
    }
}

/// The text of a string member of a message, or `d`.
pub open spec fn member_text(msg: Json, key: Seq<char>, d: Seq<char>) -> Seq<char> {
    text_or_else(str_of(msg.field(key)), d)
}

/// An optional text.
pub open spec fn opt_string_view(o: Option<String>) -> Option<Seq<char>> {
    match o {
        Some(s) => Some(s@),
        None => None,
    }
}

/// What a server message asks of the client.
#[derive(Debug)]
pub enum ServerEvent {
    /// `pong` with status `authenticated`.
    Authenticated,
    /// The task list was stored on the server.
    SyncOk { count: u64 },
    DirSyncResetOk,
    Ping,
    /// A run was queued under the server's run id.
    TaskQueued { run_id: String, queue_position: i64, def_id: Option<String> },
    /// A run finished with nothing new to download.
    NoChanges { run_id: String, detail: String, def_id: Option<String> },
    /// A run finished with a status other than `success` or `no_changes`.
    NotSuccessful { run_id: String, status: String, def_id: Option<String> },
    /// A run finished and its file can be downloaded.
    Completed { run_id: String, download_url: String, file_hash: String, def_id: Option<String> },
    /// A run failed on the server (`def_id` empty when the message has none).
    Failed { run_id: String, error: String, def_id: String },
    /// The server refused a request.
    ServerError { message: String, def_id: Option<String> },
    /// Any other message type.
    Unhandled { msg_type: String },
}

/// A server event with its texts as character sequences.
pub enum EventView {
    Authenticated,
    SyncOk { count: u64 },
    DirSyncResetOk,
    Ping,
    TaskQueued { run_id: Seq<char>, queue_position: i64, def_id: Option<Seq<char>> },
    NoChanges { run_id: Seq<char>, detail: Seq<char>, def_id: Option<Seq<char>> },
    NotSuccessful { run_id: Seq<char>, status: Seq<char>, def_id: Option<Seq<char>> },
    Completed {
        run_id: Seq<char>,
        download_url: Seq<char>,
        file_hash: Seq<char>,
        def_id: Option<Seq<char>>,
    },
    Failed { run_id: Seq<char>, error: Seq<char>, def_id: Seq<char> },
    ServerError { message: Seq<char>, def_id: Option<Seq<char>> },
    Unhandled { msg_type: Seq<char> },
}

impl View for ServerEvent {
    type V = EventView;

    open spec fn view(&self) -> EventView {
        match self {
            ServerEvent::Authenticated => EventView::Authenticated,
            ServerEvent::SyncOk { count } => EventView::SyncOk { count: *count },
            ServerEvent::DirSyncResetOk => EventView::DirSyncResetOk,
            ServerEvent::Ping => EventView::Ping,
            ServerEvent::TaskQueued { run_id, queue_position, def_id } => EventView::TaskQueued {
                run_id: run_id@,
                queue_position: *queue_position,
                def_id: opt_string_view(*def_id),
            },
            ServerEvent::NoChanges { run_id, detail, def_id } => EventView::NoChanges {
                run_id: run_id@,
                detail: detail@,
                def_id: opt_string_view(*def_id),
            },
            ServerEvent::NotSuccessful { run_id, status, def_id } => EventView::NotSuccessful {
                run_id: run_id@,
                status: status@,
                def_id: opt_string_view(*def_id),
            },
            ServerEvent::Completed { run_id, download_url, file_hash, def_id } =>
            EventView::Completed {
                run_id: run_id@,
                download_url: download_url@,
                file_hash: file_hash@,
                def_id: opt_string_view(*def_id),
            },
            ServerEvent::Failed { run_id, error, def_id } => EventView::Failed {
                run_id: run_id@,
                error: error@,
                def_id: def_id@,
            },
            ServerEvent::ServerError { message, def_id } => EventView::ServerError {
                message: message@,
                def_id: opt_string_view(*def_id),
            },
            ServerEvent::Unhandled { msg_type } => EventView::Unhandled { msg_type: msg_type@ },
        }
    }
}

/// The event a server message carries. Missing members read as the client's
/// defaults: run id `?`, queue position 1, count 0, error `unknown error`.
pub open spec fn spec_classify(msg: Json) -> EventView {
    let ty = member_text(msg, "type"@, Seq::empty());
    let run_id = member_text(msg, "task_id"@, "?"@);
    let def_id = str_of(msg.field("def_id"@));
    if ty == "pong"@ && str_of(msg.field("status"@)) == Some("authenticated"@) {
        EventView::Authenticated
    } else if ty == "sync_ok"@ {
        EventView::SyncOk { count: u64_or(u64_of(msg.field("count"@)), 0) }
    } else if ty == "dir_sync_reset_ok"@ {
        EventView::DirSyncResetOk
    } else if ty == "ping"@ {
        EventView::Ping
    } else if ty == "task_queued"@ {
        EventView::TaskQueued {
            run_id,
            queue_position: match i64_of(msg.field("queue_position"@)) {
                Some(p) => p,
                None => 1,
            },
            def_id,
        }
    } else if ty == "task_completed"@ {
        let status = member_text(msg, "status"@, Seq::empty());
        if status == "no_changes"@ {
            EventView::NoChanges { run_id, detail: member_text(msg, "detail"@, Seq::empty()), def_id }
        } else if status != "success"@ {
            EventView::NotSuccessful { run_id, status, def_id }
        } else {
            EventView::Completed {
                run_id,
                download_url: member_text(msg, "download_url"@, Seq::empty()),
                file_hash: member_text(msg, "file_hash"@, Seq::empty()),
                def_id,
            }
        }
    } else if ty == "task_failed"@ {
        EventView::Failed {
            run_id,
            error: member_text(msg, "error"@, "unknown error"@),
            def_id: member_text(msg, "def_id"@, Seq::empty()),
        }
    } else if ty == "error"@ {
        EventView::ServerError { message: member_text(msg, "message"@, "unknown error"@), def_id }
    } else {
        EventView::Unhandled { msg_type: ty }
    }
}

/// The text of a string member, or `d`.
fn text_member(msg: &Json, key: &str, d: &str) -> (r: String)
    ensures
        r@ == member_text(*msg, key@, d@),
{
    match msg.str_field(key) {
        Some(t) => string_of(&chars_of(t)),
        None => string_of(&chars_of(d)),
    }
}

/// An optional string member.
fn opt_member(msg: &Json, key: &str) -> (r: Option<String>)
    ensures
        opt_string_view(r) == str_of(msg.field(key@)),
{
    match msg.str_field(key) {
        Some(t) => Some(string_of(&chars_of(t))),
        None => None,
    }
}

/// Reads what a server message asks of the client.
pub fn classify_server_message(msg: &Json) -> (r: ServerEvent)
    ensures
        r@ == spec_classify(*msg),
        has_type(*msg, "task_completed"@) && text_at(*msg, "status"@, Seq::empty()) == "success"@
            ==> (r matches ServerEvent::Completed { run_id, download_url, file_hash, .. }
            && run_id@ == text_at(*msg, "task_id"@, "?"@) && download_url@ == text_at(
            *msg,
            "download_url"@,
            Seq::empty(),
        ) && file_hash@ == text_at(*msg, "file_hash"@, Seq::empty())),
{
    proof {
        law_run_events_carry_members(*msg);
    }
    proof {
        reveal_strlit("");
        reveal_strlit("pong");
        reveal_strlit("authenticated");
        reveal_strlit("sync_ok");
        reveal_strlit("dir_sync_reset_ok");
        reveal_strlit("ping");
        reveal_strlit("task_queued");
        reveal_strlit("task_completed");
        reveal_strlit("no_changes");
        reveal_strlit("success");
        reveal_strlit("task_failed");
        reveal_strlit("error");
    }
    assert(""@ =~= Seq::<char>::empty());
    let ty = text_member(msg, "type", "");
    let authed = match msg.str_field("status") {
        Some(st) => str_eq(st, "authenticated"),
        None => false,
    };
    assert(authed == (str_of(msg.field("status"@)) == Some("authenticated"@)));
    if str_eq(ty.as_str(), "pong") && authed {
        return ServerEvent::Authenticated;
    }
    if str_eq(ty.as_str(), "sync_ok") {
        let count = match msg.u64_field("count") {
            Some(c) => c,
            None => 0,
        };
        return ServerEvent::SyncOk { count };
    }
    if str_eq(ty.as_str(), "dir_sync_reset_ok") {
        return ServerEvent::DirSyncResetOk;
    }
    if str_eq(ty.as_str(), "ping") {
        return ServerEvent::Ping;
    }
    if str_eq(ty.as_str(), "task_queued") {
        let queue_position = match msg.i64_field("queue_position") {
            Some(p) => p,
            None => 1,
        };
        return ServerEvent::TaskQueued {
            run_id: text_member(msg, "task_id", "?"),
            queue_position,
            def_id: opt_member(msg, "def_id"),
        };
    }
    if str_eq(ty.as_str(), "task_completed") {
        let st = text_member(msg, "status", "");
        let run_id = text_member(msg, "task_id", "?");
        let def_id = opt_member(msg, "def_id");
        if str_eq(st.as_str(), "no_changes") {
            return ServerEvent::NoChanges { run_id, detail: text_member(msg, "detail", ""), def_id };
        }
        if !str_eq(st.as_str(), "success") {
            return ServerEvent::NotSuccessful { run_id, status: st, def_id };
        }
        return ServerEvent::Completed {
            run_id,
            download_url: text_member(msg, "download_url", ""),
            file_hash: text_member(msg, "file_hash", ""),
            def_id,
        };
    }
    if str_eq(ty.as_str(), "task_failed") {
        return ServerEvent::Failed {
            run_id: text_member(msg, "task_id", "?"),
            error: text_member(msg, "error", "unknown error"),
            def_id: text_member(msg, "def_id", ""),
        };
    }
    if str_eq(ty.as_str(), "error") {
        return ServerEvent::ServerError {
            message: text_member(msg, "message", "unknown error"),
            def_id: opt_member(msg, "def_id"),
        };
    }
    ServerEvent::Unhandled { msg_type: ty }
}

/// Whether a text frame is the server's application-level ping (`None`:
/// the frame is not JSON).
pub fn is_app_ping(msg: Option<&Json>) -> (r: bool)
    ensures
        r == (msg matches Some(m) && str_of(m.field("type"@)) == Some("ping"@)),
{
    match msg {
        Some(m) => match m.str_field("type") {
            Some(t) => str_eq(t, "ping"),
            None => false,
        },
        None => false,
    }
}

/// The message key logged for a run that finished without changes.
pub fn no_changes_key(detail: &str) -> (r: &'static str)
    ensures
        detail@ == "empty"@ ==> r@ == "task.dir_sync_empty_source"@,
        detail@ != "empty"@ && detail@ == "up_to_date"@ ==> r@ == "task.dir_sync_up_to_date"@,
        detail@ != "empty"@ && detail@ != "up_to_date"@ ==> r@ == "task.dir_sync_no_changes"@,
{
    if str_eq(detail, "empty") {
        "task.dir_sync_empty_source"
    } else if str_eq(detail, "up_to_date") {
        "task.dir_sync_up_to_date"
    } else {
        "task.dir_sync_no_changes"
    }
}

/// The message key logged when a run is queued (with its position when it waits).
pub fn queued_message_key(queue_position: i64) -> (r: &'static str)
    ensures
        queue_position > 1 ==> r@ == "protocol.task_queued_position"@,
        queue_position <= 1 ==> r@ == "protocol.task_queued"@,
{
    if queue_position > 1 {
        "protocol.task_queued_position"
    } else {
        "protocol.task_queued"
    }
}

/// The name a failed run is reported under: `?` without a task id, the task's
/// name when it is known, else the id.
pub fn task_name_for_def(def_id: &str, known: Option<&Task>) -> (r: String)
    ensures
        def_id@.len() == 0 ==> r@ == "?"@,
        def_id@.len() > 0 && known is Some ==> r@ == known->0.task_name@,
        def_id@.len() > 0 && known is None ==> r@ == def_id@,
{
    if def_id.is_empty() {
        return string_of(&chars_of("?"));
    }
    match known {
        Some(t) => string_of(&chars_of(t.task_name.as_str())),
        None => string_of(&chars_of(def_id)),
    }
}

/// How a downloaded run is recorded: `ok`, or `warn` with its anomaly flags.
pub struct RunOutcome {
    pub status: String,
    pub anomaly_flags: Option<String>,
}

/// The run record for a verified download: its anomaly flags (`size_dropped`:
/// the size fell under half of the previous successful one), and `warn` when
/// there are any.
pub fn successful_run_outcome(task_type: &str, file_size: u64, size_dropped: bool) -> (r:
    RunOutcome)
    ensures
        spec_detect(task_type@, file_size, size_dropped).len() == 0 ==> r.status@ == "ok"@
            && r.anomaly_flags is None,
        spec_detect(task_type@, file_size, size_dropped).len() > 0 ==> r.status@ == "warn"@
            && (r.anomaly_flags matches Some(f) && f@ == join(
            spec_detect(task_type@, file_size, size_dropped),
            seq![','],
        )),
{
    let flags = detect(task_type, file_size, size_dropped);
    let status = if flags.len() == 0 {
        string_of(&chars_of("ok"))
    } else {
        string_of(&chars_of("warn"))
    };
    let anomaly_flags = flags_to_string(flags.as_slice());
    RunOutcome { status, anomaly_flags }
}

// ---------------------------------------------------------------------------
// Matching a downloaded file to a task
// ---------------------------------------------------------------------------

/// A task with its data (`None` when the data is not JSON).
pub type TaskEntry = (Task, Option<Json>);

/// The first task satisfying `p`.
pub open spec fn first_where(ts: Seq<TaskEntry>, p: spec_fn(TaskEntry) -> bool) -> Option<Task>
    decreases ts.len(),
{
    if ts.len() == 0 {
        None
    } else if p(ts[0]) {
        Some(ts[0].0)
    } else {
        first_where(ts.drop_first(), p)
    }
}

/// The number of tasks satisfying `p`.
pub open spec fn count_where(ts: Seq<TaskEntry>, p: spec_fn(TaskEntry) -> bool) -> nat
    decreases ts.len(),
{
    if ts.len() == 0 {
        0
    } else {
        count_where(ts.drop_first(), p) + if p(ts[0]) {
            1nat
        } else {
            0nat
        }
    }
}

/// `backup_{task}_{label}_` starts the file name.
pub open spec fn names_backup(f: Seq<char>) -> spec_fn(TaskEntry) -> bool {
    |e: TaskEntry|
        starts_with(
            f,
            "backup_"@ + e.0.task_name@ + "_"@ + spec_backup_file_label(e.0.task_type@) + "_"@,
        )
}

/// A `dir_sync` task whose legacy `sync_{task}_` starts the file name.
pub open spec fn names_sync(f: Seq<char>) -> spec_fn(TaskEntry) -> bool {
    |e: TaskEntry|
        spec_normalize_task_type(e.0.task_type@) == "dir_sync"@ && starts_with(
            f,
            "sync_"@ + e.0.task_name@ + "_"@,
        )
}

/// A shell task.
pub open spec fn is_shell() -> spec_fn(TaskEntry) -> bool {
    |e: TaskEntry| spec_normalize_task_type(e.0.task_type@) == "shell"@
}

/// The script a shell task's data names (`script_name`, else `script`).
pub open spec fn script_of(d: Json) -> Seq<char> {
    match d.field("script_name"@) {
        Some(v) => text_or_else(str_of(Some(v)), Seq::empty()),
        None => member_text(d, "script"@, Seq::empty()),
    }
}

/// A shell task with readable data whose script stem appears in a legacy
/// report name as `_{stem}_output.txt`.
pub open spec fn names_shell_report(f: Seq<char>) -> spec_fn(TaskEntry) -> bool {
    |e: TaskEntry|
        spec_normalize_task_type(e.0.task_type@) == "shell"@ && (e.1 matches Some(d) && {
            let stem = strip_all_suffix(script_of(d), ".sh"@);
            stem.len() > 0 && contains(f, "_"@ + stem + "_output.txt"@)
        })
}

/// The task a current `backup_…` file name names.
pub open spec fn by_backup_name(ts: Seq<TaskEntry>, f: Seq<char>) -> Option<Task> {
    if starts_with(f, "backup_"@) {
        first_where(ts, names_backup(f))
    } else {
        None
    }
}

/// The `dir_sync` task a legacy `sync_…` file name names.
pub open spec fn by_sync_name(ts: Seq<TaskEntry>, f: Seq<char>) -> Option<Task> {
    if starts_with(f, "sync_"@) {
        first_where(ts, names_sync(f))
    } else {
        None
    }
}

/// The shell task a legacy `…_output.txt` report belongs to: the only shell
/// task, or the first whose script stem the name mentions.
pub open spec fn by_report_name(ts: Seq<TaskEntry>, f: Seq<char>) -> Option<Task> {
    if ends_with(f, "_output.txt"@) {
        if count_where(ts, is_shell()) == 1 {
            first_where(ts, is_shell())
        } else {
            first_where(ts, names_shell_report(f))
        }
    } else {
        None
    }
}

/// The task a downloaded file belongs to, by its name.
pub open spec fn spec_task_for_file(ts: Seq<TaskEntry>, f: Seq<char>) -> Option<Task> {
    if by_backup_name(ts, f) is Some {
        by_backup_name(ts, f)
    } else if by_sync_name(ts, f) is Some {
        by_sync_name(ts, f)
    } else {
        by_report_name(ts, f)
    }
}

/// The script stem of a shell task's data (empty when unreadable).
fn script_stem(d: &Json) -> (r: Vec<char>)
    ensures
        r@ == strip_all_suffix(script_of(*d), ".sh"@),
{
    let script = match d.get("script_name") {
        Some(Json::Str(s)) => chars_of(s.as_str()),
        Some(_) => Vec::new(),
        None => match d.str_field("script") {
            Some(s) => chars_of(s),
            None => Vec::new(),
        },
    };
    let suffix = chars_of(".sh");
    proof {
        reveal_strlit(".sh");
    }
    strip_all_suffix_chars(&script, &suffix)
}

/// Finds the task a downloaded file belongs to from its name: the current
/// `backup_{task}_{label}_…` names, legacy `sync_{task}_…` archives of
/// `dir_sync` tasks, and legacy `…_output.txt` shell reports.
pub fn resolve_task_from_filename(tasks: &Vec<TaskEntry>, filename: &str) -> (r: Option<PendingRun>)
    ensures
        r is Some == spec_task_for_file(tasks@, filename@) is Some,
        r matches Some(p) ==> p.task_id == spec_task_for_file(tasks@, filename@)->0.id
            && p.task_type == spec_task_for_file(tasks@, filename@)->0.task_type,
{
    let f = chars_of(filename);
    let ghost ts = tasks@;
    let backup_p = chars_of("backup_");
    let sync_p = chars_of("sync_");
    let report_s = chars_of("_output.txt");
    let fb = starts_with_at(&f, 0, &backup_p);
    assert(f@.skip(0) =~= f@);
    if fb {
        let mut i: usize = 0;
        assert(ts.skip(0) =~= ts);
        while i < tasks.len()
            invariant
                i <= tasks.len(),
                ts == tasks@,
                f@ == filename@,
                starts_with(f@, "backup_"@),
                first_where(ts, names_backup(f@)) == first_where(ts.skip(i as int), names_backup(f@)),
            decreases tasks.len() - i,
        {
            assert(f@.skip(0) =~= f@);
            assert(ts.skip(i as int)[0] == ts[i as int]);
            assert(ts.skip(i as int).drop_first() =~= ts.skip(i + 1));
            let t = &tasks[i].0;
            let label = backup_file_label(t.task_type.as_str());
            let mut pre = chars_of("backup_");
            append_chars(&mut pre, &chars_of(t.task_name.as_str()));
            append_chars(&mut pre, &chars_of("_"));
            append_chars(&mut pre, &chars_of(label));
            append_chars(&mut pre, &chars_of("_"));
            if starts_with_at(&f, 0, &pre) {
                return Some(pending_from_task(t));
            }
            i = i + 1;
        }
        assert(ts.skip(i as int).len() == 0);
    }
    assert(by_backup_name(ts, f@) is None);
    let fs = starts_with_at(&f, 0, &sync_p);
    if fs {
        let mut i: usize = 0;
        assert(ts.skip(0) =~= ts);
        while i < tasks.len()
            invariant
                i <= tasks.len(),
                ts == tasks@,
                f@ == filename@,
                starts_with(f@, "sync_"@),
                by_backup_name(ts, f@) is None,
                first_where(ts, names_sync(f@)) == first_where(ts.skip(i as int), names_sync(f@)),
            decreases tasks.len() - i,
        {
            assert(f@.skip(0) =~= f@);
            assert(ts.skip(i as int)[0] == ts[i as int]);
            assert(ts.skip(i as int).drop_first() =~= ts.skip(i + 1));
            let t = &tasks[i].0;
            if str_eq(normalize_task_type(t.task_type.as_str()), "dir_sync") {
                let mut pre = chars_of("sync_");
                append_chars(&mut pre, &chars_of(t.task_name.as_str()));
                append_chars(&mut pre, &chars_of("_"));
                if starts_with_at(&f, 0, &pre) {
                    return Some(pending_from_task(t));
                }
            }
            i = i + 1;
        }
        assert(ts.skip(i as int).len() == 0);
    }
    assert(by_sync_name(ts, f@) is None);
    if ends_with_chars(&f, &report_s) {
        let mut n: usize = 0;
        let mut only: usize = 0;
        let mut i: usize = 0;
        assert(ts.skip(0) =~= ts);
        while i < tasks.len()
            invariant
                i <= tasks.len(),
                ts == tasks@,
                n <= i,
                count_where(ts, is_shell()) == n + count_where(ts.skip(i as int), is_shell()),
                n >= 1 ==> only < i && first_where(ts, is_shell()) == Some(ts[only as int].0),
                n == 0 ==> first_where(ts, is_shell()) == first_where(ts.skip(i as int), is_shell()),
                ends_with(f@, "_output.txt"@),
                by_backup_name(ts, f@) is None,
                by_sync_name(ts, f@) is None,
            decreases tasks.len() - i,
        {
            assert(ts.skip(i as int)[0] == ts[i as int]);
            assert(ts.skip(i as int).drop_first() =~= ts.skip(i + 1));
            if str_eq(normalize_task_type(tasks[i].0.task_type.as_str()), "shell") {
                if n == 0 {
                    only = i;
                }
                n = n + 1;
            }
            i = i + 1;
        }
        assert(ts.skip(i as int).len() == 0);
        if n == 1 {
            return Some(pending_from_task(&tasks[only].0));
        }
        let mut i: usize = 0;
        assert(ts.skip(0) =~= ts);
        while i < tasks.len()
            invariant
                i <= tasks.len(),
                ts == tasks@,
                f@ == filename@,
                report_s@ == "_output.txt"@,
                ends_with(f@, "_output.txt"@),
                count_where(ts, is_shell()) != 1,
                by_backup_name(ts, f@) is None,
                by_sync_name(ts, f@) is None,
                first_where(ts, names_shell_report(f@)) == first_where(
                    ts.skip(i as int),
                    names_shell_report(f@),
                ),
            decreases tasks.len() - i,
        {
            assert(ts.skip(i as int)[0] == ts[i as int]);
            assert(ts.skip(i as int).drop_first() =~= ts.skip(i + 1));
            let e = &tasks[i];
            if str_eq(normalize_task_type(e.0.task_type.as_str()), "shell") {
                match &e.1 {
                    Some(d) => {
                        let stem = script_stem(d);
                        if stem.len() > 0 {
                            let mut pat: Vec<char> = vec!['_'];
                            append_chars(&mut pat, &stem);
                            append_chars(&mut pat, &report_s);
                            proof {
                                reveal_strlit("_");
                            }
                            assert(pat@ =~= "_"@ + stem@ + "_output.txt"@);
                            if contains_chars(&f, &pat) {
                                return Some(pending_from_task(&e.0));
                            }
                        }
                    },
                    None => {},
                }
            }
            i = i + 1;
        }
        assert(ts.skip(i as int).len() == 0);
    }
    None
}

// ---------------------------------------------------------------------------
// Waiting for a reply
// ---------------------------------------------------------------------------

/// Why waiting for a server reply ended without it.
#[derive(Debug, Clone, PartialEq, Eq)]
pub enum WaitError {
    /// The expected message did not come in time.
    Timeout { expected: String },
    /// The server refused this device.
    DeviceDenied { message: String },
    /// The server answered with an error.
    Server { message: String },
    /// The server closed the connection (often a refused device id).
    ClosedByServer,
    /// Reading from the WebSocket failed.
    WebSocket { detail: String },
}

impl WaitError {
    /// The error text reported to the user.
    pub fn message(&self) -> (r: String)
        ensures
            self matches WaitError::Timeout { expected } ==> r@
                == "Timeout waiting for server message: "@ + expected@,
            self matches WaitError::DeviceDenied { message } ==> r@ == "Device auth denied: "@
                + message@,
            self matches WaitError::Server { message } ==> r@ == "Server error: "@ + message@,
            self is ClosedByServer ==> r@
                == "Connection closed by server — device_id may have been rejected (check server logs)"@,
            self matches WaitError::WebSocket { detail } ==> r@ == "WebSocket error: "@ + detail@,
    {
        let (head, tail) = match self {
            WaitError::Timeout { expected } => (
                "Timeout waiting for server message: ",
                expected.as_str(),
            ),
            WaitError::DeviceDenied { message } => ("Device auth denied: ", message.as_str()),
            WaitError::Server { message } => ("Server error: ", message.as_str()),
            WaitError::ClosedByServer => (
                "Connection closed by server — device_id may have been rejected (check server logs)",
                "",
            ),
            WaitError::WebSocket { detail } => ("WebSocket error: ", detail.as_str()),
        };
        proof {
            reveal_strlit("");
        }
        let mut v = chars_of(head);
        append_chars(&mut v, &chars_of(tail));
        assert(self is ClosedByServer ==> v@ =~= head@);
        string_of(&v)
    }
}

/// What waiting for a server reply does with one text frame.
#[derive(Debug)]
pub enum WaitStep {
    /// Answer the server's ping and keep waiting.
    ReplyPong,
    /// This is the reply waited for.
    Accept,
    /// Stop waiting with this error.
    Fail(WaitError),
    /// Handle the frame as an ordinary server message and keep waiting.
    Forward,
}

/// Whether a server error message refuses the device.
pub open spec fn refuses_device(message: Seq<char>) -> bool {
    contains(message, "Device not authorized"@) || contains(message, "device_id"@)
}

/// Decides what to do with a message received while waiting for `expected`.
pub fn wait_step(msg: &Json, expected: &str) -> (r: WaitStep)
    ensures
        str_of(msg.field("type"@)) == Some("ping"@) ==> r is ReplyPong,
        str_of(msg.field("type"@)) != Some("ping"@) && str_of(msg.field("type"@)) == Some(
            expected@,
        ) ==> r is Accept,
        str_of(msg.field("type"@)) != Some("ping"@) && str_of(msg.field("type"@)) != Some(
            expected@,
        ) && str_of(msg.field("type"@)) == Some("error"@) ==> ({
            let m = member_text(*msg, "message"@, "unknown error"@);
            &&& refuses_device(m) ==> (r matches WaitStep::Fail(WaitError::DeviceDenied { message })
                && message@ == m)
            &&& !refuses_device(m) ==> (r matches WaitStep::Fail(WaitError::Server { message })
                && message@ == m)
        }),
        str_of(msg.field("type"@)) != Some("ping"@) && str_of(msg.field("type"@)) != Some(
            expected@,
        ) && str_of(msg.field("type"@)) != Some("error"@) ==> r is Forward,
{
    let ty = msg.str_field("type");
    let (is_ping, is_expected, is_error) = match ty {
        Some(t) => (str_eq(t, "ping"), str_eq(t, expected), str_eq(t, "error")),
        None => (false, false, false),
    };
    if is_ping {
        return WaitStep::ReplyPong;
    }
    if is_expected {
        return WaitStep::Accept;
    }
    if is_error {
        let message = text_member(msg, "message", "unknown error");
        let m = chars_of(message.as_str());
        if contains_chars(&m, &chars_of("Device not authorized")) || contains_chars(
            &m,
            &chars_of("device_id"),
        ) {
            return WaitStep::Fail(WaitError::DeviceDenied { message });
        }
        return WaitStep::Fail(WaitError::Server { message });
    }
    WaitStep::Forward
}

/// The error a failed WebSocket read ends the wait with: a reset or a TLS
/// close reads as the server closing the connection.
pub fn read_error(detail: &str) -> (r: WaitError)
    ensures
        contains(detail@, "close_notify"@) || contains(detail@, "Connection reset"@) ==> r
            is ClosedByServer,
        !(contains(detail@, "close_notify"@) || contains(detail@, "Connection reset"@)) ==> (r
            matches WaitError::WebSocket { detail: d } && d@ == detail@),
{
    let d = chars_of(detail);
    if contains_chars(&d, &chars_of("close_notify")) || contains_chars(
        &d,
        &chars_of("Connection reset"),
    ) {
        WaitError::ClosedByServer
    } else {
        WaitError::WebSocket { detail: string_of(&d) }
    }
}

/// What a manual run does with a text frame from the server.
#[derive(Debug, Clone, Copy, PartialEq, Eq)]
pub enum ManualStep {
    /// The run failed: stop with the message's error.
    Failed,
    /// Handle the message, and the run is over.
    HandleThenDone,
    /// Handle the message and keep waiting.
    HandleAndWait,
}

/// Sorts a frame received during a manual run by the text it contains.
pub fn manual_run_step(text: &str) -> (r: ManualStep)
    ensures
        contains(text@, "task_failed"@) ==> r == ManualStep::Failed,
        !contains(text@, "task_failed"@) && contains(text@, "task_completed"@) ==> r
            == ManualStep::HandleThenDone,
        !contains(text@, "task_failed"@) && !contains(text@, "task_completed"@) ==> r
            == ManualStep::HandleAndWait,
{
    let t = chars_of(text);
    if contains_chars(&t, &chars_of("task_failed")) {
        ManualStep::Failed
    } else if contains_chars(&t, &chars_of("task_completed")) {
        ManualStep::HandleThenDone
    } else {
        ManualStep::HandleAndWait
    }
}

/// What a `dir_sync` reset does with a text frame from the server.
#[derive(Debug, Clone, Copy, PartialEq, Eq)]
pub enum ResetStep {
    /// The server confirmed the reset.
    Done,
    /// The server refused: stop with the message's text.
    Refused,
    /// Handle the message and keep waiting.
    HandleAndWait,
}

/// Sorts a frame received while waiting for a `dir_sync` reset.
pub fn reset_step(text: &str) -> (r: ResetStep)
    ensures
        contains(text@, "dir_sync_reset_ok"@) ==> r == ResetStep::Done,
        !contains(text@, "dir_sync_reset_ok"@) && contains(text@, "\"type\":\"error\""@) ==> r
            == ResetStep::Refused,
        !contains(text@, "dir_sync_reset_ok"@) && !contains(text@, "\"type\":\"error\""@) ==> r
            == ResetStep::HandleAndWait,
{
    let t = chars_of(text);
    if contains_chars(&t, &chars_of("dir_sync_reset_ok")) {
        ResetStep::Done
    } else if contains_chars(&t, &chars_of("\"type\":\"error\"")) {
        ResetStep::Refused
    } else {
        ResetStep::HandleAndWait
    }
}

// ---------------------------------------------------------------------------
// Messages to the server
// ---------------------------------------------------------------------------

/// The application-level pong frame.
pub const PONG: &'static str = "{\"type\":\"pong\"}";

/// A message object: its members' names and string values.
pub open spec fn is_text_message(m: Json, names: Seq<Seq<char>>, values: Seq<Seq<char>>) -> bool {
    m matches Json::Object(es) && es@.len() == names.len() && names.len() == values.len() && forall|
        i: int,
    |
        0 <= i < names.len() ==> (#[trigger] es@[i]).0@ == names[i] && str_of(Some(es@[i].1))
            == Some(values[i])
}

/// `{"type": kind, key: value}`.
fn two_member_message(kind: &str, key: &str, value: &str) -> (r: Json)
    ensures
        is_text_message(r, seq!["type"@, key@], seq![kind@, value@]),
{
    let mut es: Vec<(String, Json)> = Vec::new();
    es.push((string_of(&chars_of("type")), string_json(kind)));
    es.push((string_of(&chars_of(key)), string_json(value)));
    Json::Object(es)
}

/// Asks the server to delete a file the client has downloaded.
pub fn check_download_message(filename: &str) -> (r: Json)
    ensures
        is_text_message(r, seq!["type"@, "filename"@], seq!["check_download"@, filename@]),
{
    two_member_message("check_download", "filename", filename)
}

/// Asks the server to forget the state of a `dir_sync` task.
pub fn reset_dir_sync_message(def_id: &str) -> (r: Json)
    ensures
        is_text_message(r, seq!["type"@, "def_id"@], seq!["reset_dir_sync"@, def_id@]),
{
    two_member_message("reset_dir_sync", "def_id", def_id)
}

/// Asks the server to run a task now.
pub fn run_task_message(def_id: &str) -> (r: Json)
    ensures
        is_text_message(r, seq!["type"@, "def_id"@], seq!["run_task"@, def_id@]),
{
    two_member_message("run_task", "def_id", def_id)
}

/// Authenticates this device.
pub fn auth_message(device_id: &str) -> (r: Json)
    ensures
        is_text_message(r, seq!["type"@, "device_id"@], seq!["auth"@, device_id@]),
{
    two_member_message("auth", "device_id", device_id)
}

/// The tasks whose data is readable, in order.
pub open spec fn with_data(ts: Seq<TaskEntry>) -> Seq<TaskEntry>
    decreases ts.len(),
{
    if ts.len() == 0 {
        Seq::empty()
    } else if ts.last().1 is Some {
        with_data(ts.drop_last()).push(ts.last())
    } else {
        with_data(ts.drop_last())
    }
}

/// One task of a `sync_tasks` message.
pub open spec fn is_sync_item(item: Json, e: TaskEntry) -> bool {
    item matches Json::Object(es) && es@.len() == 4 && es@[0].0@ == "def_id"@ && str_of(
        Some(es@[0].1),
    ) == Some(e.0.id@) && es@[1].0@ == "task_name"@ && str_of(Some(es@[1].1)) == Some(
        e.0.task_name@,
    ) && es@[2].0@ == "task_type"@ && str_of(Some(es@[2].1)) == Some(
        spec_normalize_task_type(e.0.task_type@),
    ) && es@[3].0@ == "data"@ && e.1 == Some(es@[3].1)
}

/// The task list sent to the server: every task whose data is readable, with
/// its id, name, current type name and data.
pub fn sync_tasks_message(tasks: Vec<TaskEntry>) -> (r: Json)
    ensures
        r matches Json::Object(es) && es@.len() == 2 && es@[0].0@ == "type"@ && str_of(
            Some(es@[0].1),
        ) == Some("sync_tasks"@) && es@[1].0@ == "tasks"@ && (es@[1].1 matches Json::Array(items)
            && items@.len() == with_data(tasks@).len() && forall|k: int|
            0 <= k < items@.len() ==> is_sync_item(#[trigger] items@[k], with_data(tasks@)[k])),
{
    let ghost ts = tasks@;
    let mut items: Vec<Json> = Vec::new();
    assert(ts.len() == tasks.len());
    let mut rest = tasks;
    let mut n: usize = 0;
    assert(ts.skip(0) =~= ts);
    while rest.len() > 0
        invariant
            ts.len() <= usize::MAX,
            n + rest.len() == ts.len(),
            rest@ == ts.skip(n as int),
            items@.len() == with_data(ts.take(n as int)).len(),
            forall|k: int|
                0 <= k < items@.len() ==> is_sync_item(
                    #[trigger] items@[k],
                    with_data(ts.take(n as int))[k],
                ),
        decreases rest.len(),
    {
        assert(rest@[0] == ts[n as int]);
        let (task, data) = rest.remove(0);
        let ghost e = ts[n as int];
        assert(ts.take(n + 1).drop_last() =~= ts.take(n as int));
        assert(ts.take(n + 1).last() == e);
        assert(rest@ =~= ts.skip(n + 1));
        match data {
            Some(d) => {
                let mut es: Vec<(String, Json)> = Vec::new();
                es.push((string_of(&chars_of("def_id")), string_json(task.id.as_str())));
                es.push((string_of(&chars_of("task_name")), string_json(task.task_name.as_str())));
                es.push(
                    (
                        string_of(&chars_of("task_type")),
                        string_json(normalize_task_type(task.task_type.as_str())),
                    ),
                );
                es.push((string_of(&chars_of("data")), d));
                items.push(Json::Object(es));
            },
            None => {},
        }
        n = n + 1;
    }
    assert(ts.take(n as int) =~= ts);
    let mut es: Vec<(String, Json)> = Vec::new();
    es.push((string_of(&chars_of("type")), string_json("sync_tasks")));
    es.push((string_of(&chars_of("tasks")), Json::Array(items)));
    Json::Object(es)
}

/// The file-name label of each known task type: `mysql` for MySQL and
/// MariaDB dumps, `postgresql`, `sqlite`, `files` (both spellings), `sync`
/// and `shell`.
pub proof fn law_backup_file_labels()
    ensures
        spec_backup_file_label("mysql_dump"@) == "mysql"@,
        spec_backup_file_label("mariadb_dump"@) == "mysql"@,
        spec_backup_file_label("postgresql_dump"@) == "postgresql"@,
        spec_backup_file_label("sqlite_dump"@) == "sqlite"@,
        spec_backup_file_label("files_archive"@) == "files"@,
        spec_backup_file_label("file_archive"@) == "files"@,
        spec_backup_file_label("dir_sync"@) == "sync"@,
        spec_backup_file_label("shell"@) == "shell"@,
{
    reveal_strlit("mysql_dump");
    reveal_strlit("mariadb_dump");
    reveal_strlit("postgresql_dump");
    reveal_strlit("sqlite_dump");
    reveal_strlit("files_archive");
    reveal_strlit("file_archive");
    reveal_strlit("dir_sync");
    reveal_strlit("shell");
    assert("mysql_dump"@.len() == 10);
    assert("mariadb_dump"@.len() == 12);
    assert("postgresql_dump"@.len() == 15);
    assert("sqlite_dump"@.len() == 11);
    assert("files_archive"@.len() == 13);
    assert("file_archive"@.len() == 12);
    assert("dir_sync"@.len() == 8);
    assert("shell"@.len() == 5);
    assert("mariadb_dump"@[0] != "file_archive"@[0]);
}

/// A file named `backup_{name}_{label}_…` after a task, with the label of its
/// type, is matched to a task; to that task when it comes first.
pub proof fn law_backup_name_found(ts: Seq<TaskEntry>, i: int, rest: Seq<char>)
    requires
        0 <= i < ts.len(),
    ensures
        spec_task_for_file(
            ts,
            "backup_"@ + ts[i].0.task_name@ + "_"@ + spec_backup_file_label(ts[i].0.task_type@)
                + "_"@ + rest,
        ) is Some,
        i == 0 ==> spec_task_for_file(
            ts,
            "backup_"@ + ts[i].0.task_name@ + "_"@ + spec_backup_file_label(ts[i].0.task_type@)
                + "_"@ + rest,
        ) == Some(ts[0].0),
{
    let pre = "backup_"@ + ts[i].0.task_name@ + "_"@ + spec_backup_file_label(ts[i].0.task_type@)
        + "_"@;
    let f = pre + rest;
    assert(f.take(pre.len() as int) =~= pre);
    assert(names_backup(f)(ts[i]));
    reveal_strlit("backup_");
    assert(f.take(7) =~= "backup_"@);
    lemma_first_where_found(ts, names_backup(f), i);
}

/// A list with an element satisfying `p` has a first such element; it is the
/// head when the head satisfies `p`.
proof fn lemma_first_where_found(ts: Seq<TaskEntry>, p: spec_fn(TaskEntry) -> bool, i: int)
    requires
        0 <= i < ts.len(),
        p(ts[i]),
    ensures
        first_where(ts, p) is Some,
        i == 0 ==> first_where(ts, p) == Some(ts[0].0),
    decreases i,
{
    if i > 0 && !p(ts[0]) {
        assert(ts.drop_first()[i - 1] == ts[i]);
        lemma_first_where_found(ts.drop_first(), p, i - 1);
    }
}

/// A file named `backup_{name}_postgresql_…` (and likewise for the other
/// labels) after the first task, a task of that type, resolves to that task.
pub proof fn law_backup_name_resolves(ts: Seq<TaskEntry>, rest: Seq<char>)
    requires
        ts.len() > 0,
    ensures
        ts[0].0.task_type@ == "postgresql_dump"@ ==> spec_task_for_file(
            ts,
            "backup_"@ + ts[0].0.task_name@ + "_postgresql_"@ + rest,
        ) == Some(ts[0].0),
        ts[0].0.task_type@ == "mysql_dump"@ || ts[0].0.task_type@ == "mariadb_dump"@
            ==> spec_task_for_file(ts, "backup_"@ + ts[0].0.task_name@ + "_mysql_"@ + rest) == Some(
            ts[0].0,
        ),
        ts[0].0.task_type@ == "sqlite_dump"@ ==> spec_task_for_file(
            ts,
            "backup_"@ + ts[0].0.task_name@ + "_sqlite_"@ + rest,
        ) == Some(ts[0].0),
        ts[0].0.task_type@ == "files_archive"@ || ts[0].0.task_type@ == "file_archive"@
            ==> spec_task_for_file(ts, "backup_"@ + ts[0].0.task_name@ + "_files_"@ + rest) == Some(
            ts[0].0,
        ),
        ts[0].0.task_type@ == "dir_sync"@ ==> spec_task_for_file(
            ts,
            "backup_"@ + ts[0].0.task_name@ + "_sync_"@ + rest,
        ) == Some(ts[0].0),
        ts[0].0.task_type@ == "shell"@ ==> spec_task_for_file(
            ts,
            "backup_"@ + ts[0].0.task_name@ + "_shell_"@ + rest,
        ) == Some(ts[0].0),
{
    law_backup_file_labels();
    law_backup_name_found(ts, 0, rest);
    let n = ts[0].0.task_name@;
    let l = spec_backup_file_label(ts[0].0.task_type@);
    reveal_strlit("_");
    reveal_strlit("_postgresql_");
    reveal_strlit("_mysql_");
    reveal_strlit("_sqlite_");
    reveal_strlit("_files_");
    reveal_strlit("_sync_");
    reveal_strlit("_shell_");
    reveal_strlit("postgresql");
    reveal_strlit("mysql");
    reveal_strlit("sqlite");
    reveal_strlit("files");
    reveal_strlit("sync");
    reveal_strlit("shell");
    let f = "backup_"@ + n + "_"@ + l + "_"@ + rest;
    assert(l == "postgresql"@ ==> "backup_"@ + n + "_postgresql_"@ + rest =~= f);
    assert(l == "mysql"@ ==> "backup_"@ + n + "_mysql_"@ + rest =~= f);
    assert(l == "sqlite"@ ==> "backup_"@ + n + "_sqlite_"@ + rest =~= f);
    assert(l == "files"@ ==> "backup_"@ + n + "_files_"@ + rest =~= f);
    assert(l == "sync"@ ==> "backup_"@ + n + "_sync_"@ + rest =~= f);
    assert(l == "shell"@ ==> "backup_"@ + n + "_shell_"@ + rest =~= f);
}

/// The text of a string member, or `d` when it is missing or not a string.
pub open spec fn text_at(msg: Json, key: Seq<char>, d: Seq<char>) -> Seq<char> {
    match msg.field(key) {
        Some(Json::Str(t)) => t@,
        _ => d,
    }
}

/// A message's `type` member is the text `t`.
pub open spec fn has_type(msg: Json, t: Seq<char>) -> bool {
    msg.field("type"@) matches Some(Json::Str(s)) && s@ == t
}

/// The events that carry a run carry the message's own members: a successful
/// `task_completed` gives its run id (`?` when missing), download URL, file
/// checksum and task id; `no_changes` gives its detail; `task_queued` gives
/// its queue position (1 when missing); `task_failed` gives its error
/// (`unknown error` when missing).
pub proof fn law_run_events_carry_members(msg: Json)
    ensures
        has_type(msg, "task_completed"@) && text_at(msg, "status"@, Seq::empty()) == "success"@
            ==> spec_classify(msg) == (EventView::Completed {
            run_id: text_at(msg, "task_id"@, "?"@),
            download_url: text_at(msg, "download_url"@, Seq::empty()),
            file_hash: text_at(msg, "file_hash"@, Seq::empty()),
            def_id: match msg.field("def_id"@) {
                Some(Json::Str(d)) => Some(d@),
                _ => None,
            },
        }),
        has_type(msg, "task_completed"@) && text_at(msg, "status"@, Seq::empty()) == "no_changes"@
            ==> spec_classify(msg) == (EventView::NoChanges {
            run_id: text_at(msg, "task_id"@, "?"@),
            detail: text_at(msg, "detail"@, Seq::empty()),
            def_id: match msg.field("def_id"@) {
                Some(Json::Str(d)) => Some(d@),
                _ => None,
            },
        }),
        has_type(msg, "task_queued"@) ==> spec_classify(msg) == (EventView::TaskQueued {
            run_id: text_at(msg, "task_id"@, "?"@),
            queue_position: match msg.field("queue_position"@) {
                Some(Json::Number(n)) => match n.as_i64 {
                    Some(p) => p,
                    None => 1,
                },
                _ => 1,
            },
            def_id: match msg.field("def_id"@) {
                Some(Json::Str(d)) => Some(d@),
                _ => None,
            },
        }),
        has_type(msg, "task_failed"@) ==> spec_classify(msg) == (EventView::Failed {
            run_id: text_at(msg, "task_id"@, "?"@),
            error: text_at(msg, "error"@, "unknown error"@),
            def_id: text_at(msg, "def_id"@, Seq::empty()),
        }),
{
    reveal_strlit("pong");
    reveal_strlit("sync_ok");
    reveal_strlit("dir_sync_reset_ok");
    reveal_strlit("ping");
    reveal_strlit("task_queued");
    reveal_strlit("task_completed");
    reveal_strlit("task_failed");
    reveal_strlit("no_changes");
    reveal_strlit("success");
    assert("pong"@.len() == 4);
    assert("ping"@.len() == 4);
    assert("sync_ok"@.len() == 7);
    assert("dir_sync_reset_ok"@.len() == 17);
    assert("task_queued"@.len() == 11);
    assert("task_failed"@.len() == 11);
    assert("task_completed"@.len() == 14);
    assert("no_changes"@.len() == 10);
    assert("success"@.len() == 7);
    assert("task_queued"@[5] != "task_failed"@[5]);
}

} // verus!
