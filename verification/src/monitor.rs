//! What the read-only dashboard shows per connection and task: activity,
//! run counters, the last status and the size cell.
use vstd::prelude::*;

use crate::clock::{elapsed_nanos, Instant};
use crate::models::{Task, TaskRun};
use crate::text::{append_chars, chars_of, decimal, decimal_chars, str_eq, string_of};
use crate::validation::{normalize_task_type, spec_normalize_task_type};

verus! {

/// Seconds within which a run counts as recent activity.
pub const RECENT_ACTIVITY_SECS: u64 = 1800;

/// Failure and warning counts of a task's run history.
#[derive(Debug, Clone, Copy, PartialEq, Eq)]
pub struct TaskRunStats {
    pub fail_count: i64,
    pub warn_count: i64,
}

/// One task line of the dashboard.
#[derive(Debug)]
pub struct TaskRow {
    pub task: Task,
    pub last_run: Option<TaskRun>,
    pub last_download_bytes: Option<i64>,
    pub stats: TaskRunStats,
}

/// A connection's activity: no runs, a run in the last 30 minutes, or idle.
#[derive(Debug, Clone, Copy, PartialEq, Eq)]
pub enum Activity {
    NoRuns,
    Recent,
    Idle,
}

impl Activity {
    /// The label shown in the dashboard.
    pub fn label(&self) -> (r: &'static str)
        ensures
            *self == Activity::NoRuns ==> r@ == "NO RUNS"@,
            *self == Activity::Recent ==> r@ == "RECENT"@,
            *self == Activity::Idle ==> r@ == "IDLE"@,
    {
        match self {
            Activity::NoRuns => "NO RUNS",
            Activity::Recent => "RECENT",
            Activity::Idle => "IDLE",
        }
    }
}

/// Whether `a` is not later than `b`.
pub open spec fn not_later(a: Instant, b: Instant) -> bool {
    a.secs < b.secs || (a.secs == b.secs && a.nanos <= b.nanos)
}

/// The times of the last runs of a connection's tasks.
pub open spec fn last_run_times(rows: Seq<TaskRow>) -> Seq<Instant>
    decreases rows.len(),
{
    if rows.len() == 0 {
        Seq::empty()
    } else {
        match rows.last().last_run {
            Some(r) => last_run_times(rows.drop_last()).push(r.run_at),
            None => last_run_times(rows.drop_last()),
        }
    }
}

/// The activity of a connection at `now`: by its latest run, recent when
/// that run is less than 30 minutes old and not in the future.
pub open spec fn spec_activity(times: Seq<Instant>, now: Instant) -> Activity {
    if times.len() == 0 {
        Activity::NoRuns
    } else {
        let latest = choose|t: Instant|
            times.contains(t) && forall|u: Instant| times.contains(u) ==> not_later(u, t);
        let e = elapsed_nanos(now, latest);
        if 0 <= e < RECENT_ACTIVITY_SECS * 1_000_000_000 {
            Activity::Recent
        } else {
            Activity::Idle
        }
    }
}

/// The latest of the last runs of a connection's tasks.
pub fn latest_run(rows: &Vec<TaskRow>) -> (r: Option<Instant>)
    ensures
        r is None <==> last_run_times(rows@).len() == 0,
        r matches Some(t) ==> last_run_times(rows@).contains(t) && forall|u: Instant|
            last_run_times(rows@).contains(u) ==> not_later(u, t),
{
    let mut best: Option<Instant> = None;
    let mut i: usize = 0;
    while i < rows.len()
        invariant
            i <= rows.len(),
            best is None <==> last_run_times(rows@.take(i as int)).len() == 0,
            best matches Some(t) ==> last_run_times(rows@.take(i as int)).contains(t) && forall|
                u: Instant,
            | last_run_times(rows@.take(i as int)).contains(u) ==> not_later(u, t),
        decreases rows.len() - i,
    {
        let ghost prev = last_run_times(rows@.take(i as int));
        assert(rows@.take(i + 1).drop_last() =~= rows@.take(i as int));
        assert(rows@.take(i + 1).last() == rows@[i as int]);
        match &rows[i].last_run {
            Some(run) => {
                let t = run.run_at;
                assert(last_run_times(rows@.take(i + 1)) == prev.push(t));
                let ghost old_best = best;
                let newer = match best {
                    None => true,
                    Some(b) => b.secs < t.secs || (b.secs == t.secs && b.nanos < t.nanos),
                };
                if newer {
                    best = Some(t);
                }
                assert forall|u: Instant| prev.push(t).contains(u) implies not_later(
                    u,
                    best.unwrap(),
                ) by {
                    let k = choose|k: int| 0 <= k < prev.push(t).len() && prev.push(t)[k] == u;
                    if k < prev.len() {
                        assert(prev[k] == u);
                        assert(prev.contains(u));
                        assert(not_later(u, old_best.unwrap()));
                    } else {
                        assert(u == t);
                    }
                }
                assert(prev.push(t).contains(best.unwrap())) by {
                    if best.unwrap() == t {
                        assert(prev.push(t)[prev.len() as int] == t);
                    } else {
                        let k = choose|k: int| 0 <= k < prev.len() && prev[k] == best.unwrap();
                        assert(prev.push(t)[k] == best.unwrap());
                    }
                }
            },
            None => {
                assert(last_run_times(rows@.take(i + 1)) == prev);
            },
        }
        i = i + 1;
    }
    assert(rows@.take(rows.len() as int) =~= rows@);
    best
}

/// Two latest times are the same time.
proof fn lemma_latest_unique(times: Seq<Instant>, a: Instant, b: Instant)
    requires
        times.contains(a),
        times.contains(b),
        forall|u: Instant| times.contains(u) ==> not_later(u, a),
        forall|u: Instant| times.contains(u) ==> not_later(u, b),
    ensures
        a == b,
{
    assert(not_later(a, b));
    assert(not_later(b, a));
}

/// The activity of a connection at `now`, from its tasks' last runs.
pub fn connection_activity(rows: &Vec<TaskRow>, now: Instant) -> (r: Activity)
    ensures
        r == spec_activity(last_run_times(rows@), now),
{
    match latest_run(rows) {
        None => Activity::NoRuns,
        Some(t) => {
            let ghost times = last_run_times(rows@);
            proof {
                let latest = choose|x: Instant|
                    times.contains(x) && forall|u: Instant| times.contains(u) ==> not_later(u, x);
                lemma_latest_unique(times, t, latest);
            }
            let e = (now.secs as i128 - t.secs as i128) * 1_000_000_000 + (now.nanos as i128
                - t.nanos as i128);
            if 0 <= e && e < 1_800_000_000_000 {
                Activity::Recent
            } else {
                Activity::Idle
            }
        },
    }
}

/// A run counts as OK in the dashboard when its status is `ok` or `warn`.
pub open spec fn run_ok(r: Option<TaskRun>) -> bool {
    match r {
        Some(run) => run.status@ == "ok"@ || run.status@ == "warn"@,
        None => false,
    }
}

/// Number of tasks whose last run is OK.
pub open spec fn ok_count(rows: Seq<TaskRow>) -> nat
    decreases rows.len(),
{
    if rows.len() == 0 {
        0
    } else {
        ok_count(rows.drop_last()) + if run_ok(rows.last().last_run) {
            1nat
        } else {
            0nat
        }
    }
}

/// The tasks whose last run is OK, and all tasks.
pub fn count_ok(rows: &Vec<TaskRow>) -> (r: (usize, usize))
    ensures
        r.0 == ok_count(rows@),
        r.1 == rows@.len(),
{
    let mut ok: usize = 0;
    let mut i: usize = 0;
    while i < rows.len()
        invariant
            i <= rows.len(),
            ok == ok_count(rows@.take(i as int)),
            ok <= i,
        decreases rows.len() - i,
    {
        assert(rows@.take(i + 1).drop_last() =~= rows@.take(i as int));
        assert(rows@.take(i + 1).last() == rows@[i as int]);
        let good = match &rows[i].last_run {
            Some(run) => str_eq(run.status.as_str(), "ok") || str_eq(run.status.as_str(), "warn"),
            None => false,
        };
        if good {
            ok = ok + 1;
        }
        i = i + 1;
    }
    assert(rows@.take(rows.len() as int) =~= rows@);
    (ok, rows.len())
}

/// Sum of the failure counts, and of the warning counts.
pub open spec fn stats_sum(rows: Seq<TaskRow>) -> (int, int)
    decreases rows.len(),
{
    if rows.len() == 0 {
        (0, 0)
    } else {
        let s = stats_sum(rows.drop_last());
        (s.0 + rows.last().stats.fail_count, s.1 + rows.last().stats.warn_count)
    }
}

/// Every partial sum fits an `i64`.
pub open spec fn sums_fit(rows: Seq<TaskRow>) -> bool {
    forall|k: int|
        0 <= k <= rows.len() ==> i64::MIN <= #[trigger] stats_sum(rows.take(k)).0 <= i64::MAX
            && i64::MIN <= stats_sum(rows.take(k)).1 <= i64::MAX
}

/// Total failures and warnings over a connection's tasks.
pub fn sum_stats(rows: &Vec<TaskRow>) -> (r: (i64, i64))
    requires
        sums_fit(rows@),
    ensures
        r.0 == stats_sum(rows@).0,
        r.1 == stats_sum(rows@).1,
{
    let mut f: i64 = 0;
    let mut w: i64 = 0;
    let mut i: usize = 0;
    assert(rows@.take(0) =~= Seq::<TaskRow>::empty());
    while i < rows.len()
        invariant
            i <= rows.len(),
            sums_fit(rows@),
            f == stats_sum(rows@.take(i as int)).0,
            w == stats_sum(rows@.take(i as int)).1,
        decreases rows.len() - i,
    {
        assert(rows@.take(i + 1).drop_last() =~= rows@.take(i as int));
        assert(rows@.take(i + 1).last() == rows@[i as int]);
        let ghost s1 = stats_sum(rows@.take(i + 1));
        assert(i64::MIN <= s1.0 <= i64::MAX && i64::MIN <= s1.1 <= i64::MAX);
        f = f + rows[i].stats.fail_count;
        w = w + rows[i].stats.warn_count;
        i = i + 1;
    }
    assert(rows@.take(rows.len() as int) =~= rows@);
    (f, w)
}

/// `n` in decimal, with a minus sign when negative.
pub open spec fn int_text(n: int) -> Seq<char> {
    if n < 0 {
        seq!['-'] + decimal((-n) as nat)
    } else {
        decimal(n as nat)
    }
}

/// `i64::to_string`.
pub fn i64_text(n: i64) -> (r: String)
    ensures
        r@ == int_text(n as int),
{
    if n < 0 {
        let m: u64 = if n == i64::MIN {
            9223372036854775808u64
        } else {
            (-n) as u64
        };
        let mut v = vec!['-'];
        append_chars(&mut v, &decimal_chars(m));
        string_of(&v)
    } else {
        string_of(&decimal_chars(n as u64))
    }
}

/// A counter cell: an em dash for zero, else the number.
pub fn count_cell(n: i64) -> (r: String)
    ensures
        n == 0 ==> r@ == "—"@,
        n != 0 ==> r@ == int_text(n as int),
{
    if n == 0 {
        string_of(&chars_of("—"))
    } else {
        i64_text(n)
    }
}

/// A `dir_sync` run that completed with nothing to transfer.
pub open spec fn spec_dir_sync_pass(run: TaskRun, task_type: Seq<char>) -> bool {
    spec_normalize_task_type(task_type) == "dir_sync"@ && run.status@ == "ok"@ && match run.file_size_bytes {
        Some(n) => n == 0,
        None => false,
    }
}

/// Whether a run is a `dir_sync` pass.
pub fn is_dir_sync_pass(run: &TaskRun, task_type: &str) -> (r: bool)
    ensures
        r == spec_dir_sync_pass(*run, task_type@),
{
    str_eq(normalize_task_type(task_type), "dir_sync") && str_eq(run.status.as_str(), "ok") && match run.file_size_bytes {
        Some(n) => n == 0,
        None => false,
    }
}

/// The first `max` characters, or the first `max - 1` and `…` when the text is longer.
pub open spec fn spec_truncate(s: Seq<char>, max: nat) -> Seq<char> {
    if s.len() <= max {
        s
    } else {
        s.take(if max >= 1 { max - 1 } else { 0 }) + seq!['…']
    }
}

/// Shortens a text to at most `max` characters.
pub fn truncate(s: &str, max: usize) -> (r: String)
    ensures
        r@ == spec_truncate(s@, max as nat),
{
    let v = chars_of(s);
    if v.len() <= max {
        return string_of(&v);
    }
    let keep = if max >= 1 {
        max - 1
    } else {
        0
    };
    let mut out: Vec<char> = Vec::new();
    let mut i: usize = 0;
    while i < keep
        invariant
            i <= keep < v.len(),
            out@ == v@.take(i as int),
        decreases keep - i,
    {
        out.push(v[i]);
        assert(out@ =~= v@.take(i + 1));
        i = i + 1;
    }
    out.push('…');
    string_of(&out)
}

/// The last-status cell of a task.
#[derive(Debug)]
pub enum StatusCell {
    /// No run yet.
    NoRun,
    /// A `dir_sync` pass.
    Pass,
    /// OK (download and checksum passed).
    Okay,
    /// OK with anomaly warnings.
    OkWarn,
    /// Failed, with the start of the error.
    Fail(String),
    /// Any other status.
    Other,
}

/// The last-status cell for a task's last run.
pub fn last_status(last_run: &Option<TaskRun>, task_type: &str) -> (r: StatusCell)
    ensures
        last_run is None ==> r is NoRun,
        last_run matches Some(run) ==> ({
            if spec_dir_sync_pass(*run, task_type@) {
                r is Pass
            } else if run.status@ == "ok"@ {
                r is Okay
            } else if run.status@ == "warn"@ {
                r is OkWarn
            } else if run.status@ == "fail"@ {
                r matches StatusCell::Fail(t) && t@ == spec_truncate(
                    match run.error {
                        Some(e) => e@,
                        None => "fail"@,
                    },
                    8,
                )
            } else {
                r is Other
            }
        }),
{
    match last_run {
        None => StatusCell::NoRun,
        Some(run) => if is_dir_sync_pass(run, task_type) {
            StatusCell::Pass
        } else if str_eq(run.status.as_str(), "ok") {
            StatusCell::Okay
        } else if str_eq(run.status.as_str(), "warn") {
            StatusCell::OkWarn
        } else if str_eq(run.status.as_str(), "fail") {
            let msg = match &run.error {
                Some(e) => e.as_str(),
                None => "fail",
            };
            StatusCell::Fail(truncate(msg, 8))
        } else {
            StatusCell::Other
        },
    }
}

/// The size cell of a task: a dash, a number of bytes to format, or `0 B`.
#[derive(Debug, Clone, Copy, PartialEq, Eq)]
pub enum SizeCell {
    Dash,
    Bytes(i64),
    ZeroBytes,
}

/// The size cell for a task's last run: the bytes transferred by a
/// `dir_sync` pass, else the size of the run's file.
pub fn last_size(last_run: &Option<TaskRun>, last_download_bytes: Option<i64>, task_type: &str) -> (r:
    SizeCell)
    ensures
        last_run is None ==> r == SizeCell::Dash,
        last_run matches Some(run) ==> ({
            if spec_dir_sync_pass(*run, task_type@) {
                r == match last_download_bytes {
                    Some(b) => SizeCell::Bytes(b),
                    None => SizeCell::ZeroBytes,
                }
            } else {
                r == match run.file_size_bytes {
                    Some(b) => SizeCell::Bytes(b),
                    None => SizeCell::Dash,
                }
            }
        }),
{
    match last_run {
        None => SizeCell::Dash,
        Some(run) => if is_dir_sync_pass(run, task_type) {
            match last_download_bytes {
                Some(b) => SizeCell::Bytes(b),
                None => SizeCell::ZeroBytes,
            }
        } else {
            match run.file_size_bytes {
                Some(b) => SizeCell::Bytes(b),
                None => SizeCell::Dash,
            }
        },
    }
}

} // verus!
