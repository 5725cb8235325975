//! Local backup file retention per connection: a policy in days, a cooldown of
//! a day between passes, and the newest file of every task always kept.
use vstd::prelude::*;

use crate::clock::{days_between, parse_rfc3339, rfc3339_instant, seconds_between, utc_now, whole_days, whole_seconds, Instant};
use crate::i18n::Translator;
use crate::models::Connection;
use crate::text::str_eq;
use crate::validation::{normalize_task_type, spec_normalize_task_type};

verus! {

/// Seconds between two retention passes of a connection.
pub const COOLDOWN_SECS: i64 = 86400;

/// Menu options in days: 0 = never delete.
pub const RETENTION_OPTIONS: [i32; 5] = [0, 7, 14, 30, 60];

/// The catalog key of a retention period's label.
pub open spec fn retention_label_key(days: i32) -> Seq<char> {
    if days == 0 {
        "retention.never"@
    } else if days == 7 {
        "retention.days_7"@
    } else if days == 14 {
        "retention.days_14"@
    } else if days == 30 {
        "retention.days_30"@
    } else if days == 60 {
        "retention.days_60"@
    } else {
        "retention.custom"@
    }
}

/// The label of a retention period, in the current language.
pub fn retention_label(tr: &Translator, days: i32) -> (r: String)
    ensures
        r@ == tr.text(retention_label_key(days)),
{
    match days {
        0 => tr.t("retention.never"),
        7 => tr.t("retention.days_7"),
        14 => tr.t("retention.days_14"),
        30 => tr.t("retention.days_30"),
        60 => tr.t("retention.days_60"),
        _ => tr.t("retention.custom"),
    }
}

/// A day has passed since the last pass: true when there was none, or when its
/// time cannot be read.
pub open spec fn spec_cooldown_elapsed(last_run: Option<Seq<char>>, now: Instant) -> bool {
    match last_run {
        None => true,
        Some(t) => match rfc3339_instant(t) {
            None => true,
            Some(p) => whole_seconds(now, Instant { secs: p.0, nanos: p.1 }) >= COOLDOWN_SECS,
        },
    }
}

/// Whether the cooldown after the last retention pass is over at `now`.
pub fn cooldown_elapsed_at(last_run: Option<&str>, now: Instant) -> (r: bool)
    ensures
        r == spec_cooldown_elapsed(crate::json::opt_str_view(last_run), now),
{
    let raw = match last_run {
        Some(raw) => raw,
        None => return true,
    };
    match parse_rfc3339(raw) {
        Some(parsed) => seconds_between(now, parsed) >= COOLDOWN_SECS as i128,
        None => true,
    }
}

/// Whether the cooldown after the last retention pass is over now.
pub fn cooldown_elapsed(last_run: Option<&str>) -> (r: bool)
    ensures
        exists|now: Instant| r == spec_cooldown_elapsed(crate::json::opt_str_view(last_run), now),
{
    let now = utc_now();
    cooldown_elapsed_at(last_run, now)
}

/// Whole days since a run, at `now` (`None` when its time cannot be read).
pub open spec fn spec_run_age(run_at: Seq<char>, now: Instant) -> Option<int> {
    match rfc3339_instant(run_at) {
        None => None,
        Some(p) => Some(whole_days(now, Instant { secs: p.0, nanos: p.1 })),
    }
}

/// The age of a run in whole days at `now`.
pub fn run_age_days_at(run_at: &str, now: Instant) -> (r: Option<i64>)
    ensures
        r is Some == spec_run_age(run_at@, now) is Some,
        r matches Some(d) ==> d == spec_run_age(run_at@, now)->0,
{
    match parse_rfc3339(run_at) {
        Some(t) => Some(days_between(now, t)),
        None => None,
    }
}

/// The age of a run in whole days now.
pub fn run_age_days(run_at: &str) -> (r: Option<i64>)
    ensures
        exists|now: Instant|
            (r is Some == spec_run_age(run_at@, now) is Some) && (r matches Some(d) ==> d
                == spec_run_age(run_at@, now)->0),
{
    let now = utc_now();
    run_age_days_at(run_at, now)
}

/// Whether a retention pass runs after a successful download.
#[derive(Debug, Clone, Copy, PartialEq, Eq)]
pub enum RetentionGate {
    /// The connection is disabled.
    ConnectionDisabled,
    /// The policy is 0 days: never delete.
    NeverDelete,
    /// The last pass was less than a day ago.
    CoolingDown,
    /// Run a pass.
    Run,
}

/// Whether retention runs for a connection at `now`.
pub open spec fn spec_retention_gate(conn: Connection, now: Instant) -> RetentionGate {
    if !conn.enabled {
        RetentionGate::ConnectionDisabled
    } else if conn.retention_days <= 0 {
        RetentionGate::NeverDelete
    } else if !spec_cooldown_elapsed(
        match conn.retention_last_run {
            Some(s) => Some(s@),
            None => None,
        },
        now,
    ) {
        RetentionGate::CoolingDown
    } else {
        RetentionGate::Run
    }
}

/// Decides whether a retention pass runs for a connection at `now`.
pub fn retention_gate(conn: &Connection, now: Instant) -> (r: RetentionGate)
    ensures
        r == spec_retention_gate(*conn, now),
{
    if !conn.enabled {
        return RetentionGate::ConnectionDisabled;
    }
    if conn.retention_days <= 0 {
        return RetentionGate::NeverDelete;
    }
    let last = match &conn.retention_last_run {
        Some(s) => Some(s.as_str()),
        None => None,
    };
    if !cooldown_elapsed_at(last, now) {
        return RetentionGate::CoolingDown;
    }
    RetentionGate::Run
}

/// One stored backup file of a connection, as listed for retention: ordered
/// by task, newest first within a task.
#[derive(Debug)]
pub struct RetentionRunRow {
    pub id: i64,
    pub task_id: String,
    pub task_name: String,
    pub task_type: String,
    pub run_at: String,
    pub file_path: String,
}

/// What a retention pass does with one file.
#[derive(Debug, Clone, Copy, PartialEq, Eq)]
pub enum RetentionDecision {
    /// `dir_sync` archives are never removed.
    SkipDirSync,
    /// The newest file of its task is kept; `only_and_old` when it is the
    /// task's only file and already past the policy (worth a log line).
    KeepLatest { only_and_old: bool },
    /// The run time cannot be read: kept.
    SkipUnreadableTime,
    /// Younger than the policy: kept.
    KeepYoung { age: i64 },
    /// Past the policy: removed.
    Delete { age: i64 },
}

/// Number of rows of a task.
pub open spec fn task_count(rows: Seq<RetentionRunRow>, task_id: Seq<char>) -> nat
    decreases rows.len(),
{
    if rows.len() == 0 {
        0
    } else {
        task_count(rows.drop_last(), task_id) + if rows.last().task_id@ == task_id {
            1nat
        } else {
            0nat
        }
    }
}

/// A `dir_sync` row.
pub open spec fn is_dir_sync_row(row: RetentionRunRow) -> bool {
    spec_normalize_task_type(row.task_type@) == "dir_sync"@
}

/// Row `i` is the first row of its task that is not a `dir_sync` row.
pub open spec fn first_of_task(rows: Seq<RetentionRunRow>, i: int) -> bool {
    forall|j: int|
        0 <= j < i ==> !(#[trigger] rows[j].task_id@ == rows[i].task_id@ && !is_dir_sync_row(
            rows[j],
        ))
}

/// The decision for row `i` with a policy of `policy` days at `now`.
pub open spec fn spec_decision(rows: Seq<RetentionRunRow>, i: int, policy: i64, now: Instant) -> RetentionDecision {
    let row = rows[i];
    let age = spec_run_age(row.run_at@, now);
    if is_dir_sync_row(row) {
        RetentionDecision::SkipDirSync
    } else if first_of_task(rows, i) {
        RetentionDecision::KeepLatest {
            only_and_old: task_count(rows, row.task_id@) == 1 && match age {
                Some(a) => a,
                None => 0,
            } >= policy,
        }
    } else {
        match age {
            None => RetentionDecision::SkipUnreadableTime,
            Some(a) => if a < policy {
                RetentionDecision::KeepYoung { age: a as i64 }
            } else {
                RetentionDecision::Delete { age: a as i64 }
            },
        }
    }
}

/// Counts the rows of a task.
fn count_task_rows(rows: &Vec<RetentionRunRow>, task_id: &str) -> (r: usize)
    ensures
        r == task_count(rows@, task_id@),
{
    let mut n: usize = 0;
    let mut i: usize = 0;
    while i < rows.len()
        invariant
            i <= rows.len(),
            n == task_count(rows@.take(i as int), task_id@),
            n <= i,
        decreases rows.len() - i,
    {
        assert(rows@.take(i + 1).drop_last() =~= rows@.take(i as int));
        if str_eq(rows[i].task_id.as_str(), task_id) {
            n = n + 1;
        }
        i = i + 1;
    }
    assert(rows@.take(rows.len() as int) =~= rows@);
    n
}

/// Decides, file by file, what a retention pass with a policy of `policy`
/// days does at `now`: `dir_sync` archives and the newest file of every task
/// stay, files older than the policy go.
pub fn plan_retention(rows: &Vec<RetentionRunRow>, policy: i64, now: Instant) -> (r: Vec<
    RetentionDecision,
>)
    ensures
        r@.len() == rows@.len(),
        forall|i: int| 0 <= i < rows@.len() ==> #[trigger] r@[i] == spec_decision(rows@, i, policy, now),
{
    let mut out: Vec<RetentionDecision> = Vec::new();
    let mut i: usize = 0;
    while i < rows.len()
        invariant
            i <= rows.len(),
            out@.len() == i,
            forall|k: int| 0 <= k < i ==> #[trigger] out@[k] == spec_decision(rows@, k, policy, now),
        decreases rows.len() - i,
    {
        let row = &rows[i];
        let age = run_age_days_at(row.run_at.as_str(), now);
        let d = if str_eq(normalize_task_type(row.task_type.as_str()), "dir_sync") {
            RetentionDecision::SkipDirSync
        } else {
            let mut first = true;
            let mut j: usize = 0;
            while j < i
                invariant
                    j <= i < rows.len(),
                    first == (forall|k: int|
                        0 <= k < j ==> !(#[trigger] rows@[k].task_id@ == rows@[i as int].task_id@
                            && !is_dir_sync_row(rows@[k]))),
                decreases i - j,
            {
                if str_eq(rows[j].task_id.as_str(), rows[i].task_id.as_str()) && !str_eq(
                    normalize_task_type(rows[j].task_type.as_str()),
                    "dir_sync",
                ) {
                    first = false;
                }
                j = j + 1;
            }
            if first {
                let n = count_task_rows(rows, row.task_id.as_str());
                let a = match age {
                    Some(a) => a,
                    None => 0,
                };
                RetentionDecision::KeepLatest { only_and_old: n == 1 && a >= policy }
            } else {
                match age {
                    None => RetentionDecision::SkipUnreadableTime,
                    Some(a) => if a < policy {
                        RetentionDecision::KeepYoung { age: a }
                    } else {
                        RetentionDecision::Delete { age: a }
                    },
                }
            }
        };
        out.push(d);
        i = i + 1;
    }
    out
}

/// A retention pass never removes a `dir_sync` archive nor the newest file of
/// a task, and removes a file only when it is at least `policy` days old.
pub proof fn law_retention_keeps_latest(
    rows: Seq<RetentionRunRow>,
    i: int,
    policy: i64,
    now: Instant,
)
    requires
        0 <= i < rows.len(),
    ensures
        is_dir_sync_row(rows[i]) ==> !(spec_decision(rows, i, policy, now) is Delete),
        first_of_task(rows, i) ==> !(spec_decision(rows, i, policy, now) is Delete),
        spec_decision(rows, i, policy, now) matches RetentionDecision::Delete { age } ==> age
            >= policy && spec_run_age(rows[i].run_at@, now) == Some(age as int),
{
}

/// Every task with a file that is not a `dir_sync` archive keeps one: its
/// first row is never removed.
pub proof fn law_retention_keeps_one_per_task(
    rows: Seq<RetentionRunRow>,
    i: int,
    policy: i64,
    now: Instant,
)
    requires
        0 <= i < rows.len(),
        !is_dir_sync_row(rows[i]),
    ensures
        exists|k: int|
            0 <= k <= i && rows[k].task_id@ == rows[i].task_id@ && !(spec_decision(
                rows,
                k,
                policy,
                now,
            ) is Delete),
    decreases i,
{
    if first_of_task(rows, i) {
        assert(!(spec_decision(rows, i, policy, now) is Delete));
    } else {
        let j = choose|j: int|
            0 <= j < i && (#[trigger] rows[j].task_id@ == rows[i].task_id@ && !is_dir_sync_row(
                rows[j],
            ));
        law_retention_keeps_one_per_task(rows, j, policy, now);
    }
}

/// After a pass at `last`, recorded on the connection as a time that reads back
/// as `last`, the connection cools down until a day has passed: a second pass
/// within 24 hours does not run.
pub proof fn law_no_second_pass_within_a_day(conn: Connection, last: Instant, now: Instant)
    requires
        conn.enabled,
        conn.retention_days > 0,
        conn.retention_last_run matches Some(t) && rfc3339_instant(t@) == Some((last.secs, last.nanos)),
        whole_seconds(now, last) < COOLDOWN_SECS,
    ensures
        spec_retention_gate(conn, now) == RetentionGate::CoolingDown,
{
}

} // verus!
