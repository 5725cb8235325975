//! Scheduled runs: the cron expression a task is registered with, and the
//! retry policy for submitting a run to the server.
use vstd::prelude::*;

use crate::cron::{normalize_schedule, spec_normalize, to_six_field, ScheduleError};
use crate::i18n::{fill, reps_view, Translator};
use crate::models::Task;
use crate::text::{decimal, decimal_chars, string_of, trim};

verus! {

/// Attempts to submit one scheduled run.
pub const SUBMIT_MAX_ATTEMPTS: u32 = 3;

/// Seconds between two attempts.
pub const SUBMIT_RETRY_DELAY_SECS: u64 = 60;

/// The six-field cron expression a task is registered with.
pub fn cron_expression(task: &Task) -> (r: Result<String, ScheduleError>)
    ensures
        trim(spec_normalize(task.schedule@)).len() > 0 ==> r is Ok && r->Ok_0@ == seq!['0', ' ']
            + spec_normalize(task.schedule@),
        trim(spec_normalize(task.schedule@)).len() == 0 ==> r is Err,
{
    proof {
        crate::cron::lemma_normalize_idempotent(task.schedule@);
    }
    to_six_field(normalize_schedule(task.schedule.as_str()).as_str())
}

/// How one attempt to submit a run ended.
#[derive(Debug, Clone, Copy, PartialEq, Eq)]
pub enum SubmitOutcome {
    /// No session to the server could be opened.
    ConnectFailed,
    /// The server did not acknowledge the run.
    SubmitFailed,
    /// The server queued the run.
    Accepted,
}

/// What the scheduler does after an attempt.
#[derive(Debug, Clone, Copy, PartialEq, Eq)]
pub enum SubmitAction {
    /// Wait `SUBMIT_RETRY_DELAY_SECS` and make attempt `next_attempt`.
    Retry { next_attempt: u32 },
    /// Give this run up (logged as skipped).
    Skip,
    /// Record the run as pending on the session.
    Register,
}

/// The step after attempt `attempt` (1-based) ended with `outcome`.
pub open spec fn spec_submit_next(attempt: u32, outcome: SubmitOutcome) -> SubmitAction {
    if outcome == SubmitOutcome::Accepted {
        SubmitAction::Register
    } else if attempt < SUBMIT_MAX_ATTEMPTS {
        SubmitAction::Retry { next_attempt: (attempt + 1) as u32 }
    } else {
        SubmitAction::Skip
    }
}

/// Decides what follows an attempt to submit a scheduled run.
pub fn submit_next(attempt: u32, outcome: SubmitOutcome) -> (r: SubmitAction)
    requires
        1 <= attempt <= SUBMIT_MAX_ATTEMPTS,
    ensures
        r == spec_submit_next(attempt, outcome),
{
    match outcome {
        SubmitOutcome::Accepted => SubmitAction::Register,
        _ => if attempt < SUBMIT_MAX_ATTEMPTS {
            SubmitAction::Retry { next_attempt: attempt + 1 }
        } else {
            SubmitAction::Skip
        },
    }
}

/// A run is attempted at most `SUBMIT_MAX_ATTEMPTS` times: a retry always
/// names a later attempt within the limit, and a failure at the last attempt
/// gives the run up.
pub proof fn law_submit_attempts_bounded(attempt: u32, outcome: SubmitOutcome)
    requires
        1 <= attempt <= SUBMIT_MAX_ATTEMPTS,
    ensures
        spec_submit_next(attempt, outcome) matches SubmitAction::Retry { next_attempt } ==> attempt
            < next_attempt <= SUBMIT_MAX_ATTEMPTS,
        attempt == SUBMIT_MAX_ATTEMPTS && outcome != SubmitOutcome::Accepted ==> spec_submit_next(
            attempt,
            outcome,
        ) == SubmitAction::Skip,
        outcome == SubmitOutcome::Accepted <==> spec_submit_next(attempt, outcome)
            == SubmitAction::Register,
{
}

/// The log line announcing a retry.
pub fn retry_message(tr: &Translator, slug: &str, name: &str, attempt: u32, detail: &str) -> (r:
    String)
    ensures
        r@ == fill(
            tr.text("scheduler.retry"@),
            seq![
                ("slug"@, slug@),
                ("name"@, name@),
                ("attempt"@, decimal(attempt as nat)),
                ("max"@, decimal(SUBMIT_MAX_ATTEMPTS as nat)),
                ("detail"@, detail@),
                ("sec"@, decimal(SUBMIT_RETRY_DELAY_SECS as nat)),
            ],
        ),
{
    let a = string_of(&decimal_chars(attempt as u64));
    let m = string_of(&decimal_chars(SUBMIT_MAX_ATTEMPTS as u64));
    let sec = string_of(&decimal_chars(SUBMIT_RETRY_DELAY_SECS));
    let reps = [
        ("slug", slug),
        ("name", name),
        ("attempt", a.as_str()),
        ("max", m.as_str()),
        ("detail", detail),
        ("sec", sec.as_str()),
    ];
    assert(reps_view(reps@) =~= seq![
        ("slug"@, slug@),
        ("name"@, name@),
        ("attempt"@, decimal(attempt as nat)),
        ("max"@, decimal(SUBMIT_MAX_ATTEMPTS as nat)),
        ("detail"@, detail@),
        ("sec"@, decimal(SUBMIT_RETRY_DELAY_SECS as nat)),
    ]);
    tr.t_fmt("scheduler.retry", &reps)
}

/// The log line for a run given up after the last attempt.
pub fn skipped_message(tr: &Translator, slug: &str, name: &str, detail: &str) -> (r: String)
    ensures
        r@ == fill(
            tr.text("scheduler.skipped"@),
            seq![
                ("slug"@, slug@),
                ("name"@, name@),
                ("max"@, decimal(SUBMIT_MAX_ATTEMPTS as nat)),
                ("detail"@, detail@),
            ],
        ),
{
    let m = string_of(&decimal_chars(SUBMIT_MAX_ATTEMPTS as u64));
    let reps = [("slug", slug), ("name", name), ("max", m.as_str()), ("detail", detail)];
    assert(reps_view(reps@) =~= seq![
        ("slug"@, slug@),
        ("name"@, name@),
        ("max"@, decimal(SUBMIT_MAX_ATTEMPTS as nat)),
        ("detail"@, detail@),
    ]);
    tr.t_fmt("scheduler.skipped", &reps)
}

} // verus!
