//! Connect-on-demand sessions: the runs submitted per server URL and not yet
//! settled, when an idle session is closed, and how a dropped session is
//! recovered.
use vstd::prelude::*;

use crate::models::{Connection, Task};
use crate::strmap::{seq_lt, StrMap};
use crate::text::{chars_of, string_of};

verus! {

/// Seconds a session stays open while a task is due soon.
pub const SESSION_HOLD_SECS: u64 = 600;

/// `SESSION_HOLD_SECS` in minutes, as shown in logs.
pub const SESSION_HOLD_MINUTES: &'static str = "10";

/// Grace period (seconds) after the last task before deciding on a disconnect.
pub const DISCONNECT_GRACE_SECS: u64 = 3;

/// A run submitted to the server and not yet completed or failed.
#[derive(Debug)]
pub struct PendingWork {
    pub conn: Connection,
    pub task: Task,
}

impl Clone for PendingWork {
    fn clone(&self) -> (r: Self)
        ensures
            r == *self,
    {
        PendingWork { conn: self.conn.clone(), task: self.task.clone() }
    }
}

pub type PendingView = Map<Seq<char>, Map<Seq<char>, PendingWork>>;

/// The runs waiting under a URL (none when the URL is unknown).
pub open spec fn waiting(p: PendingView, url: Seq<char>) -> Map<Seq<char>, PendingWork> {
    if p.dom().contains(url) {
        p[url]
    } else {
        Map::empty()
    }
}

/// Runs submitted per server URL and task id, not yet settled.
#[derive(Debug)]
pub struct PendingBook {
    by_url: StrMap<StrMap<PendingWork>>,
}

impl PendingBook {
    /// URL → task id → pending run.
    pub closed spec fn view(&self) -> PendingView {
        self.by_url.map().map_values(|m: StrMap<PendingWork>| m.map())
    }

    pub fn new() -> (r: Self)
        ensures
            r.view() == PendingView::empty(),
    {
        let r = PendingBook { by_url: StrMap::new() };
        assert(r.view() =~= PendingView::empty());
        r
    }

    /// Records a submitted run (replacing an earlier one of the same task).
    pub fn register(&mut self, work: PendingWork)
        ensures
            final(self).view() == old(self).view().insert(
                work.conn.url@,
                waiting(old(self).view(), work.conn.url@).insert(work.task.id@, work),
            ),
    {
        let ghost p0 = self.view();
        let ghost url = work.conn.url@;
        let url_key = string_of(&chars_of(work.conn.url.as_str()));
        let id_key = string_of(&chars_of(work.task.id.as_str()));
        let mut inner = match self.by_url.remove(work.conn.url.as_str()) {
            Some(m) => m,
            None => StrMap::new(),
        };
        assert(inner.map() =~= waiting(p0, url));
        inner.insert(id_key, work);
        self.by_url.insert(url_key, inner);
        assert(self.view() =~= p0.insert(url, waiting(p0, url).insert(work.task.id@, work)));
    }

    /// Takes the pending run of a task under a URL out of the book.
    pub fn remove(&mut self, url: &str, def_id: &str) -> (r: Option<PendingWork>)
        ensures
            r is Some == waiting(old(self).view(), url@).dom().contains(def_id@),
            r matches Some(w) ==> w == waiting(old(self).view(), url@)[def_id@],
            old(self).view().dom().contains(url@) ==> final(self).view() == old(self).view().insert(
                url@,
                waiting(old(self).view(), url@).remove(def_id@),
            ),
            !old(self).view().dom().contains(url@) ==> final(self).view() == old(self).view(),
    {
        let ghost p0 = self.view();
        match self.by_url.remove(url) {
            Some(mut inner) => {
                let r = inner.remove(def_id);
                self.by_url.insert(string_of(&chars_of(url)), inner);
                assert(self.view() =~= p0.insert(url@, waiting(p0, url@).remove(def_id@)));
                r
            },
            None => {
                assert(self.view() =~= p0);
                None
            },
        }
    }

    /// Whether any run under the URL is still pending.
    pub fn has_any(&self, url: &str) -> (r: bool)
        ensures
            r == (waiting(self.view(), url@).dom().len() > 0),
    {
        match self.by_url.get(url) {
            Some(inner) => !inner.is_empty(),
            None => {
                assert(waiting(self.view(), url@) =~= Map::empty());
                false
            },
        }
    }

    /// The task ids pending under `url`, in ascending order.
    pub closed spec fn ids(&self, url: Seq<char>) -> Seq<Seq<char>> {
        if self.by_url.map().dom().contains(url) {
            self.by_url.map()[url].keys()
        } else {
            Seq::empty()
        }
    }

    /// The pending runs under a URL, one per pending task id, in ascending
    /// order of task id.
    pub fn snapshot(&self, url: &str) -> (r: Vec<PendingWork>)
        ensures
            ids_listing(self.view(), url@, self.ids(url@)),
            r@.len() == self.ids(url@).len(),
            forall|i: int|
                0 <= i < r@.len() ==> #[trigger] r@[i] == waiting(self.view(), url@)[self.ids(
                    url@,
                )[i]],
    {
        match self.by_url.get(url) {
            Some(inner) => {
                let n = inner.key_count();
                let ghost ks = self.ids(url@);
                assert(inner.keys() == ks);
                let mut out: Vec<PendingWork> = Vec::new();
                let mut i: usize = 0;
                while i < n
                    invariant
                        i <= n,
                        n == inner.keys().len(),
                        ks == inner.keys(),
                        inner.map() == waiting(self.view(), url@),
                        out@.len() == i,
                        forall|k: int| 0 <= k < i ==> #[trigger] out@[k] == inner.map()[ks[k]],
                    decreases n - i,
                {
                    let w = inner.value_at(i).clone();
                    out.push(w);
                    i = i + 1;
                }
                out
            },
            None => {
                assert(waiting(self.view(), url@) =~= Map::empty());
                Vec::new()
            },
        }
    }

    /// Removes every pending run under a URL and returns them, as
    /// [`snapshot`](Self::snapshot) lists them.
    pub fn clear_url(&mut self, url: &str) -> (r: Vec<PendingWork>)
        ensures
            ids_listing(old(self).view(), url@, old(self).ids(url@)),
            r@.len() == old(self).ids(url@).len(),
            forall|i: int|
                0 <= i < r@.len() ==> #[trigger] r@[i] == waiting(old(self).view(), url@)[old(
                    self,
                ).ids(url@)[i]],
            final(self).view() == old(self).view().remove(url@),
    {
        let r = self.snapshot(url);
        let ghost p0 = self.view();
        let _ = self.by_url.remove(url);
        assert(self.view() =~= p0.remove(url@));
        r
    }

    /// The names of the tasks pending under a URL, in the order of
    /// [`snapshot`](Self::snapshot).
    pub fn task_names(&self, url: &str) -> (r: Vec<String>)
        ensures
            ids_listing(self.view(), url@, self.ids(url@)),
            r@.len() == self.ids(url@).len(),
            forall|i: int|
                0 <= i < r@.len() ==> #[trigger] r@[i] == waiting(self.view(), url@)[self.ids(
                    url@,
                )[i]].task.task_name,
    {
        let works = self.snapshot(url);
        let mut out: Vec<String> = Vec::new();
        let mut i: usize = 0;
        while i < works.len()
            invariant
                i <= works.len(),
                out@.len() == i,
                forall|k: int| 0 <= k < i ==> #[trigger] out@[k] == works@[k].task.task_name,
            decreases works.len() - i,
        {
            out.push(works[i].task.task_name.clone());
            i = i + 1;
        }
        out
    }
}

/// `ids` lists the task ids pending under `url`: each exactly once, in
/// ascending order.
pub open spec fn ids_listing(p: PendingView, url: Seq<char>, ids: Seq<Seq<char>>) -> bool {
    &&& forall|i: int, j: int| 0 <= i < j < ids.len() ==> seq_lt(#[trigger] ids[i], #[trigger] ids[j])
    &&& forall|k: Seq<char>| #[trigger] waiting(p, url).dom().contains(k) <==> ids.contains(k)
}

/// A run registered and then settled is returned by the settlement, and the
/// other runs under its URL are left as they were.
pub proof fn law_register_then_remove(p: PendingView, w: PendingWork)
    ensures
        ({
            let after = p.insert(w.conn.url@, waiting(p, w.conn.url@).insert(w.task.id@, w));
            &&& waiting(after, w.conn.url@).dom().contains(w.task.id@)
            &&& waiting(after, w.conn.url@)[w.task.id@] == w
            &&& waiting(after, w.conn.url@).remove(w.task.id@) == waiting(p, w.conn.url@).remove(
                w.task.id@,
            )
        }),
{
    let after = p.insert(w.conn.url@, waiting(p, w.conn.url@).insert(w.task.id@, w));
    assert(waiting(after, w.conn.url@).remove(w.task.id@) =~= waiting(p, w.conn.url@).remove(
        w.task.id@,
    ));
}

/// What happens to an idle session after the grace period.
#[derive(Debug, Clone, Copy, PartialEq, Eq)]
pub enum IdleDecision {
    /// Work is still in flight, pending or being recovered: leave it open.
    Busy,
    /// A task is due within the hold time: keep the session.
    Hold,
    /// Nothing is due soon: close the session.
    Disconnect,
    /// Whether a task is due could not be evaluated: leave it open.
    Unknown,
}

/// Decides what happens to an idle session. `task_due` is whether an enabled
/// task on the URL fires within the hold time (`None` when that could not be
/// evaluated); it is only consulted when nothing is in flight.
pub fn idle_decision(in_flight: u32, has_pending: bool, recovering: bool, task_due: Option<bool>) -> (r:
    IdleDecision)
    ensures
        in_flight > 0 || has_pending || recovering ==> r == IdleDecision::Busy,
        !(in_flight > 0 || has_pending || recovering) ==> r == match task_due {
            Some(true) => IdleDecision::Hold,
            Some(false) => IdleDecision::Disconnect,
            None => IdleDecision::Unknown,
        },
{
    if in_flight > 0 || has_pending || recovering {
        return IdleDecision::Busy;
    }
    match task_due {
        Some(true) => IdleDecision::Hold,
        Some(false) => IdleDecision::Disconnect,
        None => IdleDecision::Unknown,
    }
}

// ---------------------------------------------------------------------------
// Recovery after a dropped session
// ---------------------------------------------------------------------------

/// Reconnect-and-wait cycles before pending runs are given up.
pub const RECOVERY_CYCLES: u32 = 3;

/// Connection attempts per cycle.
pub const RECONNECT_ATTEMPTS: u32 = 6;

/// Seconds between connection attempts, and after a cycle that could not connect.
pub const RECONNECT_DELAY_SECS: u64 = 5;

/// Seconds to wait for pending runs to settle after reconnecting.
pub const SETTLEMENT_WAIT_SECS: u64 = 90;

/// Seconds between two looks at the pending runs while waiting.
pub const SETTLEMENT_POLL_SECS: u64 = 2;

/// Where a recovery stands; each state names the work to do next.
#[derive(Debug, Clone, Copy, PartialEq, Eq)]
pub enum RecoveryState {
    /// Look whether runs are still pending at the start of a cycle.
    CheckPending { cycle: u32 },
    /// Try to open a session for the first pending run's connection.
    Reconnect { cycle: u32, attempt: u32 },
    /// Wait up to `SETTLEMENT_WAIT_SECS` for the pending runs to settle.
    AwaitSettlement { cycle: u32 },
    /// Submit every pending run again.
    Resubmit { cycle: u32 },
    /// Drop the pending runs and report them lost.
    GiveUp,
    /// Recovery is over.
    Done,
}

/// What the work of a recovery state found.
#[derive(Debug, Clone, Copy, PartialEq, Eq)]
pub enum RecoveryEvent {
    /// No run is pending any more.
    NothingPending,
    /// Runs are still pending.
    Pending,
    /// A session is open again.
    Connected,
    /// The connection attempt failed.
    ConnectFailed,
    /// All pending runs settled while waiting.
    Settled,
    /// Runs were still pending when the wait ended.
    NotSettled,
    /// The runs were submitted again.
    Resubmitted,
    /// The pending runs were dropped.
    GaveUp,
}

/// The state after a step, and the seconds to sleep before it.
#[derive(Debug, Clone, Copy, PartialEq, Eq)]
pub struct RecoveryStep {
    pub next: RecoveryState,
    pub sleep_secs: u64,
}

/// The cycle after `cycle`, or giving up after the last one.
pub open spec fn after_cycle(cycle: u32) -> RecoveryState {
    if cycle < RECOVERY_CYCLES {
        RecoveryState::CheckPending { cycle: (cycle + 1) as u32 }
    } else {
        RecoveryState::GiveUp
    }
}

/// The recovery step for an event in a state; an event that does not belong
/// to the state leaves it unchanged.
pub open spec fn spec_recovery_next(s: RecoveryState, e: RecoveryEvent) -> RecoveryStep {
    match (s, e) {
        (RecoveryState::CheckPending { .. }, RecoveryEvent::NothingPending) => RecoveryStep {
            next: RecoveryState::Done,
            sleep_secs: 0,
        },
        (RecoveryState::CheckPending { cycle }, RecoveryEvent::Pending) => RecoveryStep {
            next: RecoveryState::Reconnect { cycle, attempt: 1 },
            sleep_secs: 0,
        },
        (RecoveryState::Reconnect { cycle, .. }, RecoveryEvent::Connected) => RecoveryStep {
            next: RecoveryState::AwaitSettlement { cycle },
            sleep_secs: 0,
        },
        (RecoveryState::Reconnect { cycle, .. }, RecoveryEvent::NothingPending) => RecoveryStep {
            next: after_cycle(cycle),
            sleep_secs: RECONNECT_DELAY_SECS,
        },
        (RecoveryState::Reconnect { cycle, attempt }, RecoveryEvent::ConnectFailed) => if attempt
            < RECONNECT_ATTEMPTS {
            RecoveryStep {
                next: RecoveryState::Reconnect { cycle, attempt: (attempt + 1) as u32 },
                sleep_secs: RECONNECT_DELAY_SECS,
            }
        } else {
            RecoveryStep { next: after_cycle(cycle), sleep_secs: (2 * RECONNECT_DELAY_SECS) as u64 }
        },
        (RecoveryState::AwaitSettlement { .. }, RecoveryEvent::Settled) => RecoveryStep {
            next: RecoveryState::Done,
            sleep_secs: 0,
        },
        (RecoveryState::AwaitSettlement { cycle }, RecoveryEvent::NotSettled) => RecoveryStep {
            next: RecoveryState::Resubmit { cycle },
            sleep_secs: 0,
        },
        (RecoveryState::Resubmit { cycle }, RecoveryEvent::Resubmitted) => RecoveryStep {
            next: after_cycle(cycle),
            sleep_secs: 0,
        },
        (RecoveryState::GiveUp, RecoveryEvent::GaveUp) => RecoveryStep {
            next: RecoveryState::Done,
            sleep_secs: 0,
        },
        _ => RecoveryStep { next: s, sleep_secs: 0 },
    }
}

/// A state within the limits: cycles 1..=3, attempts 1..=6.
pub open spec fn recovery_valid(s: RecoveryState) -> bool {
    match s {
        RecoveryState::CheckPending { cycle } => 1 <= cycle <= RECOVERY_CYCLES,
        RecoveryState::Reconnect { cycle, attempt } => 1 <= cycle <= RECOVERY_CYCLES && 1
            <= attempt <= RECONNECT_ATTEMPTS,
        RecoveryState::AwaitSettlement { cycle } => 1 <= cycle <= RECOVERY_CYCLES,
        RecoveryState::Resubmit { cycle } => 1 <= cycle <= RECOVERY_CYCLES,
        _ => true,
    }
}

/// A bound on the steps a recovery can still take.
pub open spec fn recovery_rank(s: RecoveryState) -> int {
    match s {
        RecoveryState::CheckPending { cycle } => (4 - cycle) * 10 + 9,
        RecoveryState::Reconnect { cycle, attempt } => (4 - cycle) * 10 + 8 - attempt,
        RecoveryState::AwaitSettlement { cycle } => (4 - cycle) * 10 + 1,
        RecoveryState::Resubmit { cycle } => (4 - cycle) * 10,
        RecoveryState::GiveUp => 1,
        RecoveryState::Done => 0,
    }
}

/// The step a recovery takes after its current work reported `e`.
pub fn recovery_next(s: RecoveryState, e: RecoveryEvent) -> (r: RecoveryStep)
    requires
        recovery_valid(s),
    ensures
        r == spec_recovery_next(s, e),
{
    let after = |cycle: u32| -> (n: RecoveryState)
        requires
            1 <= cycle <= RECOVERY_CYCLES,
        ensures
            n == after_cycle(cycle),
        {
            if cycle < RECOVERY_CYCLES {
                RecoveryState::CheckPending { cycle: cycle + 1 }
            } else {
                RecoveryState::GiveUp
            }
        };
    match (s, e) {
        (RecoveryState::CheckPending { .. }, RecoveryEvent::NothingPending) => RecoveryStep {
            next: RecoveryState::Done,
            sleep_secs: 0,
        },
        (RecoveryState::CheckPending { cycle }, RecoveryEvent::Pending) => RecoveryStep {
            next: RecoveryState::Reconnect { cycle, attempt: 1 },
            sleep_secs: 0,
        },
        (RecoveryState::Reconnect { cycle, .. }, RecoveryEvent::Connected) => RecoveryStep {
            next: RecoveryState::AwaitSettlement { cycle },
            sleep_secs: 0,
        },
        (RecoveryState::Reconnect { cycle, .. }, RecoveryEvent::NothingPending) => RecoveryStep {
            next: after(cycle),
            sleep_secs: RECONNECT_DELAY_SECS,
        },
        (RecoveryState::Reconnect { cycle, attempt }, RecoveryEvent::ConnectFailed) => {
            if attempt < RECONNECT_ATTEMPTS {
                RecoveryStep {
                    next: RecoveryState::Reconnect { cycle, attempt: attempt + 1 },
                    sleep_secs: RECONNECT_DELAY_SECS,
                }
            } else {
                RecoveryStep { next: after(cycle), sleep_secs: 2 * RECONNECT_DELAY_SECS }
            }
        },
        (RecoveryState::AwaitSettlement { .. }, RecoveryEvent::Settled) => RecoveryStep {
            next: RecoveryState::Done,
            sleep_secs: 0,
        },
        (RecoveryState::AwaitSettlement { cycle }, RecoveryEvent::NotSettled) => RecoveryStep {
            next: RecoveryState::Resubmit { cycle },
            sleep_secs: 0,
        },
        (RecoveryState::Resubmit { cycle }, RecoveryEvent::Resubmitted) => RecoveryStep {
            next: after(cycle),
            sleep_secs: 0,
        },
        (RecoveryState::GiveUp, RecoveryEvent::GaveUp) => RecoveryStep {
            next: RecoveryState::Done,
            sleep_secs: 0,
        },
        _ => RecoveryStep { next: s, sleep_secs: 0 },
    }
}

/// Recovery ends: every step that changes the state stays within the limits
/// and lowers the rank, which is never negative, so at most 40 steps lead
/// from the first cycle to `Done`; a third failed cycle gives the runs up.
pub proof fn law_recovery_terminates(s: RecoveryState, e: RecoveryEvent)
    requires
        recovery_valid(s),
    ensures
        recovery_valid(spec_recovery_next(s, e).next),
        recovery_rank(s) >= 0,
        spec_recovery_next(s, e).next != s ==> recovery_rank(spec_recovery_next(s, e).next)
            < recovery_rank(s),
        recovery_rank(RecoveryState::CheckPending { cycle: 1 }) == 39,
        s == (RecoveryState::Resubmit { cycle: RECOVERY_CYCLES }) && e == RecoveryEvent::Resubmitted
            ==> spec_recovery_next(s, e).next == RecoveryState::GiveUp,
{
}

/// The cycle a recovery state belongs to (0 for `GiveUp` and `Done`).
pub open spec fn cycle_of(s: RecoveryState) -> int {
    match s {
        RecoveryState::CheckPending { cycle } => cycle as int,
        RecoveryState::Reconnect { cycle, .. } => cycle as int,
        RecoveryState::AwaitSettlement { cycle } => cycle as int,
        RecoveryState::Resubmit { cycle } => cycle as int,
        _ => 0,
    }
}

/// Runs still pending after the wait are submitted again in the same cycle;
/// after the resubmission the next cycle starts with a new check, up to the
/// third; the pending runs are given up only from the third cycle.
pub proof fn law_unsettled_runs_are_resubmitted(s: RecoveryState, e: RecoveryEvent, c: u32)
    requires
        1 <= c <= RECOVERY_CYCLES,
        recovery_valid(s),
    ensures
        spec_recovery_next((RecoveryState::AwaitSettlement { cycle: c }), RecoveryEvent::NotSettled)
            == (RecoveryStep { next: RecoveryState::Resubmit { cycle: c }, sleep_secs: 0 }),
        c < RECOVERY_CYCLES ==> spec_recovery_next(
            (RecoveryState::Resubmit { cycle: c }),
            RecoveryEvent::Resubmitted,
        ).next == (RecoveryState::CheckPending { cycle: (c + 1) as u32 }),
        spec_recovery_next(s, e).next == RecoveryState::GiveUp && s != RecoveryState::GiveUp
            ==> cycle_of(s) == RECOVERY_CYCLES,
        spec_recovery_next(s, e).next == RecoveryState::GiveUp && s != RecoveryState::GiveUp
            ==> (s is Resubmit && e == RecoveryEvent::Resubmitted) || (s is Reconnect && (e
            == RecoveryEvent::ConnectFailed || e == RecoveryEvent::NothingPending)),
{
}

} // verus!
