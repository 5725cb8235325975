//! Maps server run ids to client tasks while a backup is in flight.
use vstd::prelude::*;

use crate::models::Task;
use crate::strmap::StrMap;
use crate::text::{chars_of, string_of};

verus! {

/// The task a server run belongs to.
#[derive(Debug)]
pub struct PendingRun {
    pub task_id: String,
    pub task_type: String,
}

impl Clone for PendingRun {
    fn clone(&self) -> (r: Self)
        ensures
            r == *self,
    {
        PendingRun { task_id: self.task_id.clone(), task_type: self.task_type.clone() }
    }
}

/// The pending run of a task.
pub fn pending_from_task(task: &Task) -> (r: PendingRun)
    ensures
        r.task_id == task.id,
        r.task_type == task.task_type,
{
    PendingRun { task_id: task.id.clone(), task_type: task.task_type.clone() }
}

pub type Runs = Map<Seq<char>, PendingRun>;

pub type Queues = Map<Seq<char>, Seq<PendingRun>>;

/// The queue of runs waiting for a URL (empty when there is none).
pub open spec fn queue_of(q: Queues, url: Seq<char>) -> Seq<PendingRun> {
    if q.dom().contains(url) {
        q[url]
    } else {
        Seq::empty()
    }
}

/// A run queued for a URL behind the ones already waiting.
pub open spec fn spec_register_legacy(q: Queues, url: Seq<char>, p: PendingRun) -> Queues {
    q.insert(url, queue_of(q, url).push(p))
}

/// A server run id assigned to the run at the front of a URL's queue.
pub open spec fn spec_queued_legacy(runs: Runs, q: Queues, url: Seq<char>, run_id: Seq<char>) -> (
    Runs,
    Queues,
) {
    if queue_of(q, url).len() > 0 {
        (runs.insert(run_id, queue_of(q, url)[0]), q.insert(url, queue_of(q, url).drop_first()))
    } else {
        (runs, q)
    }
}

/// Runs by server run id, and a FIFO per URL for servers that omit the task
/// id in `task_queued`.
#[derive(Debug)]
pub struct RunTracker {
    by_run_id: StrMap<PendingRun>,
    legacy_by_url: StrMap<Vec<PendingRun>>,
}

impl RunTracker {
    /// Run id → pending run.
    pub closed spec fn runs(&self) -> Runs {
        self.by_run_id.map()
    }

    /// URL → queue of pending runs, oldest first.
    pub closed spec fn queues(&self) -> Queues {
        self.legacy_by_url.map().map_values(|v: Vec<PendingRun>| v@)
    }

    pub fn new() -> (r: Self)
        ensures
            r.runs() == Runs::empty(),
            r.queues() == Queues::empty(),
    {
        let r = RunTracker { by_run_id: StrMap::new(), legacy_by_url: StrMap::new() };
        assert(r.queues() =~= Queues::empty());
        r
    }

    /// Queues a run for a URL, to be matched with the next `task_queued`.
    pub fn register_legacy_pending(&mut self, url: &str, pending: PendingRun)
        ensures
            final(self).queues() == spec_register_legacy(old(self).queues(), url@, pending),
            final(self).runs() == old(self).runs(),
    {
        let ghost q0 = self.queues();
        let mut queue = match self.legacy_by_url.remove(url) {
            Some(v) => v,
            None => Vec::new(),
        };
        assert(queue@ == queue_of(q0, url@));
        queue.push(pending);
        self.legacy_by_url.insert(string_of(&chars_of(url)), queue);
        assert(self.queues() =~= spec_register_legacy(q0, url@, pending));
    }

    /// Records which task a server run belongs to.
    pub fn map_run(&mut self, server_run_id: &str, pending: PendingRun)
        ensures
            final(self).runs() == old(self).runs().insert(server_run_id@, pending),
            final(self).queues() == old(self).queues(),
    {
        self.by_run_id.insert(string_of(&chars_of(server_run_id)), pending);
    }

    /// Gives a server run id to the oldest run waiting for the URL.
    pub fn on_task_queued_legacy(&mut self, url: &str, server_run_id: &str)
        ensures
            (final(self).runs(), final(self).queues()) == spec_queued_legacy(
                old(self).runs(),
                old(self).queues(),
                url@,
                server_run_id@,
            ),
    {
        let ghost q0 = self.queues();
        let ghost r0 = self.runs();
        match self.legacy_by_url.remove(url) {
            Some(mut queue) => {
                if queue.len() > 0 {
                    let first = queue.remove(0);
                    assert(queue@ =~= queue_of(q0, url@).drop_first());
                    self.legacy_by_url.insert(string_of(&chars_of(url)), queue);
                    self.map_run(server_run_id, first);
                    assert(self.queues() =~= q0.insert(url@, queue_of(q0, url@).drop_first()));
                } else {
                    self.legacy_by_url.insert(string_of(&chars_of(url)), queue);
                    assert(self.queues() =~= q0);
                }
            },
            None => {
                assert(self.queues() =~= q0);
            },
        }
    }

    /// Takes the pending run of a server run id out of the tracker.
    pub fn take_by_run_id(&mut self, server_run_id: &str) -> (r: Option<PendingRun>)
        ensures
            r matches Some(p) ==> old(self).runs().dom().contains(server_run_id@) && old(
                self,
            ).runs()[server_run_id@] == p,
            r is None ==> !old(self).runs().dom().contains(server_run_id@),
            final(self).runs() == old(self).runs().remove(server_run_id@),
            final(self).queues() == old(self).queues(),
    {
        self.by_run_id.remove(server_run_id)
    }
}

/// A run recorded for a server run id is what taking that id gives back, and
/// nothing else is disturbed.
pub proof fn law_take_after_map(runs: Runs, run_id: Seq<char>, p: PendingRun)
    ensures
        runs.insert(run_id, p).dom().contains(run_id),
        runs.insert(run_id, p)[run_id] == p,
        runs.insert(run_id, p).remove(run_id) == runs.remove(run_id),
{
    assert(runs.insert(run_id, p).remove(run_id) =~= runs.remove(run_id));
}

/// Runs registered for a URL get server run ids in the order they were
/// registered: the first `task_queued` maps the first run, the second the second.
pub proof fn law_legacy_fifo(
    runs: Runs,
    url: Seq<char>,
    p1: PendingRun,
    p2: PendingRun,
    r1: Seq<char>,
    r2: Seq<char>,
)
    requires
        r1 != r2,
    ensures
        ({
            let q0 = Queues::empty().insert(url, Seq::<PendingRun>::empty());
            let q2 = spec_register_legacy(spec_register_legacy(q0, url, p1), url, p2);
            let (runs1, q3) = spec_queued_legacy(runs, q2, url, r1);
            let (runs2, q4) = spec_queued_legacy(runs1, q3, url, r2);
            &&& runs2[r1] == p1
            &&& runs2[r2] == p2
            &&& queue_of(q4, url).len() == 0
        }),
{
    let q0 = Queues::empty().insert(url, Seq::<PendingRun>::empty());
    let q1 = spec_register_legacy(q0, url, p1);
    assert(queue_of(q1, url) =~= seq![p1]);
    let q2 = spec_register_legacy(q1, url, p2);
    assert(queue_of(q2, url) =~= seq![p1, p2]);
    let (runs1, q3) = spec_queued_legacy(runs, q2, url, r1);
    assert(queue_of(q3, url) =~= seq![p2]);
    let (runs2, q4) = spec_queued_legacy(runs1, q3, url, r2);
    assert(queue_of(q4, url) =~= Seq::<PendingRun>::empty());
}

} // verus!
