use vstd::prelude::*;
use crate::message::WorkOrShutdown;

verus! {

/// The phases of a worker.
#[derive(Debug, Clone, Copy, PartialEq, Eq, Structural)]
pub enum WorkerState {
    /// Waiting for the next message on its queue.
    Waiting,
    /// A fetch of the last received item is in progress.
    Fetching,
    /// The worker has seen the end of its queue and does nothing more.
    Terminated,
}

/// What the runtime does next for a worker.
#[derive(Debug)]
pub enum WorkerAction {
    /// Fetch this target, then report the outcome.
    Fetch(String),
    /// Stop: the worker has terminated.
    Stop,
}

impl View for WorkerAction {
    type V = Option<Seq<char>>;

    open spec fn view(&self) -> Option<Seq<char>> {
        match self {
            WorkerAction::Fetch(t) => Some(t@),
            WorkerAction::Stop => None,
        }
    }
}

/// The outcome counts of one worker.
#[derive(Debug, Clone, Copy, PartialEq, Eq, Structural)]
pub struct Tally {
    pub succeeded: u64,
    pub failed: u64,
}

/// The abstract state of a worker: its phase, its outcome counts, and the
/// targets it has started to fetch, in order.
pub struct WorkerModel {
    pub state: WorkerState,
    pub succeeded: nat,
    pub failed: nat,
    pub attempted: Seq<Seq<char>>,
}

/// A worker before it has received anything.
pub open spec fn fresh_worker() -> WorkerModel {
    WorkerModel { state: WorkerState::Waiting, succeeded: 0, failed: 0, attempted: Seq::empty() }
}

/// A waiting worker receives from its queue: `Some(Some(t))` is the work item
/// `t`, `Some(None)` the shutdown signal, `None` a queue closed and empty.
/// A work item is fetched; anything else terminates the worker.
pub open spec fn receive_step(w: WorkerModel, msg: Option<Option<Seq<char>>>) -> WorkerModel {
    match msg {
        Some(Some(t)) => WorkerModel {
            state: WorkerState::Fetching,
            attempted: w.attempted.push(t),
            ..w
        },
        _ => WorkerModel { state: WorkerState::Terminated, ..w },
    }
}

/// A fetch finishes, well or not: the worker counts it and waits again.
pub open spec fn fetched_step(w: WorkerModel, ok: bool) -> WorkerModel {
    if ok {
        WorkerModel { state: WorkerState::Waiting, succeeded: w.succeeded + 1, ..w }
    } else {
        WorkerModel { state: WorkerState::Waiting, failed: w.failed + 1, ..w }
    }
}

/// A worker fed the messages `msgs` in order, where the `j`-th fetch ends as
/// `outcomes[j]` (a missing outcome counts as a failure). It stops taking
/// messages once terminated.
pub open spec fn run_queue(w: WorkerModel, msgs: Seq<Option<Seq<char>>>, outcomes: Seq<bool>) -> WorkerModel
    decreases msgs.len(),
{
    if msgs.len() == 0 || w.state != WorkerState::Waiting {
        w
    } else {
        let r = receive_step(w, Some(msgs[0]));
        if r.state == WorkerState::Fetching {
            let ok = outcomes.len() > 0 && outcomes[0];
            let rest = if outcomes.len() > 0 {
                outcomes.drop_first()
            } else {
                outcomes
            };
            run_queue(fetched_step(r, ok), msgs.drop_first(), rest)
        } else {
            r
        }
    }
}

/// How many of `s` are `true`.
pub open spec fn count_true(s: Seq<bool>) -> nat
    decreases s.len(),
{
    if s.len() == 0 {
        0
    } else {
        (if s[0] {
            1nat
        } else {
            0nat
        }) + count_true(s.drop_first())
    }
}

/// A waiting worker fed the work items `xs` and then the shutdown signal,
/// whatever each fetch comes to, fetches every item in order, counts every
/// outcome, and terminates.
pub proof fn lemma_worker_drains(w: WorkerModel, xs: Seq<Seq<char>>, outcomes: Seq<bool>)
    requires
        w.state == WorkerState::Waiting,
        outcomes.len() == xs.len(),
    ensures
        run_queue(w, xs.map_values(|x: Seq<char>| Some(x)).push(None), outcomes) == (WorkerModel {
            state: WorkerState::Terminated,
            succeeded: w.succeeded + count_true(outcomes),
            failed: w.failed + count_true(outcomes.map_values(|b: bool| !b)),
            attempted: w.attempted + xs,
        }),
    decreases xs.len(),
{
    let msgs = xs.map_values(|x: Seq<char>| Some(x)).push(None);
    if xs.len() == 0 {
        assert(w.attempted + xs =~= w.attempted);
    } else {
        let r = receive_step(w, Some(msgs[0]));
        let next = fetched_step(r, outcomes[0]);
        let rest = xs.drop_first();
        assert(outcomes.drop_first().map_values(|b: bool| !b) =~= outcomes.map_values(|b: bool| !b).drop_first());
        lemma_worker_drains(next, rest, outcomes.drop_first());
        assert(msgs.drop_first() =~= rest.map_values(|x: Seq<char>| Some(x)).push(None));
        assert(next.attempted + rest =~= w.attempted + xs);
    }
}

/// The view of what a worker received, as `receive_step` takes it.
pub open spec fn received_view(msg: Option<WorkOrShutdown>) -> Option<Option<Seq<char>>> {
    match msg {
        Some(m) => Some(m@),
        None => None,
    }
}

/// The decisions of one worker: fetch each work item from its queue, count
/// every outcome, and stop at the shutdown signal or at a closed queue. The
/// runtime receives, fetches and reports back.
pub struct Worker {
    state: WorkerState,
    tally: Tally,
    attempted: Ghost<Seq<Seq<char>>>,
}

impl View for Worker {
    type V = WorkerModel;

    closed spec fn view(&self) -> WorkerModel {
        WorkerModel {
            state: self.state,
            succeeded: self.tally.succeeded as nat,
            failed: self.tally.failed as nat,
            attempted: self.attempted@,
        }
    }
}

impl Worker {
    /// A worker waiting for its first message.
    pub fn new() -> (r: Worker)
        ensures
            r@ == fresh_worker(),
    {
        Worker { state: WorkerState::Waiting, tally: Tally { succeeded: 0, failed: 0 }, attempted: Ghost(Seq::empty()) }
    }

    /// The worker's phase.
    pub fn state(&self) -> (r: WorkerState)
        ensures
            r == self@.state,
    {
        self.state
    }

    /// The worker's outcome counts so far.
    pub fn tally(&self) -> (r: Tally)
        ensures
            r.succeeded == self@.succeeded,
            r.failed == self@.failed,
    {
        self.tally
    }

    /// Takes what the queue gave: a work item is to be fetched, the shutdown
    /// signal or a closed queue (`None`) ends the worker.
    pub fn on_receive(&mut self, msg: Option<WorkOrShutdown>) -> (r: WorkerAction)
        requires
            old(self)@.state == WorkerState::Waiting,
        ensures
            final(self)@ == receive_step(old(self)@, received_view(msg)),
            r@ == match msg {
                Some(m) => m@,
                None => None,
            },
    {
        match msg {
            Some(WorkOrShutdown::Work(target)) => {
                self.state = WorkerState::Fetching;
                self.attempted = Ghost(self.attempted@.push(target@));
                WorkerAction::Fetch(target)
            },
            _ => {
                self.state = WorkerState::Terminated;
                WorkerAction::Stop
            },
        }
    }

    /// Counts the outcome of the fetch in progress, whatever it was, and waits
    /// for the next message.
    pub fn on_fetched(&mut self, succeeded: bool) -> (r: ())
        requires
            old(self)@.state == WorkerState::Fetching,
            old(self)@.succeeded + old(self)@.failed < u64::MAX,
        ensures
            final(self)@ == fetched_step(old(self)@, succeeded),
    {
        if succeeded {
            self.tally.succeeded = self.tally.succeeded + 1;
        } else {
            self.tally.failed = self.tally.failed + 1;
        }
        self.state = WorkerState::Waiting;
    }
}

} // verus!
