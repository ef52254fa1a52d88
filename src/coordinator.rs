use vstd::prelude::*;
use crate::dispatch::{
    assigned_count, lemma_queue_receives_plan, lemma_round_robin, queue_plan, queue_stream,
    DispatchError,
};
use crate::worker::{count_true, fresh_worker, lemma_worker_drains, run_queue, Tally, WorkerModel, WorkerState};

verus! {

/// The sizes of a pipeline run: how many workers, and how many messages each
/// worker's queue holds before the dispatcher has to wait.
#[derive(Debug, Clone, Copy, PartialEq, Eq, Structural)]
pub struct PipelineConfig {
    pub pool_size: usize,
    pub queue_capacity: usize,
}

/// A pipeline configuration that cannot run.
#[derive(Debug, Clone, Copy, PartialEq, Eq, Structural)]
pub enum ConfigError {
    /// No workers.
    ZeroPoolSize,
    /// Queues that hold nothing would never let a message through.
    ZeroQueueCapacity,
}

impl PipelineConfig {
    /// A configuration of `pool_size` workers with queues of
    /// `queue_capacity`; both must be at least one.
    pub fn new(pool_size: usize, queue_capacity: usize) -> (r: Result<PipelineConfig, ConfigError>)
        ensures
            pool_size == 0 ==> r == Err::<PipelineConfig, ConfigError>(ConfigError::ZeroPoolSize),
            pool_size > 0 && queue_capacity == 0 ==> r == Err::<PipelineConfig, ConfigError>(
                ConfigError::ZeroQueueCapacity,
            ),
            pool_size > 0 && queue_capacity > 0 ==> r == Ok::<PipelineConfig, ConfigError>(
                (PipelineConfig { pool_size, queue_capacity }),
            ),
    {
        if pool_size == 0 {
            Err(ConfigError::ZeroPoolSize)
        } else if queue_capacity == 0 {
            Err(ConfigError::ZeroQueueCapacity)
        } else {
            Ok(PipelineConfig { pool_size, queue_capacity })
        }
    }
}

/// The outcome counts of a whole run.
#[derive(Debug, Clone, Copy, PartialEq, Eq, Structural)]
pub struct Summary {
    pub succeeded: u64,
    pub failed: u64,
}

/// A fatal error of a run.
#[derive(Debug, Clone, Copy, PartialEq, Eq, Structural)]
pub enum PipelineError {
    /// The dispatcher could not deliver to a queue whose worker was gone.
    Dispatch(DispatchError),
    /// This worker ended abnormally instead of terminating.
    WorkerCrash { worker: usize },
}

/// Successes counted by the workers that finished.
pub open spec fn total_succeeded(ws: Seq<Option<Tally>>) -> nat
    decreases ws.len(),
{
    if ws.len() == 0 {
        0
    } else {
        total_succeeded(ws.drop_last()) + match ws.last() {
            Some(t) => t.succeeded as nat,
            None => 0,
        }
    }
}

/// Failures counted by the workers that finished.
pub open spec fn total_failed(ws: Seq<Option<Tally>>) -> nat
    decreases ws.len(),
{
    if ws.len() == 0 {
        0
    } else {
        total_failed(ws.drop_last()) + match ws.last() {
            Some(t) => t.failed as nat,
            None => 0,
        }
    }
}

/// The first worker that did not finish, if any.
pub open spec fn first_crash(ws: Seq<Option<Tally>>, w: int) -> bool {
    &&& 0 <= w < ws.len()
    &&& ws[w] is None
    &&& forall|j: int| 0 <= j < w ==> ws[j] is Some
}

proof fn lemma_totals_prefix(ws: Seq<Option<Tally>>, i: int)
    requires
        0 <= i <= ws.len(),
    ensures
        total_succeeded(ws.subrange(0, i)) <= total_succeeded(ws),
        total_failed(ws.subrange(0, i)) <= total_failed(ws),
    decreases ws.len() - i,
{
    if i < ws.len() {
        lemma_totals_prefix(ws, i + 1);
        assert(ws.subrange(0, i + 1).drop_last() =~= ws.subrange(0, i));
    } else {
        assert(ws.subrange(0, i) =~= ws);
    }
}

/// Joins a run: the dispatcher's result and, for each worker, its tally if it
/// terminated normally or `None` if it crashed. A dispatch failure comes
/// first, then the first crashed worker; otherwise the counts are summed.
pub fn finish(dispatch: Result<(), DispatchError>, workers: &Vec<Option<Tally>>) -> (r: Result<Summary, PipelineError>)
    requires
        total_succeeded(workers@) <= u64::MAX,
        total_failed(workers@) <= u64::MAX,
    ensures
        match dispatch {
            Err(e) => r == Err::<Summary, PipelineError>(PipelineError::Dispatch(e)),
            Ok(_) => match r {
                Err(PipelineError::WorkerCrash { worker }) => first_crash(workers@, worker as int),
                Err(PipelineError::Dispatch(_)) => false,
                Ok(s) => (forall|j: int| 0 <= j < workers@.len() ==> workers@[j] is Some)
                    && s.succeeded == total_succeeded(workers@) && s.failed == total_failed(
                    workers@,
                ),
            },
        },
{
    if let Err(e) = dispatch {
        return Err(PipelineError::Dispatch(e));
    }
    let mut succeeded: u64 = 0;
    let mut failed: u64 = 0;
    let mut i: usize = 0;
    while i < workers.len()
        invariant
            dispatch is Ok,
            0 <= i <= workers@.len(),
            total_succeeded(workers@) <= u64::MAX,
            total_failed(workers@) <= u64::MAX,
            forall|j: int| 0 <= j < i ==> workers@[j] is Some,
            succeeded == total_succeeded(workers@.subrange(0, i as int)),
            failed == total_failed(workers@.subrange(0, i as int)),
        decreases workers@.len() - i,
    {
        match workers[i] {
            None => {
                return Err(PipelineError::WorkerCrash { worker: i });
            },
            Some(t) => {
                proof {
                    lemma_totals_prefix(workers@, i + 1);
                    assert(workers@.subrange(0, i + 1).drop_last() =~= workers@.subrange(0, i as int));
                }
                succeeded = succeeded + t.succeeded;
                failed = failed + t.failed;
            },
        }
        i = i + 1;
    }
    proof {
        assert(workers@.subrange(0, i as int) =~= workers@);
    }
    Ok(Summary { succeeded, failed })
}

/// The share of `items` that queue `q` of `k` carries, in order.
pub open spec fn share(items: Seq<Seq<char>>, k: int, q: int) -> Seq<Seq<char>> {
    Seq::new(assigned_count(items.len() as int, k, q) as nat, |j: int| items[q + j * k])
}

/// The worker of queue `q` after it has taken every message of a whole
/// dispatch, its fetches ending as `outcomes`.
pub open spec fn worker_after_dispatch(items: Seq<Seq<char>>, k: int, q: int, outcomes: Seq<bool>) -> WorkerModel {
    run_queue(fresh_worker(), queue_stream(items, k, q, (items.len() + k) as nat), outcomes)
}

/// Over a whole dispatch, whatever each fetch comes to, every worker
/// terminates, having fetched exactly its share of the items in order and
/// counted one outcome for each; so every item is fetched, by the worker of
/// its round-robin queue, however many other fetches failed.
pub proof fn lemma_every_item_fetched(items: Seq<Seq<char>>, k: int, outcomes: Seq<Seq<bool>>)
    requires
        k >= 1,
        outcomes.len() == k,
        forall|q: int|
            0 <= q < k ==> #[trigger] outcomes[q].len() == assigned_count(items.len() as int, k, q),
    ensures
        forall|q: int|
            0 <= q < k ==> #[trigger] worker_after_dispatch(items, k, q, outcomes[q]) == (WorkerModel {
                state: WorkerState::Terminated,
                succeeded: count_true(outcomes[q]),
                failed: count_true(outcomes[q].map_values(|b: bool| !b)),
                attempted: share(items, k, q),
            }),
        forall|i: int|
            0 <= i < items.len() ==> #[trigger] worker_after_dispatch(
                items,
                k,
                i % k,
                outcomes[i % k],
            ).attempted[i / k] == items[i],
{
    assert forall|q: int| 0 <= q < k implies #[trigger] worker_after_dispatch(items, k, q, outcomes[q]) == (
    WorkerModel {
        state: WorkerState::Terminated,
        succeeded: count_true(outcomes[q]),
        failed: count_true(outcomes[q].map_values(|b: bool| !b)),
        attempted: share(items, k, q),
    }) by {
        lemma_queue_receives_plan(items, k, q);
        let xs = share(items, k, q);
        assert(queue_plan(items, k, q) =~= xs.map_values(|x: Seq<char>| Some(x)).push(None));
        lemma_worker_drains(fresh_worker(), xs, outcomes[q]);
        assert(fresh_worker().attempted + xs =~= xs);
    }
    assert forall|i: int| 0 <= i < items.len() implies #[trigger] worker_after_dispatch(
        items,
        k,
        i % k,
        outcomes[i % k],
    ).attempted[i / k] == items[i] by {
        lemma_round_robin(items, k, i);
        assert(0 <= i % k < k) by (nonlinear_arith)
            requires
                k >= 1,
        ;
    }
}

} // verus!
