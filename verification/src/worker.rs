//! One worker walking its shard, and the join over all workers of a batch.
//!
//! A worker is a small state machine. While it is `Running`, the caller
//! performs the operation on the pending index and reports the result with
//! `advance`; the worker then moves to the next index, finishes, or stops at
//! the first failure. Workers of one batch run concurrently and share nothing.

use crate::command::{succeeded, ProcessOutcome, RunResult, SpawnError};
use crate::shard::Shard;
use vstd::prelude::*;

verus! {

/// Why a worker stopped before the end of its shard.
#[derive(Clone, Debug, PartialEq, Eq)]
pub enum ShardFailure {
    /// The operation on `index` could not be launched.
    Spawn { index: u32, error: SpawnError },
    /// The operation on `index` was launched and reported failure.
    Exit { index: u32 },
}

impl ShardFailure {
    /// The index of the operation that failed.
    pub fn index(&self) -> (index: u32)
        ensures
            index == match *self {
                ShardFailure::Spawn { index, .. } => index,
                ShardFailure::Exit { index } => index,
            },
    {
        match self {
            ShardFailure::Spawn { index, .. } => *index,
            ShardFailure::Exit { index } => *index,
        }
    }

    /// An equal failure of its own.
    pub fn duplicate(&self) -> (copy: ShardFailure)
        ensures
            copy == *self,
    {
        match self {
            ShardFailure::Spawn { index, error } => ShardFailure::Spawn {
                index: *index,
                error: error.duplicate(),
            },
            ShardFailure::Exit { index } => ShardFailure::Exit { index: *index },
        }
    }
}

/// The state of one worker.
#[derive(Clone, Debug, PartialEq, Eq)]
pub enum ShardWorker {
    /// The operation on `index` is due; the shard ends before `end`.
    Running { index: u32, end: u32 },
    /// Every operation of the shard succeeded.
    Finished,
    /// An operation failed; no later index was touched.
    Failed(ShardFailure),
}

/// The failure that a result other than success means for the operation on `index`.
pub open spec fn failure_of(index: u32, result: RunResult) -> ShardFailure {
    match result {
        Ok(_) => ShardFailure::Exit { index },
        Err(error) => ShardFailure::Spawn { index, error },
    }
}

/// The state of a worker that is about to handle `index` in a shard ending at `end`.
pub open spec fn at_index(index: int, end: u32) -> ShardWorker {
    if index < end {
        ShardWorker::Running { index: index as u32, end }
    } else {
        ShardWorker::Finished
    }
}

impl ShardWorker {
    /// A running worker's pending index lies inside its shard.
    pub open spec fn wf(self) -> bool {
        self matches ShardWorker::Running { index, end } ==> index < end
    }

    /// The state of a worker that has not yet touched its shard.
    pub open spec fn initial(shard: Shard) -> ShardWorker {
        at_index(shard.start as int, shard.end)
    }

    /// The state that follows when the pending operation ended with `result`.
    /// A worker that is not running stays as it is.
    pub open spec fn next(self, result: RunResult) -> ShardWorker {
        match self {
            ShardWorker::Running { index, end } => {
                if succeeded(result) {
                    at_index(index + 1, end)
                } else {
                    ShardWorker::Failed(failure_of(index, result))
                }
            },
            _ => self,
        }
    }

    /// The state after the results of `results` were reported one by one.
    pub open spec fn after(self, results: Seq<RunResult>) -> ShardWorker
        decreases results.len(),
    {
        if results.len() == 0 {
            self
        } else {
            self.after(results.drop_last()).next(results.last())
        }
    }

    /// The index whose operation is due, if the worker is running.
    pub open spec fn pending_spec(self) -> Option<u32> {
        match self {
            ShardWorker::Running { index, end } => Some(index),
            _ => None,
        }
    }

    /// Sets a worker on its shard. A worker with an empty shard is finished
    /// at once: there is no operation for it to invoke.
    pub fn start(shard: Shard) -> (worker: ShardWorker)
        ensures
            worker == ShardWorker::initial(shard),
            worker.wf(),
            shard.size() == 0 <==> worker == ShardWorker::Finished,
            shard.size() > 0 <==> worker.pending_spec() == Some(shard.start),
    {
        if shard.start < shard.end {
            ShardWorker::Running { index: shard.start, end: shard.end }
        } else {
            ShardWorker::Finished
        }
    }

    /// The index whose operation the caller has to perform next, if any.
    pub fn pending(&self) -> (index: Option<u32>)
        ensures
            index == self.pending_spec(),
    {
        match self {
            ShardWorker::Running { index, end } => Some(*index),
            _ => None,
        }
    }

    /// Takes note of how the pending operation ended.
    ///
    /// After a success the worker turns to the following index, or finishes
    /// at the end of its shard. Any other result stops it for good, with the
    /// index and the cause. Reporting to a worker that is not running changes
    /// nothing.
    pub fn advance(self, result: RunResult) -> (worker: ShardWorker)
        ensures
            worker == self.next(result),
            self.wf() ==> worker.wf(),
    {
        match self {
            ShardWorker::Running { index, end } => {
                match result {
                    Ok(outcome) => {
                        if outcome.success {
                            if index < end && end - index > 1 {
                                ShardWorker::Running { index: index + 1, end }
                            } else {
                                ShardWorker::Finished
                            }
                        } else {
                            ShardWorker::Failed(ShardFailure::Exit { index })
                        }
                    },
                    Err(error) => ShardWorker::Failed(ShardFailure::Spawn { index, error }),
                }
            },
            ShardWorker::Finished => ShardWorker::Finished,
            ShardWorker::Failed(failure) => ShardWorker::Failed(failure),
        }
    }
}

/// A worker that is not running ignores whatever is reported to it.
pub proof fn lemma_stopped_stays(worker: ShardWorker, results: Seq<RunResult>)
    requires
        worker.pending_spec() is None,
    ensures
        worker.after(results) == worker,
    decreases results.len(),
{
    if results.len() > 0 {
        lemma_stopped_stays(worker, results.drop_last());
    }
}

/// A worker whose shard is empty never has an operation pending, whatever is
/// reported to it: nothing is invoked for an empty shard.
pub proof fn lemma_idle_worker_invokes_nothing(shard: Shard, results: Seq<RunResult>)
    requires
        shard.size() == 0,
    ensures
        ShardWorker::initial(shard).after(results) == ShardWorker::Finished,
        ShardWorker::initial(shard).after(results).pending_spec() is None,
{
    lemma_stopped_stays(ShardWorker::initial(shard), results);
}

/// As long as every result is a success, a worker visits the indices of its
/// shard one by one in increasing order: after `n` successes the pending
/// index is `start + n`, and after as many successes as the shard has
/// indices the worker is finished.
pub proof fn lemma_worker_walks_in_order(shard: Shard, results: Seq<RunResult>)
    requires
        forall|j: int| 0 <= j < results.len() ==> succeeded(#[trigger] results[j]),
    ensures
        results.len() < shard.size() ==> ShardWorker::initial(shard).after(results)
            == (ShardWorker::Running { index: (shard.start + results.len()) as u32, end: shard.end }),
        results.len() >= shard.size() ==> ShardWorker::initial(shard).after(results)
            == ShardWorker::Finished,
    decreases results.len(),
{
    if results.len() > 0 {
        let earlier = results.drop_last();
        assert forall|j: int| 0 <= j < earlier.len() implies succeeded(#[trigger] earlier[j]) by {
            assert(earlier[j] == results[j]);
        }
        lemma_worker_walks_in_order(shard, earlier);
        assert(succeeded(results[results.len() - 1]));
    }
}

/// `n` successful results.
pub open spec fn successes(n: nat) -> Seq<RunResult> {
    Seq::new(n, |j: int| Ok::<ProcessOutcome, SpawnError>(ProcessOutcome { success: true }))
}

/// Whether a worker on `shard` comes to the operation on index `i` when
/// everything before it succeeds.
pub open spec fn visits(shard: Shard, i: u32) -> bool {
    exists|n: nat| #[trigger]
        ShardWorker::initial(shard).after(successes(n)).pending_spec() == Some(i)
}

/// A worker comes to exactly the indices of its own shard. Together with
/// the exactness of the partition this means that, in a batch without
/// failures, the operation on every index below the count is invoked by one
/// worker and by no other.
pub proof fn lemma_worker_visits_its_shard(shard: Shard, i: u32)
    ensures
        visits(shard, i) <==> shard.holds(i as int),
{
    if shard.holds(i as int) {
        let n = (i - shard.start) as nat;
        lemma_worker_walks_in_order(shard, successes(n));
        assert(ShardWorker::initial(shard).after(successes(n)).pending_spec() == Some(i));
    }
    if visits(shard, i) {
        let n = choose|n: nat| #[trigger]
            ShardWorker::initial(shard).after(successes(n)).pending_spec() == Some(i);
        lemma_worker_walks_in_order(shard, successes(n));
    }
}

/// A worker stops at the first result that is not a success: it reports the
/// index of that operation, which is `start` plus the number of successes
/// before it, and whatever is reported later is ignored.
pub proof fn lemma_worker_stops_at_first_failure(shard: Shard, results: Seq<RunResult>, k: int)
    requires
        0 <= k < results.len(),
        k < shard.size(),
        forall|j: int| 0 <= j < k ==> succeeded(#[trigger] results[j]),
        !succeeded(results[k]),
    ensures
        ShardWorker::initial(shard).after(results) == ShardWorker::Failed(
            failure_of((shard.start + k) as u32, results[k]),
        ),
    decreases results.len(),
{
    let earlier = results.drop_last();
    if k == results.len() - 1 {
        assert forall|j: int| 0 <= j < earlier.len() implies succeeded(#[trigger] earlier[j]) by {
            assert(earlier[j] == results[j]);
        }
        lemma_worker_walks_in_order(shard, earlier);
    } else {
        assert(earlier[k] == results[k]);
        assert forall|j: int| 0 <= j < k implies succeeded(#[trigger] earlier[j]) by {
            assert(earlier[j] == results[j]);
        }
        lemma_worker_stops_at_first_failure(shard, earlier, k);
    }
}

/// How a worker's task ended, as seen by the one who waits for it.
#[derive(Clone, Debug, PartialEq, Eq)]
pub enum WorkerReport {
    /// The worker came to the end of its shard.
    Finished,
    /// The worker stopped at a failed operation.
    Failed(ShardFailure),
    /// The worker's task itself broke down; the text says how.
    Crashed(String),
}

/// Why a batch as a whole failed.
#[derive(Clone, Debug, PartialEq, Eq)]
pub enum BatchError {
    /// A worker stopped at a failed operation.
    Worker(ShardFailure),
    /// A worker's task broke down.
    Crashed(String),
}

/// The batch error that a report other than `Finished` stands for.
pub open spec fn error_of(report: WorkerReport) -> BatchError {
    match report {
        WorkerReport::Failed(failure) => BatchError::Worker(failure),
        WorkerReport::Crashed(text) => BatchError::Crashed(text),
        WorkerReport::Finished => arbitrary(),
    }
}

/// Position of the first report that is not `Finished`, or the length of
/// `reports` if there is none.
pub open spec fn first_unfinished(reports: Seq<WorkerReport>) -> int
    decreases reports.len(),
{
    if reports.len() == 0 {
        0
    } else if reports[0] != WorkerReport::Finished {
        0
    } else {
        1 + first_unfinished(reports.drop_first())
    }
}

/// `first_unfinished` is the least position of a report that is not `Finished`.
pub proof fn lemma_first_unfinished(reports: Seq<WorkerReport>)
    ensures
        0 <= first_unfinished(reports) <= reports.len(),
        forall|j: int|
            0 <= j < first_unfinished(reports) ==> #[trigger] reports[j] == WorkerReport::Finished,
        first_unfinished(reports) < reports.len() ==> reports[first_unfinished(reports)]
            != WorkerReport::Finished,
    decreases reports.len(),
{
    if reports.len() > 0 && reports[0] == WorkerReport::Finished {
        let rest = reports.drop_first();
        lemma_first_unfinished(rest);
        assert forall|j: int| 0 <= j < first_unfinished(reports) implies #[trigger] reports[j]
            == WorkerReport::Finished by {
            if j > 0 {
                assert(reports[j] == rest[j - 1]);
            }
        }
        if first_unfinished(reports) < reports.len() {
            assert(reports[first_unfinished(reports)] == rest[first_unfinished(rest)]);
        }
    }
}

/// What a batch comes to, given the reports of its workers in the order in
/// which they came in: success if every worker finished, and otherwise the
/// first failure that was reported.
pub open spec fn join_spec(reports: Seq<WorkerReport>) -> Result<(), BatchError> {
    if first_unfinished(reports) == reports.len() {
        Ok(())
    } else {
        Err(error_of(reports[first_unfinished(reports)]))
    }
}

/// Decides what a batch comes to, given the reports of all its workers in
/// the order in which they came in. The batch succeeded if every worker
/// finished; otherwise it fails with the first failure that was reported,
/// and later reports are dropped.
pub fn join_reports(reports: &Vec<WorkerReport>) -> (r: Result<(), BatchError>)
    ensures
        r == join_spec(reports@),
        r is Ok <==> forall|j: int|
            0 <= j < reports.len() ==> #[trigger] reports[j] == WorkerReport::Finished,
{
    proof {
        lemma_first_unfinished(reports@);
    }
    let mut i: usize = 0;
    while i < reports.len()
        invariant
            i <= reports.len(),
            forall|j: int| 0 <= j < i ==> #[trigger] reports[j] == WorkerReport::Finished,
        decreases reports.len() - i,
    {
        match &reports[i] {
            WorkerReport::Finished => {},
            WorkerReport::Failed(failure) => {
                proof {
                    lemma_first_at(reports@, i as int);
                }
                return Err(BatchError::Worker(failure.duplicate()));
            },
            WorkerReport::Crashed(text) => {
                proof {
                    lemma_first_at(reports@, i as int);
                }
                return Err(BatchError::Crashed(text.clone()));
            },
        }
        i = i + 1;
    }
    proof {
        if first_unfinished(reports@) < reports.len() {
            assert(reports[first_unfinished(reports@)] == WorkerReport::Finished);
        }
    }
    Ok(())
}

/// The barrier at the end of a batch: it takes the reports of the workers
/// as they come in, and has no outcome before the last worker has reported.
#[derive(Clone, Debug, PartialEq, Eq)]
pub struct BatchJoin {
    /// Number of workers that were started.
    pub workers: usize,
    /// The reports so far, in the order in which they came in.
    pub reports: Vec<WorkerReport>,
}

impl BatchJoin {
    /// The outcome of the batch, once every worker has reported.
    pub open spec fn outcome_spec(self) -> Option<Result<(), BatchError>> {
        if self.reports@.len() < self.workers {
            None
        } else {
            Some(join_spec(self.reports@))
        }
    }

    /// A barrier for `workers` workers, none of which has reported yet.
    pub fn new(workers: usize) -> (join: BatchJoin)
        ensures
            join.workers == workers,
            join.reports@ == Seq::<WorkerReport>::empty(),
    {
        BatchJoin { workers, reports: Vec::new() }
    }

    /// Takes in the report of one more worker.
    pub fn arrive(&mut self, report: WorkerReport)
        ensures
            final(self).workers == old(self).workers,
            final(self).reports@ == old(self).reports@.push(report),
    {
        self.reports.push(report);
    }

    /// Number of workers that have not reported yet.
    pub fn outstanding(&self) -> (n: usize)
        ensures
            n == if self.reports@.len() < self.workers {
                self.workers - self.reports@.len()
            } else {
                0
            },
    {
        if self.reports.len() < self.workers {
            self.workers - self.reports.len()
        } else {
            0
        }
    }

    /// The outcome of the batch: none while workers are outstanding, then
    /// what `join_reports` decides on the reports that came in.
    pub fn outcome(&self) -> (r: Option<Result<(), BatchError>>)
        ensures
            r == self.outcome_spec(),
            r is None <==> self.reports@.len() < self.workers,
    {
        if self.reports.len() < self.workers {
            None
        } else {
            Some(join_reports(&self.reports))
        }
    }
}

/// A position whose report is not `Finished`, with only `Finished` before it, is the first such.
proof fn lemma_first_at(reports: Seq<WorkerReport>, k: int)
    requires
        0 <= k < reports.len(),
        reports[k] != WorkerReport::Finished,
        forall|j: int| 0 <= j < k ==> #[trigger] reports[j] == WorkerReport::Finished,
    ensures
        first_unfinished(reports) == k,
{
    lemma_first_unfinished(reports);
    let f = first_unfinished(reports);
    if f < k {
        assert(reports[f] == WorkerReport::Finished);
    }
    if f > k {
        assert(reports[k] == WorkerReport::Finished);
    }
}

impl ShardWorker {
    /// What a worker that has come to rest reports to the one who waits for
    /// it. A worker that is still running has nothing to report.
    pub fn report(self) -> (r: Option<WorkerReport>)
        ensures
            r == match self {
                ShardWorker::Running { .. } => None::<WorkerReport>,
                ShardWorker::Finished => Some(WorkerReport::Finished),
                ShardWorker::Failed(failure) => Some(WorkerReport::Failed(failure)),
            },
    {
        match self {
            ShardWorker::Running { .. } => None,
            ShardWorker::Finished => Some(WorkerReport::Finished),
            ShardWorker::Failed(failure) => Some(WorkerReport::Failed(failure)),
        }
    }
}

} // verus!
