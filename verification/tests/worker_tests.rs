use bench_harness::command::{ProcessOutcome, RunResult, SpawnError};
use bench_harness::shard::Shard;
use bench_harness::worker::{
    join_reports, BatchError, BatchJoin, ShardFailure, ShardWorker, WorkerReport,
};

fn ok() -> RunResult {
    Ok(ProcessOutcome { success: true })
}

fn exit_failure() -> RunResult {
    Ok(ProcessOutcome { success: false })
}

fn spawn_failure() -> SpawnError {
    SpawnError { program: "convert".to_string(), cause: "No such file or directory".to_string() }
}

fn drive(shard: Shard, mut op: impl FnMut(u32) -> RunResult) -> (Vec<u32>, ShardWorker) {
    let mut visited = Vec::new();
    let mut worker = ShardWorker::start(shard);
    while let Some(index) = worker.pending() {
        visited.push(index);
        worker = worker.advance(op(index));
    }
    (visited, worker)
}

#[test]
fn a_worker_visits_its_shard_in_increasing_order() {
    let (visited, worker) = drive(Shard { start: 6, end: 10 }, |_| ok());
    assert_eq!(visited, vec![6, 7, 8, 9]);
    assert_eq!(worker, ShardWorker::Finished);
    assert_eq!(worker.report(), Some(WorkerReport::Finished));
}

#[test]
fn a_worker_with_an_empty_shard_invokes_nothing() {
    let (visited, worker) = drive(Shard { start: 0, end: 0 }, |_| panic!("nothing to invoke"));
    assert!(visited.is_empty());
    assert_eq!(worker, ShardWorker::Finished);
    let (visited, _) = drive(Shard { start: 9, end: 3 }, |_| panic!("nothing to invoke"));
    assert!(visited.is_empty());
}

#[test]
fn a_worker_stops_at_the_first_failed_operation() {
    let (visited, worker) =
        drive(Shard { start: 2, end: 8 }, |i| if i == 4 { exit_failure() } else { ok() });
    assert_eq!(visited, vec![2, 3, 4]);
    assert_eq!(worker, ShardWorker::Failed(ShardFailure::Exit { index: 4 }));
    assert_eq!(
        worker.report(),
        Some(WorkerReport::Failed(ShardFailure::Exit { index: 4 }))
    );
}

#[test]
fn a_worker_stops_when_the_program_cannot_be_launched() {
    let (visited, worker) = drive(Shard { start: 0, end: 3 }, |_| Err(spawn_failure()));
    assert_eq!(visited, vec![0]);
    let expected = ShardFailure::Spawn { index: 0, error: spawn_failure() };
    assert_eq!(expected.index(), 0);
    assert_eq!(expected.duplicate(), expected);
    assert_eq!(worker, ShardWorker::Failed(expected));
}

#[test]
fn a_worker_at_rest_ignores_further_results() {
    let finished = ShardWorker::Finished.advance(exit_failure());
    assert_eq!(finished, ShardWorker::Finished);
    let failed = ShardWorker::Failed(ShardFailure::Exit { index: 1 });
    assert_eq!(failed.clone().advance(ok()), failed);
}

#[test]
fn a_running_worker_has_nothing_to_report() {
    let worker = ShardWorker::start(Shard { start: 0, end: 2 });
    assert_eq!(worker, ShardWorker::Running { index: 0, end: 2 });
    assert_eq!(worker.report(), None);
}

#[test]
fn the_last_index_of_a_shard_ending_at_the_limit() {
    let worker = ShardWorker::start(Shard { start: u32::MAX - 1, end: u32::MAX });
    assert_eq!(worker.pending(), Some(u32::MAX - 1));
    assert_eq!(worker.advance(ok()), ShardWorker::Finished);
}

#[test]
fn a_batch_succeeds_when_every_worker_finished() {
    let reports = vec![WorkerReport::Finished; 4];
    assert_eq!(join_reports(&reports), Ok(()));
    assert_eq!(join_reports(&Vec::new()), Ok(()));
}

#[test]
fn a_batch_fails_with_the_first_failure_reported() {
    let reports = vec![
        WorkerReport::Finished,
        WorkerReport::Failed(ShardFailure::Exit { index: 7 }),
        WorkerReport::Finished,
        WorkerReport::Failed(ShardFailure::Exit { index: 1 }),
    ];
    assert_eq!(join_reports(&reports), Err(BatchError::Worker(ShardFailure::Exit { index: 7 })));
}

#[test]
fn a_batch_fails_when_a_worker_broke_down() {
    let reports = vec![
        WorkerReport::Crashed("task panicked".to_string()),
        WorkerReport::Failed(ShardFailure::Spawn { index: 0, error: spawn_failure() }),
    ];
    assert_eq!(join_reports(&reports), Err(BatchError::Crashed("task panicked".to_string())));
    let reports = vec![
        WorkerReport::Failed(ShardFailure::Spawn { index: 3, error: spawn_failure() }),
        WorkerReport::Crashed("task panicked".to_string()),
    ];
    assert_eq!(
        join_reports(&reports),
        Err(BatchError::Worker(ShardFailure::Spawn { index: 3, error: spawn_failure() }))
    );
}

#[test]
fn a_batch_has_no_outcome_before_the_last_worker_reported() {
    let mut join = BatchJoin::new(4);
    assert_eq!(join.outcome(), None);
    assert_eq!(join.outstanding(), 4);
    join.arrive(WorkerReport::Finished);
    join.arrive(WorkerReport::Failed(ShardFailure::Exit { index: 5 }));
    join.arrive(WorkerReport::Finished);
    assert_eq!(join.outcome(), None);
    assert_eq!(join.outstanding(), 1);
    join.arrive(WorkerReport::Failed(ShardFailure::Exit { index: 2 }));
    assert_eq!(join.outstanding(), 0);
    assert_eq!(
        join.outcome(),
        Some(Err(BatchError::Worker(ShardFailure::Exit { index: 5 })))
    );
}

#[test]
fn a_batch_of_finished_workers_succeeds_at_the_barrier() {
    let mut join = BatchJoin::new(2);
    join.arrive(WorkerReport::Finished);
    join.arrive(WorkerReport::Finished);
    assert_eq!(join.outcome(), Some(Ok(())));
    assert_eq!(BatchJoin::new(0).outcome(), Some(Ok(())));
}
