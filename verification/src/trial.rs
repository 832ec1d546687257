//! Running a configured number of trials strictly one after another.
//!
//! Each trial goes through three steps: the timed operation is measured, its
//! record is handed to the sink, and its artifacts are removed. The caller
//! performs the step that is due and reports whether it succeeded. The next
//! trial starts only when all three steps of the previous one succeeded; the
//! first failure aborts the whole run.

use vstd::prelude::*;

verus! {

/// A step of one trial.
#[derive(Clone, Copy, Debug, PartialEq, Eq, Structural)]
pub enum TrialStep {
    /// Perform and time the operation.
    Measure,
    /// Hand the trial's record to the sink.
    Record,
    /// Remove what the trial left on disk.
    Cleanup,
}

/// The state of a run of trials. Trials are numbered from 1.
#[derive(Clone, Copy, Debug, PartialEq, Eq, Structural)]
pub enum TrialRunner {
    /// `step` of trial number `trial` is due, out of `repeat` trials.
    Running { trial: u32, repeat: u32, step: TrialStep },
    /// All `trials` trials were measured, recorded and cleaned up.
    Finished { trials: u32 },
    /// `step` of trial number `trial` failed; nothing was done after it.
    Aborted { trial: u32, step: TrialStep },
}

/// Position of a step within its trial: 0, 1 or 2.
pub open spec fn step_rank(step: TrialStep) -> int {
    match step {
        TrialStep::Measure => 0,
        TrialStep::Record => 1,
        TrialStep::Cleanup => 2,
    }
}

/// The step at position `rank` within a trial.
pub open spec fn step_at(rank: int) -> TrialStep {
    if rank == 0 {
        TrialStep::Measure
    } else if rank == 1 {
        TrialStep::Record
    } else {
        TrialStep::Cleanup
    }
}

/// The state of a run of `repeat` trials in which `done` steps have succeeded
/// and none has failed.
pub open spec fn after_steps(repeat: u32, done: int) -> TrialRunner {
    if done >= 3 * repeat {
        TrialRunner::Finished { trials: repeat }
    } else {
        TrialRunner::Running { trial: (done / 3 + 1) as u32, repeat, step: step_at(done % 3) }
    }
}

/// How many trials have been recorded when `step` of trial `trial` is due or
/// has failed: the trials before it, and `trial` itself once it is past recording.
pub open spec fn recorded_at(trial: u32, step: TrialStep) -> nat {
    if step == TrialStep::Cleanup {
        trial as nat
    } else if trial >= 1 {
        (trial - 1) as nat
    } else {
        0
    }
}

fn recorded_before(trial: u32, step: TrialStep) -> (n: u32)
    ensures
        n == recorded_at(trial, step),
{
    match step {
        TrialStep::Cleanup => trial,
        _ => if trial >= 1 {
            trial - 1
        } else {
            0
        },
    }
}

impl TrialRunner {
    /// A running trial has a number between 1 and the repeat count.
    pub open spec fn wf(self) -> bool {
        self matches TrialRunner::Running { trial, repeat, step } ==> 1 <= trial <= repeat
    }

    /// The state before anything was done.
    pub open spec fn initial(repeat: u32) -> TrialRunner {
        after_steps(repeat, 0)
    }

    /// The state that follows when the step that was due succeeded or failed.
    /// A run that is over stays as it is.
    pub open spec fn next(self, succeeded: bool) -> TrialRunner {
        match self {
            TrialRunner::Running { trial, repeat, step } => {
                if !succeeded {
                    TrialRunner::Aborted { trial, step }
                } else if step != TrialStep::Cleanup {
                    TrialRunner::Running { trial, repeat, step: step_at(step_rank(step) + 1) }
                } else if trial < repeat {
                    TrialRunner::Running { trial: (trial + 1) as u32, repeat, step: TrialStep::Measure }
                } else {
                    TrialRunner::Finished { trials: repeat }
                }
            },
            _ => self,
        }
    }

    /// The state after the outcomes of `outcomes` were reported one by one.
    pub open spec fn after(self, outcomes: Seq<bool>) -> TrialRunner
        decreases outcomes.len(),
    {
        if outcomes.len() == 0 {
            self
        } else {
            self.after(outcomes.drop_last()).next(outcomes.last())
        }
    }

    /// The trial and step that are due, while the run is going on.
    pub open spec fn due_spec(self) -> Option<(u32, TrialStep)> {
        match self {
            TrialRunner::Running { trial, repeat, step } => Some((trial, step)),
            _ => None,
        }
    }

    /// How many trials have handed their record to the sink.
    pub open spec fn recorded_spec(self) -> nat {
        match self {
            TrialRunner::Running { trial, repeat, step } => recorded_at(trial, step),
            TrialRunner::Finished { trials } => trials as nat,
            TrialRunner::Aborted { trial, step } => recorded_at(trial, step),
        }
    }

    /// Begins a run of `repeat` trials. The first thing due is the measuring
    /// of trial 1; a run of no trials is finished before it starts.
    pub fn start(repeat: u32) -> (runner: TrialRunner)
        ensures
            runner == TrialRunner::initial(repeat),
            runner.wf(),
            repeat >= 1 ==> runner.due_spec() == Some((1u32, TrialStep::Measure)),
            repeat == 0 ==> runner == (TrialRunner::Finished { trials: 0 }),
    {
        if repeat == 0 {
            TrialRunner::Finished { trials: 0 }
        } else {
            TrialRunner::Running { trial: 1, repeat, step: TrialStep::Measure }
        }
    }

    /// The trial number and the step that the caller has to perform next, if any.
    pub fn due(&self) -> (d: Option<(u32, TrialStep)>)
        ensures
            d == self.due_spec(),
    {
        match self {
            TrialRunner::Running { trial, repeat, step } => Some((*trial, *step)),
            _ => None,
        }
    }

    /// How many trials have handed their record to the sink so far.
    pub fn recorded(&self) -> (n: u32)
        ensures
            n == self.recorded_spec(),
    {
        match self {
            TrialRunner::Running { trial, repeat, step } => recorded_before(*trial, *step),
            TrialRunner::Finished { trials } => *trials,
            TrialRunner::Aborted { trial, step } => recorded_before(*trial, *step),
        }
    }

    /// Takes note of whether the step that was due succeeded.
    ///
    /// After a success the following step of the same trial is due, or the
    /// measuring of the next trial, or the run is finished. A failure aborts
    /// the run at that trial and step. Reporting to a run that is over
    /// changes nothing.
    pub fn advance(self, succeeded: bool) -> (runner: TrialRunner)
        ensures
            runner == self.next(succeeded),
            self.wf() ==> runner.wf(),
    {
        match self {
            TrialRunner::Running { trial, repeat, step } => {
                if !succeeded {
                    TrialRunner::Aborted { trial, step }
                } else {
                    match step {
                        TrialStep::Measure => TrialRunner::Running {
                            trial,
                            repeat,
                            step: TrialStep::Record,
                        },
                        TrialStep::Record => TrialRunner::Running {
                            trial,
                            repeat,
                            step: TrialStep::Cleanup,
                        },
                        TrialStep::Cleanup => {
                            if trial < repeat {
                                TrialRunner::Running {
                                    trial: trial + 1,
                                    repeat,
                                    step: TrialStep::Measure,
                                }
                            } else {
                                TrialRunner::Finished { trials: repeat }
                            }
                        },
                    }
                }
            },
            other => other,
        }
    }
}

/// A run that is over ignores whatever is reported to it.
pub proof fn lemma_over_stays(runner: TrialRunner, outcomes: Seq<bool>)
    requires
        runner.due_spec() is None,
    ensures
        runner.after(outcomes) == runner,
    decreases outcomes.len(),
{
    if outcomes.len() > 0 {
        lemma_over_stays(runner, outcomes.drop_last());
    }
}

/// One more success leads from `done` successful steps to `done + 1`.
proof fn lemma_next_success(repeat: u32, done: int)
    requires
        0 <= done < 3 * repeat,
    ensures
        after_steps(repeat, done).next(true) == after_steps(repeat, done + 1),
{
    let trial = done / 3 + 1;
    let rank = done % 3;
    assert(done == 3 * (trial - 1) + rank);
    if rank == 2 {
        assert((done + 1) / 3 == trial && (done + 1) % 3 == 0);
    } else {
        assert((done + 1) / 3 == trial - 1 && (done + 1) % 3 == rank + 1);
    }
}

/// While every step succeeds, the steps come in the order measure, record,
/// clean up for trial 1, then the same for trial 2, and so on: after `n`
/// successes, step `n mod 3` of trial `n / 3 + 1` is due, and after three
/// times `repeat` successes the run is finished.
pub proof fn lemma_trials_in_sequence(repeat: u32, outcomes: Seq<bool>)
    requires
        forall|j: int| 0 <= j < outcomes.len() ==> #[trigger] outcomes[j],
    ensures
        TrialRunner::initial(repeat).after(outcomes) == after_steps(repeat, outcomes.len() as int),
    decreases outcomes.len(),
{
    if outcomes.len() > 0 {
        let earlier = outcomes.drop_last();
        assert forall|j: int| 0 <= j < earlier.len() implies #[trigger] earlier[j] by {
            assert(earlier[j] == outcomes[j]);
        }
        lemma_trials_in_sequence(repeat, earlier);
        assert(outcomes[outcomes.len() - 1]);
        if earlier.len() < 3 * repeat {
            lemma_next_success(repeat, earlier.len() as int);
        }
    }
}

/// The first failure aborts the run: if step `step` of trial `trial` is the
/// first one to fail, the run ends as aborted at exactly that trial and step,
/// whatever is reported afterwards. The trials that were recorded are those
/// before `trial`, and `trial` itself only if it failed while cleaning up.
pub proof fn lemma_first_failure_aborts(
    repeat: u32,
    outcomes: Seq<bool>,
    trial: u32,
    step: TrialStep,
)
    requires
        1 <= trial <= repeat,
        3 * (trial - 1) + step_rank(step) < outcomes.len(),
        forall|j: int| 0 <= j < 3 * (trial - 1) + step_rank(step) ==> #[trigger] outcomes[j],
        !outcomes[3 * (trial - 1) + step_rank(step)],
    ensures
        TrialRunner::initial(repeat).after(outcomes) == (TrialRunner::Aborted { trial, step }),
        TrialRunner::initial(repeat).after(outcomes).recorded_spec() == if step
            == TrialStep::Cleanup {
            trial as nat
        } else {
            (trial - 1) as nat
        },
    decreases outcomes.len(),
{
    let k = 3 * (trial - 1) + step_rank(step);
    let earlier = outcomes.drop_last();
    if k == outcomes.len() - 1 {
        assert forall|j: int| 0 <= j < earlier.len() implies #[trigger] earlier[j] by {
            assert(earlier[j] == outcomes[j]);
        }
        lemma_trials_in_sequence(repeat, earlier);
        assert(k / 3 + 1 == trial && k % 3 == step_rank(step));
    } else {
        assert(earlier[k] == outcomes[k]);
        assert forall|j: int| 0 <= j < k implies #[trigger] earlier[j] by {
            assert(earlier[j] == outcomes[j]);
        }
        lemma_first_failure_aborts(repeat, earlier, trial, step);
    }
}

} // verus!
