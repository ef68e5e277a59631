//! What holds of every execution, whatever answers it gets.

use crate::admission;
use crate::execution;
use crate::error::ErrorModel;
use crate::execution::{
    AnswerModel, DirectiveModel, ExecutionModel, StageModel,
};
use crate::lifecycle;
use crate::model::{
    ActivityModel, ActivityStatus, ResultModel, RunMode, StepModel, StepRunModel, OUTPUT_LIMIT,
};
use crate::template;
use crate::text;
use crate::time::Timestamp;
use vstd::prelude::*;

verus! {

/// An answer and when it came.
pub struct Input {
    pub answer: AnswerModel,
    pub now: Timestamp,
}

/// The execution after a sequence of answers. Answers that it does not wait for change nothing.
pub open spec fn run(from: ExecutionModel, inputs: Seq<Input>) -> ExecutionModel
    decreases inputs.len(),
{
    if inputs.len() == 0 {
        from
    } else {
        run(from, inputs.drop_last()).after(inputs.last().answer, inputs.last().now)
    }
}

/// Both activities are records of the same event: the definition, the event, the steps with their
/// snapshots, and what was confirmed are the same.
pub open spec fn same_record(a: ActivityModel, b: ActivityModel) -> bool {
    &&& a.id == b.id
    &&& a.automation_id == b.automation_id
    &&& a.definition == b.definition
    &&& a.event == b.event
    &&& a.created_at == b.created_at
    &&& a.confirmed_steps == b.confirmed_steps
    &&& a.run_confirmed == b.run_confirmed
    &&& a.steps.len() == b.steps.len()
    &&& forall|j: int|
        0 <= j < a.steps.len() ==> (#[trigger] a.steps[j]).index == b.steps[j].index
            && a.steps[j].step == b.steps[j].step && a.steps[j].action == b.steps[j].action
}

/// The current step may be performed, as far as confirmation goes.
pub open spec fn cleared(activity: ActivityModel, index: int) -> bool {
    !execution::must_ask(activity, index)
}

/// The current step is past the question whether it needs a confirmation.
pub open spec fn past_gate(stage: StageModel) -> bool {
    match stage {
        StageModel::Start
        | StageModel::Origin
        | StageModel::Session
        | StageModel::Outcome
        | StageModel::Verdict(_)
        | StageModel::Progress
        | StageModel::Aborted => true,
        _ => false,
    }
}

/// What holds between an activity and an execution of it that is not finished.
pub open spec fn under_way(a: ActivityModel, s: ExecutionModel) -> bool {
    &&& s.stage is Permit ==> s.activity == a
    &&& s.stage.has_step() ==> {
        &&& 0 <= s.index < a.steps.len()
        &&& a.steps[s.index].status != ActivityStatus::Succeeded
        &&& forall|j: int|
            0 <= j < s.index ==> (#[trigger] s.activity.steps[j]).status
                == ActivityStatus::Succeeded
        &&& forall|j: int| s.index < j < a.steps.len() ==> #[trigger] s.activity.steps[j] == a.steps[j]
    }
    &&& (s.stage is Turn || s.stage is Gate) ==> s.activity.steps[s.index] == a.steps[s.index]
    &&& s.stage is Gate ==> execution::must_ask(a, s.index)
    &&& past_gate(s.stage) ==> cleared(a, s.index)
    &&& past_gate(s.stage) ==> s.activity.status == ActivityStatus::Running
    &&& past_gate(s.stage) && !(s.stage is Progress) ==> s.activity.steps[s.index].status
        == ActivityStatus::Running
    &&& s.stage is Progress ==> s.activity.steps[s.index].status == ActivityStatus::Succeeded
    &&& s.stage is Outcome ==> execution::perform_stage(s.activity, s.index) is Outcome
    &&& s.stage is Suspended ==> {
        &&& execution::must_ask(a, s.index)
        &&& s.activity.status == ActivityStatus::AwaitingConfirmation
        &&& s.activity.steps[s.index] == (StepRunModel {
            status: ActivityStatus::AwaitingConfirmation,
            ..a.steps[s.index]
        })
    }
    &&& (s.stage is Turn || s.stage is Gate) ==> s.activity.status == a.status
        || s.activity.status == ActivityStatus::Running
}

/// How an execution of an activity ends.
pub open spec fn ended(a: ActivityModel, s: ExecutionModel) -> bool {
    let f = s.activity;
    &&& f.finished_at is Some
    &&& {
        // It found no place before it was canceled.
        ||| f.status == ActivityStatus::Canceled && f.steps == a.steps
        // All steps have succeeded.
        ||| {
            &&& f.status == execution::closing_status(a.status) || f.status
                == ActivityStatus::Succeeded
            &&& forall|j: int|
                0 <= j < f.steps.len() ==> (#[trigger] f.steps[j]).status
                    == ActivityStatus::Succeeded
        }
        // It stopped at a step; what comes behind was not run.
        ||| {
            &&& 0 <= s.index < f.steps.len()
            &&& a.steps[s.index].status != ActivityStatus::Succeeded
            &&& f.status == ActivityStatus::Canceled || f.status == ActivityStatus::Failed
            &&& forall|j: int|
                0 <= j < s.index ==> (#[trigger] f.steps[j]).status == ActivityStatus::Succeeded
            &&& forall|j: int|
                s.index < j < f.steps.len() ==> #[trigger] f.steps[j] == execution::closed_step(
                    a.steps[j],
                    f.status,
                    f.finished_at->0,
                )
            &&& f.status == ActivityStatus::Failed ==> f.steps[s.index].status
                == ActivityStatus::Failed && f.steps[s.index].result.error is Some && f.reason
                == f.steps[s.index].result.error
            &&& f.status == ActivityStatus::Canceled ==> f.steps[s.index].status
                == ActivityStatus::Canceled || f.steps[s.index] == a.steps[s.index]
        }
    }
}

/// What holds between an activity and every execution of it.
pub open spec fn relates(a: ActivityModel, s: ExecutionModel) -> bool {
    &&& same_record(a, s.activity)
    &&& forall|j: int|
        0 <= j < a.steps.len() && (#[trigger] a.steps[j]).status == ActivityStatus::Succeeded
            ==> s.activity.steps[j] == a.steps[j]
    &&& !(s.stage is Finished) ==> under_way(a, s)
    &&& s.stage is Finished ==> ended(a, s)
}

/// The first step that has not succeeded, and the steps before it.
pub proof fn lemma_next_pending(steps: Seq<StepRunModel>, from: int)
    requires
        0 <= from <= steps.len(),
    ensures
        from <= execution::next_pending(steps, from) <= steps.len(),
        forall|j: int|
            from <= j < execution::next_pending(steps, from) ==> (#[trigger] steps[j]).status
                == ActivityStatus::Succeeded,
        execution::next_pending(steps, from) < steps.len() ==> steps[execution::next_pending(
            steps,
            from,
        )].status != ActivityStatus::Succeeded,
    decreases steps.len() - from,
{
    if from < steps.len() && steps[from].status == ActivityStatus::Succeeded {
        lemma_next_pending(steps, from + 1);
    }
}

/// Going on to the next step that has not succeeded keeps the invariant.
proof fn lemma_proceed(a: ActivityModel, activity: ActivityModel, from: int, now: Timestamp)
    requires
        same_record(a, activity),
        0 <= from <= a.steps.len(),
        forall|j: int|
            0 <= j < a.steps.len() && (#[trigger] a.steps[j]).status == ActivityStatus::Succeeded
                ==> activity.steps[j] == a.steps[j],
        forall|j: int|
            0 <= j < from ==> (#[trigger] activity.steps[j]).status == ActivityStatus::Succeeded,
        forall|j: int| from <= j < a.steps.len() ==> #[trigger] activity.steps[j] == a.steps[j],
        activity.status == a.status || activity.status == ActivityStatus::Running,
    ensures
        relates(a, execution::proceed(activity, from, now)),
{
    lemma_next_pending(activity.steps, from);
    let index = execution::next_pending(activity.steps, from);
    let s = execution::proceed(activity, from, now);
    if index >= activity.steps.len() {
        let f = s.activity;
        assert forall|j: int| 0 <= j < f.steps.len() implies #[trigger] f.steps[j]
            == activity.steps[j] by {
            assert(activity.steps[j].status == ActivityStatus::Succeeded);
        }
    }
}

/// Ending a canceled run keeps the invariant.
proof fn lemma_canceled(a: ActivityModel, s: ExecutionModel, now: Timestamp)
    requires
        relates(a, s),
        s.stage is Turn || s.stage is Gate || s.stage is Start,
    ensures
        relates(a, execution::finish_canceled(s.activity, s.index, now)),
{
    let after = execution::finish_canceled(s.activity, s.index, now);
    let f = after.activity;
    assert forall|j: int| 0 <= j < s.index implies #[trigger] f.steps[j] == s.activity.steps[j] by {
        assert(s.activity.steps[j].status == ActivityStatus::Succeeded);
    }
    assert forall|j: int|
        0 <= j < a.steps.len() && (#[trigger] a.steps[j]).status == ActivityStatus::Succeeded implies
        f.steps[j] == a.steps[j] by {
        assert(s.activity.steps[j] == a.steps[j]);
    }
    assert forall|j: int| s.index < j < f.steps.len() implies #[trigger] f.steps[j]
        == execution::closed_step(a.steps[j], f.status, f.finished_at->0) by {
        assert(s.activity.steps[j] == a.steps[j]);
    }
}

/// Storing the result of a step keeps the invariant.
proof fn lemma_judged(
    a: ActivityModel,
    s: ExecutionModel,
    result: ResultModel,
    canceled: bool,
    now: Timestamp,
)
    requires
        relates(a, s),
        s.stage == StageModel::Verdict(result),
    ensures
        relates(a, s.after(AnswerModel::Canceled(canceled), now)),
{
    let after = s.after(AnswerModel::Canceled(canceled), now);
    let judged = execution::judged(s.activity, s.index, result, canceled, now);
    let f = after.activity;
    if execution::verdict(result, canceled) != ActivityStatus::Succeeded {
        assert forall|j: int| 0 <= j < s.index implies #[trigger] f.steps[j]
            == s.activity.steps[j] by {
            assert(judged.steps[j] == s.activity.steps[j]);
            assert(s.activity.steps[j].status == ActivityStatus::Succeeded);
        }
        assert forall|j: int|
            0 <= j < a.steps.len() && (#[trigger] a.steps[j]).status == ActivityStatus::Succeeded
            implies f.steps[j] == a.steps[j] by {
            assert(judged.steps[j] == s.activity.steps[j]);
        }
        assert forall|j: int| s.index < j < f.steps.len() implies #[trigger] f.steps[j]
            == execution::closed_step(a.steps[j], f.status, f.finished_at->0) by {
            assert(judged.steps[j] == s.activity.steps[j]);
        }
        assert(f.steps[s.index] == judged.steps[s.index]);
    }
}

/// Every answer keeps the invariant.
pub proof fn lemma_step(a: ActivityModel, s: ExecutionModel, answer: AnswerModel, now: Timestamp)
    requires
        relates(a, s),
    ensures
        relates(a, s.after(answer, now)),
{
    match (s.stage, answer) {
        (StageModel::Permit, AnswerModel::Permit(granted)) => {
            if granted {
                lemma_proceed(a, s.activity, 0, now);
            }
        },
        (StageModel::Turn, AnswerModel::Canceled(canceled)) => {
            if canceled {
                lemma_canceled(a, s, now);
            }
        },
        (StageModel::Gate, AnswerModel::Canceled(canceled)) => {
            if canceled {
                lemma_canceled(a, s, now);
            }
        },
        (StageModel::Start, AnswerModel::Canceled(canceled)) => {
            if canceled {
                lemma_canceled(a, s, now);
            }
        },
        (StageModel::Verdict(result), AnswerModel::Canceled(canceled)) => {
            lemma_judged(a, s, result, canceled, now);
        },
        (StageModel::Progress, AnswerModel::Done) => {
            lemma_proceed(a, s.activity, s.index + 1, now);
        },
        _ => {},
    }
}

/// The invariant holds of every execution.
pub proof fn lemma_run(a: ActivityModel, inputs: Seq<Input>)
    ensures
        relates(a, run(ExecutionModel::initial(a), inputs)),
    decreases inputs.len(),
{
    if inputs.len() > 0 {
        lemma_run(a, inputs.drop_last());
        lemma_step(
            a,
            run(ExecutionModel::initial(a), inputs.drop_last()),
            inputs.last().answer,
            inputs.last().now,
        );
    }
}

/// An activity that is queued for execution: new, or confirmed at the step where it stopped. Steps
/// have succeeded up to some point, and those behind it have not had their turn.
pub open spec fn resumable(a: ActivityModel) -> bool {
    let first = execution::next_pending(a.steps, 0);
    &&& a.status == ActivityStatus::Queued
    &&& a.indexed()
    &&& first < a.steps.len() ==> a.steps[first].status == ActivityStatus::Queued
        || a.steps[first].status == ActivityStatus::AwaitingConfirmation
    &&& forall|j: int|
        first < j < a.steps.len() ==> (#[trigger] a.steps[j]).status == ActivityStatus::Queued
}

/// An execution changes neither the definition nor the event nor any snapshot of its activity, nor
/// what was confirmed. Edits and deletions elsewhere do not reach it.
pub proof fn law_records_are_immutable(a: ActivityModel, inputs: Seq<Input>)
    ensures
        same_record(a, run(ExecutionModel::initial(a), inputs).activity),
{
    lemma_run(a, inputs);
}

/// A step that has succeeded is not run again, and keeps its result.
pub proof fn law_completed_steps_stay(a: ActivityModel, inputs: Seq<Input>, j: int)
    requires
        0 <= j < a.steps.len(),
        a.steps[j].status == ActivityStatus::Succeeded,
    ensures
        ({
            let s = run(ExecutionModel::initial(a), inputs);
            &&& s.activity.steps[j] == a.steps[j]
            &&& s.directive() is Perform ==> s.index != j
        }),
{
    lemma_run(a, inputs);
}

/// Steps are performed in their order, each as it was recorded, and only once all steps before it
/// have succeeded.
pub proof fn law_steps_run_in_order(a: ActivityModel, inputs: Seq<Input>)
    requires
        run(ExecutionModel::initial(a), inputs).directive() is Perform,
    ensures
        ({
            let s = run(ExecutionModel::initial(a), inputs);
            &&& 0 <= s.index < a.steps.len()
            &&& s.directive() == DirectiveModel::Perform(execution::task(a, s.index))
            &&& forall|j: int|
                0 <= j < s.index ==> (#[trigger] s.activity.steps[j]).status
                    == ActivityStatus::Succeeded
        }),
{
    lemma_run(a, inputs);
    let s = run(ExecutionModel::initial(a), inputs);
    assert(a.steps[s.index].step == s.activity.steps[s.index].step);
    assert(a.steps[s.index].action == s.activity.steps[s.index].action);
}

/// A dangerous quick action is performed only where a person confirmed that very step.
pub proof fn law_dangerous_steps_are_confirmed(a: ActivityModel, inputs: Seq<Input>)
    requires
        run(ExecutionModel::initial(a), inputs).directive() is Perform,
    ensures
        ({
            let index = run(ExecutionModel::initial(a), inputs).index;
            a.steps[index].action is Some && a.steps[index].action->0.requires_confirmation
                ==> a.is_confirmed(index)
        }),
{
    lemma_run(a, inputs);
}

/// A step that needs an unlocked session is performed only behind the answer that the session is
/// not locked. Where it is locked, the step fails and is not performed.
pub proof fn law_locked_sessions_are_respected(
    a: ActivityModel,
    inputs: Seq<Input>,
    answer: AnswerModel,
    now: Timestamp,
)
    requires
        ({
            let s = run(ExecutionModel::initial(a), inputs);
            &&& s.accepts(answer)
            &&& s.after(answer, now).directive() is Perform
            &&& execution::must_be_unlocked(a.steps[s.after(answer, now).index])
        }),
    ensures
        run(ExecutionModel::initial(a), inputs).stage is Session,
        answer == AnswerModel::Locked(false),
{
    lemma_run(a, inputs);
    let s = run(ExecutionModel::initial(a), inputs);
    lemma_step(a, s, answer, now);
    assert(a.steps[s.after(answer, now).index].action == s.after(answer, now).activity.steps[s.after(
        answer,
        now,
    ).index].action);
}

/// Once an execution learns that its run is canceled, the run ends as canceled. In particular it
/// does not ask for a confirmation any more.
pub proof fn law_cancellation_is_final(
    a: ActivityModel,
    inputs: Seq<Input>,
    answer: AnswerModel,
    now: Timestamp,
)
    requires
        run(ExecutionModel::initial(a), inputs).accepts(answer),
        answer == AnswerModel::Canceled(true) || answer == AnswerModel::Permit(false),
    ensures
        ({
            let after = run(ExecutionModel::initial(a), inputs).after(answer, now);
            &&& after.stage is Finished
            &&& after.activity.status == ActivityStatus::Canceled
            &&& after.activity.finished_at == Some(now)
        }),
{
}

/// A step that fails ends the run as failed, with the step's error as the reason, and no step behind
/// it is performed.
pub proof fn law_failure_stops_the_run(
    a: ActivityModel,
    inputs: Seq<Input>,
    result: ResultModel,
    now: Timestamp,
    j: int,
)
    requires
        run(ExecutionModel::initial(a), inputs).stage == StageModel::Verdict(result),
        result.error is Some,
        run(ExecutionModel::initial(a), inputs).index < j < a.steps.len(),
    ensures
        ({
            let s = run(ExecutionModel::initial(a), inputs);
            let after = s.after(AnswerModel::Canceled(false), now);
            &&& after.stage is Finished
            &&& after.activity.status == ActivityStatus::Failed
            &&& after.activity.reason == result.cut().error
            &&& after.activity.steps[s.index].status == ActivityStatus::Failed
            &&& after.activity.steps[s.index].result == result.cut()
            &&& a.steps[j].status == ActivityStatus::Queued ==> after.activity.steps[j].status
                == ActivityStatus::Skipped
        }),
{
    lemma_run(a, inputs);
    let s = run(ExecutionModel::initial(a), inputs);
    let judged = execution::judged(s.activity, s.index, result, false, now);
    assert(judged.steps[j] == s.activity.steps[j]);
    assert(s.activity.steps[j] == a.steps[j]);
}

/// How far an execution is from its end.
pub open spec fn distance(s: ExecutionModel) -> int {
    if s.stage.is_last() {
        0
    } else if s.stage is Permit {
        (s.activity.steps.len() as int + 1) * 16
    } else {
        (s.activity.steps.len() - s.index) * 16 + match s.stage {
            StageModel::Turn => 8int,
            StageModel::Gate => 7,
            StageModel::Start => 6,
            StageModel::Origin => 5,
            StageModel::Session => 4,
            StageModel::Outcome => 3,
            StageModel::Verdict(_) => 2,
            _ => 1,
        }
    }
}

/// Every answer that an execution waits for brings it nearer to its end, so that it comes to an end
/// after a bounded number of answers.
pub proof fn law_execution_ends(
    a: ActivityModel,
    inputs: Seq<Input>,
    answer: AnswerModel,
    now: Timestamp,
)
    requires
        run(ExecutionModel::initial(a), inputs).accepts(answer),
    ensures
        ({
            let s = run(ExecutionModel::initial(a), inputs);
            0 <= distance(s.after(answer, now)) < distance(s) <= (a.steps.len() + 1) * 16
        }),
{
    lemma_run(a, inputs);
    let s = run(ExecutionModel::initial(a), inputs);
    lemma_step(a, s, answer, now);
    if s.stage is Permit {
        lemma_next_pending(s.activity.steps, 0);
    } else if s.stage is Progress {
        lemma_next_pending(s.activity.steps, s.index + 1);
    }
}

/// A later state of an execution is no farther from its end, and as far only where nothing was
/// accepted in between.
proof fn lemma_distance(a: ActivityModel, inputs: Seq<Input>, m: int, n: int)
    requires
        0 <= m <= n <= inputs.len(),
    ensures
        ({
            let earlier = run(ExecutionModel::initial(a), inputs.take(m));
            let later = run(ExecutionModel::initial(a), inputs.take(n));
            &&& distance(later) <= distance(earlier)
            &&& distance(later) == distance(earlier) ==> later == earlier
        }),
    decreases n - m,
{
    if m < n {
        lemma_distance(a, inputs, m, n - 1);
        let before = run(ExecutionModel::initial(a), inputs.take(n - 1));
        let input = inputs[n - 1];
        assert(inputs.take(n).drop_last() =~= inputs.take(n - 1));
        assert(inputs.take(n).last() == input);
        if before.accepts(input.answer) {
            law_execution_ends(a, inputs.take(n - 1), input.answer, input.now);
        } else {
            assert(before.after(input.answer, input.now) == before);
        }
    }
}

/// Each step is performed at most once in an execution: whenever its turn to be performed shows up
/// twice, nothing happened in between.
pub proof fn law_each_step_runs_once(a: ActivityModel, inputs: Seq<Input>, m: int, n: int)
    requires
        0 <= m <= n <= inputs.len(),
        run(ExecutionModel::initial(a), inputs.take(m)).directive() is Perform,
        run(ExecutionModel::initial(a), inputs.take(n)).directive() is Perform,
        run(ExecutionModel::initial(a), inputs.take(m)).index == run(
            ExecutionModel::initial(a),
            inputs.take(n),
        ).index,
    ensures
        run(ExecutionModel::initial(a), inputs.take(m)) == run(
            ExecutionModel::initial(a),
            inputs.take(n),
        ),
{
    lemma_distance(a, inputs, m, n);
    lemma_run(a, inputs.take(m));
    lemma_run(a, inputs.take(n));
}

/// A finished run has succeeded, failed or been canceled. It has succeeded only where all of its
/// steps have; a failed one leaves no step open, and a canceled one none that had its turn and did
/// not wait for a confirmation.
pub proof fn law_final_statuses(a: ActivityModel, inputs: Seq<Input>, j: int)
    requires
        resumable(a),
        run(ExecutionModel::initial(a), inputs).stage is Finished,
        0 <= j < a.steps.len(),
    ensures
        ({
            let f = run(ExecutionModel::initial(a), inputs).activity;
            &&& f.finished_at is Some
            &&& f.status == ActivityStatus::Succeeded || f.status == ActivityStatus::Failed
                || f.status == ActivityStatus::Canceled
            &&& f.status == ActivityStatus::Succeeded ==> f.steps[j].status
                == ActivityStatus::Succeeded
            &&& f.status == ActivityStatus::Failed ==> f.steps[j].status.is_terminal()
            &&& f.status == ActivityStatus::Canceled ==> f.steps[j].status.is_terminal()
                || f.steps[j] == a.steps[j]
        }),
{
    lemma_run(a, inputs);
    let s = run(ExecutionModel::initial(a), inputs);
    let f = s.activity;
    lemma_next_pending(a.steps, 0);
    let first = execution::next_pending(a.steps, 0);
    if 0 <= s.index < a.steps.len() && a.steps[s.index].status != ActivityStatus::Succeeded {
        assert(s.index >= first);
        if s.index < j {
            assert(a.steps[j].status == ActivityStatus::Queued);
        }
    }
    if first < a.steps.len() {
        assert(a.steps[first].status != ActivityStatus::Succeeded);
    }
}

/// A failed run has failed at exactly one step, which gives the run its reason. All steps before
/// it have succeeded; all steps behind it are skipped and say why.
pub open spec fn failed_at(f: ActivityModel, k: int) -> bool {
    &&& 0 <= k < f.steps.len()
    &&& f.steps[k].status == ActivityStatus::Failed
    &&& f.steps[k].result.error is Some
    &&& f.reason == f.steps[k].result.error
    &&& forall|j: int|
        0 <= j < k ==> (#[trigger] f.steps[j]).status == ActivityStatus::Succeeded
    &&& forall|j: int|
        k < j < f.steps.len() ==> (#[trigger] f.steps[j]).status == ActivityStatus::Skipped
            && f.steps[j].result.error is Some
}

/// However an execution ends that does not break off, its activity waits for a confirmation or is
/// finished for good. One that has succeeded has all its steps succeeded, and one that has failed
/// has failed at exactly one step.
pub proof fn law_outcome(a: ActivityModel, inputs: Seq<Input>)
    requires
        resumable(a),
        run(ExecutionModel::initial(a), inputs).stage is Suspended || run(
            ExecutionModel::initial(a),
            inputs,
        ).stage is Finished,
    ensures
        ({
            let s = run(ExecutionModel::initial(a), inputs);
            let f = s.activity;
            &&& f.status == ActivityStatus::AwaitingConfirmation || f.status.is_terminal()
            &&& f.status.is_terminal() ==> f.finished_at is Some
            &&& f.status == ActivityStatus::Succeeded ==> forall|j: int|
                0 <= j < f.steps.len() ==> (#[trigger] f.steps[j]).status
                    == ActivityStatus::Succeeded
            &&& f.status == ActivityStatus::Failed ==> failed_at(f, s.index)
            &&& f.status == ActivityStatus::Failed ==> forall|j: int|
                0 <= j < f.steps.len() && (#[trigger] f.steps[j]).status == ActivityStatus::Failed
                    ==> j == s.index
        }),
{
    lemma_run(a, inputs);
    let s = run(ExecutionModel::initial(a), inputs);
    let f = s.activity;
    lemma_next_pending(a.steps, 0);
    let first = execution::next_pending(a.steps, 0);
    if f.status == ActivityStatus::Failed {
        assert(s.index >= first) by {
            if s.index < first {
                assert(a.steps[s.index].status == ActivityStatus::Succeeded);
            }
        }
        assert forall|j: int| s.index < j < f.steps.len() implies (#[trigger] f.steps[j]).status
            == ActivityStatus::Skipped && f.steps[j].result.error is Some by {
            assert(a.steps[j].status == ActivityStatus::Queued);
        }
    }
}

/// An execution stops for a confirmation only in front of a dangerous step that nobody confirmed.
/// What it leaves waits there, with every step before it done and none behind it begun.
pub proof fn law_suspension(a: ActivityModel, inputs: Seq<Input>)
    requires
        run(ExecutionModel::initial(a), inputs).stage is Suspended,
    ensures
        ({
            let s = run(ExecutionModel::initial(a), inputs);
            &&& execution::must_ask(a, s.index)
            &&& s.activity.status == ActivityStatus::AwaitingConfirmation
            &&& s.activity.steps[s.index].status == ActivityStatus::AwaitingConfirmation
            &&& forall|j: int|
                0 <= j < s.index ==> (#[trigger] s.activity.steps[j]).status
                    == ActivityStatus::Succeeded
            &&& forall|j: int|
                s.index < j < a.steps.len() ==> #[trigger] s.activity.steps[j] == a.steps[j]
        }),
{
    lemma_run(a, inputs);
}

proof fn lemma_first_awaiting(steps: Seq<StepRunModel>, from: int, at: int)
    requires
        0 <= from <= at < steps.len(),
        steps[at].status == ActivityStatus::AwaitingConfirmation,
        forall|j: int|
            from <= j < at ==> (#[trigger] steps[j]).status != ActivityStatus::AwaitingConfirmation,
    ensures
        lifecycle::first_awaiting(steps, from) == Some(at),
{
    lifecycle::lemma_first_awaiting(steps, from, at);
}

proof fn lemma_pending_at(steps: Seq<StepRunModel>, from: int, at: int)
    requires
        0 <= from <= at < steps.len(),
        steps[at].status != ActivityStatus::Succeeded,
        forall|j: int|
            from <= j < at ==> (#[trigger] steps[j]).status == ActivityStatus::Succeeded,
    ensures
        execution::next_pending(steps, from) == at,
    decreases at - from,
{
    if from < at {
        lemma_pending_at(steps, from + 1, at);
    }
}

/// A run that stopped for a confirmation goes on with the confirmed step once it is confirmed, and
/// repeats nothing: it is queued again, and its next execution starts that very step.
pub proof fn law_confirmed_run_goes_on(
    a: ActivityModel,
    inputs: Seq<Input>,
    later: Timestamp,
)
    requires
        resumable(a),
        a.run_confirmed || a.definition.run_mode != RunMode::AskBeforeRun,
        a.steps.len() <= usize::MAX,
        run(ExecutionModel::initial(a), inputs).stage is Suspended,
    ensures
        ({
            let s = run(ExecutionModel::initial(a), inputs);
            let b = lifecycle::confirmation(s.activity, false)->Ok_0;
            let resumed = ExecutionModel::initial(b).after(AnswerModel::Permit(true), later).after(
                AnswerModel::Canceled(false),
                later,
            );
            &&& lifecycle::confirmation(s.activity, false) is Ok
            &&& resumable(b)
            &&& b.is_confirmed(s.index)
            &&& resumed.stage is Start
            &&& resumed.index == s.index
        }),
{
    lemma_run(a, inputs);
    let s = run(ExecutionModel::initial(a), inputs);
    let waiting = s.activity;
    let index = s.index;
    lemma_first_awaiting(waiting.steps, 0, index);
    lemma_pending_at(waiting.steps, 0, index);
    assert(waiting.steps[index].index == a.steps[index].index);
    assert(a.steps[index].index == index);
    let b = lifecycle::confirmation(waiting, false)->Ok_0;
    let k = b.confirmed_steps.len() - 1;
    assert(b.confirmed_steps[k] as int == index);
    assert(b.is_confirmed(index));
    lemma_next_pending(a.steps, 0);
    let first = execution::next_pending(a.steps, 0);
    assert(first <= index) by {
        if index < first {
            assert(a.steps[index].status == ActivityStatus::Succeeded);
        }
    }
    assert forall|j: int| index < j < b.steps.len() implies (#[trigger] b.steps[j]).status
        == ActivityStatus::Queued by {
        assert(waiting.steps[j] == a.steps[j]);
        assert(a.steps[j].status == ActivityStatus::Queued);
    }
    assert(b.indexed()) by {
        assert forall|j: int| 0 <= j < b.steps.len() implies (#[trigger] b.steps[j]).index == j by {
            assert(a.steps[j].index == waiting.steps[j].index);
        }
    }
}

/// An activity that was just recorded and is queued can be executed.
pub proof fn law_new_activities_can_be_executed(a: ActivityModel)
    requires
        admission::mirrors(a),
        a.status == ActivityStatus::Queued,
    ensures
        resumable(a),
{
    lemma_next_pending(a.steps, 0);
    assert forall|j: int| 0 <= j < a.steps.len() implies (#[trigger] a.steps[j]).index == j
        && a.steps[j].status == ActivityStatus::Queued by {}
}

/// An activity that asks before it runs can be executed once it is confirmed, and not before: it
/// waits until then.
pub proof fn law_confirmed_activities_can_be_executed(a: ActivityModel)
    requires
        admission::mirrors(a),
        a.status == ActivityStatus::Queued,
        a.definition.run_mode == RunMode::AskBeforeRun,
        !a.run_confirmed,
    ensures
        ({
            let waiting = admission::opened(a);
            let confirmed = lifecycle::confirmation(waiting, false);
            &&& waiting.status == ActivityStatus::AwaitingConfirmation
            &&& confirmed is Ok
            &&& confirmed->Ok_0.run_confirmed
            &&& resumable(confirmed->Ok_0)
        }),
{
    law_new_activities_can_be_executed(a);
}

/// The results of all steps keep within the output limit.
pub open spec fn results_bounded(a: ActivityModel) -> bool {
    forall|j: int| 0 <= j < a.steps.len() ==> (#[trigger] a.steps[j]).result.is_bounded()
}

proof fn lemma_closed_is_bounded(activity: ActivityModel, now: Timestamp)
    requires
        results_bounded(activity),
    ensures
        results_bounded(execution::closed(activity, now)),
{
    reveal_strlit("run canceled");
    reveal_strlit("subsequent actions were not run because the previous action did not succeed");
    text::lemma_byte_len_at_most("run canceled"@);
    text::lemma_byte_len_at_most(
        "subsequent actions were not run because the previous action did not succeed"@,
    );
    let after = execution::closed(activity, now);
    assert forall|j: int| 0 <= j < after.steps.len() implies (
    #[trigger] after.steps[j]).result.is_bounded() by {
        assert(activity.steps[j].result.is_bounded());
    }
}

proof fn lemma_cut_is_bounded(result: ResultModel)
    ensures
        result.cut().is_bounded(),
{
    text::law_fitting(result.stdout, OUTPUT_LIMIT as nat);
    text::law_fitting(result.stderr, OUTPUT_LIMIT as nat);
    if let Some(error) = result.error {
        text::law_fitting(error, OUTPUT_LIMIT as nat);
    }
}

/// Whatever a step returns, what is stored of it keeps within the output limit.
pub proof fn law_stored_results_are_bounded(a: ActivityModel, inputs: Seq<Input>)
    requires
        results_bounded(a),
    ensures
        results_bounded(run(ExecutionModel::initial(a), inputs).activity),
    decreases inputs.len(),
{
    if inputs.len() > 0 {
        law_stored_results_are_bounded(a, inputs.drop_last());
        let s = run(ExecutionModel::initial(a), inputs.drop_last());
        lemma_run(a, inputs.drop_last());
        let answer = inputs.last().answer;
        let now = inputs.last().now;
        let activity = s.activity;
        match (s.stage, answer) {
            (StageModel::Permit, AnswerModel::Permit(_)) => {
                lemma_closed_is_bounded(activity, now);
            },
            (StageModel::Progress, AnswerModel::Done) => {
                lemma_closed_is_bounded(activity, now);
            },
            (StageModel::Verdict(result), AnswerModel::Canceled(canceled)) => {
                lemma_cut_is_bounded(result);
                let judged = execution::judged(activity, s.index, result, canceled, now);
                assert forall|j: int| 0 <= j < judged.steps.len() implies (
                #[trigger] judged.steps[j]).result.is_bounded() by {
                    if j != s.index {
                        assert(judged.steps[j] == activity.steps[j]);
                    }
                }
                lemma_closed_is_bounded(judged, now);
            },
            (_, AnswerModel::Canceled(_)) => {
                lemma_closed_is_bounded(
                    ActivityModel { status: ActivityStatus::Canceled, ..activity },
                    now,
                );
                let after = s.after(answer, now).activity;
                if !(s.after(answer, now).stage is Finished) {
                    assert forall|j: int| 0 <= j < after.steps.len() implies (
                    #[trigger] after.steps[j]).result.is_bounded() by {
                        assert(activity.steps[j].result.is_bounded());
                    }
                }
            },
            _ => {},
        }
    }
}

/// The execution has a place among the executing activities: it was let in and has not stopped.
pub open spec fn executing(s: ExecutionModel) -> bool {
    !(s.stage is Permit) && !s.stage.is_last()
}

/// How many of the executions have a place.
pub open spec fn occupied(executions: Seq<ExecutionModel>) -> nat
    decreases executions.len(),
{
    if executions.len() == 0 {
        0
    } else {
        occupied(executions.drop_last()) + if executing(executions.last()) {
            1nat
        } else {
            0
        }
    }
}

/// Something that happens among the executions of an engine.
pub enum Move {
    /// An activity is to be executed.
    Join { activity: ActivityModel },
    /// One of the executions gets an answer.
    Answer { index: int, answer: AnswerModel, now: Timestamp },
}

/// The executions after a move. An execution that waits to be let in is so only where a place is
/// free: the engine holds as many permits as there are places. Other moves that are out of turn
/// change nothing.
pub open spec fn moved(executions: Seq<ExecutionModel>, next: Move) -> Seq<ExecutionModel> {
    match next {
        Move::Join { activity } => executions.push(ExecutionModel::initial(activity)),
        Move::Answer { index, answer, now } => if 0 <= index < executions.len()
            && executions[index].accepts(answer) && (answer == AnswerModel::Permit(true)
            ==> occupied(executions) < execution::MAX_EXECUTING) {
            executions.update(index, executions[index].after(answer, now))
        } else {
            executions
        },
    }
}

/// The executions after a sequence of moves.
pub open spec fn after_moves(moves: Seq<Move>) -> Seq<ExecutionModel>
    decreases moves.len(),
{
    if moves.len() == 0 {
        Seq::empty()
    } else {
        moved(after_moves(moves.drop_last()), moves.last())
    }
}

proof fn lemma_occupied_update(executions: Seq<ExecutionModel>, index: int, s: ExecutionModel)
    requires
        0 <= index < executions.len(),
    ensures
        occupied(executions.update(index, s)) == occupied(executions) + (if executing(s) {
            1int
        } else {
            0
        }) - (if executing(executions[index]) {
            1int
        } else {
            0
        }),
    decreases executions.len(),
{
    let front = executions.drop_last();
    let updated = executions.update(index, s);
    if index < front.len() {
        lemma_occupied_update(front, index, s);
        assert(updated.drop_last() =~= front.update(index, s));
    } else {
        assert(updated.drop_last() =~= front);
    }
}

proof fn lemma_each_is_counted(executions: Seq<ExecutionModel>, performing: Seq<int>)
    requires
        forall|k: int|
            0 <= k < performing.len() ==> 0 <= #[trigger] performing[k] < executions.len()
                && executing(executions[performing[k]]),
        forall|k: int, l: int|
            0 <= k < l < performing.len() ==> #[trigger] performing[k] < #[trigger] performing[l],
    ensures
        performing.len() <= occupied(executions),
    decreases executions.len(),
{
    if executions.len() > 0 {
        let front = executions.drop_last();
        let last = executions.len() - 1;
        if performing.len() > 0 && performing.last() == last {
            let fewer = performing.drop_last();
            assert forall|k: int| 0 <= k < fewer.len() implies 0 <= #[trigger] fewer[k]
                < front.len() && executing(front[fewer[k]]) by {
                assert(fewer[k] == performing[k]);
                assert(performing[k] < performing[performing.len() - 1]);
                assert(front[fewer[k]] == executions[performing[k]]);
            }
            assert forall|k: int, l: int| 0 <= k < l < fewer.len() implies #[trigger] fewer[k]
                < #[trigger] fewer[l] by {
                assert(performing[k] < performing[l]);
            }
            lemma_each_is_counted(front, fewer);
        } else {
            assert forall|k: int| 0 <= k < performing.len() implies 0 <= #[trigger] performing[k]
                < front.len() && executing(front[performing[k]]) by {
                if k < performing.len() - 1 {
                    assert(performing[k] < performing[performing.len() - 1]);
                }
                assert(front[performing[k]] == executions[performing[k]]);
            }
            lemma_each_is_counted(front, performing);
        }
    } else if performing.len() > 0 {
        assert(0 <= performing[0] < executions.len());
    }
}

/// No more activities are executed at a time than there are places, whatever executions are begun
/// and whatever answers they get. `performing` are the positions of any executions that perform a
/// step at the same time: there are no more of them either.
pub proof fn law_executions_are_bounded(moves: Seq<Move>, performing: Seq<int>)
    requires
        forall|k: int|
            0 <= k < performing.len() ==> 0 <= #[trigger] performing[k] < after_moves(moves).len()
                && after_moves(moves)[performing[k]].directive() is Perform,
        forall|k: int, l: int|
            0 <= k < l < performing.len() ==> #[trigger] performing[k] < #[trigger] performing[l],
    ensures
        occupied(after_moves(moves)) <= execution::MAX_EXECUTING,
        performing.len() <= execution::MAX_EXECUTING,
{
    lemma_occupied_is_bounded(moves);
    lemma_each_is_counted(after_moves(moves), performing);
}

proof fn lemma_occupied_is_bounded(moves: Seq<Move>)
    ensures
        occupied(after_moves(moves)) <= execution::MAX_EXECUTING,
    decreases moves.len(),
{
    if moves.len() > 0 {
        lemma_occupied_is_bounded(moves.drop_last());
        let before = after_moves(moves.drop_last());
        match moves.last() {
            Move::Join { activity } => {
                let joined = before.push(ExecutionModel::initial(activity));
                assert(joined.drop_last() =~= before);
            },
            Move::Answer { index, answer, now } => {
                if 0 <= index < before.len() && before[index].accepts(answer) {
                    lemma_occupied_update(before, index, before[index].after(answer, now));
                }
            },
        }
    }
}

/// Whenever an execution asks for a step to be performed, the task says what the step of the activity
/// says that the execution began with: the snapshot of a quick action; the shell, script, working
/// directory and timeout of a script; the seconds of a delay; the title and body of a notification,
/// filled in for the event, and whether it goes to other devices.
pub proof fn law_tasks_are_the_recorded_steps(a: ActivityModel, inputs: Seq<Input>)
    requires
        run(ExecutionModel::initial(a), inputs).directive() is Perform,
    ensures
        ({
            let s = run(ExecutionModel::initial(a), inputs);
            let task = s.directive()->Perform_0;
            let recorded = a.steps[s.index];
            match recorded.step {
                StepModel::QuickAction { .. } => {
                    &&& task is Action
                    &&& recorded.action == Some(task->Action_0)
                },
                StepModel::Shell { shell, script, working_directory, timeout_seconds } => {
                    &&& task is Shell
                    &&& task->Shell_shell == shell
                    &&& task->Shell_script == script
                    &&& task->Shell_working_directory == working_directory
                    &&& task->Shell_timeout_seconds == timeout_seconds
                },
                StepModel::Delay { duration_seconds } => {
                    &&& task is Delay
                    &&& task->Delay_duration_seconds == duration_seconds
                },
                StepModel::Notification { title, body, send_to_connected_devices } => {
                    &&& task is Notify
                    &&& template::rendered(title, a.event.variables) == Ok::<Seq<char>, ErrorModel>(
                        task->Notify_title,
                    )
                    &&& template::rendered(body, a.event.variables) == Ok::<Seq<char>, ErrorModel>(
                        task->Notify_body,
                    )
                    &&& task->Notify_send_to_connected_devices == send_to_connected_devices
                },
            }
        }),
{
    lemma_run(a, inputs);
    let s = run(ExecutionModel::initial(a), inputs);
    assert(a.steps[s.index].step == s.activity.steps[s.index].step);
    assert(a.steps[s.index].action == s.activity.steps[s.index].action);
}

/// An execution takes exactly the kind of answer that its directive asks for, and none once it stops.
pub proof fn law_answers_fit_directives(s: ExecutionModel, answer: AnswerModel)
    ensures
        s.directive() is AwaitPermit ==> (s.accepts(answer) <==> answer is Permit),
        s.directive() is CheckCanceled || s.directive() is HoldGate || s.directive() is StoreStart
            ==> (s.accepts(answer) <==> answer is Canceled),
        s.directive() is RecordOrigin || s.directive() is StoreProgress ==> (s.accepts(answer)
            <==> answer is Done),
        s.directive() is ReadSession ==> (s.accepts(answer) <==> answer is Locked),
        s.directive() is Perform ==> (s.accepts(answer) <==> answer is Result),
        s.directive() is Suspend || s.directive() is Finish || s.directive() is Abort
            ==> !s.accepts(answer),
        s.stage is Permit <==> s.directive() is AwaitPermit,
        s.stage is Outcome <==> s.directive() is Perform,
        s.stage is Suspended <==> s.directive() is Suspend,
        s.stage is Finished <==> s.directive() is Finish,
{
}

/// Where the run is not canceled, a step whose turn has come asks first exactly where its quick action
/// is dangerous and nobody confirmed this step. Otherwise it is put under way, and only it.
pub proof fn law_steps_ask_or_start(s: ExecutionModel, now: Timestamp)
    requires
        s.stage is Turn,
        0 <= s.index < s.activity.steps.len(),
    ensures
        ({
            let t = s.after(AnswerModel::Canceled(false), now);
            let step = s.activity.steps[s.index];
            let dangerous = step.action is Some && step.action->0.requires_confirmation;
            let confirmed = exists|k: int|
                0 <= k < s.activity.confirmed_steps.len() && s.activity.confirmed_steps[k] as int
                    == s.index;
            &&& t.index == s.index
            &&& dangerous && !confirmed ==> t.directive() is HoldGate && t.activity == s.activity
            &&& !dangerous || confirmed ==> {
                &&& t.directive() is StoreStart
                &&& t.activity.status == ActivityStatus::Running
                &&& t.activity.reason is None
                &&& t.activity.finished_at == s.activity.finished_at
                &&& t.activity.steps.len() == s.activity.steps.len()
                &&& t.activity.steps[s.index] == (StepRunModel {
                    status: ActivityStatus::Running,
                    started_at: Some(now),
                    ..step
                })
                &&& forall|j: int|
                    0 <= j < s.activity.steps.len() && j != s.index
                        ==> #[trigger] t.activity.steps[j] == s.activity.steps[j]
            }
        }),
{
}

/// A step that asks, and is not canceled, leaves its activity waiting for a confirmation, with the
/// number of the step and the name of its quick action as the reason; nothing else changes.
pub proof fn law_asking_suspends(s: ExecutionModel, now: Timestamp)
    requires
        s.stage is Gate,
        0 <= s.index < s.activity.steps.len(),
        s.activity.steps[s.index].action is Some,
    ensures
        ({
            let t = s.after(AnswerModel::Canceled(false), now);
            let step = s.activity.steps[s.index];
            &&& t.directive() is Suspend
            &&& t.index == s.index
            &&& t.activity.status == ActivityStatus::AwaitingConfirmation
            &&& t.activity.reason == Some(
                "confirm action "@ + text::decimal((s.index + 1) as nat) + ": "@
                    + step.action->0.name,
            )
            &&& t.activity.finished_at == s.activity.finished_at
            &&& t.activity.steps.len() == s.activity.steps.len()
            &&& t.activity.steps[s.index] == (StepRunModel {
                status: ActivityStatus::AwaitingConfirmation,
                ..step
            })
            &&& forall|j: int|
                0 <= j < s.activity.steps.len() && j != s.index ==> #[trigger] t.activity.steps[j]
                    == s.activity.steps[j]
        }),
{
}

/// Before it is performed, a quick action or a script has the origin of what it may cause put on
/// record, and no other step has. Then the session is looked at exactly where the quick action needs
/// an unlocked one.
pub proof fn law_what_comes_before_a_step(s: ExecutionModel, now: Timestamp)
    requires
        s.stage is Start || s.stage is Origin,
        0 <= s.index < s.activity.steps.len(),
    ensures
        ({
            let run = s.activity.steps[s.index];
            let marked = run.step is QuickAction || run.step is Shell;
            let guarded = run.action is Some && run.action->0.requires_unlocked_session;
            let t = if s.stage is Start {
                s.after(AnswerModel::Canceled(false), now)
            } else {
                s.after(AnswerModel::Done, now)
            };
            &&& t.activity == s.activity
            &&& t.index == s.index
            &&& s.stage is Start && marked ==> t.directive() is RecordOrigin
            &&& !(s.stage is Start && marked) ==> (t.directive() is ReadSession <==> guarded)
            &&& !(s.stage is Start && marked) ==> !(t.directive() is RecordOrigin)
        }),
{
}

/// Once nothing is to be asked any more, a step is performed, unless its quick action has lost its
/// snapshot, which breaks the execution off, or a text of its notification cannot be filled in.
pub proof fn law_steps_are_performed(
    s: ExecutionModel,
    answer: AnswerModel,
    now: Timestamp,
)
    requires
        0 <= s.index < s.activity.steps.len(),
        ({
            let run = s.activity.steps[s.index];
            let guarded = run.action is Some && run.action->0.requires_unlocked_session;
            ||| s.stage is Session && answer == AnswerModel::Locked(false)
            ||| s.stage is Origin && answer is Done && !guarded
            ||| s.stage is Start && answer == AnswerModel::Canceled(false) && !guarded && (
            run.step is Delay || run.step is Notification)
        }),
    ensures
        ({
            let t = s.after(answer, now);
            let run = s.activity.steps[s.index];
            &&& t.activity == s.activity
            &&& t.index == s.index
            &&& run.step is Shell || run.step is Delay ==> t.directive() is Perform
            &&& run.step is QuickAction && run.action is Some ==> t.directive() is Perform
            &&& run.step is QuickAction && run.action is None ==> t.directive()
                == DirectiveModel::Abort(ErrorModel::Invalid("quick action snapshot is missing"@))
            &&& run.step matches StepModel::Notification { title, body, .. } ==> {
                let first = template::rendered(title, s.activity.event.variables);
                let second = template::rendered(body, s.activity.event.variables);
                &&& first is Ok && second is Ok ==> t.directive() is Perform
                &&& first is Err ==> t.stage == StageModel::Verdict(
                    ResultModel {
                        exit_code: None,
                        stdout: Seq::empty(),
                        stderr: Seq::empty(),
                        error: Some(first->Err_0.message()),
                    },
                )
                &&& first is Ok && second is Err ==> t.stage == StageModel::Verdict(
                    ResultModel {
                        exit_code: None,
                        stdout: Seq::empty(),
                        stderr: Seq::empty(),
                        error: Some(second->Err_0.message()),
                    },
                )
            }
        }),
{
}

proof fn lemma_short_text_fits(t: Seq<char>)
    requires
        t.len() <= 1000,
    ensures
        text::fitting(t, OUTPUT_LIMIT as nat) == t,
{
    text::lemma_byte_len_at_most(t);
    text::law_fitting(t, OUTPUT_LIMIT as nat);
}

/// A step that needs an unlocked session and finds it locked fails, and with it the run, with that as
/// the reason.
pub proof fn law_locked_session_fails_the_step(
    s: ExecutionModel,
    now: Timestamp,
    later: Timestamp,
)
    requires
        s.stage is Session,
        0 <= s.index < s.activity.steps.len(),
    ensures
        ({
            let t = s.after(AnswerModel::Locked(true), now).after(
                AnswerModel::Canceled(false),
                later,
            );
            let why = "the system is locked; this action requires an unlocked graphical session"@;
            &&& t.directive() is Finish
            &&& t.activity.status == ActivityStatus::Failed
            &&& t.activity.reason == Some(why)
            &&& t.activity.steps[s.index].status == ActivityStatus::Failed
            &&& t.activity.steps[s.index].result.error == Some(why)
        }),
{
    reveal_strlit("the system is locked; this action requires an unlocked graphical session");
    lemma_short_text_fits(
        "the system is locked; this action requires an unlocked graphical session"@,
    );
}

/// The result of a step is what was performed gave back, and is looked at once more before it counts:
/// without an error the step has succeeded, with one it has failed, and where the run was canceled
/// meanwhile the step is canceled. What is stored of the result are its exit code and its texts, each
/// up to 65536 bytes, and it changes no other step that had its turn.
pub proof fn law_results_decide(
    s: ExecutionModel,
    result: ResultModel,
    canceled: bool,
    now: Timestamp,
    later: Timestamp,
)
    requires
        s.stage is Outcome,
        0 <= s.index < s.activity.steps.len(),
    ensures
        ({
            let told = s.after(AnswerModel::Result(result), now);
            let t = told.after(AnswerModel::Canceled(canceled), later);
            let step = t.activity.steps[s.index];
            let kept = |text: Seq<char>| text::fitting(text, 65536);
            &&& told.activity == s.activity
            &&& told.directive() is CheckCanceled
            &&& t.index == s.index
            &&& canceled ==> step.status == ActivityStatus::Canceled
            &&& !canceled && result.error is Some ==> step.status == ActivityStatus::Failed
            &&& !canceled && result.error is None ==> step.status == ActivityStatus::Succeeded
            &&& step.result.exit_code == result.exit_code
            &&& step.result.stdout == kept(result.stdout)
            &&& step.result.stderr == kept(result.stderr)
            &&& result.error is Some ==> step.result.error == Some(kept(result.error->0))
            &&& result.error is None ==> step.result.error is None
            &&& step.finished_at == Some(later)
            &&& step.started_at == s.activity.steps[s.index].started_at
            &&& step.status == ActivityStatus::Succeeded ==> {
                &&& t.directive() is StoreProgress
                &&& t.activity == (ActivityModel { steps: t.activity.steps, ..s.activity })
                &&& forall|j: int|
                    0 <= j < s.activity.steps.len() && j != s.index
                        ==> #[trigger] t.activity.steps[j] == s.activity.steps[j]
            }
            &&& step.status != ActivityStatus::Succeeded ==> {
                &&& t.directive() is Finish
                &&& t.activity.status == step.status
                &&& t.activity.reason == step.result.error
                &&& t.activity.finished_at == Some(later)
            }
        }),
{
    let t = s.after(AnswerModel::Result(result), now).after(AnswerModel::Canceled(canceled), later);
    let judged = execution::judged(s.activity, s.index, result, canceled, later);
    assert(judged.steps[s.index].status == execution::verdict(result, canceled));
    assert(t.activity.steps[s.index] == judged.steps[s.index]);
}

/// An execution that is let in, or has stored its progress, goes on with the first step from there
/// that has not succeeded. Where there is none it ends: the activity has succeeded, and its steps are
/// as they were.
pub proof fn law_first_pending_step_is_next(s: ExecutionModel, k: int, now: Timestamp)
    requires
        s.stage is Permit || s.stage is Progress,
        s.stage is Progress ==> 0 <= s.index < k,
        0 <= k <= s.activity.steps.len(),
        forall|j: int|
            (if s.stage is Permit {
                0
            } else {
                s.index + 1
            }) <= j < k ==> (#[trigger] s.activity.steps[j]).status == ActivityStatus::Succeeded,
        k < s.activity.steps.len() ==> s.activity.steps[k].status != ActivityStatus::Succeeded,
    ensures
        ({
            let t = if s.stage is Permit {
                s.after(AnswerModel::Permit(true), now)
            } else {
                s.after(AnswerModel::Done, now)
            };
            &&& k < s.activity.steps.len() ==> {
                &&& t.directive() is CheckCanceled
                &&& t.stage is Turn
                &&& t.index == k
                &&& t.activity == s.activity
            }
            &&& k == s.activity.steps.len() ==> {
                &&& t.directive() is Finish
                &&& t.activity.finished_at == Some(now)
                &&& s.activity.status == ActivityStatus::Queued || s.activity.status
                    == ActivityStatus::Running ==> t.activity.status == ActivityStatus::Succeeded
                &&& s.activity.status != ActivityStatus::Queued && s.activity.status
                    != ActivityStatus::Running ==> t.activity.status == s.activity.status
                &&& t.activity.reason == s.activity.reason
                &&& t.activity.steps.len() == s.activity.steps.len()
                &&& forall|j: int|
                    0 <= j < s.activity.steps.len() && (#[trigger] s.activity.steps[j]).status
                        == ActivityStatus::Succeeded ==> t.activity.steps[j] == s.activity.steps[j]
            }
        }),
{
    let from = if s.stage is Permit {
        0
    } else {
        s.index + 1
    };
    lemma_next_pending(s.activity.steps, from);
    let next = execution::next_pending(s.activity.steps, from);
    if next < k {
        assert(s.activity.steps[next].status == ActivityStatus::Succeeded);
    }
    if k < next {
        assert(s.activity.steps[k].status == ActivityStatus::Succeeded);
    }
}

/// A run that is canceled between or in front of its steps ends at once: every step that waits or is
/// under way is canceled and says so, and every other step stays as it is. One that is canceled before
/// it is let in keeps all its steps.
pub proof fn law_canceled_runs(s: ExecutionModel, now: Timestamp, j: int)
    requires
        s.stage is Turn || s.stage is Gate || s.stage is Start || s.stage is Permit,
        0 <= j < s.activity.steps.len(),
    ensures
        ({
            let t = if s.stage is Permit {
                s.after(AnswerModel::Permit(false), now)
            } else {
                s.after(AnswerModel::Canceled(true), now)
            };
            let before = s.activity.steps[j];
            let open = before.status == ActivityStatus::Queued || before.status
                == ActivityStatus::Running;
            &&& t.directive() is Finish
            &&& t.activity == (ActivityModel {
                status: ActivityStatus::Canceled,
                finished_at: Some(now),
                steps: t.activity.steps,
                ..s.activity
            })
            &&& t.activity.steps.len() == s.activity.steps.len()
            &&& s.stage is Permit || !open ==> t.activity.steps[j] == before
            &&& !(s.stage is Permit) && open ==> t.activity.steps[j] == (StepRunModel {
                status: ActivityStatus::Canceled,
                finished_at: Some(now),
                result: ResultModel { error: Some("run canceled"@), ..before.result },
                ..before
            })
        }),
{
}

/// Behind a step that fails, every step that waits is skipped and says that it was not run because
/// of that; where the run was canceled meanwhile, every such step is canceled and says so. Steps that
/// do not wait stay as they are.
pub proof fn law_steps_behind_the_last(
    s: ExecutionModel,
    result: ResultModel,
    canceled: bool,
    now: Timestamp,
    j: int,
)
    requires
        s.stage == StageModel::Verdict(result),
        canceled || result.error is Some,
        0 <= s.index < s.activity.steps.len(),
        0 <= j < s.activity.steps.len(),
        j != s.index,
    ensures
        ({
            let t = s.after(AnswerModel::Canceled(canceled), now);
            let before = s.activity.steps[j];
            let open = before.status == ActivityStatus::Queued || before.status
                == ActivityStatus::Running;
            &&& open && !canceled ==> t.activity.steps[j] == (StepRunModel {
                status: ActivityStatus::Skipped,
                finished_at: Some(now),
                result: ResultModel {
                    error: Some(
                        "subsequent actions were not run because the previous action did not succeed"@,
                    ),
                    ..before.result
                },
                ..before
            })
            &&& open && canceled ==> t.activity.steps[j] == (StepRunModel {
                status: ActivityStatus::Canceled,
                finished_at: Some(now),
                result: ResultModel { error: Some("run canceled"@), ..before.result },
                ..before
            })
            &&& !open ==> t.activity.steps[j] == before
        }),
{
    let judged = execution::judged(s.activity, s.index, result, canceled, now);
    assert(judged.steps[j] == s.activity.steps[j]);
}

/// No more than sixteen activities are executed at a time, and an execution that waits is let in
/// wherever fewer are.
pub proof fn law_sixteen_places(moves: Seq<Move>, index: int, now: Timestamp)
    ensures
        occupied(after_moves(moves)) <= 16,
        occupied(after_moves(moves)) < 16 && 0 <= index < after_moves(moves).len() && after_moves(
            moves,
        )[index].stage is Permit ==> !(moved(
            after_moves(moves),
            Move::Answer { index, answer: AnswerModel::Permit(true), now },
        )[index].stage is Permit),
{
    lemma_occupied_is_bounded(moves);
}

} // verus!
