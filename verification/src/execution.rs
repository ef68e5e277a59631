//! Executing an activity: which step comes next, what it needs, and how the run ends.
//!
//! An [`Execution`] says with a [`Directive`] what is to be done next. Whoever drives it does that
//! and hands the answer to [`Execution::advance`].

use crate::error::{AutomationError, ErrorModel};
use crate::model::{
    ActionSnapshot, ActivityModel, ActivityStatus, AutomationActivity, AutomationEvent,
    AutomationStep, EventModel,    ResultModel, ShellKind, SnapshotModel, StepModel, StepResult, StepRun, StepRunModel,
};
use crate::template;
use crate::text;
use crate::time::Timestamp;
use vstd::prelude::*;

verus! {

/// How many activities are executed at a time.
pub const MAX_EXECUTING: usize = 16;

/// What an execution waits for.
#[derive(Debug)]
pub enum Stage {
    /// A free place among the executing activities.
    Permit,
    /// Whether the run was canceled before the current step.
    Turn,
    /// Whether the run was canceled, while nothing can cancel or confirm it.
    Gate,
    /// Whether the run was canceled once the current step is stored as running.
    Start,
    /// That the origin of what the step may cause is on record.
    Origin,
    /// Whether the session is locked.
    Session,
    /// The result of the current step.
    Outcome,
    /// Whether the run was canceled by the time the step gave its result.
    Verdict(StepResult),
    /// That the progress is stored.
    Progress,
    /// Nothing: the activity waits for a confirmation.
    Suspended,
    /// Nothing: the activity is finished.
    Finished,
    /// Nothing: the current step has lost its quick action.
    Aborted,
}

pub enum StageModel {
    Permit,
    Turn,
    Gate,
    Start,
    Origin,
    Session,
    Outcome,
    Verdict(ResultModel),
    Progress,
    Suspended,
    Finished,
    Aborted,
}

impl View for Stage {
    type V = StageModel;

    open spec fn view(&self) -> StageModel {
        match self {
            Stage::Permit => StageModel::Permit,
            Stage::Turn => StageModel::Turn,
            Stage::Gate => StageModel::Gate,
            Stage::Start => StageModel::Start,
            Stage::Origin => StageModel::Origin,
            Stage::Session => StageModel::Session,
            Stage::Outcome => StageModel::Outcome,
            Stage::Verdict(result) => StageModel::Verdict(result@),
            Stage::Progress => StageModel::Progress,
            Stage::Suspended => StageModel::Suspended,
            Stage::Finished => StageModel::Finished,
            Stage::Aborted => StageModel::Aborted,
        }
    }
}

/// The answer to a directive.
#[derive(Debug)]
pub enum Answer {
    /// Whether a place among the executing activities was found before the run was canceled.
    Permit(bool),
    /// Whether the run was canceled.
    Canceled(bool),
    /// Whether the session is locked.
    Locked(bool),
    /// The result of the current step.
    Result(StepResult),
    /// What was asked for is done.
    Done,
}

pub enum AnswerModel {
    Permit(bool),
    Canceled(bool),
    Locked(bool),
    Result(ResultModel),
    Done,
}

impl View for Answer {
    type V = AnswerModel;

    open spec fn view(&self) -> AnswerModel {
        match self {
            Answer::Permit(granted) => AnswerModel::Permit(*granted),
            Answer::Canceled(canceled) => AnswerModel::Canceled(*canceled),
            Answer::Locked(locked) => AnswerModel::Locked(*locked),
            Answer::Result(result) => AnswerModel::Result(result@),
            Answer::Done => AnswerModel::Done,
        }
    }
}

/// An activity that is being executed.
#[derive(Debug)]
pub struct Execution {
    activity: AutomationActivity,
    index: usize,
    stage: Stage,
}

#[verifier::ext_equal]
pub struct ExecutionModel {
    pub activity: ActivityModel,
    pub index: int,
    pub stage: StageModel,
}

impl View for Execution {
    type V = ExecutionModel;

    closed spec fn view(&self) -> ExecutionModel {
        ExecutionModel {
            activity: self.activity@,
            index: self.index as int,
            stage: self.stage@,
        }
    }
}

impl StageModel {
    /// A step is under way.
    pub open spec fn has_step(self) -> bool {
        match self {
            StageModel::Permit | StageModel::Finished => false,
            _ => true,
        }
    }

    /// Nothing more is awaited.
    pub open spec fn is_last(self) -> bool {
        self is Suspended || self is Finished || self is Aborted
    }
}

/// The first step from `from` on that has not succeeded; the number of steps where all have.
pub open spec fn next_pending(steps: Seq<StepRunModel>, from: int) -> int
    decreases steps.len() - from,
{
    if from < 0 || from >= steps.len() {
        steps.len() as int
    } else if steps[from].status != ActivityStatus::Succeeded {
        from
    } else {
        next_pending(steps, from + 1)
    }
}

/// A step as the end of the run leaves it: one that was not run to its end says why.
pub open spec fn closed_step(
    run: StepRunModel,
    status: ActivityStatus,
    now: Timestamp,
) -> StepRunModel {
    if run.status == ActivityStatus::Queued || run.status == ActivityStatus::Running {
        let canceled = status == ActivityStatus::Canceled;
        StepRunModel {
            status: if canceled {
                ActivityStatus::Canceled
            } else {
                ActivityStatus::Skipped
            },
            result: ResultModel {
                error: Some(
                    if canceled {
                        "run canceled"@
                    } else {
                        "subsequent actions were not run because the previous action did not succeed"@
                    },
                ),
                ..run.result
            },
            finished_at: Some(now),
            ..run
        }
    } else {
        run
    }
}

/// The status with which a run ends: one that was not stopped has succeeded.
pub open spec fn closing_status(status: ActivityStatus) -> ActivityStatus {
    if status == ActivityStatus::Running || status == ActivityStatus::Queued {
        ActivityStatus::Succeeded
    } else {
        status
    }
}

/// The activity as the end of the run leaves it.
pub open spec fn closed(activity: ActivityModel, now: Timestamp) -> ActivityModel {
    let status = closing_status(activity.status);
    ActivityModel {
        status,
        steps: activity.steps.map_values(|run: StepRunModel| closed_step(run, status, now)),
        finished_at: Some(now),
        ..activity
    }
}

/// The end of a run.
pub open spec fn finish(activity: ActivityModel, index: int, now: Timestamp) -> ExecutionModel {
    ExecutionModel { activity: closed(activity, now), index, stage: StageModel::Finished }
}

/// The end of a canceled run.
pub open spec fn finish_canceled(activity: ActivityModel, index: int, now: Timestamp) -> ExecutionModel {
    finish(ActivityModel { status: ActivityStatus::Canceled, ..activity }, index, now)
}

/// On to the first step from `from` on that has not succeeded, or to the end of the run.
pub open spec fn proceed(activity: ActivityModel, from: int, now: Timestamp) -> ExecutionModel {
    let index = next_pending(activity.steps, from);
    if index < activity.steps.len() {
        ExecutionModel { activity, index, stage: StageModel::Turn }
    } else {
        finish(activity, index, now)
    }
}

/// The step is a dangerous quick action that nobody confirmed.
pub open spec fn must_ask(activity: ActivityModel, index: int) -> bool {
    &&& activity.steps[index].action is Some
    &&& activity.steps[index].action->0.requires_confirmation
    &&& !activity.is_confirmed(index)
}

/// The step may cause events that carry the automation's mark.
pub open spec fn leaves_origin(step: StepModel) -> bool {
    step is QuickAction || step is Shell
}

/// The step needs an unlocked session.
pub open spec fn must_be_unlocked(run: StepRunModel) -> bool {
    run.action is Some && run.action->0.requires_unlocked_session
}

/// The activity with the step at `index` replaced.
pub open spec fn with_step(
    activity: ActivityModel,
    index: int,
    run: StepRunModel,
) -> ActivityModel {
    ActivityModel { steps: activity.steps.update(index, run), ..activity }
}

/// The activity with the step at `index` under way.
pub open spec fn started(activity: ActivityModel, index: int, now: Timestamp) -> ActivityModel {
    let run = StepRunModel {
        status: ActivityStatus::Running,
        started_at: Some(now),
        ..activity.steps[index]
    };
    with_step(
        ActivityModel { status: ActivityStatus::Running, reason: None, ..activity },
        index,
        run,
    )
}

/// The activity with the step at `index` waiting for a confirmation.
pub open spec fn suspended(activity: ActivityModel, index: int) -> ActivityModel {
    let run = StepRunModel {
        status: ActivityStatus::AwaitingConfirmation,
        ..activity.steps[index]
    };
    let reason = "confirm action "@ + text::decimal((index + 1) as nat) + ": "@
        + activity.steps[index].action->0.name;
    with_step(
        ActivityModel {
            status: ActivityStatus::AwaitingConfirmation,
            reason: Some(reason),
            ..activity
        },
        index,
        run,
    )
}

/// How a step ended.
pub open spec fn verdict(result: ResultModel, canceled: bool) -> ActivityStatus {
    if canceled {
        ActivityStatus::Canceled
    } else if result.error is Some {
        ActivityStatus::Failed
    } else {
        ActivityStatus::Succeeded
    }
}

/// The activity with the result of the step at `index`. A step that did not succeed decides how
/// the run ends.
pub open spec fn judged(
    activity: ActivityModel,
    index: int,
    result: ResultModel,
    canceled: bool,
    now: Timestamp,
) -> ActivityModel {
    let status = verdict(result, canceled);
    let run = StepRunModel {
        result: result.cut(),
        status,
        finished_at: Some(now),
        ..activity.steps[index]
    };
    let after = with_step(activity, index, run);
    if status == ActivityStatus::Succeeded {
        after
    } else {
        ActivityModel { status, reason: result.cut().error, ..after }
    }
}

/// The title and the body of a notification, filled in for the event; the first error where one of
/// them cannot be.
pub open spec fn notification_texts(title: Seq<char>, body: Seq<char>, event: EventModel) -> Result<
    (Seq<char>, Seq<char>),
    ErrorModel,
> {
    match template::rendered(title, event.variables) {
        Err(e) => Err(e),
        Ok(title) => match template::rendered(body, event.variables) {
            Err(e) => Err(e),
            Ok(body) => Ok((title, body)),
        },
    }
}

/// The stage in which the step is performed, where it can be.
pub open spec fn perform_stage(activity: ActivityModel, index: int) -> StageModel {
    let run = activity.steps[index];
    match run.step {
        StepModel::QuickAction { .. } => if run.action is Some {
            StageModel::Outcome
        } else {
            StageModel::Aborted
        },
        StepModel::Notification { title, body, .. } => match notification_texts(
            title,
            body,
            activity.event,
        ) {
            Ok(_) => StageModel::Outcome,
            Err(e) => StageModel::Verdict(ResultModel::failure(e.message())),
        },
        _ => StageModel::Outcome,
    }
}

/// The stage once the origin is on record, or need not be.
pub open spec fn session_stage(activity: ActivityModel, index: int) -> StageModel {
    if must_be_unlocked(activity.steps[index]) {
        StageModel::Session
    } else {
        perform_stage(activity, index)
    }
}

/// The result of a step that needs an unlocked session and finds it locked.
pub open spec fn locked_result() -> ResultModel {
    ResultModel::failure(
        "the system is locked; this action requires an unlocked graphical session"@,
    )
}

impl ExecutionModel {
    /// The execution of an activity at its beginning.
    pub open spec fn initial(activity: ActivityModel) -> ExecutionModel {
        ExecutionModel { activity, index: 0, stage: StageModel::Permit }
    }

    /// The answer is one to what the execution waits for.
    pub open spec fn accepts(self, answer: AnswerModel) -> bool {
        match self.stage {
            StageModel::Permit => answer is Permit,
            StageModel::Turn | StageModel::Gate | StageModel::Start | StageModel::Verdict(_) =>
                answer is Canceled,
            StageModel::Origin | StageModel::Progress => answer is Done,
            StageModel::Session => answer is Locked,
            StageModel::Outcome => answer is Result,
            StageModel::Suspended | StageModel::Finished | StageModel::Aborted => false,
        }
    }

    /// The execution after an answer, which came at `now`.
    pub open spec fn after(self, answer: AnswerModel, now: Timestamp) -> ExecutionModel {
        let activity = self.activity;
        let index = self.index;
        match (self.stage, answer) {
            (StageModel::Permit, AnswerModel::Permit(granted)) => if granted {
                proceed(activity, 0, now)
            } else {
                ExecutionModel {
                    activity: ActivityModel {
                        status: ActivityStatus::Canceled,
                        finished_at: Some(now),
                        ..activity
                    },
                    stage: StageModel::Finished,
                    ..self
                }
            },
            (StageModel::Turn, AnswerModel::Canceled(canceled)) => if canceled {
                finish_canceled(activity, index, now)
            } else if must_ask(activity, index) {
                ExecutionModel { stage: StageModel::Gate, ..self }
            } else {
                ExecutionModel {
                    activity: started(activity, index, now),
                    index,
                    stage: StageModel::Start,
                }
            },
            (StageModel::Gate, AnswerModel::Canceled(canceled)) => if canceled {
                finish_canceled(activity, index, now)
            } else {
                ExecutionModel {
                    activity: suspended(activity, index),
                    index,
                    stage: StageModel::Suspended,
                }
            },
            (StageModel::Start, AnswerModel::Canceled(canceled)) => if canceled {
                finish_canceled(activity, index, now)
            } else if leaves_origin(activity.steps[index].step) {
                ExecutionModel { stage: StageModel::Origin, ..self }
            } else {
                ExecutionModel { stage: session_stage(activity, index), ..self }
            },
            (StageModel::Origin, AnswerModel::Done) => ExecutionModel {
                stage: session_stage(activity, index),
                ..self
            },
            (StageModel::Session, AnswerModel::Locked(locked)) => if locked {
                ExecutionModel { stage: StageModel::Verdict(locked_result()), ..self }
            } else {
                ExecutionModel { stage: perform_stage(activity, index), ..self }
            },
            (StageModel::Outcome, AnswerModel::Result(result)) => ExecutionModel {
                stage: StageModel::Verdict(result),
                ..self
            },
            (StageModel::Verdict(result), AnswerModel::Canceled(canceled)) => {
                let judged = judged(activity, index, result, canceled, now);
                if verdict(result, canceled) == ActivityStatus::Succeeded {
                    ExecutionModel { activity: judged, index, stage: StageModel::Progress }
                } else {
                    finish(judged, index, now)
                }
            },
            (StageModel::Progress, AnswerModel::Done) => proceed(activity, index + 1, now),
            _ => self,
        }
    }
}

/// What a step asks to be done.
#[derive(Debug)]
pub enum Task<'a> {
    Action(&'a ActionSnapshot),
    Shell {
        shell: ShellKind,
        script: &'a str,
        working_directory: Option<&'a str>,
        timeout_seconds: u32,
    },
    Delay { duration_seconds: u64 },
    Notify { title: String, body: String, send_to_connected_devices: bool },
}

#[verifier::ext_equal]
pub enum TaskModel {
    Action(SnapshotModel),
    Shell {
        shell: ShellKind,
        script: Seq<char>,
        working_directory: Option<Seq<char>>,
        timeout_seconds: nat,
    },
    Delay { duration_seconds: nat },
    Notify { title: Seq<char>, body: Seq<char>, send_to_connected_devices: bool },
}

impl<'a> View for Task<'a> {
    type V = TaskModel;

    open spec fn view(&self) -> TaskModel {
        match *self {
            Task::Action(action) => TaskModel::Action(action@),
            Task::Shell { shell, script, working_directory, timeout_seconds } => TaskModel::Shell {
                shell,
                script: script@,
                working_directory: match working_directory {
                    Some(directory) => Some(directory@),
                    None => None,
                },
                timeout_seconds: timeout_seconds as nat,
            },
            Task::Delay { duration_seconds } => TaskModel::Delay {
                duration_seconds: duration_seconds as nat,
            },
            Task::Notify { title, body, send_to_connected_devices } => TaskModel::Notify {
                title: title@,
                body: body@,
                send_to_connected_devices,
            },
        }
    }
}

/// What is to be done next.
#[derive(Debug)]
pub enum Directive<'a> {
    /// Wait for a place among the executing activities, or for the run to be canceled.
    AwaitPermit,
    /// Find out whether the run was canceled.
    CheckCanceled,
    /// Keep others from canceling or confirming, then find out whether the run was canceled. What
    /// follows is done before others may go on.
    HoldGate,
    /// Store the activity, then find out whether the run was canceled.
    StoreStart,
    /// Put on record that what happens next is caused by the automation.
    RecordOrigin,
    /// Find out whether the session is locked.
    ReadSession,
    /// Perform the step.
    Perform(Task<'a>),
    /// Store the activity and go on.
    StoreProgress,
    /// Store the activity and stop: it waits for a confirmation.
    Suspend,
    /// Store the activity and stop: it is finished.
    Finish,
    /// Stop with an error.
    Abort(AutomationError),
}

#[verifier::ext_equal]
pub enum DirectiveModel {
    AwaitPermit,
    CheckCanceled,
    HoldGate,
    StoreStart,
    RecordOrigin,
    ReadSession,
    Perform(TaskModel),
    StoreProgress,
    Suspend,
    Finish,
    Abort(ErrorModel),
}

impl<'a> View for Directive<'a> {
    type V = DirectiveModel;

    open spec fn view(&self) -> DirectiveModel {
        match *self {
            Directive::AwaitPermit => DirectiveModel::AwaitPermit,
            Directive::CheckCanceled => DirectiveModel::CheckCanceled,
            Directive::HoldGate => DirectiveModel::HoldGate,
            Directive::StoreStart => DirectiveModel::StoreStart,
            Directive::RecordOrigin => DirectiveModel::RecordOrigin,
            Directive::ReadSession => DirectiveModel::ReadSession,
            Directive::Perform(task) => DirectiveModel::Perform(task@),
            Directive::StoreProgress => DirectiveModel::StoreProgress,
            Directive::Suspend => DirectiveModel::Suspend,
            Directive::Finish => DirectiveModel::Finish,
            Directive::Abort(error) => DirectiveModel::Abort(error@),
        }
    }
}

/// What the step at `index` asks to be done.
pub open spec fn task(activity: ActivityModel, index: int) -> TaskModel {
    let run = activity.steps[index];
    match run.step {
        StepModel::QuickAction { .. } => TaskModel::Action(run.action->0),
        StepModel::Shell { shell, script, working_directory, timeout_seconds } => TaskModel::Shell {
            shell,
            script,
            working_directory,
            timeout_seconds,
        },
        StepModel::Delay { duration_seconds } => TaskModel::Delay { duration_seconds },
        StepModel::Notification { title, body, send_to_connected_devices } => {
            let texts = notification_texts(title, body, activity.event)->Ok_0;
            TaskModel::Notify { title: texts.0, body: texts.1, send_to_connected_devices }
        },
    }
}

impl ExecutionModel {
    /// What is to be done next.
    pub open spec fn directive(self) -> DirectiveModel {
        match self.stage {
            StageModel::Permit => DirectiveModel::AwaitPermit,
            StageModel::Turn => DirectiveModel::CheckCanceled,
            StageModel::Gate => DirectiveModel::HoldGate,
            StageModel::Start => DirectiveModel::StoreStart,
            StageModel::Origin => DirectiveModel::RecordOrigin,
            StageModel::Session => DirectiveModel::ReadSession,
            StageModel::Outcome => DirectiveModel::Perform(task(self.activity, self.index)),
            StageModel::Verdict(_) => DirectiveModel::CheckCanceled,
            StageModel::Progress => DirectiveModel::StoreProgress,
            StageModel::Suspended => DirectiveModel::Suspend,
            StageModel::Finished => DirectiveModel::Finish,
            StageModel::Aborted => DirectiveModel::Abort(
                ErrorModel::Invalid("quick action snapshot is missing"@),
            ),
        }
    }

    /// The current step exists, and is what the stage says.
    pub open spec fn wf(self) -> bool {
        &&& self.stage.has_step() ==> 0 <= self.index < self.activity.steps.len()
        &&& self.stage is Gate ==> must_ask(self.activity, self.index)
        &&& self.stage is Outcome ==> perform_stage(self.activity, self.index) is Outcome
    }
}

/// The first step from `from` on that has not succeeded.
fn find_pending(steps: &Vec<StepRun>, from: usize) -> (r: usize)
    requires
        from <= steps@.len(),
    ensures
        r == next_pending(text::views(steps@), from as int),
        from <= r <= steps@.len(),
{
    let ghost models = text::views(steps@);
    let mut i: usize = from;
    while i < steps.len()
        invariant
            from <= i <= steps@.len(),
            models == text::views(steps@),
            next_pending(models, from as int) == next_pending(models, i as int),
        decreases steps@.len() - i,
    {
        assert(models[i as int] == steps@[i as int]@);
        if steps[i].status != ActivityStatus::Succeeded {
            return i;
        }
        i = i + 1;
    }
    i
}

/// Whether the step at `index` was confirmed.
fn is_step_confirmed(confirmed: &Vec<usize>, index: usize) -> (r: bool)
    ensures
        r == exists|k: int| 0 <= k < confirmed@.len() && confirmed@[k] as int == index as int,
{
    let mut i: usize = 0;
    while i < confirmed.len()
        invariant
            i <= confirmed@.len(),
            forall|k: int| 0 <= k < i ==> confirmed@[k] as int != index as int,
        decreases confirmed@.len() - i,
    {
        if confirmed[i] == index {
            assert(confirmed@[i as int] as int == index as int);
            return true;
        }
        i = i + 1;
    }
    false
}

/// Ends a step with its run.
fn close_step(run: &mut StepRun, status: ActivityStatus, now: Timestamp)
    ensures
        final(run)@ == closed_step(old(run)@, status, now),
{
    if run.status == ActivityStatus::Queued || run.status == ActivityStatus::Running {
        if status == ActivityStatus::Canceled {
            run.status = ActivityStatus::Canceled;
            run.result.error = Some("run canceled".to_owned());
        } else {
            run.status = ActivityStatus::Skipped;
            run.result.error = Some(
                "subsequent actions were not run because the previous action did not succeed".to_owned(),
            );
        }
        run.finished_at = Some(now);
    }
}

/// Ends a run.
fn close(activity: &mut AutomationActivity, now: Timestamp)
    ensures
        final(activity)@ == closed(old(activity)@, now),
{
    if activity.status == ActivityStatus::Running || activity.status == ActivityStatus::Queued {
        activity.status = ActivityStatus::Succeeded;
    }
    let status = activity.status;
    let ghost before = text::views(activity.steps@);
    let ghost after = before.map_values(|run: StepRunModel| closed_step(run, status, now));
    let ghost rest = activity@;
    let mut i: usize = 0;
    while i < activity.steps.len()
        invariant
            i <= activity.steps@.len(),
            activity.steps@.len() == before.len(),
            after == before.map_values(|run: StepRunModel| closed_step(run, status, now)),
            activity@ == (ActivityModel { steps: text::views(activity.steps@), ..rest }),
            text::views(activity.steps@) == after.take(i as int) + before.skip(i as int),
        decreases activity.steps@.len() - i,
    {
        let ghost steps = text::views(activity.steps@);
        assert(steps[i as int] == before[i as int]);
        assert(activity.steps@[i as int]@ == before[i as int]);
        close_step(&mut activity.steps[i], status, now);
        assert(text::views(activity.steps@) =~= steps.update(i as int, after[i as int]));
        assert(text::views(activity.steps@) =~= after.take(i + 1) + before.skip(i + 1));
        i = i + 1;
    }
    assert(text::views(activity.steps@) =~= after);
    activity.finished_at = Some(now);
    assert(activity@ =~= closed(old(activity)@, now));
}

/// Replaces the step at `index`.
proof fn lemma_views_update(before: Seq<StepRun>, after: Seq<StepRun>, index: int)
    requires
        0 <= index < before.len(),
        after == before.update(index, after[index]),
    ensures
        text::views(after) == text::views(before).update(index, after[index]@),
{
    assert(text::views(after) =~= text::views(before).update(index, after[index]@));
}

/// Puts the step at `index` under way.
fn start(activity: &mut AutomationActivity, index: usize, now: Timestamp)
    requires
        index < old(activity)@.steps.len(),
    ensures
        final(activity)@ == started(old(activity)@, index as int, now),
{
    let ghost before = activity.steps@;
    activity.status = ActivityStatus::Running;
    activity.reason = None;
    let run = &mut activity.steps[index];
    run.status = ActivityStatus::Running;
    run.started_at = Some(now);
    proof {
        lemma_views_update(before, activity.steps@, index as int);
    }
}

/// Makes the step at `index` wait for a confirmation.
fn suspend(activity: &mut AutomationActivity, index: usize)
    requires
        index < old(activity)@.steps.len(),
        old(activity)@.steps[index as int].action is Some,
    ensures
        final(activity)@ == suspended(old(activity)@, index as int),
{
    let ghost before = activity.steps@;
    assert(activity@.steps[index as int] == activity.steps@[index as int]@);
    let count = activity.steps.len();
    assert(index < count);
    let mut reason = "confirm action ".to_owned();
    reason.append(text::decimal_text((index + 1) as u64).as_str());
    reason.append(": ");
    if let Some(action) = &activity.steps[index].action {
        reason.append(action.name.as_str());
    }
    activity.status = ActivityStatus::AwaitingConfirmation;
    activity.reason = Some(reason);
    let run = &mut activity.steps[index];
    run.status = ActivityStatus::AwaitingConfirmation;
    proof {
        lemma_views_update(before, activity.steps@, index as int);
    }
}

/// Stores the result of the step at `index`. Returns whether the step succeeded.
fn judge(
    activity: &mut AutomationActivity,
    index: usize,
    result: StepResult,
    canceled: bool,
    now: Timestamp,
) -> (r: bool)
    requires
        index < old(activity)@.steps.len(),
    ensures
        final(activity)@ == judged(old(activity)@, index as int, result@, canceled, now),
        r == (verdict(result@, canceled) == ActivityStatus::Succeeded),
{
    let ghost before = activity.steps@;
    let status = if canceled {
        ActivityStatus::Canceled
    } else if result.error.is_some() {
        ActivityStatus::Failed
    } else {
        ActivityStatus::Succeeded
    };
    let result = result.bounded();
    let reason = match &result.error {
        Some(error) => Some(error.clone()),
        None => None,
    };
    let run = &mut activity.steps[index];
    run.result = result;
    run.status = status;
    run.finished_at = Some(now);
    proof {
        lemma_views_update(before, activity.steps@, index as int);
    }
    if status != ActivityStatus::Succeeded {
        activity.status = status;
        activity.reason = reason;
    }
    status == ActivityStatus::Succeeded
}

/// A notification whose texts are filled in.
fn render_notification(title: &str, body: &str, event: &AutomationEvent) -> (r: Result<
    (String, String),
    AutomationError,
>)
    ensures
        match r {
            Ok((t, b)) => notification_texts(title@, body@, event@) == Ok::<
                (Seq<char>, Seq<char>),
                ErrorModel,
            >((t@, b@)),
            Err(e) => notification_texts(title@, body@, event@) == Err::<
                (Seq<char>, Seq<char>),
                ErrorModel,
            >(e@),
        },
{
    match template::render_text(title, event) {
        Err(e) => Err(e),
        Ok(title) => match template::render_text(body, event) {
            Err(e) => Err(e),
            Ok(body) => Ok((title, body)),
        },
    }
}

/// The stage in which the step at `index` is performed, where it can be.
fn stage_to_perform(activity: &AutomationActivity, index: usize) -> (r: Stage)
    requires
        index < activity@.steps.len(),
    ensures
        r@ == perform_stage(activity@, index as int),
{
    let run = &activity.steps[index];
    assert(activity@.steps[index as int] == run@);
    match &run.step {
        AutomationStep::QuickAction { .. } => if run.action.is_some() {
            Stage::Outcome
        } else {
            Stage::Aborted
        },
        AutomationStep::Notification { title, body, .. } => match render_notification(
            title.as_str(),
            body.as_str(),
            &activity.event,
        ) {
            Ok(_) => Stage::Outcome,
            Err(e) => Stage::Verdict(StepResult::failure(e.message())),
        },
        _ => Stage::Outcome,
    }
}

/// The stage once the origin is on record, or need not be.
fn stage_behind_origin(activity: &AutomationActivity, index: usize) -> (r: Stage)
    requires
        index < activity@.steps.len(),
    ensures
        r@ == session_stage(activity@, index as int),
{
    assert(activity@.steps[index as int] == activity.steps@[index as int]@);
    let unlocked = match &activity.steps[index].action {
        Some(action) => action.requires_unlocked_session,
        None => false,
    };
    if unlocked {
        Stage::Session
    } else {
        stage_to_perform(activity, index)
    }
}

impl Execution {
    #[verifier::type_invariant]
    spec fn well_formed(self) -> bool {
        self@.wf()
    }

    /// The execution of an activity at its beginning.
    pub fn begin(activity: AutomationActivity) -> (r: Self)
        ensures
            r@ == ExecutionModel::initial(activity@),
            r@.wf(),
    {
        Execution { activity, index: 0, stage: Stage::Permit }
    }

    /// The activity as it stands.
    pub fn activity(&self) -> (r: &AutomationActivity)
        ensures
            r@ == self@.activity,
    {
        &self.activity
    }

    /// The position of the current step.
    pub fn index(&self) -> (r: usize)
        ensures
            r == self@.index,
    {
        self.index
    }

    /// Whether the answer is one to what the execution waits for.
    pub fn accepts(&self, answer: &Answer) -> (r: bool)
        ensures
            r == self@.accepts(answer@),
    {
        match (&self.stage, answer) {
            (Stage::Permit, Answer::Permit(_)) => true,
            (Stage::Turn, Answer::Canceled(_)) => true,
            (Stage::Gate, Answer::Canceled(_)) => true,
            (Stage::Start, Answer::Canceled(_)) => true,
            (Stage::Verdict(_), Answer::Canceled(_)) => true,
            (Stage::Origin, Answer::Done) => true,
            (Stage::Progress, Answer::Done) => true,
            (Stage::Session, Answer::Locked(_)) => true,
            (Stage::Outcome, Answer::Result(_)) => true,
            _ => false,
        }
    }

    /// On to the first step from `from` on that has not succeeded, or to the end of the run.
    fn proceed(activity: AutomationActivity, from: usize, now: Timestamp) -> (r: Self)
        requires
            from <= activity@.steps.len(),
        ensures
            r@ == proceed(activity@, from as int, now),
    {
        let mut activity = activity;
        let index = find_pending(&activity.steps, from);
        if index < activity.steps.len() {
            Execution { activity, index, stage: Stage::Turn }
        } else {
            close(&mut activity, now);
            Execution { activity, index, stage: Stage::Finished }
        }
    }

    /// To the end of a canceled run.
    fn cancel(activity: AutomationActivity, index: usize, now: Timestamp) -> (r: Self)
        ensures
            r@ == finish_canceled(activity@, index as int, now),
    {
        let mut activity = activity;
        activity.status = ActivityStatus::Canceled;
        close(&mut activity, now);
        Execution { activity, index, stage: Stage::Finished }
    }

    /// The current step's turn has come.
    fn take_turn(
        activity: AutomationActivity,
        index: usize,
        canceled: bool,
        now: Timestamp,
    ) -> (r: Self)
        requires
            index < activity@.steps.len(),
        ensures
            r@ == (ExecutionModel {
                activity: activity@,
                index: index as int,
                stage: StageModel::Turn,
            }).after(AnswerModel::Canceled(canceled), now),
    {
        let mut activity = activity;
        if canceled {
            return Execution::cancel(activity, index, now);
        }
        assert(activity@.steps[index as int] == activity.steps@[index as int]@);
        let dangerous = match &activity.steps[index].action {
            Some(action) => action.requires_confirmation,
            None => false,
        };
        if dangerous && !is_step_confirmed(&activity.confirmed_steps, index) {
            Execution { activity, index, stage: Stage::Gate }
        } else {
            start(&mut activity, index, now);
            Execution { activity, index, stage: Stage::Start }
        }
    }

    /// A dangerous step is about to ask, and nothing can cancel or confirm meanwhile.
    fn ask(activity: AutomationActivity, index: usize, canceled: bool, now: Timestamp) -> (r: Self)
        requires
            index < activity@.steps.len(),
            must_ask(activity@, index as int),
        ensures
            r@ == (ExecutionModel {
                activity: activity@,
                index: index as int,
                stage: StageModel::Gate,
            }).after(AnswerModel::Canceled(canceled), now),
    {
        let mut activity = activity;
        if canceled {
            return Execution::cancel(activity, index, now);
        }
        suspend(&mut activity, index);
        Execution { activity, index, stage: Stage::Suspended }
    }

    /// The current step is stored as running.
    fn go_ahead(
        activity: AutomationActivity,
        index: usize,
        canceled: bool,
        now: Timestamp,
    ) -> (r: Self)
        requires
            index < activity@.steps.len(),
        ensures
            r@ == (ExecutionModel {
                activity: activity@,
                index: index as int,
                stage: StageModel::Start,
            }).after(AnswerModel::Canceled(canceled), now),
    {
        if canceled {
            return Execution::cancel(activity, index, now);
        }
        assert(activity@.steps[index as int] == activity.steps@[index as int]@);
        let marked = match &activity.steps[index].step {
            AutomationStep::QuickAction { .. } => true,
            AutomationStep::Shell { .. } => true,
            _ => false,
        };
        let stage = if marked {
            Stage::Origin
        } else {
            stage_behind_origin(&activity, index)
        };
        Execution { activity, index, stage }
    }

    /// It is known whether the session is locked.
    fn enter_session(activity: AutomationActivity, index: usize, locked: bool) -> (r: Self)
        requires
            index < activity@.steps.len(),
        ensures
            forall|now: Timestamp|
                r@ == #[trigger] (ExecutionModel {
                    activity: activity@,
                    index: index as int,
                    stage: StageModel::Session,
                }).after(AnswerModel::Locked(locked), now),
    {
        let stage = if locked {
            Stage::Verdict(
                StepResult::failure(
                    "the system is locked; this action requires an unlocked graphical session".to_owned(),
                ),
            )
        } else {
            stage_to_perform(&activity, index)
        };
        Execution { activity, index, stage }
    }

    /// The current step has its result.
    fn conclude(
        activity: AutomationActivity,
        index: usize,
        result: StepResult,
        canceled: bool,
        now: Timestamp,
    ) -> (r: Self)
        requires
            index < activity@.steps.len(),
        ensures
            r@ == (ExecutionModel {
                activity: activity@,
                index: index as int,
                stage: StageModel::Verdict(result@),
            }).after(AnswerModel::Canceled(canceled), now),
    {
        let mut activity = activity;
        if judge(&mut activity, index, result, canceled, now) {
            Execution { activity, index, stage: Stage::Progress }
        } else {
            close(&mut activity, now);
            Execution { activity, index, stage: Stage::Finished }
        }
    }

    /// Takes the answer to the current directive, which came at `now`.
    pub fn advance(self, answer: Answer, now: Timestamp) -> (r: Self)
        requires
            self@.accepts(answer@),
        ensures
            r@ == self@.after(answer@, now),
            r@.wf(),
    {
        proof {
            use_type_invariant(&self);
        }
        let Execution { mut activity, index, stage } = self;
        let count = activity.steps.len();
        assert(stage@ is Progress ==> index < count);
        let r = match (stage, answer) {
            (Stage::Permit, Answer::Permit(granted)) => if granted {
                Execution::proceed(activity, 0, now)
            } else {
                activity.status = ActivityStatus::Canceled;
                activity.finished_at = Some(now);
                Execution { activity, index, stage: Stage::Finished }
            },
            (Stage::Turn, Answer::Canceled(canceled)) => Execution::take_turn(
                activity,
                index,
                canceled,
                now,
            ),
            (Stage::Gate, Answer::Canceled(canceled)) => Execution::ask(
                activity,
                index,
                canceled,
                now,
            ),
            (Stage::Start, Answer::Canceled(canceled)) => Execution::go_ahead(
                activity,
                index,
                canceled,
                now,
            ),
            (Stage::Origin, Answer::Done) => {
                let stage = stage_behind_origin(&activity, index);
                Execution { activity, index, stage }
            },
            (Stage::Session, Answer::Locked(locked)) => Execution::enter_session(
                activity,
                index,
                locked,
            ),
            (Stage::Outcome, Answer::Result(result)) => Execution {
                activity,
                index,
                stage: Stage::Verdict(result),
            },
            (Stage::Verdict(result), Answer::Canceled(canceled)) => Execution::conclude(
                activity,
                index,
                result,
                canceled,
                now,
            ),
            (Stage::Progress, Answer::Done) => Execution::proceed(activity, index + 1, now),
            (stage, _) => Execution { activity, index, stage },
        };
        proof {
            use_type_invariant(&r);
        }
        r
    }

    /// What is to be done next.
    pub fn directive(&self) -> (r: Directive<'_>)
        ensures
            r@ == self@.directive(),
    {
        proof {
            use_type_invariant(self);
        }
        match &self.stage {
            Stage::Permit => Directive::AwaitPermit,
            Stage::Turn => Directive::CheckCanceled,
            Stage::Gate => Directive::HoldGate,
            Stage::Start => Directive::StoreStart,
            Stage::Origin => Directive::RecordOrigin,
            Stage::Session => Directive::ReadSession,
            Stage::Outcome => {
                let run = &self.activity.steps[self.index];
                assert(self@.activity.steps[self.index as int] == run@);
                match &run.step {
                    AutomationStep::QuickAction { .. } => match &run.action {
                        Some(action) => Directive::Perform(Task::Action(action)),
                        None => Directive::Abort(
                            AutomationError::Invalid("quick action snapshot is missing".to_owned()),
                        ),
                    },
                    AutomationStep::Shell {
                        shell,
                        script,
                        working_directory,
                        timeout_seconds,
                    } => Directive::Perform(
                        Task::Shell {
                            shell: *shell,
                            script: script.as_str(),
                            working_directory: match working_directory {
                                Some(directory) => Some(directory.as_str()),
                                None => None,
                            },
                            timeout_seconds: *timeout_seconds,
                        },
                    ),
                    AutomationStep::Delay { duration_seconds } => Directive::Perform(
                        Task::Delay { duration_seconds: *duration_seconds },
                    ),
                    AutomationStep::Notification { title, body, send_to_connected_devices } =>
                    match render_notification(title.as_str(), body.as_str(), &self.activity.event) {
                        Ok((title, body)) => Directive::Perform(
                            Task::Notify {
                                title,
                                body,
                                send_to_connected_devices: *send_to_connected_devices,
                            },
                        ),
                        Err(error) => Directive::Abort(error),
                    },
                }
            },
            Stage::Verdict(_) => Directive::CheckCanceled,
            Stage::Progress => Directive::StoreProgress,
            Stage::Suspended => Directive::Suspend,
            Stage::Finished => Directive::Finish,
            Stage::Aborted => Directive::Abort(
                AutomationError::Invalid("quick action snapshot is missing".to_owned()),
            ),
        }
    }
}

} // verus!
