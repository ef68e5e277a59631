//! What happens to an activity outside its execution: confirmation, cancellation, interruption and
//! failure.

use crate::error::{invalid, AutomationError, ErrorModel};
use crate::model::{
    ActivityModel, ActivityStatus, AutomationActivity, RunMode, StepRun, StepRunModel,
};
use crate::text;
use crate::time::Timestamp;
use vstd::prelude::*;

verus! {

/// The first step that waits for a confirmation.
pub open spec fn first_awaiting(steps: Seq<StepRunModel>, from: int) -> Option<int>
    decreases steps.len() - from,
{
    if from < 0 || from >= steps.len() {
        None
    } else if steps[from].status == ActivityStatus::AwaitingConfirmation {
        Some(from)
    } else {
        first_awaiting(steps, from + 1)
    }
}

/// The activity with what was asked about confirmed: the run as a whole, where the definition asks
/// for it and it is not confirmed yet, else the step that waits.
pub open spec fn approved(activity: ActivityModel) -> ActivityModel {
    if !activity.run_confirmed && activity.definition.run_mode == RunMode::AskBeforeRun {
        ActivityModel { run_confirmed: true, ..activity }
    } else {
        match first_awaiting(activity.steps, 0) {
            Some(i) => ActivityModel {
                confirmed_steps: activity.confirmed_steps.push(activity.steps[i].index as usize),
                ..activity
            },
            None => activity,
        }
    }
}

/// What confirming an activity comes to.
pub open spec fn confirmation(activity: ActivityModel, locked: bool) -> Result<
    ActivityModel,
    ErrorModel,
> {
    if activity.status != ActivityStatus::AwaitingConfirmation {
        Err(ErrorModel::Invalid("this activity has already been handled"@))
    } else if locked {
        Err(ErrorModel::Invalid("unlock this computer before confirming the run"@))
    } else {
        Ok(
            ActivityModel {
                status: ActivityStatus::Queued,
                reason: None,
                ..approved(activity)
            },
        )
    }
}

/// The activity as a person's decision not to run it leaves it.
pub open spec fn skipped_by_user(activity: ActivityModel, now: Timestamp) -> ActivityModel {
    ActivityModel {
        status: ActivityStatus::Canceled,
        reason: Some("the user skipped this run"@),
        finished_at: Some(now),
        ..activity
    }
}

/// A step as a restart leaves it.
pub open spec fn interrupted_step(run: StepRunModel, now: Timestamp) -> StepRunModel {
    if run.status == ActivityStatus::Running {
        StepRunModel { status: ActivityStatus::Interrupted, finished_at: Some(now), ..run }
    } else {
        run
    }
}

/// An outstanding activity as a restart leaves it: one that waits for a confirmation still does.
pub open spec fn interrupted(activity: ActivityModel, now: Timestamp) -> ActivityModel {
    if activity.status == ActivityStatus::AwaitingConfirmation {
        activity
    } else {
        ActivityModel {
            status: ActivityStatus::Interrupted,
            reason: Some(
                "ArcRelay restarted and interrupted the previous run; completed actions will not run again automatically"@,
            ),
            finished_at: Some(now),
            steps: activity.steps.map_values(|run: StepRunModel| interrupted_step(run, now)),
            ..activity
        }
    }
}

/// An activity whose execution broke off with an error.
pub open spec fn broken_off(
    activity: ActivityModel,
    error: ErrorModel,
    now: Timestamp,
) -> ActivityModel {
    ActivityModel {
        status: ActivityStatus::Failed,
        reason: Some(error.message()),
        finished_at: Some(now),
        ..activity
    }
}

/// The first step that waits for a confirmation.
fn find_awaiting(steps: &Vec<StepRun>) -> (r: Option<usize>)
    ensures
        match r {
            Some(i) => first_awaiting(text::views(steps@), 0) == Some(i as int) && i < steps@.len(),
            None => first_awaiting(text::views(steps@), 0) is None,
        },
{
    let ghost models = text::views(steps@);
    let mut i: usize = 0;
    while i < steps.len()
        invariant
            i <= steps@.len(),
            models == text::views(steps@),
            first_awaiting(models, 0) == first_awaiting(models, i as int),
        decreases steps@.len() - i,
    {
        assert(models[i as int] == steps@[i as int]@);
        if steps[i].status == ActivityStatus::AwaitingConfirmation {
            return Some(i);
        }
        i = i + 1;
    }
    None
}

/// Confirms an activity that waits for it; `locked` tells whether the session is locked. Where
/// this fails the activity is unchanged, else it is to be stored and executed.
pub fn confirm(activity: &mut AutomationActivity, locked: bool) -> (r: Result<(), AutomationError>)
    ensures
        match r {
            Ok(()) => confirmation(old(activity)@, locked) == Ok::<ActivityModel, ErrorModel>(
                final(activity)@,
            ),
            Err(e) => confirmation(old(activity)@, locked) == Err::<ActivityModel, ErrorModel>(e@)
                && final(activity)@ == old(activity)@,
        },
{
    if activity.status != ActivityStatus::AwaitingConfirmation {
        return Err(invalid("this activity has already been handled"));
    }
    if locked {
        return Err(invalid("unlock this computer before confirming the run"));
    }
    if !activity.run_confirmed && activity.definition.run_mode == RunMode::AskBeforeRun {
        activity.run_confirmed = true;
    } else {
        if let Some(i) = find_awaiting(&activity.steps) {
            assert(activity@.steps[i as int] == activity.steps@[i as int]@);
            let index = activity.steps[i].index;
            activity.confirmed_steps.push(index);
        }
    }
    activity.status = ActivityStatus::Queued;
    activity.reason = None;
    Ok(())
}

/// What canceling an activity asks for.
#[derive(Debug, Clone, Copy, PartialEq, Eq, Structural)]
pub struct Cancellation {
    /// The running execution is to be told.
    pub signal: bool,
    /// The activity changed and is to be stored.
    pub store: bool,
}

/// What canceling an activity with the given status asks for.
pub open spec fn cancellation(status: ActivityStatus, executing: bool) -> Cancellation {
    Cancellation {
        signal: executing && !status.is_terminal(),
        store: !status.is_terminal() && (!executing || status
            == ActivityStatus::AwaitingConfirmation),
    }
}

/// The activity as canceling leaves it.
pub open spec fn canceled(activity: ActivityModel, executing: bool, now: Timestamp) -> ActivityModel {
    if cancellation(activity.status, executing).store {
        skipped_by_user(activity, now)
    } else {
        activity
    }
}

/// Cancels an activity; `executing` tells whether an execution of it is under way. An execution
/// ends the activity itself, unless it left it waiting for a confirmation.
pub fn cancel(activity: &mut AutomationActivity, executing: bool, now: Timestamp) -> (r:
    Cancellation)
    ensures
        r.signal == (executing && !old(activity)@.status.is_terminal()),
        r.store == (!old(activity)@.status.is_terminal() && (!executing || old(activity)@.status
            == ActivityStatus::AwaitingConfirmation)),
        final(activity)@ == (if r.store {
            skipped_by_user(old(activity)@, now)
        } else {
            old(activity)@
        }),
        r == cancellation(old(activity)@.status, executing),
        final(activity)@ == canceled(old(activity)@, executing, now),
{
    if activity.status.terminal() {
        return Cancellation { signal: false, store: false };
    }
    let store = !executing || activity.status == ActivityStatus::AwaitingConfirmation;
    if store {
        activity.status = ActivityStatus::Canceled;
        activity.reason = Some("the user skipped this run".to_owned());
        activity.finished_at = Some(now);
    }
    Cancellation { signal: executing, store }
}

fn interrupt_step(run: &mut StepRun, now: Timestamp)
    ensures
        final(run)@ == interrupted_step(old(run)@, now),
{
    if run.status == ActivityStatus::Running {
        run.status = ActivityStatus::Interrupted;
        run.finished_at = Some(now);
    }
}

/// Interrupts an outstanding activity that a restart finds. Returns whether it changed.
pub fn interrupt(activity: &mut AutomationActivity, now: Timestamp) -> (r: bool)
    ensures
        final(activity)@ == interrupted(old(activity)@, now),
        r == (old(activity)@.status != ActivityStatus::AwaitingConfirmation),
{
    if activity.status == ActivityStatus::AwaitingConfirmation {
        return false;
    }
    activity.status = ActivityStatus::Interrupted;
    activity.reason = Some(
        "ArcRelay restarted and interrupted the previous run; completed actions will not run again automatically".to_owned(),
    );
    activity.finished_at = Some(now);
    let ghost before = text::views(activity.steps@);
    let ghost after = before.map_values(|run: StepRunModel| interrupted_step(run, now));
    let ghost rest = activity@;
    let mut i: usize = 0;
    while i < activity.steps.len()
        invariant
            i <= activity.steps@.len(),
            activity.steps@.len() == before.len(),
            after == before.map_values(|run: StepRunModel| interrupted_step(run, now)),
            activity@ == (ActivityModel { steps: text::views(activity.steps@), ..rest }),
            text::views(activity.steps@) == after.take(i as int) + before.skip(i as int),
        decreases activity.steps@.len() - i,
    {
        let ghost steps = text::views(activity.steps@);
        assert(steps[i as int] == before[i as int]);
        assert(activity.steps@[i as int]@ == before[i as int]);
        interrupt_step(&mut activity.steps[i], now);
        assert(text::views(activity.steps@) =~= steps.update(i as int, after[i as int]));
        assert(text::views(activity.steps@) =~= after.take(i + 1) + before.skip(i + 1));
        i = i + 1;
    }
    assert(text::views(activity.steps@) =~= after);
    true
}

/// The positions of those of the first `n` outstanding activities that a restart interrupts.
pub open spec fn interrupting(activities: Seq<ActivityModel>, n: nat) -> Seq<int>
    decreases n,
{
    if n == 0 {
        Seq::empty()
    } else {
        let rest = interrupting(activities, (n - 1) as nat);
        if activities[n - 1].status != ActivityStatus::AwaitingConfirmation {
            rest.push(n - 1)
        } else {
            rest
        }
    }
}

/// The outstanding activities as a restart leaves them.
pub open spec fn recovered(activities: Seq<ActivityModel>, now: Timestamp) -> Seq<ActivityModel> {
    activities.map_values(|a: ActivityModel| interrupted(a, now))
}

/// Interrupts the outstanding activities that a restart finds. Returns the positions of those that
/// changed and are to be stored.
pub fn recover(activities: &mut Vec<AutomationActivity>, now: Timestamp) -> (r: Vec<usize>)
    ensures
        text::views(final(activities)@) == recovered(text::views(old(activities)@), now),
        r@.map_values(|i: usize| i as int) == interrupting(
            text::views(old(activities)@),
            old(activities)@.len(),
        ),
        forall|k: int| 0 <= k < r@.len() ==> #[trigger] r@[k] < final(activities)@.len(),
{
    let ghost before = text::views(activities@);
    let ghost after = recovered(before, now);
    let mut changed: Vec<usize> = Vec::new();
    let mut i: usize = 0;
    while i < activities.len()
        invariant
            i <= activities@.len(),
            activities@.len() == before.len(),
            after == recovered(before, now),
            text::views(activities@) == after.take(i as int) + before.skip(i as int),
            changed@.map_values(|k: usize| k as int) == interrupting(before, i as nat),
            forall|k: int| 0 <= k < changed@.len() ==> #[trigger] changed@[k] < i,
        decreases activities@.len() - i,
    {
        let ghost models = text::views(activities@);
        assert(models[i as int] == before[i as int]);
        assert(activities@[i as int]@ == before[i as int]);
        let touched = interrupt(&mut activities[i], now);
        assert(text::views(activities@) =~= models.update(i as int, after[i as int]));
        assert(text::views(activities@) =~= after.take(i + 1) + before.skip(i + 1));
        if touched {
            let ghost positions = changed@.map_values(|k: usize| k as int);
            changed.push(i);
            assert(changed@.map_values(|k: usize| k as int) =~= positions.push(i as int));
        }
        i = i + 1;
    }
    assert(text::views(activities@) =~= after);
    changed
}

/// Fails an activity whose execution broke off with an error.
pub fn break_off(activity: &mut AutomationActivity, error: &AutomationError, now: Timestamp)
    ensures
        final(activity)@ == broken_off(old(activity)@, error@, now),
{
    activity.status = ActivityStatus::Failed;
    activity.reason = Some(error.message());
    activity.finished_at = Some(now);
}

/// Nothing can be confirmed while the session is locked, and nothing twice: what a confirmation
/// leaves cannot be confirmed again until it waits again.
pub proof fn law_confirmation_is_guarded(activity: ActivityModel, locked: bool)
    ensures
        confirmation(activity, true) is Err,
        confirmation(activity, false) is Ok <==> activity.status
            == ActivityStatus::AwaitingConfirmation,
        confirmation(activity, false) is Ok ==> confirmation(
            confirmation(activity, false)->Ok_0,
            locked,
        ) is Err,
{
}

/// Where a definition asks before it runs, the first confirmation is for the run alone: it confirms
/// no step, so that a dangerous one asks again.
pub proof fn law_run_confirmation_confirms_no_step(activity: ActivityModel)
    requires
        confirmation(activity, false) is Ok,
        activity.definition.run_mode == RunMode::AskBeforeRun,
        !activity.run_confirmed,
    ensures
        confirmation(activity, false)->Ok_0.run_confirmed,
        confirmation(activity, false)->Ok_0.confirmed_steps == activity.confirmed_steps,
{
}

/// An activity that was canceled while it waited stays canceled: it cannot be confirmed any more.
pub proof fn law_canceled_activity_cannot_be_confirmed(
    activity: ActivityModel,
    locked: bool,
    now: Timestamp,
)
    ensures
        skipped_by_user(activity, now).status.is_terminal(),
        confirmation(skipped_by_user(activity, now), locked) is Err,
{
}

/// A restart keeps what waits for a confirmation and ends everything else that is outstanding, for
/// good: it cannot be confirmed, no step goes on, and steps that were completed stay as they are.
pub proof fn law_recovery(activity: ActivityModel, now: Timestamp)
    ensures
        activity.status == ActivityStatus::AwaitingConfirmation ==> interrupted(activity, now)
            == activity,
        activity.status != ActivityStatus::AwaitingConfirmation ==> {
            let after = interrupted(activity, now);
            &&& after.status == ActivityStatus::Interrupted
            &&& after.finished_at == Some(now)
            &&& confirmation(after, false) is Err
            &&& forall|i: int|
                0 <= i < after.steps.len() ==> (#[trigger] after.steps[i]).status
                    != ActivityStatus::Running
            &&& forall|i: int|
                0 <= i < activity.steps.len() && (#[trigger] activity.steps[i]).status
                    != ActivityStatus::Running ==> after.steps[i] == activity.steps[i]
        },
{
}

/// Confirming, canceling and interrupting change neither the definition nor the event nor the
/// snapshots of an activity.
pub proof fn law_records_are_kept(activity: ActivityModel, locked: bool, now: Timestamp, i: int)
    requires
        0 <= i < activity.steps.len(),
    ensures
        confirmation(activity, locked) is Ok ==> {
            let after = confirmation(activity, locked)->Ok_0;
            &&& after.definition == activity.definition
            &&& after.event == activity.event
            &&& after.steps == activity.steps
        },
        skipped_by_user(activity, now).definition == activity.definition,
        skipped_by_user(activity, now).event == activity.event,
        skipped_by_user(activity, now).steps == activity.steps,
        interrupted(activity, now).definition == activity.definition,
        interrupted(activity, now).event == activity.event,
        interrupted(activity, now).steps[i].step == activity.steps[i].step,
        interrupted(activity, now).steps[i].action == activity.steps[i].action,
{
}

/// How many of the activities are queued or running.
pub open spec fn in_flight(activities: Seq<ActivityModel>) -> nat
    decreases activities.len(),
{
    if activities.len() == 0 {
        0
    } else {
        let last = activities.last().status;
        in_flight(activities.drop_last()) + if last == ActivityStatus::Queued || last
            == ActivityStatus::Running {
            1nat
        } else {
            0
        }
    }
}

/// All stored activities as a restart leaves them: those that are not outstanding are not touched.
pub open spec fn restarted(activities: Seq<ActivityModel>, now: Timestamp) -> Seq<ActivityModel> {
    activities.map_values(
        |a: ActivityModel|
            if a.status.is_terminal() {
                a
            } else {
                interrupted(a, now)
            },
    )
}

proof fn lemma_interrupting_count(activities: Seq<ActivityModel>, n: nat)
    requires
        n <= activities.len(),
        forall|i: int|
            0 <= i < activities.len() ==> !(#[trigger] activities[i]).status.is_terminal(),
    ensures
        interrupting(activities, n).len() == in_flight(activities.take(n as int)),
    decreases n,
{
    if n > 0 {
        lemma_interrupting_count(activities, (n - 1) as nat);
        assert(activities.take(n as int).drop_last() =~= activities.take(n - 1));
        assert(activities.take(n as int).last() == activities[n - 1]);
    }
}

/// Of the outstanding activities a restart interrupts as many as are queued or running.
pub proof fn law_recovery_counts_what_was_in_flight(activities: Seq<ActivityModel>)
    requires
        forall|i: int|
            0 <= i < activities.len() ==> !(#[trigger] activities[i]).status.is_terminal(),
    ensures
        interrupting(activities, activities.len()).len() == in_flight(activities),
{
    lemma_interrupting_count(activities, activities.len());
    assert(activities.take(activities.len() as int) =~= activities);
}

/// After a recovery nothing is in flight, so that a second one finds nothing to interrupt. What was
/// finished or waits for a confirmation is as it was.
pub proof fn law_second_recovery_finds_nothing(activities: Seq<ActivityModel>, now: Timestamp)
    ensures
        in_flight(restarted(activities, now)) == 0,
        forall|i: int|
            0 <= i < activities.len() && ((#[trigger] activities[i]).status.is_terminal()
                || activities[i].status == ActivityStatus::AwaitingConfirmation) ==> restarted(
                activities,
                now,
            )[i] == activities[i],
        forall|i: int|
            0 <= i < activities.len() && ((#[trigger] activities[i]).status
                == ActivityStatus::Queued || activities[i].status == ActivityStatus::Running)
                ==> restarted(activities, now)[i] == interrupted(activities[i], now)
                && restarted(activities, now)[i].status == ActivityStatus::Interrupted,
    decreases activities.len(),
{
    if activities.len() > 0 {
        law_second_recovery_finds_nothing(activities.drop_last(), now);
        assert(restarted(activities, now).drop_last() =~= restarted(activities.drop_last(), now));
    }
}

/// A step that waits and has none before it is the first that waits.
pub proof fn lemma_first_awaiting(steps: Seq<StepRunModel>, from: int, at: int)
    requires
        0 <= from <= at < steps.len(),
        steps[at].status == ActivityStatus::AwaitingConfirmation,
        forall|j: int|
            from <= j < at ==> (#[trigger] steps[j]).status != ActivityStatus::AwaitingConfirmation,
    ensures
        first_awaiting(steps, from) == Some(at),
    decreases at - from,
{
    if from < at {
        lemma_first_awaiting(steps, from + 1, at);
    }
}

/// A confirmation of a run that is confirmed already, or needs not be, confirms the first step that
/// waits, and it alone: its number joins the confirmed ones, and the activity is queued again without
/// a reason. Nothing else changes.
pub proof fn law_confirmation_is_for_the_waiting_step(activity: ActivityModel, at: int)
    requires
        activity.status == ActivityStatus::AwaitingConfirmation,
        activity.run_confirmed || activity.definition.run_mode != RunMode::AskBeforeRun,
        0 <= at < activity.steps.len(),
        activity.steps[at].status == ActivityStatus::AwaitingConfirmation,
        forall|j: int|
            0 <= j < at ==> (#[trigger] activity.steps[j]).status
                != ActivityStatus::AwaitingConfirmation,
    ensures
        confirmation(activity, false) is Ok,
        confirmation(activity, false)->Ok_0 == (ActivityModel {
            status: ActivityStatus::Queued,
            reason: None,
            confirmed_steps: activity.confirmed_steps.push(activity.steps[at].index as usize),
            ..activity
        }),
{
    lemma_first_awaiting(activity.steps, 0, at);
}

/// The confirmation of a run as a whole marks it as confirmed and queues it without a reason; nothing
/// else changes.
pub proof fn law_confirmation_is_for_the_run(activity: ActivityModel)
    requires
        activity.status == ActivityStatus::AwaitingConfirmation,
        !activity.run_confirmed,
        activity.definition.run_mode == RunMode::AskBeforeRun,
    ensures
        confirmation(activity, false) is Ok,
        confirmation(activity, false)->Ok_0 == (ActivityModel {
            status: ActivityStatus::Queued,
            reason: None,
            run_confirmed: true,
            ..activity
        }),
{
}

/// Why a confirmation is refused: what does not wait has been handled, and what does waits until the
/// computer is unlocked.
pub proof fn law_refused_confirmations(activity: ActivityModel, locked: bool)
    ensures
        activity.status != ActivityStatus::AwaitingConfirmation ==> confirmation(activity, locked)
            == Err::<ActivityModel, ErrorModel>(
            ErrorModel::Invalid("this activity has already been handled"@),
        ),
        activity.status == ActivityStatus::AwaitingConfirmation && locked ==> confirmation(
            activity,
            locked,
        ) == Err::<ActivityModel, ErrorModel>(
            ErrorModel::Invalid("unlock this computer before confirming the run"@),
        ),
{
}

/// An activity that a person decides not to run, and one that breaks off, are finished with that as
/// the reason; nothing else of them changes.
pub proof fn law_ends_from_outside(activity: ActivityModel, error: ErrorModel, now: Timestamp)
    ensures
        skipped_by_user(activity, now) == (ActivityModel {
            status: ActivityStatus::Canceled,
            reason: Some("the user skipped this run"@),
            finished_at: Some(now),
            ..activity
        }),
        broken_off(activity, error, now) == (ActivityModel {
            status: ActivityStatus::Failed,
            reason: Some(error.message()),
            finished_at: Some(now),
            ..activity
        }),
{
}

/// A restart gives an activity that it interrupts the reason, and marks exactly the steps that were
/// under way: they are interrupted now, and keep what they have left so far.
pub proof fn law_interruptions(activity: ActivityModel, now: Timestamp, i: int)
    requires
        activity.status != ActivityStatus::AwaitingConfirmation,
        0 <= i < activity.steps.len(),
    ensures
        ({
            let after = interrupted(activity, now);
            &&& after == (ActivityModel {
                status: ActivityStatus::Interrupted,
                reason: Some(
                    "ArcRelay restarted and interrupted the previous run; completed actions will not run again automatically"@,
                ),
                finished_at: Some(now),
                steps: after.steps,
                ..activity
            })
            &&& after.steps.len() == activity.steps.len()
            &&& activity.steps[i].status == ActivityStatus::Running ==> after.steps[i] == (
            StepRunModel {
                status: ActivityStatus::Interrupted,
                finished_at: Some(now),
                ..activity.steps[i]
            })
            &&& activity.steps[i].status != ActivityStatus::Running ==> after.steps[i]
                == activity.steps[i]
        }),
{
}

/// Of the outstanding activities a restart reports exactly those that do not wait for a confirmation,
/// each once and in order.
pub proof fn law_interrupted_positions(activities: Seq<ActivityModel>, n: nat)
    requires
        n <= activities.len(),
    ensures
        forall|k: int|
            0 <= k < interrupting(activities, n).len() ==> {
                let i = #[trigger] interrupting(activities, n)[k];
                0 <= i < n && activities[i].status != ActivityStatus::AwaitingConfirmation
            },
        forall|k: int, l: int|
            0 <= k < l < interrupting(activities, n).len() ==> #[trigger] interrupting(
                activities,
                n,
            )[k] < #[trigger] interrupting(activities, n)[l],
        forall|i: int|
            0 <= i < n && (#[trigger] activities[i]).status != ActivityStatus::AwaitingConfirmation
                ==> interrupting(activities, n).contains(i),
    decreases n,
{
    if n > 0 {
        let m = (n - 1) as nat;
        law_interrupted_positions(activities, m);
        let rest = interrupting(activities, m);
        let all = interrupting(activities, n);
        assert forall|k: int| 0 <= k < all.len() implies {
            let i = #[trigger] all[k];
            0 <= i < n && activities[i].status != ActivityStatus::AwaitingConfirmation
        } by {
            if k < rest.len() {
                assert(all[k] == rest[k]);
            }
        }
        assert forall|k: int, l: int| 0 <= k < l < all.len() implies #[trigger] all[k]
            < #[trigger] all[l] by {
            assert(all[k] == rest[k]);
            if l < rest.len() {
                assert(all[l] == rest[l]);
            }
        }
        assert forall|i: int|
            0 <= i < n && (#[trigger] activities[i]).status
                != ActivityStatus::AwaitingConfirmation implies all.contains(i) by {
            if i < m {
                let k = choose|k: int| 0 <= k < rest.len() && rest[k] == i;
                assert(all[k] == i);
            } else {
                assert(all[all.len() - 1] == i);
            }
        }
    }
}

/// Canceling leaves alone what is finished. An execution that is under way is told and ends the
/// activity itself; where there is none, and where the activity waits for a confirmation, the activity
/// is ended here and now.
pub proof fn law_cancellation(activity: ActivityModel, executing: bool, now: Timestamp)
    ensures
        ({
            let asked = cancellation(activity.status, executing);
            let over = activity.status == ActivityStatus::Skipped || activity.status
                == ActivityStatus::Succeeded || activity.status == ActivityStatus::Failed
                || activity.status == ActivityStatus::Canceled || activity.status
                == ActivityStatus::Interrupted;
            let after = canceled(activity, executing, now);
            &&& over ==> !asked.signal && !asked.store && after == activity
            &&& !over ==> (asked.signal <==> executing)
            &&& activity.status == ActivityStatus::AwaitingConfirmation ==> asked.store
            &&& activity.status == ActivityStatus::Queued || activity.status
                == ActivityStatus::Running ==> (asked.store <==> !executing)
            &&& asked.store ==> after.status == ActivityStatus::Canceled && after.finished_at == Some(
                now,
            ) && after.reason == Some("the user skipped this run"@)
            &&& !asked.store ==> after == activity
        }),
{
}

/// A recovery treats every outstanding activity on its own, each in its place.
pub proof fn law_recovery_is_one_by_one(
    activities: Seq<ActivityModel>,
    now: Timestamp,
    i: int,
)
    requires
        0 <= i < activities.len(),
    ensures
        recovered(activities, now).len() == activities.len(),
        recovered(activities, now)[i] == interrupted(activities[i], now),
{
}

proof fn lemma_none_awaiting(steps: Seq<StepRunModel>, from: int)
    requires
        0 <= from <= steps.len(),
        forall|j: int|
            from <= j < steps.len() ==> (#[trigger] steps[j]).status
                != ActivityStatus::AwaitingConfirmation,
    ensures
        first_awaiting(steps, from) is None,
    decreases steps.len() - from,
{
    if from < steps.len() {
        lemma_none_awaiting(steps, from + 1);
    }
}

/// A confirmation for which no step waits and the run needs none confirms nothing; the activity is
/// queued again without a reason all the same.
pub proof fn law_confirmation_without_a_waiting_step(activity: ActivityModel)
    requires
        activity.status == ActivityStatus::AwaitingConfirmation,
        activity.run_confirmed || activity.definition.run_mode != RunMode::AskBeforeRun,
        forall|j: int|
            0 <= j < activity.steps.len() ==> (#[trigger] activity.steps[j]).status
                != ActivityStatus::AwaitingConfirmation,
    ensures
        confirmation(activity, false) is Ok,
        confirmation(activity, false)->Ok_0 == (ActivityModel {
            status: ActivityStatus::Queued,
            reason: None,
            ..activity
        }),
{
    lemma_none_awaiting(activity.steps, 0);
}

} // verus!
