//! Whether an event runs an automation, and the activity that records the answer.

use crate::conditions;
use crate::model::{
    ActionSnapshot, ActivityModel, ActivityStatus, AutomationActivity, AutomationDefinition,
    AutomationEvent, DefinitionModel, EnvironmentModel, EventModel, ResultModel,
    RunMode, SnapshotModel, StepModel, StepResult, StepRun, StepRunModel,
};
use crate::preflight;
use crate::text;
use crate::time;
use crate::time::Timestamp;
use vstd::prelude::*;

verus! {

/// How many activities may be outstanding.
pub const MAX_OUTSTANDING: usize = 128;

/// Within how many milliseconds of the previous activity an event is a duplicate.
pub const COOLDOWN_MILLIS: i64 = 1500;

/// One of the outstanding activities belongs to the automation.
pub open spec fn overlaps(active: Seq<ActivityModel>, automation_id: Seq<char>) -> bool {
    exists|i: int|
        0 <= i < active.len() && (#[trigger] active[i]).automation_id == automation_id
}

/// Why an event does not run an automation, leaving the conditions aside; `since` are the
/// milliseconds since the previous activity. Conditions and the cooldown do not apply to a manual
/// run.
pub open spec fn refusal_since(
    definition: DefinitionModel,
    event: EventModel,
    manual: bool,
    active: Seq<ActivityModel>,
    since: Option<int>,
) -> Option<Seq<char>> {
    if event.origin_automation_id is Some {
        Some("a chained trigger caused by an automation action was blocked"@)
    } else if overlaps(active, definition.id) {
        Some("the previous run has not finished"@)
    } else if active.len() >= MAX_OUTSTANDING {
        Some(
            "the pending automation limit has been reached; handle existing activities and try again"@,
        )
    } else if !manual && since is Some && since->0 < COOLDOWN_MILLIS {
        Some("duplicate events received within a short interval were merged"@)
    } else {
        None
    }
}

/// Why an event does not run an automation, leaving the conditions aside.
pub open spec fn early_refusal(
    definition: DefinitionModel,
    event: EventModel,
    manual: bool,
    active: Seq<ActivityModel>,
    recent: Option<ActivityModel>,
    now: Timestamp,
) -> Option<Seq<char>> {
    refusal_since(
        definition,
        event,
        manual,
        active,
        match recent {
            Some(activity) => Some(time::elapsed(now, activity.created_at)),
            None => None,
        },
    )
}

/// Why an event does not run an automation; `None` where it does.
pub open spec fn refusal(
    definition: DefinitionModel,
    event: EventModel,
    manual: bool,
    active: Seq<ActivityModel>,
    recent: Option<ActivityModel>,
    environment: EnvironmentModel,
    now: Timestamp,
) -> Option<Seq<char>> {
    match early_refusal(definition, event, manual, active, recent, now) {
        Some(reason) => Some(reason),
        None => if manual {
            None
        } else {
            conditions::first_failure(definition.conditions, environment, event.occurred_at)
        },
    }
}

/// What is to be done with an event.
pub enum Admission {
    /// It does not run the automation, for the given reason.
    Refuse(String),
    /// It runs the automation where the conditions hold in the current environment.
    CheckConditions,
    /// It runs the automation.
    Accept,
}

/// The activity that records the answer to an event.
pub open spec fn recorded(
    id: Seq<char>,
    definition: DefinitionModel,
    event: EventModel,
    reason: Option<Seq<char>>,
    created_at: Timestamp,
    now: Timestamp,
) -> ActivityModel {
    ActivityModel {
        id,
        automation_id: definition.id,
        definition,
        event,
        status: if reason is Some {
            ActivityStatus::Skipped
        } else {
            ActivityStatus::Queued
        },
        reason,
        created_at,
        finished_at: if reason is Some {
            Some(now)
        } else {
            None
        },
        steps: Seq::empty(),
        confirmed_steps: Seq::empty(),
        run_confirmed: false,
    }
}

/// A step that waits for its turn.
pub open spec fn queued_step(
    index: int,
    step: StepModel,
    action: Option<SnapshotModel>,
) -> StepRunModel {
    StepRunModel {
        index,
        step,
        action,
        status: ActivityStatus::Queued,
        started_at: None,
        finished_at: None,
        result: ResultModel::nothing(),
    }
}

/// The activity with its next step recorded. A quick action that is gone fails the activity.
pub open spec fn with_next_step(
    activity: ActivityModel,
    reply: Option<Result<SnapshotModel, Seq<char>>>,
    now: Timestamp,
) -> ActivityModel {
    let index = activity.steps.len() as int;
    let step = activity.definition.steps[index];
    match reply {
        Some(Err(message)) => ActivityModel {
            status: ActivityStatus::Failed,
            reason: Some(message),
            finished_at: Some(now),
            ..activity
        },
        Some(Ok(action)) => ActivityModel {
            steps: activity.steps.push(queued_step(index, step, Some(action))),
            ..activity
        },
        None => ActivityModel {
            steps: activity.steps.push(queued_step(index, step, None)),
            ..activity
        },
    }
}

/// The recorded steps are the first of the definition's, in order, and wait for their turn; quick
/// actions, and they alone, have a snapshot.
pub open spec fn mirrors(activity: ActivityModel) -> bool {
    &&& activity.steps.len() <= activity.definition.steps.len()
    &&& forall|i: int|
        0 <= i < activity.steps.len() ==> {
            let run = #[trigger] activity.steps[i];
            &&& run == queued_step(i, activity.definition.steps[i], run.action)
            &&& run.action is Some <==> run.step is QuickAction
        }
}

/// The activity as it is first shown: where the definition says so, it waits for a confirmation.
pub open spec fn opened(activity: ActivityModel) -> ActivityModel {
    if !activity.status.is_terminal() && activity.definition.run_mode == RunMode::AskBeforeRun {
        ActivityModel {
            status: ActivityStatus::AwaitingConfirmation,
            reason: Some("the automation is configured to ask before running"@),
            ..activity
        }
    } else {
        activity
    }
}

/// The identifier of the first activity that records the event; `otherwise` where none does.
pub open spec fn id_of_event(
    activities: Seq<ActivityModel>,
    event_id: Seq<char>,
    otherwise: Seq<char>,
) -> Seq<char>
    decreases activities.len(),
{
    if activities.len() == 0 {
        otherwise
    } else if activities[0].event.id == event_id {
        activities[0].id
    } else {
        id_of_event(activities.drop_first(), event_id, otherwise)
    }
}

/// Whether one of the outstanding activities belongs to the automation.
fn has_overlap(active: &[AutomationActivity], automation_id: &str) -> (r: bool)
    ensures
        r == overlaps(text::views(active@), automation_id@),
{
    let ghost models = text::views(active@);
    let mut i: usize = 0;
    while i < active.len()
        invariant
            i <= active@.len(),
            models == text::views(active@),
            forall|k: int| 0 <= k < i ==> (#[trigger] models[k]).automation_id != automation_id@,
        decreases active@.len() - i,
    {
        assert(models[i as int] == active@[i as int]@);
        if text::same_text(active[i].automation_id.as_str(), automation_id) {
            return true;
        }
        i = i + 1;
    }
    false
}

/// What is to be done with an event. `active` are the outstanding activities, `since` are the
/// milliseconds since the newest activity of the automation.
pub fn consider_since(
    definition: &AutomationDefinition,
    event: &AutomationEvent,
    manual: bool,
    active: &[AutomationActivity],
    since: Option<i64>,
) -> (r: Admission)
    ensures
        ({
            let refused = refusal_since(
                definition@,
                event@,
                manual,
                text::views(active@),
                match since {
                    Some(millis) => Some(millis as int),
                    None => None,
                },
            );
            match r {
                Admission::Refuse(reason) => refused == Some(reason@),
                Admission::CheckConditions => refused is None && !manual,
                Admission::Accept => refused is None && manual,
            }
        }),
{
    if event.origin_automation_id.is_some() {
        return Admission::Refuse(
            "a chained trigger caused by an automation action was blocked".to_owned(),
        );
    }
    if has_overlap(active, definition.id.as_str()) {
        return Admission::Refuse("the previous run has not finished".to_owned());
    }
    if active.len() >= MAX_OUTSTANDING {
        return Admission::Refuse(
            "the pending automation limit has been reached; handle existing activities and try again".to_owned(),
        );
    }
    if manual {
        return Admission::Accept;
    }
    if let Some(millis) = since {
        if millis < COOLDOWN_MILLIS {
            return Admission::Refuse(
                "duplicate events received within a short interval were merged".to_owned(),
            );
        }
    }
    Admission::CheckConditions
}

/// What is to be done with an event. `active` are the outstanding activities, `recent` is the
/// newest activity of the automation.
pub fn consider(
    definition: &AutomationDefinition,
    event: &AutomationEvent,
    manual: bool,
    active: &[AutomationActivity],
    recent: Option<&AutomationActivity>,
    now: Timestamp,
) -> (r: Admission)
    requires
        now.wf(),
        recent is Some ==> recent->0.created_at.wf(),
    ensures
        ({
            let refused = early_refusal(
                definition@,
                event@,
                manual,
                text::views(active@),
                match recent {
                    Some(activity) => Some(activity@),
                    None => None,
                },
                now,
            );
            match r {
                Admission::Refuse(reason) => refused == Some(reason@),
                Admission::CheckConditions => refused is None && !manual,
                Admission::Accept => refused is None && manual,
            }
        }),
        // Without leap seconds in play, the cooldown is a matter of the time that has passed.
        r is CheckConditions && recent is Some && now.ordinary()
            && recent->0.created_at.ordinary() ==> now.total_nanos()
            - recent->0.created_at.total_nanos() >= COOLDOWN_MILLIS * 1_000_000,
        !manual && event@.origin_automation_id is None && !overlaps(
            text::views(active@),
            definition@.id,
        ) && active@.len() < MAX_OUTSTANDING && recent is Some && now.ordinary()
            && recent->0.created_at.ordinary() && now.total_nanos()
            - recent->0.created_at.total_nanos() >= 1_500_000_000 ==> r is CheckConditions,
{
    let since: Option<i64> = match recent {
        Some(activity) => Some(time::elapsed_millis(now, activity.created_at)),
        None => None,
    };
    consider_since(definition, event, manual, active, since)
}

/// The activity that records the answer to an event.
pub fn record(
    id: String,
    definition: AutomationDefinition,
    event: AutomationEvent,
    refused: Option<String>,
    created_at: Timestamp,
    now: Timestamp,
) -> (r: AutomationActivity)
    ensures
        r@ == recorded(id@, definition@, event@, text::opt_view(refused), created_at, now),
        mirrors(r@),
{
    let skipped = refused.is_some();
    let r = AutomationActivity {
        id,
        automation_id: definition.id.clone(),
        definition,
        event,
        status: if skipped {
            ActivityStatus::Skipped
        } else {
            ActivityStatus::Queued
        },
        reason: refused,
        created_at,
        finished_at: if skipped {
            Some(now)
        } else {
            None
        },
        steps: Vec::new(),
        confirmed_steps: Vec::new(),
        run_confirmed: false,
    };
    assert(r@ =~= recorded(id@, definition@, event@, text::opt_view(refused), created_at, now));
    r
}

/// The identifier of the activity that records the event already; `otherwise` where none does.
pub fn existing_id(activities: &[AutomationActivity], event_id: &str, otherwise: String) -> (r:
    String)
    ensures
        r@ == id_of_event(text::views(activities@), event_id@, otherwise@),
{
    let ghost models = text::views(activities@);
    let mut i: usize = 0;
    assert(models.skip(0) =~= models);
    while i < activities.len()
        invariant
            i <= activities@.len(),
            models == text::views(activities@),
            id_of_event(models, event_id@, otherwise@) == id_of_event(
                models.skip(i as int),
                event_id@,
                otherwise@,
            ),
        decreases activities@.len() - i,
    {
        assert(models.skip(i as int)[0] == activities@[i as int]@);
        assert(models.skip(i as int).drop_first() =~= models.skip(i + 1));
        if text::same_text(activities[i].event.id.as_str(), event_id) {
            return activities[i].id.clone();
        }
        i = i + 1;
    }
    otherwise
}

/// Records the next step of an activity. `reply` is the answer to the request for its quick
/// action, where the step is one. Returns whether the step could be recorded.
pub fn record_step(
    activity: &mut AutomationActivity,
    reply: Option<Result<ActionSnapshot, String>>,
    now: Timestamp,
) -> (r: bool)
    requires
        old(activity)@.steps.len() < old(activity)@.definition.steps.len(),
        reply is Some <==> old(activity)@.definition.steps[old(activity)@.steps.len() as int] is
            QuickAction,
    ensures
        final(activity)@ == with_next_step(
            old(activity)@,
            match reply {
                Some(snapshot) => Some(preflight::answer(snapshot)),
                None => None,
            },
            now,
        ),
        r == !(reply is Some && reply->0 is Err),
        mirrors(old(activity)@) ==> mirrors(final(activity)@),
{
    let index = activity.steps.len();
    let action: Option<ActionSnapshot> = match reply {
        Some(Err(message)) => {
            activity.status = ActivityStatus::Failed;
            activity.reason = Some(message);
            activity.finished_at = Some(now);
            return false;
        },
        Some(Ok(snapshot)) => Some(snapshot),
        None => None,
    };
    let ghost before = text::views(activity.steps@);
    assert(activity@.definition.steps[index as int] == activity.definition.steps@[index as int]@);
    let run = StepRun {
        index,
        step: activity.definition.steps[index].clone(),
        action,
        status: ActivityStatus::Queued,
        started_at: None,
        finished_at: None,
        result: StepResult::default(),
    };
    let ghost model = run@;
    activity.steps.push(run);
    assert(text::views(activity.steps@) =~= before.push(model));
    true
}

/// Makes an activity whose steps are recorded wait for a confirmation, where the definition says
/// so. Returns whether the activity is to be executed now.
pub fn open_activity(activity: &mut AutomationActivity) -> (r: bool)
    ensures
        final(activity)@ == opened(old(activity)@),
        r == (final(activity)@.status == ActivityStatus::Queued),
{
    if !activity.status.terminal() && activity.definition.run_mode == RunMode::AskBeforeRun {
        activity.status = ActivityStatus::AwaitingConfirmation;
        activity.reason = Some("the automation is configured to ask before running".to_owned());
    }
    activity.status == ActivityStatus::Queued
}

/// An event that an automation caused never runs another one.
pub proof fn law_chained_events_are_refused(
    definition: DefinitionModel,
    event: EventModel,
    manual: bool,
    active: Seq<ActivityModel>,
    recent: Option<ActivityModel>,
    environment: EnvironmentModel,
    now: Timestamp,
)
    requires
        event.origin_automation_id is Some,
    ensures
        refusal(definition, event, manual, active, recent, environment, now) is Some,
{
}

/// An accepted event finds no outstanding activity of its automation, and leaves at most the
/// allowed number of outstanding ones.
pub proof fn law_no_overlap_and_bounded_capacity(
    definition: DefinitionModel,
    event: EventModel,
    manual: bool,
    active: Seq<ActivityModel>,
    recent: Option<ActivityModel>,
    environment: EnvironmentModel,
    now: Timestamp,
    i: int,
)
    requires
        refusal(definition, event, manual, active, recent, environment, now) is None,
        0 <= i < active.len(),
    ensures
        active[i].automation_id != definition.id,
        active.len() + 1 <= MAX_OUTSTANDING,
{
}

/// An event of the system runs an automation only where all of its conditions hold; a manual run
/// does not ask for them.
pub proof fn law_conditions_guard_events(
    definition: DefinitionModel,
    event: EventModel,
    manual: bool,
    active: Seq<ActivityModel>,
    recent: Option<ActivityModel>,
    environment: EnvironmentModel,
    now: Timestamp,
)
    requires
        early_refusal(definition, event, manual, active, recent, now) is None,
    ensures
        refusal(definition, event, manual, active, recent, environment, now) is None <==> manual
            || forall|i: int|
            0 <= i < definition.conditions.len() ==> conditions::satisfied(
                #[trigger] definition.conditions[i],
                environment,
                event.occurred_at,
            ),
{
    conditions::law_conditions_are_conjunctive(
        definition.conditions,
        environment,
        event.occurred_at,
    );
}

/// A refused event leaves a skipped activity that is finished, says why, and has no steps.
pub proof fn law_refusals_are_recorded(
    id: Seq<char>,
    definition: DefinitionModel,
    event: EventModel,
    reason: Seq<char>,
    created_at: Timestamp,
    now: Timestamp,
)
    ensures
        ({
            let activity = opened(recorded(id, definition, event, Some(reason), created_at, now));
            &&& activity.status == ActivityStatus::Skipped
            &&& activity.status.is_terminal()
            &&& activity.reason == Some(reason)
            &&& activity.finished_at == Some(now)
            &&& activity.steps.len() == 0
        }),
{
}

/// A quick action that is gone fails the activity; the step is not skipped.
pub proof fn law_missing_action_fails(activity: ActivityModel, message: Seq<char>, now: Timestamp)
    ensures
        ({
            let failed = opened(
                with_next_step(activity, Some(Err::<SnapshotModel, Seq<char>>(message)), now),
            );
            &&& failed.status == ActivityStatus::Failed
            &&& failed.reason == Some(message)
            &&& failed.finished_at == Some(now)
            &&& failed.steps == activity.steps
        }),
{
}

/// Recording an activity again under the same event gives back the first one's identifier.
pub proof fn law_duplicate_events_share_an_activity(
    activities: Seq<ActivityModel>,
    event_id: Seq<char>,
    otherwise: Seq<char>,
    k: int,
)
    requires
        0 <= k < activities.len(),
        activities[k].event.id == event_id,
        forall|i: int|
            0 <= i < activities.len() && (#[trigger] activities[i]).event.id == event_id ==> i == k,
    ensures
        id_of_event(activities, event_id, otherwise) == activities[k].id,
    decreases activities.len(),
{
    if activities[0].event.id != event_id {
        let rest = activities.drop_first();
        assert forall|i: int|
            0 <= i < rest.len() && (#[trigger] rest[i]).event.id == event_id implies i == k - 1 by {
            assert(rest[i] == activities[i + 1]);
        }
        law_duplicate_events_share_an_activity(rest, event_id, otherwise, k - 1);
    }
}

/// An event is refused early exactly for one of four causes: an automation caused it, an activity of
/// its automation is outstanding, 128 activities are, or it is no manual run and comes within 1500
/// milliseconds of the previous activity.
pub proof fn law_early_refusals_have_a_cause(
    definition: DefinitionModel,
    event: EventModel,
    manual: bool,
    active: Seq<ActivityModel>,
    since: Option<int>,
)
    ensures
        refusal_since(definition, event, manual, active, since) is Some <==> {
            ||| event.origin_automation_id is Some
            ||| exists|i: int|
                0 <= i < active.len() && (#[trigger] active[i]).automation_id == definition.id
            ||| active.len() >= 128
            ||| !manual && since is Some && since->0 < 1500
        },
{
}

/// The reason for an early refusal is that of the first cause that there is.
pub proof fn law_reasons_of_early_refusals(
    definition: DefinitionModel,
    event: EventModel,
    manual: bool,
    active: Seq<ActivityModel>,
    since: Option<int>,
)
    ensures
        ({
            let reason = refusal_since(definition, event, manual, active, since);
            let running = exists|i: int|
                0 <= i < active.len() && (#[trigger] active[i]).automation_id == definition.id;
            &&& event.origin_automation_id is Some ==> reason == Some(
                "a chained trigger caused by an automation action was blocked"@,
            )
            &&& event.origin_automation_id is None && running ==> reason == Some(
                "the previous run has not finished"@,
            )
            &&& event.origin_automation_id is None && !running && active.len() >= 128 ==> reason
                == Some(
                "the pending automation limit has been reached; handle existing activities and try again"@,
            )
            &&& event.origin_automation_id is None && !running && active.len() < 128 && reason is Some
                ==> reason == Some(
                "duplicate events received within a short interval were merged"@,
            )
        }),
{
}

/// Waiting longer never turns an event that would be admitted into one that is refused, and neither
/// does asking for the run in person or finding fewer outstanding activities.
pub proof fn law_admission_is_monotone(
    definition: DefinitionModel,
    event: EventModel,
    manual: bool,
    active: Seq<ActivityModel>,
    since: int,
    longer: int,
    n: int,
)
    requires
        refusal_since(definition, event, manual, active, Some(since)) is None,
        since <= longer,
        0 <= n <= active.len(),
    ensures
        refusal_since(definition, event, manual, active, Some(longer)) is None,
        refusal_since(definition, event, manual, active, None) is None,
        refusal_since(definition, event, true, active, Some(since)) is None,
        refusal_since(definition, event, manual, active.take(n), Some(since)) is None,
{
    assert forall|i: int| 0 <= i < active.take(n).len() implies (
    #[trigger] active.take(n)[i]).automation_id != definition.id by {
        assert(active.take(n)[i] == active[i]);
    }
}

/// The time since the newest activity is counted from its creation to now, and where there is no
/// activity the time does not matter.
pub proof fn law_cooldown_counts_from_the_newest(
    definition: DefinitionModel,
    event: EventModel,
    manual: bool,
    active: Seq<ActivityModel>,
    recent: ActivityModel,
    now: Timestamp,
)
    ensures
        early_refusal(definition, event, manual, active, Some(recent), now) == refusal_since(
            definition,
            event,
            manual,
            active,
            Some(time::elapsed(now, recent.created_at)),
        ),
        early_refusal(definition, event, manual, active, None, now) == refusal_since(
            definition,
            event,
            manual,
            active,
            None,
        ),
{
}

/// A manual run does not ask for conditions, and an event of the system that is not refused early is
/// refused exactly for the first of its conditions that does not hold when it occurred.
pub proof fn law_refusals_behind_the_early_ones(
    definition: DefinitionModel,
    event: EventModel,
    active: Seq<ActivityModel>,
    recent: Option<ActivityModel>,
    environment: EnvironmentModel,
    now: Timestamp,
)
    ensures
        refusal(definition, event, true, active, recent, environment, now) == early_refusal(
            definition,
            event,
            true,
            active,
            recent,
            now,
        ),
        early_refusal(definition, event, false, active, recent, now) is Some ==> refusal(
            definition,
            event,
            false,
            active,
            recent,
            environment,
            now,
        ) == early_refusal(definition, event, false, active, recent, now),
        early_refusal(definition, event, false, active, recent, now) is None ==> refusal(
            definition,
            event,
            false,
            active,
            recent,
            environment,
            now,
        ) == conditions::first_failure(definition.conditions, environment, event.occurred_at),
{
}

/// The activity of an event records the automation, the definition and the event, and nothing of it
/// is confirmed or begun. It is queued and open without a reason, skipped and finished with one.
pub proof fn law_new_activities(
    id: Seq<char>,
    definition: DefinitionModel,
    event: EventModel,
    reason: Option<Seq<char>>,
    created_at: Timestamp,
    now: Timestamp,
)
    ensures
        ({
            let activity = recorded(id, definition, event, reason, created_at, now);
            &&& activity.id == id
            &&& activity.automation_id == definition.id
            &&& activity.definition == definition
            &&& activity.event == event
            &&& activity.reason == reason
            &&& activity.created_at == created_at
            &&& activity.steps.len() == 0
            &&& activity.confirmed_steps.len() == 0
            &&& !activity.run_confirmed
            &&& reason is None ==> activity.status == ActivityStatus::Queued
                && activity.finished_at is None
            &&& reason is Some ==> activity.status == ActivityStatus::Skipped
                && activity.finished_at == Some(now)
        }),
{
}

/// Recording the next step adds the definition's step of that number with its quick action behind the
/// steps there are, waiting for its turn, and changes nothing else.
pub proof fn law_next_step_is_the_definitions(
    activity: ActivityModel,
    action: Option<SnapshotModel>,
    now: Timestamp,
)
    requires
        activity.steps.len() < activity.definition.steps.len(),
    ensures
        ({
            let n = activity.steps.len() as int;
            let after = with_next_step(
                activity,
                match action {
                    Some(snapshot) => Some(Ok::<SnapshotModel, Seq<char>>(snapshot)),
                    None => None,
                },
                now,
            );
            &&& after.steps.len() == n + 1
            &&& forall|i: int| 0 <= i < n ==> #[trigger] after.steps[i] == activity.steps[i]
            &&& after.steps[n].index == n
            &&& after.steps[n].step == activity.definition.steps[n]
            &&& after.steps[n].action == action
            &&& after.steps[n].status == ActivityStatus::Queued
            &&& after.steps[n].started_at is None
            &&& after.steps[n].finished_at is None
            &&& after.steps[n].result.exit_code is None
            &&& after.steps[n].result.stdout.len() == 0
            &&& after.steps[n].result.stderr.len() == 0
            &&& after.steps[n].result.error is None
            &&& after == (ActivityModel { steps: after.steps, ..activity })
        }),
{
}

/// Where the definition asks before it runs, an open activity waits for a confirmation and says so;
/// where it does not, and where nothing more will happen, the activity stays as it is.
pub proof fn law_asking_before_a_run(activity: ActivityModel)
    ensures
        ({
            let after = opened(activity);
            let asks = activity.definition.run_mode == RunMode::AskBeforeRun;
            &&& asks && (activity.status == ActivityStatus::Queued || activity.status
                == ActivityStatus::Running || activity.status
                == ActivityStatus::AwaitingConfirmation) ==> {
                &&& after.status == ActivityStatus::AwaitingConfirmation
                &&& after.reason == Some("the automation is configured to ask before running"@)
                &&& after == (ActivityModel {
                    status: after.status,
                    reason: after.reason,
                    ..activity
                })
            }
            &&& !asks ==> after == activity
            &&& activity.status == ActivityStatus::Skipped || activity.status
                == ActivityStatus::Failed || activity.status == ActivityStatus::Canceled
                || activity.status == ActivityStatus::Succeeded || activity.status
                == ActivityStatus::Interrupted ==> after == activity
        }),
{
}

/// An event that no activity records leads to the new activity, and one that several record to the
/// first of them.
pub proof fn law_first_record_of_an_event(
    activities: Seq<ActivityModel>,
    event_id: Seq<char>,
    otherwise: Seq<char>,
    k: int,
)
    requires
        0 <= k <= activities.len(),
        forall|i: int| 0 <= i < k ==> (#[trigger] activities[i]).event.id != event_id,
        k < activities.len() ==> activities[k].event.id == event_id,
    ensures
        k < activities.len() ==> id_of_event(activities, event_id, otherwise) == activities[k].id,
        k == activities.len() ==> id_of_event(activities, event_id, otherwise) == otherwise,
    decreases activities.len(),
{
    if k > 0 {
        let rest = activities.drop_first();
        assert(activities[0].event.id != event_id);
        assert forall|i: int| 0 <= i < k - 1 implies (#[trigger] rest[i]).event.id != event_id by {
            assert(rest[i] == activities[i + 1]);
        }
        law_first_record_of_an_event(rest, event_id, otherwise, k - 1);
    }
}

} // verus!
