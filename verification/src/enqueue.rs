//! Queuing an event for an automation: from the question whether it runs to the stored activity.
//!
//! An [`Enqueue`] says with a [`Request`] what it has to know or have done next, and each answer
//! takes it one step on.

use crate::admission;
use crate::admission::Admission;
use crate::conditions;
use crate::guarantees;
use crate::model::{
    ActionSnapshot, ActivityModel, ActivityStatus, AutomationActivity, AutomationDefinition,
    AutomationEvent, AutomationStep, DefinitionModel, EnvironmentModel, EnvironmentState,
    EventModel, RunMode, SnapshotModel, StepModel,
};
use crate::preflight;
use crate::text;
use crate::time::Timestamp;
use vstd::prelude::*;

verus! {

/// What is asked for.
#[derive(Debug, Clone, Copy, PartialEq, Eq, Structural)]
pub enum EnqueueStage {
    /// The outstanding activities, and the newest activity of the automation.
    Survey,
    /// The environment, which the conditions are held against.
    Conditions,
    /// That the activity is inserted, unless its event is recorded for the automation already.
    Insert,
    /// The activities of the automation, among which is the one that records the event.
    Existing,
    /// The quick action of the next step.
    Snapshot,
    /// That the activity is stored.
    Store,
    /// Nothing more: the activity is stored.
    Done,
    /// Nothing more: another activity records the event.
    Merged,
}

/// An event on its way into the queue.
#[derive(Debug)]
pub struct Enqueue {
    activity: AutomationActivity,
    manual: bool,
    stage: EnqueueStage,
    id: String,
}

#[verifier::ext_equal]
pub struct EnqueueModel {
    /// The activity that records the answer to the event.
    pub activity: ActivityModel,
    /// A person asked for the run.
    pub manual: bool,
    pub stage: EnqueueStage,
    /// The identifier of the activity that records the event.
    pub id: Seq<char>,
}

impl View for Enqueue {
    type V = EnqueueModel;

    closed spec fn view(&self) -> EnqueueModel {
        EnqueueModel {
            activity: self.activity@,
            manual: self.manual,
            stage: self.stage,
            id: self.id@,
        }
    }
}

/// The activity of an event that does not run the automation.
pub open spec fn refused(activity: ActivityModel, reason: Seq<char>, now: Timestamp) -> ActivityModel {
    ActivityModel {
        status: ActivityStatus::Skipped,
        reason: Some(reason),
        finished_at: Some(now),
        ..activity
    }
}

/// The activity with its next steps recorded, up to the next quick action.
pub open spec fn filled(activity: ActivityModel) -> ActivityModel
    decreases activity.definition.steps.len() - activity.steps.len(),
{
    let index = activity.steps.len() as int;
    if index >= activity.definition.steps.len() || activity.definition.steps[index] is QuickAction {
        activity
    } else {
        filled(
            ActivityModel {
                steps: activity.steps.push(
                    admission::queued_step(index, activity.definition.steps[index], None),
                ),
                ..activity
            },
        )
    }
}

impl EnqueueModel {
    /// An event at the beginning of its way.
    pub open spec fn initial(
        id: Seq<char>,
        definition: DefinitionModel,
        event: EventModel,
        manual: bool,
        created_at: Timestamp,
    ) -> EnqueueModel {
        EnqueueModel {
            activity: admission::recorded(id, definition, event, None, created_at, created_at),
            manual,
            stage: EnqueueStage::Survey,
            id,
        }
    }

    /// On to the next quick action whose snapshot is needed, or to storing the activity.
    pub open spec fn collecting(self) -> EnqueueModel {
        if self.activity.status.is_terminal() {
            EnqueueModel {
                activity: admission::opened(self.activity),
                stage: EnqueueStage::Store,
                ..self
            }
        } else {
            let activity = filled(self.activity);
            if activity.steps.len() < activity.definition.steps.len() {
                EnqueueModel { activity, stage: EnqueueStage::Snapshot, ..self }
            } else {
                EnqueueModel {
                    activity: admission::opened(activity),
                    stage: EnqueueStage::Store,
                    ..self
                }
            }
        }
    }

    /// Once the outstanding activities and the newest one are known.
    pub open spec fn after_survey(
        self,
        active: Seq<ActivityModel>,
        recent: Option<ActivityModel>,
        now: Timestamp,
    ) -> EnqueueModel {
        match admission::early_refusal(
            self.activity.definition,
            self.activity.event,
            self.manual,
            active,
            recent,
            now,
        ) {
            Some(reason) => EnqueueModel {
                activity: refused(self.activity, reason, now),
                stage: EnqueueStage::Insert,
                ..self
            },
            None => EnqueueModel {
                stage: if self.manual {
                    EnqueueStage::Insert
                } else {
                    EnqueueStage::Conditions
                },
                ..self
            },
        }
    }

    /// Once the environment is known.
    pub open spec fn after_environment(
        self,
        environment: EnvironmentModel,
        now: Timestamp,
    ) -> EnqueueModel {
        match conditions::first_failure(
            self.activity.definition.conditions,
            environment,
            self.activity.event.occurred_at,
        ) {
            Some(reason) => EnqueueModel {
                activity: refused(self.activity, reason, now),
                stage: EnqueueStage::Insert,
                ..self
            },
            None => EnqueueModel { stage: EnqueueStage::Insert, ..self },
        }
    }

    /// Once it is known whether the activity could be inserted.
    pub open spec fn after_insert(self, inserted: bool) -> EnqueueModel {
        if inserted {
            self.collecting()
        } else {
            EnqueueModel { stage: EnqueueStage::Existing, ..self }
        }
    }

    /// Once the activities of the automation are known.
    pub open spec fn after_existing(self, activities: Seq<ActivityModel>) -> EnqueueModel {
        EnqueueModel {
            id: admission::id_of_event(activities, self.activity.event.id, self.activity.id),
            stage: EnqueueStage::Merged,
            ..self
        }
    }

    /// Once the next quick action is known, or known to be gone.
    pub open spec fn after_snapshot(
        self,
        reply: Result<SnapshotModel, Seq<char>>,
        now: Timestamp,
    ) -> EnqueueModel {
        (EnqueueModel {
            activity: admission::with_next_step(self.activity, Some(reply), now),
            ..self
        }).collecting()
    }

    /// Once the activity is stored.
    pub open spec fn after_store(self) -> EnqueueModel {
        EnqueueModel { stage: EnqueueStage::Done, ..self }
    }

    /// The recorded steps mirror the definition's, and the next one is what the stage says.
    pub open spec fn wf(self) -> bool {
        &&& admission::mirrors(self.activity)
        &&& self.stage == EnqueueStage::Snapshot ==> {
            &&& !self.activity.status.is_terminal()
            &&& self.activity.steps.len() < self.activity.definition.steps.len()
            &&& self.activity.definition.steps[self.activity.steps.len() as int] is QuickAction
        }
        &&& self.stage == EnqueueStage::Conditions || (self.stage == EnqueueStage::Survey
            && !self.manual) ==> conditions::decidable(
            self.activity.definition.conditions,
            self.activity.event.occurred_at,
        )
    }
}

/// The activity is stored and to be executed.
pub open spec fn executes(s: EnqueueModel) -> bool {
    s.stage == EnqueueStage::Done && s.activity.status == ActivityStatus::Queued
}

/// What is asked for.
#[derive(Debug)]
pub enum Request<'a> {
    /// The outstanding activities, and the newest activity of the automation.
    Survey,
    /// The current environment.
    Environment,
    /// Insert the activity, unless its event is recorded for the automation already.
    Insert,
    /// The activities of the automation.
    Existing,
    /// The quick action with this identifier.
    Snapshot(&'a str),
    /// Store the activity.
    Store,
    /// Nothing more: the activity is stored and, where it says so, to be executed.
    Done { execute: bool },
    /// Nothing more: another activity records the event.
    Merged,
}

impl Enqueue {
    #[verifier::type_invariant]
    spec fn well_formed(self) -> bool {
        self@.wf()
    }

    /// An event at the beginning of its way. The new activity gets the given identifier.
    pub fn begin(
        id: String,
        definition: AutomationDefinition,
        event: AutomationEvent,
        manual: bool,
        created_at: Timestamp,
    ) -> (r: Self)
        requires
            !manual ==> conditions::decidable(definition@.conditions, event@.occurred_at),
        ensures
            r@ == EnqueueModel::initial(id@, definition@, event@, manual, created_at),
    {
        let copy = id.clone();
        let activity = admission::record(id, definition, event, None, created_at, created_at);
        Enqueue { activity, manual, stage: EnqueueStage::Survey, id: copy }
    }

    /// The activity that records the answer to the event.
    pub fn activity(&self) -> (r: &AutomationActivity)
        ensures
            r@ == self@.activity,
    {
        &self.activity
    }

    /// The identifier of the activity that records the event.
    pub fn id(&self) -> (r: &String)
        ensures
            r@ == self@.id,
    {
        &self.id
    }

    /// What is asked for.
    pub fn stage(&self) -> (r: EnqueueStage)
        ensures
            r == self@.stage,
    {
        self.stage
    }

    /// What is asked for.
    pub fn request(&self) -> (r: Request<'_>)
        ensures
            match r {
                Request::Survey => self@.stage == EnqueueStage::Survey,
                Request::Environment => self@.stage == EnqueueStage::Conditions,
                Request::Insert => self@.stage == EnqueueStage::Insert,
                Request::Existing => self@.stage == EnqueueStage::Existing,
                Request::Snapshot(action_id) => {
                    &&& self@.stage == EnqueueStage::Snapshot
                    &&& self@.activity.definition.steps[self@.activity.steps.len() as int] == (
                    StepModel::QuickAction { action_id: action_id@ })
                },
                Request::Store => self@.stage == EnqueueStage::Store,
                Request::Done { execute } => self@.stage == EnqueueStage::Done && execute == (
                self@.activity.status == ActivityStatus::Queued),
                Request::Merged => self@.stage == EnqueueStage::Merged,
            },
            executes(self@) <==> (r matches Request::Done { execute } && execute),
    {
        proof {
            use_type_invariant(self);
        }
        match self.stage {
            EnqueueStage::Survey => Request::Survey,
            EnqueueStage::Conditions => Request::Environment,
            EnqueueStage::Insert => Request::Insert,
            EnqueueStage::Existing => Request::Existing,
            EnqueueStage::Snapshot => {
                let index = self.activity.steps.len();
                assert(self@.activity.definition.steps[index as int]
                    == self.activity.definition.steps@[index as int]@);
                match &self.activity.definition.steps[index] {
                    AutomationStep::QuickAction { action_id } => Request::Snapshot(
                        action_id.as_str(),
                    ),
                    _ => Request::Store,
                }
            },
            EnqueueStage::Store => Request::Store,
            EnqueueStage::Done => Request::Done {
                execute: self.activity.status == ActivityStatus::Queued,
            },
            EnqueueStage::Merged => Request::Merged,
        }
    }

    /// Takes the outstanding activities and the newest activity of the automation.
    pub fn survey(
        self,
        active: &[AutomationActivity],
        recent: Option<&AutomationActivity>,
        now: Timestamp,
    ) -> (r: Self)
        requires
            self@.stage == EnqueueStage::Survey,
            now.wf(),
            recent is Some ==> recent->0.created_at.wf(),
        ensures
            r@ == self@.after_survey(
                text::views(active@),
                match recent {
                    Some(activity) => Some(activity@),
                    None => None,
                },
                now,
            ),
    {
        proof {
            use_type_invariant(&self);
        }
        let Enqueue { mut activity, manual, stage: _, id } = self;
        let decision = admission::consider(
            &activity.definition,
            &activity.event,
            manual,
            active,
            recent,
            now,
        );
        let stage = match decision {
            Admission::Refuse(reason) => {
                refuse(&mut activity, reason, now);
                EnqueueStage::Insert
            },
            Admission::CheckConditions => EnqueueStage::Conditions,
            Admission::Accept => EnqueueStage::Insert,
        };
        Enqueue { activity, manual, stage, id }
    }

    /// Takes the current environment.
    pub fn environment(self, state: &EnvironmentState, now: Timestamp) -> (r: Self)
        requires
            self@.stage == EnqueueStage::Conditions,
        ensures
            r@ == self@.after_environment(state@, now),
    {
        proof {
            use_type_invariant(&self);
        }
        let Enqueue { mut activity, manual, stage: _, id } = self;
        let failure = conditions::condition_failure(
            &activity.definition.conditions,
            state,
            activity.event.occurred_at,
        );
        if let Some(reason) = failure {
            refuse(&mut activity, reason, now);
        }
        Enqueue { activity, manual, stage: EnqueueStage::Insert, id }
    }

    /// On to the next quick action whose snapshot is needed, or to storing the activity.
    fn collect(activity: AutomationActivity, manual: bool, id: String) -> (r: Self)
        requires
            admission::mirrors(activity@),
        ensures
            forall|stage: EnqueueStage|
                r@ == #[trigger] (EnqueueModel {
                    activity: activity@,
                    manual,
                    stage,
                    id: id@,
                }).collecting(),
    {
        let mut activity = activity;
        if !activity.status.terminal() {
            fill(&mut activity);
            if activity.steps.len() < activity.definition.steps.len() {
                return Enqueue { activity, manual, stage: EnqueueStage::Snapshot, id };
            }
        }
        admission::open_activity(&mut activity);
        Enqueue { activity, manual, stage: EnqueueStage::Store, id }
    }

    /// Takes whether the activity could be inserted.
    pub fn inserted(self, inserted: bool) -> (r: Self)
        requires
            self@.stage == EnqueueStage::Insert,
        ensures
            r@ == self@.after_insert(inserted),
    {
        proof {
            use_type_invariant(&self);
        }
        let Enqueue { activity, manual, stage: _, id } = self;
        if inserted {
            Enqueue::collect(activity, manual, id)
        } else {
            Enqueue { activity, manual, stage: EnqueueStage::Existing, id }
        }
    }

    /// Takes the activities of the automation.
    pub fn existing(self, activities: &[AutomationActivity]) -> (r: Self)
        requires
            self@.stage == EnqueueStage::Existing,
        ensures
            r@ == self@.after_existing(text::views(activities@)),
    {
        proof {
            use_type_invariant(&self);
        }
        let Enqueue { activity, manual, stage: _, id: _ } = self;
        let id = admission::existing_id(
            activities,
            activity.event.id.as_str(),
            activity.id.clone(),
        );
        Enqueue { activity, manual, stage: EnqueueStage::Merged, id }
    }

    /// Takes the quick action of the next step, or why it cannot be had.
    pub fn snapshot(self, reply: Result<ActionSnapshot, String>, now: Timestamp) -> (r: Self)
        requires
            self@.stage == EnqueueStage::Snapshot,
        ensures
            r@ == self@.after_snapshot(preflight::answer(reply), now),
    {
        proof {
            use_type_invariant(&self);
        }
        let Enqueue { mut activity, manual, stage: _, id } = self;
        admission::record_step(&mut activity, Some(reply), now);
        Enqueue::collect(activity, manual, id)
    }

    /// The activity is stored.
    pub fn stored(self) -> (r: Self)
        requires
            self@.stage == EnqueueStage::Store,
        ensures
            r@ == self@.after_store(),
    {
        proof {
            use_type_invariant(&self);
        }
        let Enqueue { activity, manual, stage: _, id } = self;
        Enqueue { activity, manual, stage: EnqueueStage::Done, id }
    }
}

/// Marks an activity as skipped.
fn refuse(activity: &mut AutomationActivity, reason: String, now: Timestamp)
    ensures
        final(activity)@ == refused(old(activity)@, reason@, now),
{
    activity.status = ActivityStatus::Skipped;
    activity.reason = Some(reason);
    activity.finished_at = Some(now);
}

/// Records the next steps up to the next quick action.
fn fill(activity: &mut AutomationActivity)
    requires
        admission::mirrors(old(activity)@),
    ensures
        final(activity)@ == filled(old(activity)@),
        admission::mirrors(final(activity)@),
        final(activity)@.steps.len() == final(activity)@.definition.steps.len()
            || final(activity)@.definition.steps[final(activity)@.steps.len() as int] is QuickAction,
        final(activity)@.status == old(activity)@.status,
{
    let ghost whole = filled(activity@);
    let ghost status = activity@.status;
    while activity.steps.len() < activity.definition.steps.len()
        invariant
            admission::mirrors(activity@),
            filled(activity@) == whole,
            activity@.status == status,
        ensures
            activity@ == whole,
            admission::mirrors(activity@),
            activity@.steps.len() == activity@.definition.steps.len()
                || activity@.definition.steps[activity@.steps.len() as int] is QuickAction,
            activity@.status == status,
        decreases activity@.definition.steps.len() - activity@.steps.len(),
    {
        let index = activity.steps.len();
        assert(activity@.definition.steps[index as int]
            == activity.definition.steps@[index as int]@);
        if let AutomationStep::QuickAction { .. } = &activity.definition.steps[index] {
            break ;
        }
        // Only a step with a quick action takes the time into account.
        let now = activity.created_at;
        admission::record_step(activity, None, now);
    }
}

/// An event whose answer is known: the outstanding activities, and the environment where it takes
/// part, have been taken into account.
pub open spec fn decided(
    begun: EnqueueModel,
    active: Seq<ActivityModel>,
    recent: Option<ActivityModel>,
    environment: EnvironmentModel,
    now: Timestamp,
) -> EnqueueModel {
    let surveyed = begun.after_survey(active, recent, now);
    if surveyed.stage == EnqueueStage::Conditions {
        surveyed.after_environment(environment, now)
    } else {
        surveyed
    }
}

/// The activity of an event is skipped, with the reason, exactly where there is one not to run;
/// else it goes on unchanged. Either way it is recorded.
pub proof fn law_every_event_is_recorded(
    id: Seq<char>,
    definition: DefinitionModel,
    event: EventModel,
    manual: bool,
    created_at: Timestamp,
    active: Seq<ActivityModel>,
    recent: Option<ActivityModel>,
    environment: EnvironmentModel,
    now: Timestamp,
)
    ensures
        ({
            let begun = EnqueueModel::initial(id, definition, event, manual, created_at);
            let s = decided(begun, active, recent, environment, now);
            let reason = admission::refusal(
                definition,
                event,
                manual,
                active,
                recent,
                environment,
                now,
            );
            &&& s.stage == EnqueueStage::Insert
            &&& s.activity == match reason {
                Some(text) => refused(begun.activity, text, now),
                None => begun.activity,
            }
        }),
{
}

/// A skipped activity is stored as it is and not executed.
pub proof fn law_skipped_activities_are_not_executed(
    s: EnqueueModel,
    reason: Seq<char>,
    now: Timestamp,
)
    ensures
        ({
            let skipped = EnqueueModel {
                activity: refused(s.activity, reason, now),
                stage: EnqueueStage::Insert,
                ..s
            };
            let stored = skipped.after_insert(true);
            &&& stored.stage == EnqueueStage::Store
            &&& stored.activity == skipped.activity
            &&& stored.after_store().activity.status != ActivityStatus::Queued
        }),
{
}

proof fn lemma_filled(activity: ActivityModel)
    requires
        admission::mirrors(activity),
    ensures
        admission::mirrors(filled(activity)),
        filled(activity).status == activity.status,
        filled(activity).definition == activity.definition,
    decreases activity.definition.steps.len() - activity.steps.len(),
{
    let index = activity.steps.len() as int;
    if index < activity.definition.steps.len() && !(activity.definition.steps[index] is QuickAction) {
        lemma_filled(
            ActivityModel {
                steps: activity.steps.push(
                    admission::queued_step(index, activity.definition.steps[index], None),
                ),
                ..activity
            },
        );
    }
}

/// An activity that is handed to execution has all steps of its definition on record, each quick
/// action with its snapshot, and can be executed.
pub proof fn law_executed_activities_are_complete(s: EnqueueModel)
    requires
        admission::mirrors(s.activity),
    ensures
        ({
            let t = s.collecting();
            t.stage == EnqueueStage::Store && t.activity.status == ActivityStatus::Queued ==> {
                &&& t.activity.steps.len() == t.activity.definition.steps.len()
                &&& admission::mirrors(t.activity)
                &&& guarantees::resumable(t.activity)
            }
        }),
{
    let t = s.collecting();
    lemma_filled(s.activity);
    if t.stage == EnqueueStage::Store && t.activity.status == ActivityStatus::Queued {
        guarantees::law_new_activities_can_be_executed(t.activity);
    }
}

/// An event that is recorded for the automation already leads to the activity that records it, and
/// nothing more is stored or executed.
pub proof fn law_duplicates_are_merged(
    s: EnqueueModel,
    activities: Seq<ActivityModel>,
    k: int,
)
    requires
        0 <= k < activities.len(),
        activities[k].event.id == s.activity.event.id,
        forall|i: int|
            0 <= i < activities.len() && (#[trigger] activities[i]).event.id
                == s.activity.event.id ==> i == k,
    ensures
        ({
            let merged = s.after_insert(false).after_existing(activities);
            &&& merged.stage == EnqueueStage::Merged
            &&& merged.id == activities[k].id
        }),
{
    admission::law_duplicate_events_share_an_activity(
        activities,
        s.activity.event.id,
        s.activity.id,
        k,
    );
}

/// Both stand on the way of the same event: the automation, the definition and the event are the
/// same, and so is the activity that records them.
pub open spec fn same_way(s: EnqueueModel, t: EnqueueModel) -> bool {
    &&& s.activity.id == t.activity.id
    &&& s.activity.automation_id == t.activity.automation_id
    &&& s.activity.definition == t.activity.definition
    &&& s.activity.event == t.activity.event
    &&& s.activity.created_at == t.activity.created_at
    &&& s.manual == t.manual
}

proof fn lemma_collecting(s: EnqueueModel)
    ensures
        same_way(s, s.collecting()),
        s.collecting().id == s.id,
{
    lemma_filling(s.activity);
}

proof fn lemma_filling(activity: ActivityModel)
    ensures
        ({
            let f = filled(activity);
            &&& f.id == activity.id
            &&& f.automation_id == activity.automation_id
            &&& f.definition == activity.definition
            &&& f.event == activity.event
            &&& f.created_at == activity.created_at
        }),
    decreases activity.definition.steps.len() - activity.steps.len(),
{
    let index = activity.steps.len() as int;
    if index < activity.definition.steps.len() && !(activity.definition.steps[index] is QuickAction) {
        lemma_filling(
            ActivityModel {
                steps: activity.steps.push(
                    admission::queued_step(index, activity.definition.steps[index], None),
                ),
                ..activity
            },
        );
    }
}

/// Whatever answers an event gets on its way, the activity stays one of the definition and the
/// event that it began with, under the same identifier. Only an event that is merged is known by
/// another activity's identifier.
pub proof fn law_the_way_keeps_the_record(
    s: EnqueueModel,
    active: Seq<ActivityModel>,
    recent: Option<ActivityModel>,
    environment: EnvironmentModel,
    inserted: bool,
    activities: Seq<ActivityModel>,
    reply: Result<SnapshotModel, Seq<char>>,
    now: Timestamp,
)
    ensures
        same_way(s, s.after_survey(active, recent, now)),
        same_way(s, s.after_environment(environment, now)),
        same_way(s, s.after_insert(inserted)),
        same_way(s, s.after_existing(activities)),
        same_way(s, s.after_snapshot(reply, now)),
        same_way(s, s.after_store()),
        s.after_survey(active, recent, now).id == s.id,
        s.after_environment(environment, now).id == s.id,
        s.after_insert(inserted).id == s.id,
        s.after_snapshot(reply, now).id == s.id,
        s.after_store().id == s.id,
{
    lemma_collecting(s);
    lemma_collecting(
        EnqueueModel {
            activity: admission::with_next_step(s.activity, Some(reply), now),
            ..s
        },
    );
}

/// The activity that an event leads to for one of the definitions that respond to it, given what is
/// found on the way: it records that definition and that event under the new identifier, and where
/// an automation caused the event, it is skipped.
pub proof fn law_dispatched_activities(
    definitions: Seq<DefinitionModel>,
    event: EventModel,
    k: int,
    id: Seq<char>,
    created_at: Timestamp,
    active: Seq<ActivityModel>,
    recent: Option<ActivityModel>,
    environment: EnvironmentModel,
    now: Timestamp,
)
    requires
        0 <= k < crate::trigger::responding(definitions, definitions.len(), event).len(),
    ensures
        ({
            let definition = definitions[crate::trigger::responding(
                definitions,
                definitions.len(),
                event,
            )[k]];
            let begun = EnqueueModel::initial(id, definition, event, false, created_at);
            let s = decided(begun, active, recent, environment, now).after_insert(true);
            &&& definition.responds_to(event)
            &&& s.id == id
            &&& s.activity.id == id
            &&& s.activity.automation_id == definition.id
            &&& s.activity.definition == definition
            &&& s.activity.event == event
            &&& event.origin_automation_id is Some ==> s.activity.status == ActivityStatus::Skipped
        }),
{
    crate::trigger::law_dispatch_reaches_the_respondents(definitions, definitions.len(), event);
    let definition = definitions[crate::trigger::responding(definitions, definitions.len(), event)[k]];
    let begun = EnqueueModel::initial(id, definition, event, false, created_at);
    lemma_collecting(decided(begun, active, recent, environment, now));
}

/// An event that is not to run leaves a skipped activity, finished with the reason and otherwise as it
/// began; one that is to run goes on queued, without a reason.
pub proof fn law_decided_events(
    id: Seq<char>,
    definition: DefinitionModel,
    event: EventModel,
    manual: bool,
    created_at: Timestamp,
    active: Seq<ActivityModel>,
    recent: Option<ActivityModel>,
    environment: EnvironmentModel,
    now: Timestamp,
)
    ensures
        ({
            let s = decided(
                EnqueueModel::initial(id, definition, event, manual, created_at),
                active,
                recent,
                environment,
                now,
            );
            let reason = admission::refusal(
                definition,
                event,
                manual,
                active,
                recent,
                environment,
                now,
            );
            &&& s.id == id
            &&& s.manual == manual
            &&& s.activity.id == id
            &&& s.activity.automation_id == definition.id
            &&& s.activity.definition == definition
            &&& s.activity.event == event
            &&& s.activity.created_at == created_at
            &&& s.activity.reason == reason
            &&& s.activity.steps.len() == 0
            &&& reason is Some ==> s.activity.status == ActivityStatus::Skipped
                && s.activity.finished_at == Some(now)
            &&& reason is None ==> s.activity.status == ActivityStatus::Queued
                && s.activity.finished_at is None
        }),
{
}

/// The environment is asked for exactly where an event of the system was not refused early; a manual
/// run is inserted without it.
pub proof fn law_when_the_environment_is_asked_for(
    s: EnqueueModel,
    active: Seq<ActivityModel>,
    recent: Option<ActivityModel>,
    environment: EnvironmentModel,
    now: Timestamp,
)
    ensures
        ({
            let t = s.after_survey(active, recent, now);
            let refused_early = admission::early_refusal(
                s.activity.definition,
                s.activity.event,
                s.manual,
                active,
                recent,
                now,
            ) is Some;
            &&& t.stage == EnqueueStage::Conditions <==> !s.manual && !refused_early
            &&& t.stage == EnqueueStage::Insert <==> s.manual || refused_early
        }),
        s.after_environment(environment, now).stage == EnqueueStage::Insert,
        s.after_insert(false).stage == EnqueueStage::Existing,
        s.after_insert(false).activity == s.activity,
        s.after_store().stage == EnqueueStage::Done,
        s.after_store().activity == s.activity,
{
}

proof fn lemma_filled_up_to(activity: ActivityModel)
    requires
        activity.steps.len() <= activity.definition.steps.len(),
    ensures
        ({
            let f = filled(activity);
            let n = activity.steps.len() as int;
            &&& n <= f.steps.len() <= activity.definition.steps.len()
            &&& f == (ActivityModel { steps: f.steps, ..activity })
            &&& forall|i: int| 0 <= i < n ==> #[trigger] f.steps[i] == activity.steps[i]
            &&& forall|i: int|
                n <= i < f.steps.len() ==> {
                    let run = #[trigger] f.steps[i];
                    &&& run.index == i
                    &&& run.step == activity.definition.steps[i]
                    &&& !(run.step is QuickAction)
                    &&& run.action is None
                    &&& run.status == ActivityStatus::Queued
                    &&& run.started_at is None
                    &&& run.finished_at is None
                    &&& run.result.error is None
                }
            &&& f.steps.len() < activity.definition.steps.len()
                ==> activity.definition.steps[f.steps.len() as int] is QuickAction
        }),
    decreases activity.definition.steps.len() - activity.steps.len(),
{
    let n = activity.steps.len() as int;
    if n < activity.definition.steps.len() && !(activity.definition.steps[n] is QuickAction) {
        let next = ActivityModel {
            steps: activity.steps.push(
                admission::queued_step(n, activity.definition.steps[n], None),
            ),
            ..activity
        };
        lemma_filled_up_to(next);
        let f = filled(activity);
        assert(f == filled(next));
        assert forall|i: int| 0 <= i < n implies #[trigger] f.steps[i] == activity.steps[i] by {
            assert(f.steps[i] == next.steps[i]);
        }
        assert(f.steps[n] == next.steps[n]);
    }
}

/// On its way into the queue an activity gets the steps of its definition one by one, in their order,
/// each waiting for its turn, and stops in front of a quick action whose snapshot it does not have.
/// With all of them on record it is stored: queued, or waiting where the definition asks before it
/// runs.
pub proof fn law_steps_are_collected(s: EnqueueModel)
    requires
        s.activity.status == ActivityStatus::Queued,
        s.activity.steps.len() <= s.activity.definition.steps.len(),
    ensures
        ({
            let t = s.collecting();
            let all = s.activity.definition.steps;
            let n = s.activity.steps.len() as int;
            let asks = s.activity.definition.run_mode == RunMode::AskBeforeRun;
            &&& t.id == s.id
            &&& n <= t.activity.steps.len() <= all.len()
            &&& forall|i: int| 0 <= i < n ==> #[trigger] t.activity.steps[i] == s.activity.steps[i]
            &&& forall|i: int|
                n <= i < t.activity.steps.len() ==> {
                    let run = #[trigger] t.activity.steps[i];
                    &&& run.index == i
                    &&& run.step == all[i]
                    &&& !(run.step is QuickAction)
                    &&& run.action is None
                    &&& run.status == ActivityStatus::Queued
                    &&& run.started_at is None
                    &&& run.finished_at is None
                    &&& run.result.error is None
                }
            &&& t.activity.steps.len() < all.len() ==> {
                &&& t.stage == EnqueueStage::Snapshot
                &&& all[t.activity.steps.len() as int] is QuickAction
                &&& t.activity.status == ActivityStatus::Queued
            }
            &&& t.activity.steps.len() == all.len() ==> {
                &&& t.stage == EnqueueStage::Store
                &&& !asks ==> t.activity.status == ActivityStatus::Queued
                &&& asks ==> t.activity.status == ActivityStatus::AwaitingConfirmation
            }
        }),
{
    lemma_filled_up_to(s.activity);
}

/// The snapshot of a quick action is recorded with the very step that it was asked for. Where the
/// quick action cannot be had, the activity has failed for that reason and is stored without further
/// steps.
pub proof fn law_snapshots_are_recorded(
    s: EnqueueModel,
    reply: Result<SnapshotModel, Seq<char>>,
    now: Timestamp,
)
    requires
        s.activity.status == ActivityStatus::Queued,
        s.activity.steps.len() < s.activity.definition.steps.len(),
    ensures
        ({
            let t = s.after_snapshot(reply, now);
            let n = s.activity.steps.len() as int;
            &&& reply matches Ok(action) ==> {
                &&& t.activity.steps.len() > n
                &&& t.activity.steps[n].index == n
                &&& t.activity.steps[n].step == s.activity.definition.steps[n]
                &&& t.activity.steps[n].action == Some(action)
                &&& t.activity.steps[n].status == ActivityStatus::Queued
            }
            &&& reply matches Err(message) ==> {
                &&& t.stage == EnqueueStage::Store
                &&& t.activity.status == ActivityStatus::Failed
                &&& t.activity.reason == Some(message)
                &&& t.activity.finished_at == Some(now)
                &&& t.activity.steps == s.activity.steps
            }
        }),
{
    let next = EnqueueModel {
        activity: admission::with_next_step(s.activity, Some(reply), now),
        ..s
    };
    if reply is Ok {
        law_steps_are_collected(next);
        assert(next.activity.steps[s.activity.steps.len() as int]
            == next.collecting().activity.steps[s.activity.steps.len() as int]);
    }
}

/// An activity is handed to execution exactly where it is stored and queued: not where it waits for a
/// confirmation, was skipped or has failed.
pub proof fn law_what_is_executed(s: EnqueueModel)
    ensures
        executes(s) ==> s.stage == EnqueueStage::Done && s.activity.status
            == ActivityStatus::Queued,
        s.stage == EnqueueStage::Done && s.activity.status == ActivityStatus::Queued ==> executes(s),
        executes(s) ==> s.activity.status != ActivityStatus::AwaitingConfirmation
            && s.activity.status != ActivityStatus::Skipped && s.activity.status
            != ActivityStatus::Failed,
{
}

/// An event that could not be inserted and that no activity records keeps the identifier of its own
/// activity.
pub proof fn law_unrecorded_events_keep_their_identifier(
    s: EnqueueModel,
    activities: Seq<ActivityModel>,
)
    requires
        forall|i: int|
            0 <= i < activities.len() ==> (#[trigger] activities[i]).event.id != s.activity.event.id,
    ensures
        s.after_existing(activities).id == s.activity.id,
        s.after_existing(activities).activity == s.activity,
        s.after_existing(activities).stage == EnqueueStage::Merged,
{
    admission::law_first_record_of_an_event(
        activities,
        s.activity.event.id,
        s.activity.id,
        activities.len() as int,
    );
}

} // verus!
