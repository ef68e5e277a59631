//! Time slots that have come: whether to run, to report them missed, or to leave them alone.

use crate::admission;
use crate::model::{
    ActivityModel, ActivityStatus, AutomationActivity, AutomationDefinition, AutomationEvent,
    AutomationTrigger, DefinitionModel, EventModel, TriggerModel,
};
use crate::text;
use crate::time;
use crate::time::Timestamp;
use vstd::prelude::*;

verus! {

/// From how many milliseconds on a slot counts as missed.
pub const MISSED_MILLIS: i64 = 91_000;

/// The identifier of the event of a slot. It is made of the automation, its revision and the slot,
/// so that a slot which is found again is the same event.
pub open spec fn slot_event_id(id: Seq<char>, revision: nat, at: int) -> Seq<char> {
    "schedule:"@ + id + ":"@ + text::decimal(revision) + ":"@ + text::signed_decimal(at)
}

/// The event of a slot.
pub open spec fn slot_event(id: Seq<char>, revision: nat, at: int, now: Timestamp) -> EventModel {
    EventModel {
        id: slot_event_id(id, revision, at),
        kind: "schedule"@,
        occurred_at: now,
        variables: Map::empty().insert(
            "event.schedule.plannedAt"@,
            time::rfc3339_text(at, 0),
        ).insert(
            "event.schedule.actualAt"@,
            time::rfc3339_text(now.seconds as int, now.nanos as int),
        ),
        origin_automation_id: None,
    }
}

/// A missed slot of the trigger is made up for.
pub open spec fn catches_up(trigger: TriggerModel) -> bool {
    trigger matches TriggerModel::Schedule { catch_up, .. } && catch_up
}

/// The slot can be represented as an instant.
pub open spec fn is_instant(at: int) -> bool {
    time::MIN_SECONDS <= at <= time::MAX_SECONDS
}

/// What is to be done with a slot that has come.
pub enum Tick {
    /// Nothing.
    Ignore,
    /// The event is queued for the automation.
    Run(AutomationEvent),
    /// The event is recorded as missed.
    Miss(AutomationEvent),
}

pub enum TickModel {
    Ignore,
    Run(EventModel),
    Miss(EventModel),
}

impl View for Tick {
    type V = TickModel;

    open spec fn view(&self) -> TickModel {
        match self {
            Tick::Ignore => TickModel::Ignore,
            Tick::Run(event) => TickModel::Run(event@),
            Tick::Miss(event) => TickModel::Miss(event@),
        }
    }
}

/// What is to be done with a slot, given by how many milliseconds it is late.
pub open spec fn tick(
    definition: DefinitionModel,
    id: Seq<char>,
    at: int,
    late: int,
    now: Timestamp,
) -> TickModel {
    if !definition.enabled || !is_instant(at) {
        TickModel::Ignore
    } else {
        let event = slot_event(id, definition.revision, at, now);
        if late < MISSED_MILLIS || catches_up(definition.trigger) {
            TickModel::Run(event)
        } else {
            TickModel::Miss(event)
        }
    }
}

/// Whether a slot that is late by so many milliseconds still runs.
pub fn still_runs(trigger: &AutomationTrigger, late: i64) -> (r: bool)
    ensures
        r == (late < MISSED_MILLIS || catches_up(trigger@)),
{
    late < MISSED_MILLIS || match trigger {
        AutomationTrigger::Schedule { catch_up, .. } => *catch_up,
        _ => false,
    }
}

/// Decides on a slot of the automation `id` that was due at `at`.
pub fn decide(definition: &AutomationDefinition, id: &str, at: i64, now: Timestamp) -> (r: Tick)
    requires
        now.wf(),
    ensures
        r@ == tick(
            definition@,
            id@,
            at as int,
            time::elapsed(now, (Timestamp { seconds: at, nanos: 0 })),
            now,
        ),
        // Outside leap seconds, a slot is missed where that many milliseconds have passed.
        now.ordinary() && !(r is Ignore) && !catches_up(definition@.trigger) ==> (r is Miss
            <==> now.total_nanos() - at * 1_000_000_000 >= MISSED_MILLIS * 1_000_000),
{
    if !definition.enabled {
        return Tick::Ignore;
    }
    let planned = match Timestamp::new(at, 0) {
        Some(planned) => planned,
        None => {
            return Tick::Ignore;
        },
    };
    let mut event_id = "schedule:".to_owned();
    event_id.append(id);
    event_id.append(":");
    event_id.append(text::decimal_text(definition.revision).as_str());
    event_id.append(":");
    event_id.append(text::signed_decimal_text(at).as_str());
    let mut event = AutomationEvent::with_identity(event_id, "schedule", now);
    event.variables.insert("event.schedule.plannedAt".to_owned(), time::rfc3339(planned));
    event.variables.insert("event.schedule.actualAt".to_owned(), time::rfc3339(now));
    assert(event@ =~= slot_event(id@, definition@.revision, at as int, now));
    if still_runs(&definition.trigger, time::elapsed_millis(now, planned)) {
        Tick::Run(event)
    } else {
        Tick::Miss(event)
    }
}

/// The activity that records a missed slot.
pub open spec fn missed(
    id: Seq<char>,
    definition: DefinitionModel,
    event: EventModel,
    now: Timestamp,
) -> ActivityModel {
    admission::recorded(
        id,
        definition,
        event,
        Some("the scheduled time was missed while the computer was asleep or offline"@),
        now,
        now,
    )
}

/// Records a missed slot.
pub fn miss(
    id: String,
    definition: AutomationDefinition,
    event: AutomationEvent,
    now: Timestamp,
) -> (r: AutomationActivity)
    ensures
        r@ == missed(id@, definition@, event@, now),
{
    admission::record(
        id,
        definition,
        event,
        Some("the scheduled time was missed while the computer was asleep or offline".to_owned()),
        now,
        now,
    )
}

/// A numeral begins with a digit.
proof fn lemma_decimal_begins_with_digit(n: nat)
    ensures
        text::decimal(n).len() > 0,
        text::decimal(n)[0] != '-',
    decreases n,
{
    if n >= 10 {
        lemma_decimal_begins_with_digit(n / 10);
    }
}

/// Different slots of one revision of an automation are different events, so that none of them is
/// taken for a duplicate of another.
pub proof fn law_slots_are_different_events(id: Seq<char>, revision: nat, a: int, b: int)
    requires
        slot_event_id(id, revision, a) == slot_event_id(id, revision, b),
    ensures
        a == b,
{
    let prefix = "schedule:"@ + id + ":"@ + text::decimal(revision) + ":"@;
    let n = prefix.len() as int;
    assert(slot_event_id(id, revision, a).skip(n) =~= text::signed_decimal(a));
    assert(slot_event_id(id, revision, b).skip(n) =~= text::signed_decimal(b));
    reveal_strlit("-");
    let x = text::signed_decimal(a);
    let y = text::signed_decimal(b);
    assert(x[0] == y[0]);
    if a >= 0 {
        lemma_decimal_begins_with_digit(a as nat);
    }
    if b >= 0 {
        lemma_decimal_begins_with_digit(b as nat);
    }
    if a < 0 {
        assert(x.skip(1) =~= text::decimal((-a) as nat));
        assert(y.skip(1) =~= text::decimal((-b) as nat));
        text::lemma_decimal_injective((-a) as nat, (-b) as nat);
    } else {
        text::lemma_decimal_injective(a as nat, b as nat);
    }
}

/// A slot that is found again, at whatever time, is the same event, which is recorded once.
pub proof fn law_slot_found_again_is_the_same_event(
    id: Seq<char>,
    revision: nat,
    at: int,
    now: Timestamp,
    later: Timestamp,
)
    ensures
        slot_event(id, revision, at, now).id == slot_event(id, revision, at, later).id,
{
}

/// A slot that was missed is skipped, or made up for once: it becomes one event, which either runs
/// or is recorded as skipped.
pub proof fn law_missed_slots(
    definition: DefinitionModel,
    id: Seq<char>,
    at: int,
    late: int,
    now: Timestamp,
    run_id: Seq<char>,
)
    requires
        definition.enabled,
        is_instant(at),
        late >= MISSED_MILLIS,
    ensures
        ({
            let event = slot_event(id, definition.revision, at, now);
            &&& catches_up(definition.trigger) ==> tick(definition, id, at, late, now)
                == TickModel::Run(event)
            &&& !catches_up(definition.trigger) ==> tick(definition, id, at, late, now)
                == TickModel::Miss(event)
            &&& missed(run_id, definition, event, now).status == ActivityStatus::Skipped
        }),
{
}

/// The event of a slot provides what scheduled automations may use in their texts.
pub proof fn law_slot_events_provide_their_variables(
    trigger: TriggerModel,
    id: Seq<char>,
    revision: nat,
    at: int,
    now: Timestamp,
)
    requires
        trigger is Schedule,
    ensures
        trigger.variables().to_set().subset_of(slot_event(id, revision, at, now).variables.dom()),
{
    let variables = trigger.variables();
    let event = slot_event(id, revision, at, now);
    assert forall|key: Seq<char>| variables.to_set().contains(key) implies event.variables.dom().contains(
        key,
    ) by {
        let i = choose|i: int| 0 <= i < variables.len() && variables[i] == key;
        assert(i == 0 || i == 1);
    }
}

/// A slot of an enabled automation runs wherever it is late by less than 91 seconds, whatever its
/// trigger; later than that it runs exactly where the schedule catches up, and is missed otherwise.
/// So being late never turns a slot that would run into a missed one where the schedule catches up,
/// and never a missed one into one that runs.
pub proof fn law_late_slots(
    definition: DefinitionModel,
    id: Seq<char>,
    at: int,
    late: int,
    now: Timestamp,
)
    requires
        definition.enabled,
        -8_334_601_228_800 <= at <= 8_210_266_876_799,
    ensures
        late < 91_000 ==> tick(definition, id, at, late, now) is Run,
        (definition.trigger matches TriggerModel::Schedule { catch_up, .. } && catch_up) ==> tick(
            definition,
            id,
            at,
            late,
            now,
        ) is Run,
        late >= 91_000 && (definition.trigger matches TriggerModel::Schedule { catch_up, .. }
            ==> !catch_up) ==> tick(definition, id, at, late, now) is Miss,
{
}

/// A slot of a disabled automation, or one that is no instant, is left alone, however late it is.
pub proof fn law_idle_slots(
    definition: DefinitionModel,
    id: Seq<char>,
    at: int,
    late: int,
    now: Timestamp,
)
    ensures
        tick(definition, id, at, late, now) is Ignore <==> !definition.enabled || at
            < -8_334_601_228_800 || at > 8_210_266_876_799,
{
}

/// Whether a slot runs or is missed, its event is the same: one of the schedule, of this moment, that
/// no automation caused and that tells when the slot was due and when it came.
pub proof fn law_slot_events(
    definition: DefinitionModel,
    id: Seq<char>,
    at: int,
    late: int,
    now: Timestamp,
)
    ensures
        ({
            let decided = tick(definition, id, at, late, now);
            let event = match decided {
                TickModel::Run(event) => event,
                TickModel::Miss(event) => event,
                TickModel::Ignore => slot_event(id, definition.revision, at, now),
            };
            &&& event.kind == "schedule"@
            &&& event.occurred_at == now
            &&& event.origin_automation_id is None
            &&& event.variables.contains_key("event.schedule.plannedAt"@)
            &&& event.variables["event.schedule.plannedAt"@] == time::rfc3339_text(at, 0)
            &&& event.variables.contains_key("event.schedule.actualAt"@)
            &&& event.variables["event.schedule.actualAt"@] == time::rfc3339_text(
                now.seconds as int,
                now.nanos as int,
            )
            &&& event.id == "schedule:"@ + id + ":"@ + text::decimal(definition.revision) + ":"@
                + text::signed_decimal(at)
        }),
{
    reveal_strlit("event.schedule.plannedAt");
    reveal_strlit("event.schedule.actualAt");
    assert("event.schedule.plannedAt"@.len() != "event.schedule.actualAt"@.len());
}

/// Slots of different revisions of an automation are different events.
pub proof fn law_revisions_have_their_own_slots(
    id: Seq<char>,
    first: nat,
    second: nat,
    a: int,
    b: int,
)
    requires
        slot_event_id(id, first, a) == slot_event_id(id, second, b),
    ensures
        first == second,
        a == b,
{
    reveal_strlit(":");
    let prefix = "schedule:"@ + id + ":"@;
    let n = prefix.len() as int;
    let x = text::decimal(first);
    let y = text::decimal(second);
    text::law_decimal(first);
    text::law_decimal(second);
    let whole = slot_event_id(id, first, a);
    assert(whole[n + x.len()] == ':');
    assert(whole[n + y.len()] == ':') by {
        assert(slot_event_id(id, second, b)[n + y.len()] == ':');
    }
    if x.len() < y.len() {
        assert(slot_event_id(id, second, b)[n + x.len()] == y[x.len() as int]);
    } else if y.len() < x.len() {
        assert(whole[n + y.len()] == x[y.len() as int]);
    }
    assert(whole.subrange(n, n + x.len()) =~= x);
    assert(slot_event_id(id, second, b).subrange(n, n + y.len()) =~= y);
    text::lemma_decimal_injective(first, second);
    law_slots_are_different_events(id, first, a, b);
}

/// A missed slot is recorded for its definition and its event, finished at once, with the reason and
/// without any step.
pub proof fn law_missed_slots_are_recorded(
    id: Seq<char>,
    definition: DefinitionModel,
    event: EventModel,
    now: Timestamp,
)
    ensures
        ({
            let activity = missed(id, definition, event, now);
            &&& activity.id == id
            &&& activity.automation_id == definition.id
            &&& activity.definition == definition
            &&& activity.event == event
            &&& activity.status == ActivityStatus::Skipped
            &&& activity.reason == Some(
                "the scheduled time was missed while the computer was asleep or offline"@,
            )
            &&& activity.created_at == now
            &&& activity.finished_at == Some(now)
            &&& activity.steps.len() == 0
        }),
{
}

} // verus!
