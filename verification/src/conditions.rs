//! Conditions: what has to hold for an event to run an automation.

use crate::model::{
    ApplicationModel, AutomationCondition, ConditionModel, EnvironmentModel, EnvironmentState,
    PresenceEvent,
};
use crate::text;
use crate::time;
use crate::time::Timestamp;
use vstd::prelude::*;

verus! {

/// The weekday on which an interval that covers `second` started: `yesterday` where the interval
/// runs over midnight and `second` lies in its second half.
pub open spec fn starting_weekday(
    start: int,
    end: int,
    second: int,
    today: int,
    yesterday: int,
) -> int {
    if start > end && second < end {
        yesterday
    } else {
        today
    }
}

/// `second` lies in the daily interval from `start` up to `end`. An interval that ends before it
/// starts runs over midnight; one that ends where it starts covers the day.
pub open spec fn covers(start: int, end: int, second: int) -> bool {
    if start < end {
        start <= second < end
    } else if start > end {
        second >= start || second < end
    } else {
        true
    }
}

/// A daily interval of certain weekdays covers the second of the day.
pub open spec fn in_range(
    weekdays: Seq<u8>,
    start: int,
    end: int,
    second: int,
    today: int,
    yesterday: int,
) -> bool {
    &&& exists|k: int|
        0 <= k < weekdays.len() && weekdays[k] as int == starting_weekday(
            start,
            end,
            second,
            today,
            yesterday,
        )
    &&& covers(start, end, second)
}

/// The condition holds in the environment at the instant.
pub open spec fn satisfied(
    condition: ConditionModel,
    state: EnvironmentModel,
    now: Timestamp,
) -> bool {
    match condition {
        ConditionModel::ApplicationRunning { app, running } => state.running_app_ids.contains(
            app.id,
        ) == running,
        ConditionModel::DeviceConnected { device_id, connected } =>
            state.connected_device_ids.contains(device_id) == connected,
        ConditionModel::Presence { state: wanted } => state.presence_state == Some(wanted),
        ConditionModel::TimeRange { weekdays, start, end, timezone } => {
            &&& time::known_timezone(timezone)
            &&& time::clock_time(start) is Some
            &&& time::clock_time(end) is Some
            &&& in_range(
                weekdays,
                time::clock_time(start)->0,
                time::clock_time(end)->0,
                time::zone_clock(timezone, now.seconds as int).1,
                time::weekday_of(time::zone_clock(timezone, now.seconds as int).0),
                time::weekday_of(time::zone_clock(timezone, now.seconds as int).0 - 1),
            )
        },
    }
}

/// Why an activity is skipped when the condition does not hold.
pub open spec fn failure_reason(condition: ConditionModel) -> Seq<char> {
    match condition {
        ConditionModel::ApplicationRunning { app, .. } => "the running state of application "@
            + app.name + " does not satisfy the condition"@,
        ConditionModel::DeviceConnected { .. } =>
            "the device connection state does not satisfy the condition"@,
        ConditionModel::Presence { .. } => "the presence state does not satisfy the condition"@,
        ConditionModel::TimeRange { .. } => "the current time is outside the configured schedule"@,
    }
}

/// The reason of the first condition that does not hold; `None` where all hold.
pub open spec fn first_failure(
    conditions: Seq<ConditionModel>,
    state: EnvironmentModel,
    now: Timestamp,
) -> Option<Seq<char>>
    decreases conditions.len(),
{
    if conditions.len() == 0 {
        None
    } else if !satisfied(conditions[0], state, now) {
        Some(failure_reason(conditions[0]))
    } else {
        first_failure(conditions.drop_first(), state, now)
    }
}

/// The conditions can be held against the instant: where one of them speaks of the time, the
/// instant can be represented.
pub open spec fn decidable(conditions: Seq<ConditionModel>, now: Timestamp) -> bool {
    forall|i: int|
        0 <= i < conditions.len() && (#[trigger] conditions[i]) is TimeRange ==> now.wf()
}

/// Whether `day` is one of `weekdays`.
pub(crate) fn includes(weekdays: &[u8], day: u8) -> (r: bool)
    ensures
        r == exists|k: int| 0 <= k < weekdays@.len() && weekdays@[k] == day,
{
    let mut i: usize = 0;
    while i < weekdays.len()
        invariant
            i <= weekdays@.len(),
            forall|k: int| 0 <= k < i ==> weekdays@[k] != day,
        decreases weekdays@.len() - i,
    {
        if weekdays[i] == day {
            return true;
        }
        i = i + 1;
    }
    false
}

/// Whether a daily interval of certain weekdays covers a second of the day. An interval over
/// midnight belongs to the weekday on which it starts.
pub fn within_range(
    weekdays: &[u8],
    start: u32,
    end: u32,
    second: u32,
    today: u8,
    yesterday: u8,
) -> (r: bool)
    ensures
        r == in_range(
            weekdays@,
            start as int,
            end as int,
            second as int,
            today as int,
            yesterday as int,
        ),
{
    let day: u8 = if start > end && second < end {
        yesterday
    } else {
        today
    };
    let covered = if start < end {
        second >= start && second < end
    } else if start > end {
        second >= start || second < end
    } else {
        true
    };
    let listed = includes(weekdays, day);
    proof {
        if listed {
            let k = choose|k: int| 0 <= k < weekdays@.len() && weekdays@[k] == day;
            assert(weekdays@[k] as int == day as int);
        }
    }
    listed && covered
}

/// Whether the clock of a time zone stands within a daily interval of certain weekdays.
fn time_range_holds(
    weekdays: &Vec<u8>,
    start: &String,
    end: &String,
    timezone: &String,
    now: Timestamp,
) -> (r: bool)
    requires
        now.wf(),
    ensures
        forall|state: EnvironmentModel|
            r == #[trigger] satisfied(
                (ConditionModel::TimeRange {
                    weekdays: weekdays@,
                    start: start@,
                    end: end@,
                    timezone: timezone@,
                }),
                state,
                now,
            ),
{
    match (
        time::local_clock(timezone.as_str(), now),
        time::parse_clock(start.as_str()),
        time::parse_clock(end.as_str()),
    ) {
        (Some((day, second)), Some(from), Some(until)) => within_range(
            weekdays,
            from,
            until,
            second,
            time::weekday(day),
            time::weekday(day - 1),
        ),
        _ => false,
    }
}

/// Whether one condition holds.
fn holds(condition: &AutomationCondition, state: &EnvironmentState, now: Timestamp) -> (r: bool)
    requires
        condition is TimeRange ==> now.wf(),
    ensures
        r == satisfied(condition@, state@, now),
{
    match condition {
        AutomationCondition::ApplicationRunning { app, running } => text::contains_text(
            &state.running_app_ids,
            app.id.as_str(),
        ) == *running,
        AutomationCondition::DeviceConnected { device_id, connected } => text::contains_text(
            &state.connected_device_ids,
            device_id.as_str(),
        ) == *connected,
        AutomationCondition::Presence { state: wanted } => match state.presence_state {
            Some(PresenceEvent::UnknownPresent) => *wanted == PresenceEvent::UnknownPresent,
            Some(PresenceEvent::OwnerPresent) => *wanted == PresenceEvent::OwnerPresent,
            None => false,
        },
        AutomationCondition::TimeRange { weekdays, start, end, timezone } => {
            let r = time_range_holds(weekdays, start, end, timezone, now);
            assert(r == satisfied(condition@, state@, now));
            r
        },
    }
}

/// Why an activity is skipped when the condition does not hold.
fn reason(condition: &AutomationCondition) -> (r: String)
    ensures
        r@ == failure_reason(condition@),
{
    match condition {
        AutomationCondition::ApplicationRunning { app, .. } => {
            let mut out = "the running state of application ".to_owned();
            out.append(app.name.as_str());
            out.append(" does not satisfy the condition");
            out
        },
        AutomationCondition::DeviceConnected { .. } =>
            "the device connection state does not satisfy the condition".to_owned(),
        AutomationCondition::Presence { .. } =>
            "the presence state does not satisfy the condition".to_owned(),
        AutomationCondition::TimeRange { .. } =>
            "the current time is outside the configured schedule".to_owned(),
    }
}

/// The reason of the first condition that does not hold.
pub fn condition_failure(
    conditions: &[AutomationCondition],
    state: &EnvironmentState,
    now: Timestamp,
) -> (r: Option<String>)
    requires
        decidable(text::views(conditions@), now),
    ensures
        text::opt_view(r) == first_failure(text::views(conditions@), state@, now),
{
    let ghost models = text::views(conditions@);
    let mut i: usize = 0;
    assert(models.skip(0) =~= models);
    while i < conditions.len()
        invariant
            i <= conditions@.len(),
            models == text::views(conditions@),
            decidable(models, now),
            first_failure(models, state@, now) == first_failure(
                models.skip(i as int),
                state@,
                now,
            ),
        decreases conditions@.len() - i,
    {
        let condition = &conditions[i];
        assert(models.skip(i as int)[0] == models[i as int]);
        assert(models[i as int] == condition@);
        assert(models.skip(i as int).drop_first() =~= models.skip(i + 1));
        if !holds(condition, state, now) {
            return Some(reason(condition));
        }
        i = i + 1;
    }
    None
}

/// All conditions have to hold: there is no failure exactly where each of them holds.
pub proof fn law_conditions_are_conjunctive(
    conditions: Seq<ConditionModel>,
    state: EnvironmentModel,
    now: Timestamp,
)
    ensures
        first_failure(conditions, state, now) is None <==> forall|i: int|
            0 <= i < conditions.len() ==> satisfied(#[trigger] conditions[i], state, now),
    decreases conditions.len(),
{
    if conditions.len() > 0 {
        let rest = conditions.drop_first();
        law_conditions_are_conjunctive(rest, state, now);
        if first_failure(conditions, state, now) is None {
            assert forall|i: int| 0 <= i < conditions.len() implies satisfied(
                #[trigger] conditions[i],
                state,
                now,
            ) by {
                if i > 0 {
                    assert(rest[i - 1] == conditions[i]);
                }
            }
        } else if satisfied(conditions[0], state, now) {
            let i = choose|i: int| 0 <= i < rest.len() && !satisfied(#[trigger] rest[i], state, now);
            assert(conditions[i + 1] == rest[i]);
        }
    }
}

/// An interval over midnight belongs to the weekday on which it starts: before midnight today's
/// weekday counts, after it that of the local date before, however many hours that day had.
pub proof fn law_overnight_belongs_to_its_start(
    weekdays: Seq<u8>,
    start: Seq<char>,
    end: Seq<char>,
    timezone: Seq<char>,
    state: EnvironmentModel,
    now: Timestamp,
)
    requires
        time::known_timezone(timezone),
        time::clock_time(start) is Some,
        time::clock_time(end) is Some,
        time::clock_time(start)->0 > time::clock_time(end)->0,
    ensures
        ({
            let (day, second) = time::zone_clock(timezone, now.seconds as int);
            let range = ConditionModel::TimeRange { weekdays, start, end, timezone };
            let listed = |d: int|
                exists|k: int| 0 <= k < weekdays.len() && weekdays[k] as int == time::weekday_of(d);
            satisfied(range, state, now) == (second >= time::clock_time(start)->0 && listed(day)
                || second < time::clock_time(end)->0 && listed(day - 1))
        }),
{
}

/// An interval that ends where it starts covers every second of its weekdays.
pub proof fn law_equal_ends_cover_the_day(
    weekdays: Seq<u8>,
    start: int,
    second: int,
    today: int,
    yesterday: int,
)
    ensures
        in_range(weekdays, start, start, second, today, yesterday) == exists|k: int|
            0 <= k < weekdays.len() && weekdays[k] as int == today,
{
}

/// A condition on a time range that cannot be read never holds.
pub proof fn law_unreadable_range_never_holds(
    weekdays: Seq<u8>,
    start: Seq<char>,
    end: Seq<char>,
    timezone: Seq<char>,
    state: EnvironmentModel,
    now: Timestamp,
)
    requires
        !time::known_timezone(timezone) || time::clock_time(start) is None || time::clock_time(end)
            is None,
    ensures
        !satisfied((ConditionModel::TimeRange { weekdays, start, end, timezone }), state, now),
{
}

/// A condition that a device is connected holds exactly where the device is among the connected
/// ones, and the condition that it is not exactly where the first does not.
pub proof fn law_device_conditions_are_complementary(
    device_id: Seq<char>,
    state: EnvironmentModel,
    now: Timestamp,
)
    ensures
        ({
            let present = ConditionModel::DeviceConnected { device_id, connected: true };
            let absent = ConditionModel::DeviceConnected { device_id, connected: false };
            let ids = state.connected_device_ids;
            &&& satisfied(present, state, now) <==> exists|i: int|
                0 <= i < ids.len() && #[trigger] ids[i] == device_id
            &&& satisfied(absent, state, now) <==> !satisfied(present, state, now)
        }),
{
}

/// A condition that an application runs holds exactly where the identifier of the application is
/// among those that run, and the condition that it does not run exactly where the first does not.
pub proof fn law_application_conditions_are_complementary(
    app: ApplicationModel,
    state: EnvironmentModel,
    now: Timestamp,
)
    ensures
        ({
            let running = ConditionModel::ApplicationRunning { app, running: true };
            let idle = ConditionModel::ApplicationRunning { app, running: false };
            let ids = state.running_app_ids;
            &&& satisfied(running, state, now) <==> exists|i: int|
                0 <= i < ids.len() && #[trigger] ids[i] == app.id
            &&& satisfied(idle, state, now) <==> !satisfied(running, state, now)
        }),
{
}

/// Of the conditions on presence the one for the state at hand holds and no other; none holds where
/// the state is not known.
pub proof fn law_presence_conditions_exclude_each_other(
    state: EnvironmentModel,
    wanted: PresenceEvent,
    now: Timestamp,
)
    ensures
        state.presence_state is None ==> !satisfied(
            (ConditionModel::Presence { state: wanted }),
            state,
            now,
        ),
        state.presence_state is Some ==> (satisfied(
            (ConditionModel::Presence { state: wanted }),
            state,
            now,
        ) <==> wanted == state.presence_state->0),
{
}

/// A range of hours within a day holds on its weekdays from its first second up to its last, and at
/// no other time; one that ends where it starts holds throughout its weekdays.
pub proof fn law_hours_of_the_day(
    weekdays: Seq<u8>,
    start: Seq<char>,
    end: Seq<char>,
    timezone: Seq<char>,
    state: EnvironmentModel,
    now: Timestamp,
)
    requires
        time::known_timezone(timezone),
        time::clock_time(start) is Some,
        time::clock_time(end) is Some,
    ensures
        ({
            let (day, second) = time::zone_clock(timezone, now.seconds as int);
            let from = time::clock_time(start)->0;
            let until = time::clock_time(end)->0;
            let range = ConditionModel::TimeRange { weekdays, start, end, timezone };
            let listed = exists|k: int|
                0 <= k < weekdays.len() && weekdays[k] as int == time::weekday_of(day);
            &&& from < until && listed ==> (satisfied(range, state, now) <==> from <= second
                && second < until)
            &&& from == until && listed ==> satisfied(range, state, now)
            &&& from <= until && !listed ==> !satisfied(range, state, now)
        }),
{
}

/// An event fails at the first condition that does not hold, and the reason says what kind of
/// condition that is.
pub proof fn law_first_failure_gives_the_reason(
    conditions: Seq<ConditionModel>,
    state: EnvironmentModel,
    now: Timestamp,
    k: int,
)
    requires
        0 <= k < conditions.len(),
        !satisfied(conditions[k], state, now),
        forall|i: int| 0 <= i < k ==> satisfied(#[trigger] conditions[i], state, now),
    ensures
        ({
            let reason = first_failure(conditions, state, now);
            &&& reason is Some
            &&& conditions[k] is DeviceConnected ==> reason->0
                == "the device connection state does not satisfy the condition"@
            &&& conditions[k] is Presence ==> reason->0
                == "the presence state does not satisfy the condition"@
            &&& conditions[k] is TimeRange ==> reason->0
                == "the current time is outside the configured schedule"@
            &&& conditions[k] matches ConditionModel::ApplicationRunning { app, .. } ==> reason->0
                == "the running state of application "@ + app.name
                + " does not satisfy the condition"@
        }),
    decreases k,
{
    if k > 0 {
        let rest = conditions.drop_first();
        assert(satisfied(conditions[0], state, now));
        assert forall|i: int| 0 <= i < k - 1 implies satisfied(#[trigger] rest[i], state, now) by {
            assert(rest[i] == conditions[i + 1]);
        }
        law_first_failure_gives_the_reason(rest, state, now, k - 1);
    }
}

} // verus!
