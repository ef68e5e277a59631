//! The time slots of scheduled automations.

use crate::conditions::includes;
use crate::model::{AutomationTrigger, TriggerModel};
use crate::time;
use crate::time::Timestamp;
use crate::validation;
use vstd::prelude::*;

verus! {

/// How many days, the current one counted, are searched for the next slot. A weekly slot that has
/// passed today and does not exist a week from now is found in the week after.
pub const SEARCH_DAYS: i64 = 15;

/// `weekdays` lists the weekday of a day counted from 1 January of year 1.
pub open spec fn lists_day(weekdays: Seq<u8>, day: int) -> bool {
    exists|k: int| 0 <= k < weekdays.len() && weekdays[k] as int == time::weekday_of(day)
}

/// Of the candidates for the days from `day` on, one for each, the first that falls on one of
/// `weekdays` and lies after `after`.
pub open spec fn first_slot(
    weekdays: Seq<u8>,
    day: int,
    candidates: Seq<Option<int>>,
    after: int,
) -> Option<int>
    decreases candidates.len(),
{
    if candidates.len() == 0 {
        None
    } else if lists_day(weekdays, day) && candidates[0] is Some && candidates[0]->0 > after {
        candidates[0]
    } else {
        first_slot(weekdays, day + 1, candidates.drop_first(), after)
    }
}

/// The earliest instants of the local time `second` in a time zone, for the days from `day` on;
/// `None` for a day on which it does not exist.
pub open spec fn daily_instants(timezone: Seq<char>, day: int, second: int) -> Seq<Option<int>> {
    let days = if day > time::MAX_DAY {
        0
    } else if day + SEARCH_DAYS > time::MAX_DAY + 1 {
        time::MAX_DAY + 1 - day
    } else {
        SEARCH_DAYS as int
    };
    Seq::new(days as nat, |i: int| time::zone_instant(timezone, day + i, second))
}

/// The next slot of a trigger after an instant.
pub open spec fn next_slot(trigger: TriggerModel, after: int) -> Option<int> {
    match trigger {
        TriggerModel::Schedule { time: at, weekdays, timezone, .. } => {
            if time::known_timezone(timezone) && time::clock_time(at) is Some {
                let day = time::zone_clock(timezone, after).0;
                first_slot(
                    weekdays,
                    day,
                    daily_instants(timezone, day, time::clock_time(at)->0),
                    after,
                )
            } else {
                None
            }
        },
        _ => None,
    }
}

/// The instant is a slot of the trigger: the clock of the time zone shows the configured time on a
/// listed weekday, and the instant is the earliest of that local time.
pub open spec fn is_slot(trigger: TriggerModel, seconds: int) -> bool {
    match trigger {
        TriggerModel::Schedule { time: at, weekdays, timezone, .. } => {
            let (day, second) = time::zone_clock(timezone, seconds);
            &&& time::clock_time(at) == Some(second)
            &&& lists_day(weekdays, day)
            &&& time::zone_instant(timezone, day, second) == Some(seconds)
        },
        _ => false,
    }
}

/// Optional seconds as integers.
pub open spec fn instants(candidates: Seq<Option<i64>>) -> Seq<Option<int>> {
    candidates.map_values(
        |c: Option<i64>|
            match c {
                Some(seconds) => Some(seconds as int),
                None => None,
            },
    )
}

/// Of the candidates for the days from `day` on, one for each, the first that falls on one of
/// `weekdays` and lies after `after`.
pub fn choose_slot(
    weekdays: &[u8],
    day: i64,
    candidates: &[Option<i64>],
    after: Timestamp,
) -> (r: Option<i64>)
    requires
        time::MIN_DAY <= day,
        day + candidates@.len() <= time::MAX_DAY + 1,
    ensures
        match r {
            Some(seconds) => {
                &&& first_slot(weekdays@, day as int, instants(candidates@), after.seconds as int)
                    == Some(seconds as int)
                &&& seconds > after.seconds
                &&& exists|i: int|
                    0 <= i < candidates@.len() && #[trigger] candidates@[i] == Some(seconds)
                        && lists_day(weekdays@, day + i)
            },
            None => first_slot(weekdays@, day as int, instants(candidates@), after.seconds as int)
                is None,
        },
{
    let ghost all = instants(candidates@);
    let mut i: usize = 0;
    assert(all.skip(0) =~= all);
    while i < candidates.len()
        invariant
            i <= candidates@.len(),
            time::MIN_DAY <= day,
            day + candidates@.len() <= time::MAX_DAY + 1,
            all == instants(candidates@),
            first_slot(weekdays@, day as int, all, after.seconds as int) == first_slot(
                weekdays@,
                day + i,
                all.skip(i as int),
                after.seconds as int,
            ),
        decreases candidates@.len() - i,
    {
        assert(all.skip(i as int)[0] == all[i as int]);
        assert(all.skip(i as int).drop_first() =~= all.skip(i + 1));
        let weekday = time::weekday(day + i as i64);
        let listed = includes(weekdays, weekday);
        assert(listed == lists_day(weekdays@, day + i)) by {
            if listed {
                let k = choose|k: int| 0 <= k < weekdays@.len() && weekdays@[k] == weekday;
                assert(weekdays@[k] as int == time::weekday_of(day + i));
            }
        }
        if listed {
            if let Some(seconds) = candidates[i] {
                if seconds > after.seconds {
                    assert(candidates@[i as int] == Some(seconds));
                    return Some(seconds);
                }
            }
        }
        i = i + 1;
    }
    None
}

/// The next slot of a trigger. A repeated local time counts once, at its first occurrence; a local
/// time that the change of the clocks leaves out is skipped.
pub fn next_schedule(trigger: &AutomationTrigger, after: Timestamp) -> (r: Option<Timestamp>)
    requires
        trigger is Schedule ==> after.interior(),
    ensures
        match r {
            Some(slot) => {
                &&& next_slot(trigger@, after.seconds as int) == Some(slot.seconds as int)
                &&& slot.nanos == 0
                &&& slot.wf()
                &&& slot.seconds > after.seconds
                &&& is_slot(trigger@, slot.seconds as int)
            },
            None => next_slot(trigger@, after.seconds as int) is None,
        },
{
    if let AutomationTrigger::Schedule { time: at, weekdays, timezone, .. } = trigger {
        let zone = timezone.as_str();
        let (day, second) = match (time::local_clock(zone, after), time::parse_clock(at.as_str())) {
            (Some((day, _)), Some(second)) => (day, second),
            _ => {
                return None;
            },
        };
        let ghost expected = daily_instants(zone@, day as int, second as int);
        let mut candidates: Vec<Option<i64>> = Vec::new();
        let mut offset: i64 = 0;
        while offset < SEARCH_DAYS && day + offset <= time::MAX_DAY
            invariant
                0 <= offset <= SEARCH_DAYS,
                time::MIN_DAY <= day <= time::MAX_DAY,
                day + offset <= time::MAX_DAY + 1,
                second < time::DAY_SECONDS,
                time::known_timezone(zone@),
                candidates@.len() == offset,
                expected == daily_instants(zone@, day as int, second as int),
                instants(candidates@) == expected.take(offset as int),
                forall|i: int|
                    0 <= i < candidates@.len() && (#[trigger] candidates@[i]) is Some ==> {
                        let seconds = candidates@[i]->0;
                        &&& time::zone_instant(zone@, day + i, second as int) == Some(
                            seconds as int,
                        )
                        &&& time::MIN_SECONDS <= seconds <= time::MAX_SECONDS
                        &&& time::zone_clock(zone@, seconds as int) == (day + i, second as int)
                    },
            decreases SEARCH_DAYS - offset,
        {
            let ghost before = candidates@;
            candidates.push(time::earliest_instant(zone, day + offset, second));
            assert(instants(candidates@) =~= expected.take(offset + 1)) by {
                assert(expected.take(offset as int) =~= instants(before));
                assert(forall|j: int|
                    0 <= j < offset ==> instants(candidates@)[j] == instants(before)[j]);
            }
            offset = offset + 1;
        }
        assert(expected.take(offset as int) =~= expected);
        match choose_slot(weekdays, day, &candidates, after) {
            Some(seconds) => Some(Timestamp { seconds, nanos: 0 }),
            None => None,
        }
    } else {
        None
    }
}

/// A schedule has at most one slot on a local day, so that a local time which is shown twice runs
/// the automation once.
pub proof fn law_one_slot_per_local_day(trigger: TriggerModel, a: int, b: int)
    requires
        is_slot(trigger, a),
        is_slot(trigger, b),
        time::zone_clock(trigger->Schedule_timezone, a).0 == time::zone_clock(
            trigger->Schedule_timezone,
            b,
        ).0,
    ensures
        a == b,
{
}

/// A local time that does not exist on a day gives that day no slot.
pub proof fn law_missing_local_times_are_skipped(trigger: TriggerModel, seconds: int)
    requires
        trigger is Schedule,
        time::clock_time(trigger->Schedule_time) is Some,
        time::zone_instant(
            trigger->Schedule_timezone,
            time::zone_clock(trigger->Schedule_timezone, seconds).0,
            time::clock_time(trigger->Schedule_time)->0,
        ) is None,
    ensures
        !is_slot(trigger, seconds),
{
}

/// The next slot lies after the instant, and no day before it that was searched had a slot after
/// the instant.
pub proof fn law_next_slot_is_the_first(
    weekdays: Seq<u8>,
    day: int,
    candidates: Seq<Option<int>>,
    after: int,
) -> (found: int)
    requires
        first_slot(weekdays, day, candidates, after) is Some,
    ensures
        0 <= found < candidates.len(),
        first_slot(weekdays, day, candidates, after) == candidates[found],
        lists_day(weekdays, day + found),
        candidates[found]->0 > after,
        forall|i: int|
            0 <= i < found && lists_day(weekdays, day + i) && (#[trigger] candidates[i]) is Some
                ==> candidates[i]->0 <= after,
    decreases candidates.len(),
{
    if lists_day(weekdays, day) && candidates[0] is Some && candidates[0]->0 > after {
        0
    } else {
        let rest = candidates.drop_first();
        let inner = law_next_slot_is_the_first(weekdays, day + 1, rest, after);
        assert forall|i: int|
            0 <= i < inner + 1 && lists_day(weekdays, day + i) && (#[trigger] candidates[i]) is Some
            implies candidates[i]->0 <= after by {
            if i > 0 {
                assert(rest[i - 1] == candidates[i]);
                assert(day + i == (day + 1) + (i - 1));
            }
        }
        inner + 1
    }
}

/// Only schedules have slots.
pub proof fn law_only_schedules_have_slots(trigger: TriggerModel, after: int)
    requires
        !(trigger is Schedule),
    ensures
        next_slot(trigger, after) is None,
{
}

proof fn lemma_some_slot(
    weekdays: Seq<u8>,
    day: int,
    candidates: Seq<Option<int>>,
    after: int,
    found: int,
)
    requires
        0 <= found < candidates.len(),
        lists_day(weekdays, day + found),
        candidates[found] is Some,
        candidates[found]->0 > after,
    ensures
        first_slot(weekdays, day, candidates, after) is Some,
    decreases candidates.len(),
{
    if !(lists_day(weekdays, day) && candidates[0] is Some && candidates[0]->0 > after) {
        assert(found > 0);
        assert(candidates.drop_first()[found - 1] == candidates[found]);
        assert(day + found == (day + 1) + (found - 1));
        lemma_some_slot(weekdays, day + 1, candidates.drop_first(), after, found - 1);
    }
}

/// A valid schedule has a next slot wherever one of its weekdays misses the local time at most once
/// among the days ahead that are searched, and the local time lies ahead on those days where it
/// exists. So a single local time that a change of the clocks leaves out is skipped, and the search
/// goes on behind it.
pub proof fn law_valid_schedule_has_a_next_slot(
    trigger: TriggerModel,
    after: int,
    weekday: u8,
    missing: int,
)
    requires
        trigger is Schedule,
        validation::trigger_rule(trigger) is Ok,
        trigger->Schedule_weekdays.contains(weekday),
        time::zone_clock(trigger->Schedule_timezone, after).0 + SEARCH_DAYS <= time::MAX_DAY + 1,
        forall|i: int|
            1 <= i < SEARCH_DAYS && i != missing && time::weekday_of(
                time::zone_clock(trigger->Schedule_timezone, after).0 + i,
            ) == weekday as int ==> {
                let slot = #[trigger] time::zone_instant(
                    trigger->Schedule_timezone,
                    time::zone_clock(trigger->Schedule_timezone, after).0 + i,
                    time::clock_time(trigger->Schedule_time)->0,
                );
                slot is Some && slot->0 > after
            },
    ensures
        next_slot(trigger, after) is Some,
{
    let weekdays = trigger->Schedule_weekdays;
    let timezone = trigger->Schedule_timezone;
    let day = time::zone_clock(timezone, after).0;
    let second = time::clock_time(trigger->Schedule_time)->0;
    let k = choose|k: int| 0 <= k < weekdays.len() && weekdays[k] == weekday;
    let wanted = weekday as int;
    assert(weekdays[k] as int == wanted);
    let ahead = (wanted - time::weekday_of(day)) % 7;
    let first = if ahead == 0 {
        7
    } else {
        ahead
    };
    let found = if first == missing {
        first + 7
    } else {
        first
    };
    assert(time::weekday_of(day + found) == wanted);
    assert(lists_day(weekdays, day + found));
    let candidates = daily_instants(timezone, day, second);
    assert(candidates[found] == time::zone_instant(timezone, day + found, second));
    lemma_some_slot(weekdays, day, candidates, after, found);
}

/// The local time `second` of a time zone keeps to the order of the days, seen from an instant: it
/// comes later on later days, and on days before the instant's own it has passed.
pub open spec fn in_order(timezone: Seq<char>, second: int, now: int) -> bool {
    &&& forall|d: int, e: int|
        #![trigger time::zone_instant(timezone, d, second), time::zone_instant(timezone, e, second)]
        d < e && time::zone_instant(timezone, d, second) is Some && time::zone_instant(
            timezone,
            e,
            second,
        ) is Some ==> time::zone_instant(timezone, d, second)->0 < time::zone_instant(
            timezone,
            e,
            second,
        )->0
    &&& forall|d: int|
        d < time::zone_clock(timezone, now).0 && (#[trigger] time::zone_instant(
            timezone,
            d,
            second,
        )) is Some ==> time::zone_instant(timezone, d, second)->0 <= now
}

/// No slot lies between an instant and the slot that is found next, where the local time keeps to
/// the order of the days.
pub proof fn law_no_slot_lies_between(trigger: TriggerModel, after: int, next: int, other: int)
    requires
        trigger is Schedule,
        next_slot(trigger, after) == Some(next),
        is_slot(trigger, other),
        in_order(
            trigger->Schedule_timezone,
            time::clock_time(trigger->Schedule_time)->0,
            after,
        ),
    ensures
        !(after < other < next),
{
    let weekdays = trigger->Schedule_weekdays;
    let timezone = trigger->Schedule_timezone;
    let second = time::clock_time(trigger->Schedule_time)->0;
    let day = time::zone_clock(timezone, after).0;
    let candidates = daily_instants(timezone, day, second);
    let found = law_next_slot_is_the_first(weekdays, day, candidates, after);
    assert(candidates[found] == time::zone_instant(timezone, day + found, second));
    let elsewhere = time::zone_clock(timezone, other).0;
    assert(time::zone_instant(timezone, elsewhere, second) == Some(other));
    if day <= elsewhere < day + found {
        assert(candidates[elsewhere - day] == time::zone_instant(timezone, elsewhere, second));
        assert(lists_day(weekdays, day + (elsewhere - day)));
    }
}

/// Every instant up to the slot that is found next finds the same slot, where the local time keeps
/// to the order of the days and the slot's date is among those that are searched from there.
pub proof fn law_next_slot_is_stable(
    trigger: TriggerModel,
    after: int,
    next: int,
    date: int,
    later: int,
)
    requires
        trigger is Schedule,
        next_slot(trigger, after) == Some(next),
        time::zone_instant(
            trigger->Schedule_timezone,
            date,
            time::clock_time(trigger->Schedule_time)->0,
        ) == Some(next),
        after <= later < next,
        0 <= date - time::zone_clock(trigger->Schedule_timezone, later).0 < SEARCH_DAYS,
        in_order(
            trigger->Schedule_timezone,
            time::clock_time(trigger->Schedule_time)->0,
            after,
        ),
    ensures
        next_slot(trigger, later) == Some(next),
{
    let weekdays = trigger->Schedule_weekdays;
    let timezone = trigger->Schedule_timezone;
    let second = time::clock_time(trigger->Schedule_time)->0;
    let day = time::zone_clock(timezone, after).0;
    let candidates = daily_instants(timezone, day, second);
    let found = law_next_slot_is_the_first(weekdays, day, candidates, after);
    assert(candidates[found] == time::zone_instant(timezone, day + found, second));
    assert(date == day + found);
    let start = time::zone_clock(timezone, later).0;
    let at = date - start;
    let fresh = daily_instants(timezone, start, second);
    assert(fresh[at] == time::zone_instant(timezone, start + at, second));
    lemma_some_slot(weekdays, start, fresh, later, at);
    let again = law_next_slot_is_the_first(weekdays, start, fresh, later);
    assert(fresh[again] == time::zone_instant(timezone, start + again, second));
    if again < at {
        let i = start + again - day;
        if i >= 0 {
            assert(candidates[i] == time::zone_instant(timezone, day + i, second));
            assert(lists_day(weekdays, day + i));
        }
    } else if again > at {
        assert(lists_day(weekdays, start + at));
        assert(fresh[at] is Some);
    }
}

/// The next slot of a schedule is the configured local time of a day among the fifteen from today on,
/// on a listed weekday and after the instant; on each such day before it the time has passed or does
/// not exist.
pub proof fn law_where_the_next_slot_lies(trigger: TriggerModel, after: int) -> (offset: int)
    requires
        trigger is Schedule,
        next_slot(trigger, after) is Some,
    ensures
        time::known_timezone(trigger->Schedule_timezone),
        time::clock_time(trigger->Schedule_time) is Some,
        0 <= offset < 15,
        ({
            let weekdays = trigger->Schedule_weekdays;
            let zone = trigger->Schedule_timezone;
            let second = time::clock_time(trigger->Schedule_time)->0;
            let today = time::zone_clock(zone, after).0;
            &&& next_slot(trigger, after) == time::zone_instant(zone, today + offset, second)
            &&& next_slot(trigger, after)->0 > after
            &&& exists|k: int|
                0 <= k < weekdays.len() && #[trigger] weekdays[k] as int == time::weekday_of(
                    today + offset,
                )
            &&& forall|i: int, k: int|
                #![trigger time::zone_instant(zone, today + i, second), weekdays[k]]
                0 <= i < offset && 0 <= k < weekdays.len() && weekdays[k] as int
                    == time::weekday_of(today + i) && time::zone_instant(zone, today + i, second)
                    is Some ==> time::zone_instant(zone, today + i, second)->0 <= after
        }),
{
    let weekdays = trigger->Schedule_weekdays;
    let zone = trigger->Schedule_timezone;
    let second = time::clock_time(trigger->Schedule_time)->0;
    let today = time::zone_clock(zone, after).0;
    let candidates = daily_instants(zone, today, second);
    let found = law_next_slot_is_the_first(weekdays, today, candidates, after);
    assert forall|i: int, k: int|
        #![trigger time::zone_instant(zone, today + i, second), weekdays[k]]
        0 <= i < found && 0 <= k < weekdays.len() && weekdays[k] as int == time::weekday_of(
            today + i,
        ) && time::zone_instant(zone, today + i, second) is Some implies time::zone_instant(
        zone,
        today + i,
        second,
    )->0 <= after by {
        assert(candidates[i] == time::zone_instant(zone, today + i, second));
        assert(lists_day(weekdays, today + i));
    }
    found
}

/// A schedule whose time zone and time can be read has a next slot wherever, on one of the fifteen
/// days from today on, a listed weekday has the configured local time after the instant. Without them
/// it has none.
pub proof fn law_when_there_is_a_next_slot(trigger: TriggerModel, after: int, i: int, k: int)
    requires
        trigger is Schedule,
    ensures
        ({
            let weekdays = trigger->Schedule_weekdays;
            let zone = trigger->Schedule_timezone;
            let at = time::clock_time(trigger->Schedule_time);
            let day = time::zone_clock(zone, after).0 + i;
            &&& !time::known_timezone(zone) || at is None ==> next_slot(trigger, after) is None
            &&& {
                &&& time::known_timezone(zone)
                &&& at is Some
                &&& 0 <= i < 15
                &&& day <= 95_745_399
                &&& 0 <= k < weekdays.len()
                &&& weekdays[k] as int == time::weekday_of(day)
                &&& time::zone_instant(zone, day, at->0) is Some
                &&& time::zone_instant(zone, day, at->0)->0 > after
            } ==> next_slot(trigger, after) is Some
        }),
{
    let weekdays = trigger->Schedule_weekdays;
    let zone = trigger->Schedule_timezone;
    let at = time::clock_time(trigger->Schedule_time);
    let today = time::zone_clock(zone, after).0;
    if time::known_timezone(zone) && at is Some && 0 <= i < 15 && today + i <= 95_745_399 && 0 <= k
        < weekdays.len() && weekdays[k] as int == time::weekday_of(today + i) && time::zone_instant(
        zone,
        today + i,
        at->0,
    ) is Some && time::zone_instant(zone, today + i, at->0)->0 > after {
        let candidates = daily_instants(zone, today, at->0);
        assert(candidates[i] == time::zone_instant(zone, today + i, at->0));
        assert(lists_day(weekdays, today + i));
        lemma_some_slot(weekdays, today, candidates, after, i);
    }
}

} // verus!
