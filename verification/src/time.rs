//! Instants, and the calls into `chrono` and `chrono-tz` that the rules on time rest on.

use chrono::{DateTime, Datelike, NaiveDate, NaiveTime, TimeZone, Timelike, Utc};
use chrono_tz::Tz;
use vstd::prelude::*;

verus! {

/// The first second that `chrono` can represent: the start of 1 January of year -262143.
pub const MIN_SECONDS: i64 = -8_334_601_228_800;

/// The last second that `chrono` can represent: the end of 31 December of year 262142.
pub const MAX_SECONDS: i64 = 8_210_266_876_799;

/// The first calendar day that `chrono` can represent, counted from 1 January of year 1.
pub const MIN_DAY: i64 = -95_746_129;

/// The last calendar day that `chrono` can represent, counted from 1 January of year 1.
pub const MAX_DAY: i64 = 95_745_399;

/// 1 January 1970, counted from 1 January of year 1.
pub const EPOCH_DAY: i64 = 719_163;

pub const DAY_SECONDS: i64 = 86_400;

/// An instant: UTC seconds since 1970 and nanoseconds within the second. The nanoseconds of a
/// leap second, which is the last second of a minute, go on beyond one billion.
#[derive(Debug, Clone, Copy, PartialEq, Eq, Structural)]
pub struct Timestamp {
    pub seconds: i64,
    pub nanos: u32,
}

impl Timestamp {
    /// The instant is one that `chrono` can represent.
    pub open spec fn wf(self) -> bool {
        &&& MIN_SECONDS <= self.seconds <= MAX_SECONDS
        &&& self.nanos < 2_000_000_000
        &&& self.nanos >= 1_000_000_000 ==> self.seconds as int % 60 == 59
    }

    /// The instant lies at least one day inside the range that `chrono` can represent.
    pub open spec fn interior(self) -> bool {
        &&& self.wf()
        &&& MIN_SECONDS + DAY_SECONDS <= self.seconds <= MAX_SECONDS - DAY_SECONDS
    }

    /// The instant does not lie within a leap second.
    pub open spec fn ordinary(self) -> bool {
        self.nanos < 1_000_000_000
    }

    /// Nanoseconds since 1970 of an ordinary instant.
    pub open spec fn total_nanos(self) -> int {
        self.seconds * 1_000_000_000 + self.nanos
    }

    /// Milliseconds since 1970.
    pub open spec fn millis(self) -> int {
        self.seconds * 1000 + self.nanos as int / 1_000_000
    }

    /// The instant with the given parts; `None` where `chrono` cannot represent it.
    pub fn new(seconds: i64, nanos: u32) -> (r: Option<Timestamp>)
        ensures
            match r {
                Some(at) => at.wf() && at.seconds == seconds && at.nanos == nanos,
                None => !(Timestamp { seconds, nanos }).wf(),
            },
    {
        if seconds < MIN_SECONDS || seconds > MAX_SECONDS || nanos >= 2_000_000_000 {
            return None;
        }
        if nanos >= 1_000_000_000 {
            let shifted: u64 = (seconds - MIN_SECONDS) as u64;
            assert(MIN_SECONDS as int % 60 == 0);
            assert(shifted as int % 60 == seconds as int % 60);
            if shifted % 60 != 59 {
                return None;
            }
        }
        Some(Timestamp { seconds, nanos })
    }

    /// Whether the instant lies at least one day inside the representable range.
    pub fn is_interior(&self) -> (r: bool)
        ensures
            r == self.interior(),
    {
        match Timestamp::new(self.seconds, self.nanos) {
            Some(_) => self.seconds >= MIN_SECONDS + DAY_SECONDS && self.seconds <= MAX_SECONDS
                - DAY_SECONDS,
            None => false,
        }
    }

    /// Milliseconds since 1970.
    pub fn timestamp_millis(&self) -> (r: i64)
        requires
            self.wf(),
        ensures
            r == self.millis(),
    {
        self.seconds * 1000 + (self.nanos / 1_000_000) as i64
    }
}

/// `a / b`, rounded towards zero.
pub open spec fn quotient(a: int, b: int) -> int {
    if a >= 0 {
        a / b
    } else {
        -((-a) / b)
    }
}

/// The seconds since 1970 that a clock showing UTC counts at second `second` of day `day`.
pub open spec fn clock_seconds(day: int, second: int) -> int {
    (day - EPOCH_DAY) * DAY_SECONDS + second
}

/// The weekday of a day counted from 1 January of year 1: Monday is 1, Sunday is 7.
pub open spec fn weekday_of(day: int) -> int {
    (day - 1) % 7 + 1
}

/// The second of the day that a text names when it is read in a given format; `None` where it
/// names none.
pub uninterp spec fn parsed_time(text: Seq<char>, format: Seq<char>) -> Option<int>;

/// The second of the day that a text such as `09:30` names; `None` where it names none.
pub open spec fn clock_time(text: Seq<char>) -> Option<int> {
    parsed_time(text, "%H:%M"@)
}

/// Whether a text names a time zone.
pub uninterp spec fn known_timezone(text: Seq<char>) -> bool;

/// The day and the second of the day that a clock in the named time zone shows at an instant.
pub uninterp spec fn zone_clock(timezone: Seq<char>, seconds: int) -> (int, int);

/// The earliest instant to which the given second of the given local day is mapped in the named
/// time zone; `None` where it is mapped to none.
pub uninterp spec fn zone_instant(timezone: Seq<char>, day: int, second: int) -> Option<int>;

/// An instant as an RFC 3339 text.
pub uninterp spec fn rfc3339_text(seconds: int, nanos: int) -> Seq<char>;

/// The milliseconds that `chrono` counts from an earlier to a later instant.
pub uninterp spec fn millis_between(
    later_seconds: int,
    later_nanos: int,
    earlier_seconds: int,
    earlier_nanos: int,
) -> int;

/// [`millis_between`] of two instants.
pub open spec fn elapsed(later: Timestamp, earlier: Timestamp) -> int {
    millis_between(
        later.seconds as int,
        later.nanos as int,
        earlier.seconds as int,
        earlier.nanos as int,
    )
}

/// Calls `NaiveTime::parse_from_str` and counts the seconds since midnight. The result is named
/// [`parsed_time`]; it lies within a day.
#[verifier::external_body]
fn parse_time(text: &str, format: &str) -> (r: Option<u32>)
    ensures
        match r {
            Some(second) => {
                &&& parsed_time(text@, format@) == Some(second as int)
                &&& second < DAY_SECONDS
            },
            None => parsed_time(text@, format@) is None,
        },
{
    NaiveTime::parse_from_str(text, format).ok().map(|time| time.num_seconds_from_midnight())
}

/// The second of the day that a text such as `09:30` names.
pub(crate) fn parse_clock(text: &str) -> (r: Option<u32>)
    ensures
        match r {
            Some(second) => clock_time(text@) == Some(second as int) && second < DAY_SECONDS,
            None => clock_time(text@) is None,
        },
{
    parse_time(text, "%H:%M")
}

/// Calls `Tz::from_str`. Whether it finds the zone is named [`known_timezone`].
#[verifier::external_body]
pub(crate) fn timezone_exists(timezone: &str) -> (r: bool)
    ensures
        r == known_timezone(timezone@),
{
    timezone.parse::<Tz>().is_ok()
}

/// Calls `DateTime::with_timezone` for a zone found by `Tz::from_str` and reads the local day
/// and second. The pair is named [`zone_clock`]; a local clock is off UTC by less than a day.
#[verifier::external_body]
pub(crate) fn local_clock(timezone: &str, at: Timestamp) -> (r: Option<(i64, u32)>)
    requires
        at.wf(),
    ensures
        match r {
            Some((day, second)) => {
                &&& known_timezone(timezone@)
                &&& zone_clock(timezone@, at.seconds as int) == (day as int, second as int)
                &&& second < DAY_SECONDS
                &&& -DAY_SECONDS < clock_seconds(day as int, second as int) - at.seconds
                    < DAY_SECONDS
            },
            None => !known_timezone(timezone@),
        },
{
    let zone = timezone.parse::<Tz>().ok()?;
    let local = DateTime::from_timestamp(at.seconds, at.nanos).unwrap().with_timezone(&zone);
    Some((local.num_days_from_ce() as i64, local.time().num_seconds_from_midnight()))
}

/// Calls `TimeZone::from_local_datetime` for a zone found by `Tz::from_str` and takes the
/// earliest instant of the mapping. It is named [`zone_instant`]; it can be represented, and
/// at it the zone's clock shows the day and second that were asked for.
#[verifier::external_body]
pub(crate) fn earliest_instant(timezone: &str, day: i64, second: u32) -> (r: Option<i64>)
    requires
        known_timezone(timezone@),
        MIN_DAY <= day <= MAX_DAY,
        second < DAY_SECONDS,
    ensures
        match r {
            Some(seconds) => {
                &&& zone_instant(timezone@, day as int, second as int) == Some(seconds as int)
                &&& MIN_SECONDS <= seconds <= MAX_SECONDS
                &&& zone_clock(timezone@, seconds as int) == (day as int, second as int)
            },
            None => zone_instant(timezone@, day as int, second as int) is None,
        },
{
    let zone = timezone.parse::<Tz>().ok()?;
    let date = NaiveDate::from_num_days_from_ce_opt(day as i32).unwrap();
    let time = NaiveTime::from_num_seconds_from_midnight_opt(second, 0).unwrap();
    zone.from_local_datetime(&date.and_time(time)).earliest().map(|found| found.timestamp())
}

/// Calls `DateTime::to_rfc3339`. Its result is named [`rfc3339_text`].
#[verifier::external_body]
pub(crate) fn rfc3339(at: Timestamp) -> (r: String)
    requires
        at.wf(),
    ensures
        r@ == rfc3339_text(at.seconds as int, at.nanos as int),
{
    DateTime::from_timestamp(at.seconds, at.nanos).unwrap().to_rfc3339()
}

/// Subtracts two instants and calls `TimeDelta::num_milliseconds`. The result is named
/// [`millis_between`]; of two ordinary instants it is the distance in whole milliseconds.
#[verifier::external_body]
pub(crate) fn elapsed_millis(later: Timestamp, earlier: Timestamp) -> (r: i64)
    requires
        later.wf(),
        earlier.wf(),
    ensures
        r == millis_between(
            later.seconds as int,
            later.nanos as int,
            earlier.seconds as int,
            earlier.nanos as int,
        ),
        later.ordinary() && earlier.ordinary() ==> r == quotient(
            later.total_nanos() - earlier.total_nanos(),
            1_000_000,
        ),
{
    let later = DateTime::from_timestamp(later.seconds, later.nanos).unwrap();
    let earlier = DateTime::from_timestamp(earlier.seconds, earlier.nanos).unwrap();
    (later - earlier).num_milliseconds()
}

/// Calls `Utc::now`: an ordinary instant, which depends on the machine's clock.
#[verifier::external_body]
pub(crate) fn utc_now() -> (r: Timestamp)
    ensures
        r.wf(),
        r.ordinary(),
{
    let now = Utc::now();
    Timestamp { seconds: now.timestamp(), nanos: now.timestamp_subsec_nanos() }
}

/// The weekday of a day counted from 1 January of year 1: Monday is 1, Sunday is 7.
pub(crate) fn weekday(day: i64) -> (r: u8)
    requires
        MIN_DAY - 2 <= day <= MAX_DAY + 2,
    ensures
        r == weekday_of(day as int),
        1 <= r <= 7,
{
    // A multiple of seven that keeps the dividend positive.
    let shifted: u64 = (day - 1 + 140_000_000) as u64;
    assert(shifted as int % 7 == (day - 1) % 7);
    (shifted % 7) as u8 + 1
}

/// Weekdays come one after the other, Sunday before Monday, and come again after seven days; 1 January
/// 1970 was a Thursday.
pub proof fn law_weekdays(day: int)
    ensures
        1 <= weekday_of(day) <= 7,
        weekday_of(day) == 7 ==> weekday_of(day + 1) == 1,
        weekday_of(day) < 7 ==> weekday_of(day + 1) == weekday_of(day) + 1,
        weekday_of(day + 7) == weekday_of(day),
        weekday_of(719_163) == 4,
{
}

/// The clock counts from midnight of 1 January 1970, second by second, and 86400 of them to a day.
pub proof fn law_clock_seconds(day: int, second: int)
    ensures
        clock_seconds(719_163, 0) == 0,
        clock_seconds(day, second + 1) == clock_seconds(day, second) + 1,
        clock_seconds(day + 1, second) == clock_seconds(day, second) + 86_400,
{
}

/// The milliseconds of an instant are its time in whole milliseconds.
pub proof fn law_millis(at: Timestamp)
    requires
        at.nanos < 1_000_000_000,
    ensures
        at.millis() * 1_000_000 <= at.seconds * 1_000_000_000 + at.nanos,
        at.seconds * 1_000_000_000 + at.nanos < (at.millis() + 1) * 1_000_000,
{
}

/// Division towards zero: what is left is smaller than the divisor, has the sign of the dividend, and
/// the quotient of an opposite is the opposite of the quotient.
pub proof fn law_quotient(a: int, b: int)
    requires
        b > 0,
    ensures
        a >= 0 ==> 0 <= a - quotient(a, b) * b < b,
        a <= 0 ==> -b < a - quotient(a, b) * b <= 0,
        quotient(-a, b) == -quotient(a, b),
{
    if a >= 0 {
        vstd::arithmetic::div_mod::lemma_fundamental_div_mod(a, b);
        vstd::arithmetic::div_mod::lemma_mod_bound(a, b);
        assert(b * (a / b) == (a / b) * b) by (nonlinear_arith);
        if a == 0 {
            assert(0int / b == 0) by (nonlinear_arith)
                requires
                    b > 0,
            ;
        }
    } else {
        vstd::arithmetic::div_mod::lemma_fundamental_div_mod(-a, b);
        vstd::arithmetic::div_mod::lemma_mod_bound(-a, b);
        let q = (-a) / b;
        assert(b * q == q * b) by (nonlinear_arith);
        assert((-q) * b == -(q * b)) by (nonlinear_arith);
    }
}

/// Which instants there are: those of the years that the calendar reaches, with less than two seconds'
/// worth of nanoseconds, of which the second is for the last second of a minute alone.
pub proof fn law_instants(at: Timestamp)
    ensures
        at.wf() <==> {
            &&& -8_334_601_228_800 <= at.seconds <= 8_210_266_876_799
            &&& at.nanos < 1_000_000_000 || at.nanos < 2_000_000_000 && at.seconds as int % 60 == 59
        },
        at.interior() <==> {
            &&& at.wf()
            &&& -8_334_601_142_400 <= at.seconds <= 8_210_266_790_399
        },
{
}

} // verus!
