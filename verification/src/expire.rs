//! When a load test ends.
use chrono::{DateTime, FixedOffset, NaiveDateTime};
use vstd::prelude::*;

use crate::calendar::{self, CivilMinute};
use crate::text::{self, parse_unsigned};

verus! {

/// How an end time is written: a date, a dash and a time of day.
pub const EXPIRE_FORMAT: &'static str = "%Y.%m.%d-%H:%M";

/// End times are read on Beijing clocks, this many seconds ahead of UTC.
pub const BEIJING_EAST: i32 = 28800;

/// The first second that chrono's calendar holds, counted from the Unix epoch.
pub const FIRST_SECOND: i64 = -8334601228800;

/// The last second that chrono's calendar holds, counted from the Unix epoch.
pub const LAST_SECOND: i64 = 8210266876799;

/// What a clock on UTC would read as the Unix time, when it shows the date and
/// time that chrono reads out of `text` by `format`; nothing where chrono
/// refuses the text.
pub uninterp spec fn civil_seconds(text: Seq<char>, format: Seq<char>) -> Option<i64>;

/// What chrono reads out of a text by the format of end times, as the Unix time
/// at which UTC clocks show it. A text of five numbers with what stands between
/// them is read as the minute that it writes, if the calendar has that minute,
/// and is refused otherwise. Of other texts, such as those with blanks or a sign,
/// only those can be read that have a dot, a dash and a colon.
pub open spec fn civil_reading(text: Seq<char>) -> Option<i64> {
    match calendar::minute_text(text) {
        Some(at) => if calendar::is_minute(at) {
            Some(calendar::civil_time(at) as i64)
        } else {
            None
        },
        None => if text.contains('.') && text.contains('-') && text.contains(':') {
            civil_seconds(text, EXPIRE_FORMAT@)
        } else {
            None
        },
    }
}

/// Calls chrono's `NaiveDateTime::parse_from_str`, and counts the seconds of the
/// date and time that it gives back as though they had been read at UTC. Trusted:
/// the result depends on the text and the format alone, and lies in the range
/// of chrono's calendar; and by the format of end times a text of five numbers
/// is read as the minute that it writes, or refused where there is none, and one
/// without a dot, a dash or a colon is refused. How a text with blanks or a sign
/// is read is left unsaid.
#[verifier::external_body]
fn parse_civil(text: &str, format: &str) -> (r: Option<i64>)
    ensures
        r == civil_seconds(text@, format@),
        r matches Some(seconds) ==> FIRST_SECOND <= seconds <= LAST_SECOND,
        format@ == EXPIRE_FORMAT@ ==> r == civil_reading(text@),
{
    NaiveDateTime::parse_from_str(text, format).ok().map(|at| at.and_utc().timestamp())
}

/// The Unix time at which clocks `east` seconds ahead of UTC show the date and
/// time that UTC shows at `civil`, where chrono's calendar holds it.
pub open spec fn zoned_seconds(civil: i64, east: i32) -> Option<i64> {
    if FIRST_SECOND <= civil <= LAST_SECOND && -86400 < east < 86400 && FIRST_SECOND <= civil - east
        <= LAST_SECOND {
        Some((civil - east) as i64)
    } else {
        None
    }
}

/// Calls chrono's `FixedOffset::east_opt` and `NaiveDateTime::and_local_timezone`.
/// Trusted: the offset exists if it is shorter than a day, and the local time is
/// then the one instant `civil - east`, unless the calendar does not hold it.
#[verifier::external_body]
fn zoned_timestamp(civil: i64, east: i32) -> (r: Option<i64>)
    ensures
        r == zoned_seconds(civil, east),
{
    let zone = FixedOffset::east_opt(east)?;
    let local = DateTime::from_timestamp(civil, 0)?.naive_utc();
    local.and_local_timezone(zone).single().map(|at| at.timestamp())
}

/// The end time that `text` writes, as a Unix time.
pub open spec fn expire_time(text: Seq<char>) -> Option<i64> {
    match civil_reading(text) {
        Some(civil) => zoned_seconds(civil, BEIJING_EAST),
        None => None,
    }
}

/// The Unix time at which Beijing clocks show what UTC clocks show at `civil`.
pub fn beijing_timestamp(civil: i64) -> (r: Option<i64>)
    ensures
        r == zoned_seconds(civil, BEIJING_EAST),
{
    zoned_timestamp(civil, BEIJING_EAST)
}

/// Reads an end time such as `2030.12.31-23:59`, Beijing time, as a Unix time.
pub fn parse_expire(expire_str: &str) -> (r: Option<i64>)
    ensures
        r == expire_time(expire_str@),
{
    match parse_civil(expire_str, EXPIRE_FORMAT) {
        Some(civil) => beijing_timestamp(civil),
        None => None,
    }
}

/// A text of five numbers, with or without leading zeros, is an end time if the
/// calendar has the minute that it writes: the time at which Beijing clocks show
/// that minute. Otherwise it is none.
pub proof fn end_times_are_read_as_written(text: Seq<char>)
    ensures
        calendar::minute_text(text) matches Some(at) ==> expire_time(text)
            == if calendar::is_minute(at) {
            Some((calendar::civil_time(at) - BEIJING_EAST) as i64)
        } else {
            None
        },
{
    if let Some(at) = calendar::minute_text(text) {
        if calendar::is_minute(at) {
            calendar::lemma_civil_range(at);
        }
    }
}

/// Every minute of the calendar that is written in full is an end time, and is
/// read back as that minute in Beijing.
pub proof fn written_minutes_read_back(at: CivilMinute)
    requires
        calendar::is_minute(at),
    ensures
        expire_time(calendar::written(at)) == Some(
            (calendar::civil_time(at) - BEIJING_EAST) as i64,
        ),
{
    calendar::lemma_written(at);
    end_times_are_read_as_written(calendar::written(at));
}

/// A text that writes a number has no dot.
pub proof fn lemma_numbers_have_no_dot(text: Seq<char>, max: int)
    ensures
        text::unsigned_value(text, max) is Some ==> !text.contains('.'),
{
    if text::unsigned_value(text, max) is Some {
        let digits = text::unsigned_digits(text);
        assert forall|i: int| 0 <= i < text.len() implies text[i] != '.' by {
            if text[0] == '+' {
                if i > 0 {
                    assert(text::is_digit(digits[i - 1]));
                }
            } else {
                assert(text::is_digit(digits[i]));
            }
        }
    }
}

/// A text that writes a number is no end time, so it is a duration: the test ends
/// that many seconds from `now`.
pub proof fn numbers_are_durations(text: Seq<char>, now: i64)
    ensures
        text::unsigned_value(text, i64::MAX as int) matches Some(seconds) ==> {
            &&& expire_time(text) is None
            &&& now + seconds <= i64::MAX ==> deadline(expire_time(text), text, now) == Some(
                (now + seconds) as i64,
            )
        },
{
    lemma_numbers_have_no_dot(text, i64::MAX as int);
    calendar::lemma_has_dot(text);
}

/// Every whole minute whose date in Beijing lies in the years 0 to 9999 can be
/// written as an end time, in one way; and of two end times the one that the
/// calendar has first is the lesser.
pub proof fn every_minute_can_be_an_end_time(time: int) -> (at: CivilMinute)
    requires
        time % 60 == 0,
        -62167219200 <= time + BEIJING_EAST <= 253402300740,
    ensures
        calendar::is_minute(at),
        calendar::civil_time(at) - BEIJING_EAST == time,
        forall|other: CivilMinute|
            calendar::is_minute(other) && #[trigger] calendar::civil_time(other) - BEIJING_EAST
                == time ==> other == at,
        forall|other: CivilMinute|
            #![trigger calendar::is_before(at, other)]
            calendar::is_minute(other) && calendar::is_before(at, other)
                ==> calendar::civil_time(other) - BEIJING_EAST > time,
{
    let at = calendar::every_minute_is_in_the_calendar(time + BEIJING_EAST);
    assert forall|other: CivilMinute|
        calendar::is_minute(other) && #[trigger] calendar::civil_time(other) - BEIJING_EAST
            == time implies other == at by {
        calendar::later_minutes_are_greater_times(at, other);
        calendar::later_minutes_are_greater_times(other, at);
    }
    assert forall|other: CivilMinute|
        #![trigger calendar::is_before(at, other)]
        calendar::is_minute(other) && calendar::is_before(at, other) implies calendar::civil_time(
        other,
    ) - BEIJING_EAST > time by {
        calendar::later_minutes_are_greater_times(at, other);
    }
    at
}

/// An end time lies eight hours before the instant at which UTC clocks show what
/// it writes, wherever the calendar reaches that far back.
pub proof fn end_times_are_beijing_times(text: Seq<char>)
    ensures
        civil_reading(text) matches Some(civil) ==> FIRST_SECOND + 8 * 3600 <= civil <= LAST_SECOND
            ==> expire_time(text) == Some((civil - 8 * 3600) as i64),
{
}

/// The end of a test whose `expire` parameter is `text`, given what the text
/// says as an end time: that time, or else, where the text is a number, that
/// many seconds from `now`.
pub open spec fn deadline(end_time: Option<i64>, text: Seq<char>, now: i64) -> Option<i64> {
    match end_time {
        Some(at) => Some(at),
        None => match text::unsigned_value(text, i64::MAX as int) {
            Some(seconds) => if now + seconds <= i64::MAX {
                Some((now + seconds) as i64)
            } else {
                None
            },
            None => None,
        },
    }
}

/// The end of a test, given what its `expire` parameter says as an end time.
pub fn deadline_from(end_time: Option<i64>, text: &str, now: i64) -> (r: Option<i64>)
    ensures
        r == deadline(end_time, text@, now),
{
    match end_time {
        Some(at) => Some(at),
        None => match parse_unsigned(text, i64::MAX as u64) {
            Some(seconds) => now.checked_add(seconds as i64),
            None => None,
        },
    }
}

/// The end of a test whose `expire` parameter is `text`: an end time, or a
/// duration in seconds.
pub fn read_deadline(text: &str, now: i64) -> (r: Option<i64>)
    ensures
        r == deadline(expire_time(text@), text@, now),
{
    deadline_from(parse_expire(text), text, now)
}

/// What is read as an end time: the minute that five numbers write, eight hours
/// before UTC shows it, if the calendar has that minute, however far ahead or back
/// it is; of other texts with a dot, a dash and a colon, what chrono reads by the
/// format of end times, eight hours earlier, if chrono's calendar reaches that far
/// back; and nothing else.
pub proof fn end_times_are_read(s: &str, r: Option<i64>)
    requires
        call_ensures(parse_expire, (s,), r),
    ensures
        ({
            let minute = calendar::minute_text(s@);
            let civil = civil_seconds(s@, "%Y.%m.%d-%H:%M"@);
            let marked = s@.contains('.') && s@.contains('-') && s@.contains(':');
            &&& minute is Some && calendar::is_minute(minute->0) ==> r is Some && r->0
                == calendar::civil_time(minute->0) - 28800
            &&& minute is Some && !calendar::is_minute(minute->0) ==> r is None
            &&& minute is None && marked && civil is Some && -8334601200000 <= civil->0
                <= 8210266876799 ==> r is Some && r->0 == civil->0 - 28800
            &&& minute is None && marked && (civil is None || civil->0 < -8334601200000)
                ==> r is None
            &&& minute is None && !marked ==> r is None
        }),
{
    end_times_are_read_as_written(s@);
    if let Some(at) = calendar::minute_text(s@) {
        if calendar::is_minute(at) {
            calendar::lemma_civil_range(at);
        }
    }
}

/// The end that a text gives: the end time that it is read as; or else, where it
/// writes a number, that many seconds from now, if that is a time at all; or else
/// none.
pub proof fn ends_are_times_or_durations(s: &str, now: i64, end_time: Option<i64>, r: Option<i64>)
    requires
        call_ensures(parse_expire, (s,), end_time),
        call_ensures(read_deadline, (s, now), r),
    ensures
        ({
            let seconds = text::unsigned_value(s@, 9223372036854775807);
            &&& end_time is Some ==> r == end_time
            &&& end_time is None && seconds is Some && now + seconds->0 <= 9223372036854775807
                ==> r is Some && r->0 == now + seconds->0
            &&& end_time is None && seconds is Some && now + seconds->0 > 9223372036854775807
                ==> r is None
            &&& end_time is None && seconds is None ==> r is None
        }),
{
    if text::unsigned_value(s@, 9223372036854775807) is Some {
        text::lemma_digits_value(text::unsigned_digits(s@));
    }
}

/// The same holds of an end time that has been read before.
pub proof fn given_ends_come_first(end_time: Option<i64>, s: &str, now: i64, r: Option<i64>)
    requires
        call_ensures(deadline_from, (end_time, s, now), r),
    ensures
        ({
            let seconds = text::unsigned_value(s@, 9223372036854775807);
            &&& end_time is Some ==> r == end_time
            &&& end_time is None && seconds is Some && now + seconds->0 <= 9223372036854775807
                ==> r is Some && r->0 == now + seconds->0
            &&& end_time is None && seconds is Some && now + seconds->0 > 9223372036854775807
                ==> r is None
            &&& end_time is None && seconds is None ==> r is None
        }),
{
    if text::unsigned_value(s@, 9223372036854775807) is Some {
        text::lemma_digits_value(text::unsigned_digits(s@));
    }
}

/// Beijing clocks are eight hours ahead, for every time that chrono's calendar
/// holds.
pub proof fn beijing_is_eight_hours_ahead(civil: i64, r: Option<i64>)
    requires
        call_ensures(beijing_timestamp, (civil,), r),
    ensures
        -8334601200000 <= civil <= 8210266876799 ==> r is Some && r->0 == civil - 28800,
        !(-8334601200000 <= civil <= 8210266876799) ==> r is None,
{
}

} // verus!
