//! The Gregorian calendar, to the minute and carried back to the year 0, and how
//! its minutes are written.
use vstd::prelude::*;

use crate::text;

verus! {

/// A minute as a calendar and a clock show it.
pub struct CivilMinute {
    pub year: int,
    pub month: int,
    pub day: int,
    pub hour: int,
    pub minute: int,
}

/// Whether a year is a leap year.
pub open spec fn is_leap(year: int) -> bool {
    year % 4 == 0 && (year % 100 != 0 || year % 400 == 0)
}

/// How many days of a year come before a month. The thirteenth month stands for
/// the end of the year.
pub open spec fn days_before_month(year: int, month: int) -> int {
    let leap: int = if month > 2 && is_leap(year) {
        1
    } else {
        0
    };
    leap + if month <= 1 {
        0int
    } else if month == 2 {
        31
    } else if month == 3 {
        59
    } else if month == 4 {
        90
    } else if month == 5 {
        120
    } else if month == 6 {
        151
    } else if month == 7 {
        181
    } else if month == 8 {
        212
    } else if month == 9 {
        243
    } else if month == 10 {
        273
    } else if month == 11 {
        304
    } else if month == 12 {
        334
    } else {
        365
    }
}

/// How many days a month has.
pub open spec fn days_in_month(year: int, month: int) -> int {
    days_before_month(year, month + 1) - days_before_month(year, month)
}

/// How many days come before a year, from the first day of the year 1 on.
pub open spec fn days_before_year(year: int) -> int {
    365 * (year - 1) + (year - 1) / 4 - (year - 1) / 100 + (year - 1) / 400
}

/// How many days come before a date, from the first day of the year 1 on.
pub open spec fn days_before(year: int, month: int, day: int) -> int {
    days_before_year(year) + days_before_month(year, month) + day - 1
}

/// Whether there is such a date, in a year of at most four digits.
pub open spec fn is_date(year: int, month: int, day: int) -> bool {
    0 <= year <= 9999 && 1 <= month <= 12 && 1 <= day <= days_in_month(year, month)
}

/// Whether there is such a minute, in a year of at most four digits.
pub open spec fn is_minute(at: CivilMinute) -> bool {
    is_date(at.year, at.month, at.day) && 0 <= at.hour < 24 && 0 <= at.minute < 60
}

/// The seconds from the first of January 1970 to the beginning of a minute.
pub open spec fn civil_time(at: CivilMinute) -> int {
    86400 * (days_before(at.year, at.month, at.day) - 719162) + 3600 * at.hour + 60 * at.minute
}

/// The digit of `n` that stands for as many `unit`s.
pub open spec fn digit(n: int, unit: int) -> char {
    text::digit_char((n / unit % 10) as nat)
}

/// A number of two digits, with a leading zero where it needs one.
pub open spec fn two_digits(n: int) -> Seq<char> {
    seq![digit(n, 10), digit(n, 1)]
}

/// A number of four digits, with leading zeros where it needs them.
pub open spec fn four_digits(n: int) -> Seq<char> {
    seq![digit(n, 1000), digit(n, 100), digit(n, 10), digit(n, 1)]
}

/// The parts of a minute, with what stands between them.
pub open spec fn spelled(
    year: Seq<char>,
    month: Seq<char>,
    day: Seq<char>,
    hour: Seq<char>,
    minute: Seq<char>,
) -> Seq<char> {
    year + (seq!['.'] + (month + (seq!['.'] + (day + (seq!['-'] + (hour + (seq![':'] + minute)))))))
}

/// A minute as it is written in full, with leading zeros: `2030.12.31-23:59`.
pub open spec fn written(at: CivilMinute) -> Seq<char> {
    spelled(
        four_digits(at.year),
        two_digits(at.month),
        two_digits(at.day),
        two_digits(at.hour),
        two_digits(at.minute),
    )
}

/// What stands before the first `c` of a text; all of it where there is none.
pub open spec fn head(s: Seq<char>, c: char) -> Seq<char> {
    match s.index_of_first(c) {
        Some(i) => s.take(i),
        None => s,
    }
}

/// What stands behind the first `c` of a text; nothing where there is none.
pub open spec fn tail(s: Seq<char>, c: char) -> Seq<char> {
    match s.index_of_first(c) {
        Some(i) => s.skip(i + 1),
        None => Seq::empty(),
    }
}

/// Whether a text is one to `width` digits.
pub open spec fn is_number(s: Seq<char>, width: nat) -> bool {
    1 <= s.len() <= width && text::all_digits(s)
}

/// The minute that a text writes, with or without leading zeros, whether or not
/// the calendar has it: a year of up to four digits, a month, a day, an hour and
/// a minute of up to two, and what stands between them.
pub open spec fn minute_text(s: Seq<char>) -> Option<CivilMinute> {
    let year = head(s, '.');
    let month = head(tail(s, '.'), '.');
    let date_rest = tail(tail(s, '.'), '.');
    let day = head(date_rest, '-');
    let hour = head(tail(date_rest, '-'), ':');
    let minute = tail(tail(date_rest, '-'), ':');
    if s == spelled(year, month, day, hour, minute) && is_number(year, 4) && is_number(month, 2)
        && is_number(day, 2) && is_number(hour, 2) && is_number(minute, 2) {
        Some(
            CivilMinute {
                year: text::digits_value(year),
                month: text::digits_value(month),
                day: text::digits_value(day),
                hour: text::digits_value(hour),
                minute: text::digits_value(minute),
            },
        )
    } else {
        None
    }
}

/// A text falls apart at its first `c`.
proof fn lemma_cut(before: Seq<char>, c: char, behind: Seq<char>)
    requires
        !before.contains(c),
    ensures
        head(before + (seq![c] + behind), c) == before,
        tail(before + (seq![c] + behind), c) == behind,
{
    let s = before + (seq![c] + behind);
    s.index_of_first_ensures(c);
    assert(s[before.len() as int] == c);
    let i = s.index_of_first(c)->0;
    if i < before.len() {
        assert(before[i] == c);
    }
    assert(s.take(i) =~= before);
    assert(s.skip(i + 1) =~= behind);
}

/// A text of five numbers with what stands between them writes that minute.
pub proof fn lemma_minute_text(
    year: Seq<char>,
    month: Seq<char>,
    day: Seq<char>,
    hour: Seq<char>,
    minute: Seq<char>,
)
    requires
        is_number(year, 4),
        is_number(month, 2),
        is_number(day, 2),
        is_number(hour, 2),
        is_number(minute, 2),
    ensures
        minute_text(spelled(year, month, day, hour, minute)) == Some(
            CivilMinute {
                year: text::digits_value(year),
                month: text::digits_value(month),
                day: text::digits_value(day),
                hour: text::digits_value(hour),
                minute: text::digits_value(minute),
            },
        ),
{
    assert(!year.contains('.') && !month.contains('.') && !day.contains('-') && !hour.contains(
        ':',
    ));
    let clock = hour + (seq![':'] + minute);
    let from_day = day + (seq!['-'] + clock);
    let from_month = month + (seq!['.'] + from_day);
    lemma_cut(hour, ':', minute);
    lemma_cut(day, '-', clock);
    lemma_cut(month, '.', from_day);
    lemma_cut(year, '.', from_month);
}

/// A text that writes a minute has a dot.
pub proof fn lemma_has_dot(s: Seq<char>)
    ensures
        minute_text(s) is Some ==> s.contains('.'),
{
    if minute_text(s) is Some {
        assert(s[head(s, '.').len() as int] == '.');
    }
}

/// A minute that is written in full writes that minute.
pub proof fn lemma_written(at: CivilMinute)
    requires
        is_minute(at),
    ensures
        minute_text(written(at)) == Some(at),
{
    lemma_two_digits(at.month);
    lemma_two_digits(at.day);
    lemma_two_digits(at.hour);
    lemma_two_digits(at.minute);
    lemma_four_digits(at.year);
    lemma_minute_text(
        four_digits(at.year),
        two_digits(at.month),
        two_digits(at.day),
        two_digits(at.hour),
        two_digits(at.minute),
    );
}

proof fn lemma_two_digits(n: int)
    requires
        0 <= n < 100,
    ensures
        is_number(two_digits(n), 2),
        text::digits_value(two_digits(n)) == n,
{
    let s = two_digits(n);
    reveal_with_fuel(text::digits_value, 3);
    assert(s.drop_last() =~= seq![digit(n, 10)]);
    assert(s.drop_last().drop_last() =~= Seq::<char>::empty());
}

proof fn lemma_four_digits(n: int)
    requires
        0 <= n < 10000,
    ensures
        is_number(four_digits(n), 4),
        text::digits_value(four_digits(n)) == n,
{
    let s = four_digits(n);
    reveal_with_fuel(text::digits_value, 5);
    assert(s.drop_last() =~= seq![digit(n, 1000), digit(n, 100), digit(n, 10)]);
    assert(s.drop_last().drop_last() =~= seq![digit(n, 1000), digit(n, 100)]);
    assert(s.drop_last().drop_last().drop_last() =~= seq![digit(n, 1000)]);
    assert(s.drop_last().drop_last().drop_last().drop_last() =~= Seq::<char>::empty());
}

proof fn lemma_fours(n: int)
    ensures
        n / 4 == (n - 1) / 4 + if n % 4 == 0 {
            1int
        } else {
            0
        },
{
}

proof fn lemma_hundreds(n: int)
    ensures
        n / 100 == (n - 1) / 100 + if n % 100 == 0 {
            1int
        } else {
            0
        },
        n % 100 == 0 ==> n % 4 == 0,
{
}

proof fn lemma_four_hundreds(n: int)
    ensures
        n / 400 == (n - 1) / 400 + if n % 400 == 0 {
            1int
        } else {
            0
        },
        n % 400 == 0 ==> n % 100 == 0,
{
}

/// A year is followed by the next after as many days as it has.
proof fn lemma_year(year: int)
    requires
        year >= 0,
    ensures
        days_before_year(year + 1) == days_before_year(year) + days_before_month(year, 13),
        days_before_month(year, 13) >= 365,
{
    lemma_fours(year);
    lemma_hundreds(year);
    lemma_four_hundreds(year);
    let (a, b, c) = (year / 4, year / 100, year / 400);
    let (d, e, f) = ((year - 1) / 4, (year - 1) / 100, (year - 1) / 400);
    assert(days_before_year(year + 1) == 365 * year + a - b + c);
    assert(days_before_year(year) == 365 * (year - 1) + d - e + f);
}

/// Years come one after the other.
proof fn lemma_years(year: int, later: int)
    requires
        0 <= year <= later,
    ensures
        days_before_year(year) <= days_before_year(later),
    decreases later - year,
{
    if year < later {
        lemma_year(later - 1);
        lemma_years(year, later - 1);
    }
}

/// Every date lies in its year.
proof fn lemma_in_year(year: int, month: int, day: int)
    requires
        is_date(year, month, day),
    ensures
        days_before_year(year) <= days_before(year, month, day) < days_before_year(year + 1),
{
    lemma_year(year);
}

/// Minutes of the years of at most four digits lie between those of the first and
/// the last of these years.
pub proof fn lemma_civil_range(at: CivilMinute)
    requires
        is_minute(at),
    ensures
        -62167219200 <= civil_time(at) <= 253402300740,
{
    lemma_in_year(at.year, at.month, at.day);
    lemma_years(0, at.year);
    lemma_years(at.year + 1, 10000);
}

/// Whether one minute is before another, by year, month, day, hour and minute.
pub open spec fn is_before(a: CivilMinute, b: CivilMinute) -> bool {
    ||| a.year < b.year
    ||| a.year == b.year && a.month < b.month
    ||| a.year == b.year && a.month == b.month && a.day < b.day
    ||| a.year == b.year && a.month == b.month && a.day == b.day && a.hour < b.hour
    ||| a.year == b.year && a.month == b.month && a.day == b.day && a.hour == b.hour && a.minute
        < b.minute
}

/// Of two minutes, the one that the calendar has first is the lesser time; and
/// every such time is a whole number of minutes.
pub proof fn later_minutes_are_greater_times(a: CivilMinute, b: CivilMinute)
    requires
        is_minute(a),
        is_minute(b),
    ensures
        is_before(a, b) ==> civil_time(a) < civil_time(b),
        civil_time(a) % 60 == 0,
{
    if is_before(a, b) {
        if a.year < b.year {
            lemma_in_year(a.year, a.month, a.day);
            lemma_in_year(b.year, b.month, b.day);
            lemma_years(a.year + 1, b.year);
        } else if a.month < b.month {
            lemma_months(a.year, a.month + 1, b.month);
        }
    }
}

/// Months come one after the other.
proof fn lemma_months(year: int, month: int, later: int)
    requires
        1 <= month <= later <= 13,
    ensures
        days_before_month(year, month) <= days_before_month(year, later),
{
}

/// The date that so many days come before.
proof fn lemma_date(days: int) -> (date: (int, int, int))
    requires
        -366 <= days < 3652059,
    ensures
        is_date(date.0, date.1, date.2),
        days_before(date.0, date.1, date.2) == days,
    decreases days + 366,
{
    if days == -366 {
        (0, 1, 1)
    } else {
        let (year, month, day) = lemma_date(days - 1);
        if day < days_in_month(year, month) {
            (year, month, day + 1)
        } else if month < 12 {
            (year, month + 1, 1)
        } else {
            lemma_year(year);
            if year == 9999 {
                assert(days_before_year(10000) == 3652059);
                assert(false);
            }
            (year + 1, 1, 1)
        }
    }
}

/// Every whole minute of the years of at most four digits is in the calendar.
pub proof fn every_minute_is_in_the_calendar(time: int) -> (at: CivilMinute)
    requires
        time % 60 == 0,
        -62167219200 <= time <= 253402300740,
    ensures
        is_minute(at),
        civil_time(at) == time,
{
    let days = time / 86400 + 719162;
    let seconds = time % 86400;
    let (year, month, day) = lemma_date(days);
    CivilMinute { year, month, day, hour: seconds / 3600, minute: seconds % 3600 / 60 }
}

/// The months have the days that they have: thirty in April, June, September and
/// November; in February twenty-eight, or twenty-nine every fourth year, but of the
/// full centuries only every fourth; and thirty-one in the others.
pub proof fn months_have_their_days(year: int, month: int, day: int)
    ensures
        is_date(year, month, day) <==> {
            &&& 0 <= year <= 9999
            &&& 1 <= month <= 12
            &&& 1 <= day <= 31
            &&& month == 4 || month == 6 || month == 9 || month == 11 ==> day <= 30
            &&& month == 2 ==> day <= 29
            &&& month == 2 && day == 29 ==> year % 4 == 0 && (year % 100 != 0 || year % 400 == 0)
        },
{
}

/// The first of January 1970 is the day from which time is counted; each day is
/// followed by the next after twenty-four hours of sixty minutes of sixty seconds;
/// and so is the last of a month by the first of the next, and the last of a year
/// by the first of January.
pub proof fn days_follow_each_other(at: CivilMinute, next: CivilMinute)
    requires
        is_minute(at),
        is_minute(next),
        ({
            ||| next.year == at.year && next.month == at.month && next.day == at.day + 1
            ||| next.year == at.year && next.month == at.month + 1 && next.day == 1 && !is_date(
                at.year,
                at.month,
                at.day + 1,
            )
            ||| next.year == at.year + 1 && next.month == 1 && next.day == 1 && at.month == 12
                && at.day == 31
        }),
    ensures
        civil_time(next) - civil_time(at) == 86400 + 3600 * (next.hour - at.hour) + 60 * (
        next.minute - at.minute),
        at.year == 1970 && at.month == 1 && at.day == 1 ==> civil_time(at) == 3600 * at.hour + 60
            * at.minute,
{
    if next.year == at.year + 1 {
        lemma_year(at.year);
    }
}

/// A text writes a minute if and only if it is five numbers of at most four, two,
/// two, two and two digits with a dot, a dot, a dash and a colon between them; and
/// the minute is then made of these numbers.
pub proof fn minutes_are_five_numbers(s: Seq<char>)
    ensures
        minute_text(s) is Some <==> exists|
            year: Seq<char>,
            month: Seq<char>,
            day: Seq<char>,
            hour: Seq<char>,
            minute: Seq<char>,
        |
            are_five_numbers(s, year, month, day, hour, minute),
        forall|
            year: Seq<char>,
            month: Seq<char>,
            day: Seq<char>,
            hour: Seq<char>,
            minute: Seq<char>,
        | #[trigger]
            are_five_numbers(s, year, month, day, hour, minute) ==> {
                &&& minute_text(s)->0.year == text::digits_value(year)
                &&& minute_text(s)->0.month == text::digits_value(month)
                &&& minute_text(s)->0.day == text::digits_value(day)
                &&& minute_text(s)->0.hour == text::digits_value(hour)
                &&& minute_text(s)->0.minute == text::digits_value(minute)
            },
{
    assert forall|
        year: Seq<char>,
        month: Seq<char>,
        day: Seq<char>,
        hour: Seq<char>,
        minute: Seq<char>,
    | #[trigger]
        are_five_numbers(s, year, month, day, hour, minute) implies minute_text(s) == Some(
        CivilMinute {
            year: text::digits_value(year),
            month: text::digits_value(month),
            day: text::digits_value(day),
            hour: text::digits_value(hour),
            minute: text::digits_value(minute),
        },
    ) by {
        assert(s =~= spelled(year, month, day, hour, minute));
        lemma_minute_text(year, month, day, hour, minute);
    }
    if minute_text(s) is Some {
        let year = head(s, '.');
        let month = head(tail(s, '.'), '.');
        let date_rest = tail(tail(s, '.'), '.');
        let day = head(date_rest, '-');
        let hour = head(tail(date_rest, '-'), ':');
        let minute = tail(tail(date_rest, '-'), ':');
        assert(spelled(year, month, day, hour, minute) =~= year + seq!['.'] + month + seq!['.']
            + day + seq!['-'] + hour + seq![':'] + minute);
        assert(are_five_numbers(s, year, month, day, hour, minute));
    }
}

/// Whether a text is these five numbers, with what stands between them.
pub open spec fn are_five_numbers(
    s: Seq<char>,
    year: Seq<char>,
    month: Seq<char>,
    day: Seq<char>,
    hour: Seq<char>,
    minute: Seq<char>,
) -> bool {
    &&& s == year + seq!['.'] + month + seq!['.'] + day + seq!['-'] + hour + seq![':'] + minute
    &&& 1 <= year.len() <= 4 && text::all_digits(year)
    &&& 1 <= month.len() <= 2 && text::all_digits(month)
    &&& 1 <= day.len() <= 2 && text::all_digits(day)
    &&& 1 <= hour.len() <= 2 && text::all_digits(hour)
    &&& 1 <= minute.len() <= 2 && text::all_digits(minute)
}

} // verus!
