//! Unix timestamps as calendar dates and times.
use crate::text::{
    append_bytes, decimal_value, lemma_decimal_len, lemma_digits_in_order, lemma_padded, padded,
    padded_bytes, signed_padded, signed_padded_bytes, text_before,
};
use vstd::prelude::*;

verus! {

/// Whether a year of the Gregorian calendar has a 29th of February.
pub open spec fn is_leap(year: int) -> bool {
    year % 4 == 0 && (year % 100 != 0 || year % 400 == 0)
}

/// The number of days of a year.
pub open spec fn year_length(year: int) -> int {
    if is_leap(year) {
        366
    } else {
        365
    }
}

/// The number of days of a month.
pub open spec fn month_length(year: int, month: int) -> int {
    if month == 2 {
        if is_leap(year) {
            29
        } else {
            28
        }
    } else if month == 4 || month == 6 || month == 9 || month == 11 {
        30
    } else {
        31
    }
}

/// The number of days from the start of 1970 to the start of a year.
pub open spec fn days_before_year(year: int) -> int
    decreases (if year >= 1970 { year - 1970 } else { 1970 - year }),
{
    if year == 1970 {
        0
    } else if year > 1970 {
        days_before_year(year - 1) + year_length(year - 1)
    } else {
        days_before_year(year + 1) - year_length(year)
    }
}

/// The number of days of a year before the start of a month.
pub open spec fn days_before_month(year: int, month: int) -> int
    decreases month,
{
    if month <= 1 {
        0
    } else {
        days_before_month(year, month - 1) + month_length(year, month - 1)
    }
}

/// Whether the calendar has this date.
pub open spec fn is_date(year: int, month: int, day: int) -> bool {
    1 <= month <= 12 && 1 <= day <= month_length(year, month)
}

/// The number of days from 1970-01-01 to a date.
pub open spec fn day_number(year: int, month: int, day: int) -> int {
    days_before_year(year) + days_before_month(year, month) + day - 1
}

/// The date, as year, month and day, that lies `days` days after 1970-01-01.
pub open spec fn date_of(days: int) -> (int, int, int) {
    choose|date: (int, int, int)|
        #![trigger day_number(date.0, date.1, date.2)]
        is_date(date.0, date.1, date.2) && day_number(date.0, date.1, date.2) == days
}

/// The year in which a timestamp lies.
pub open spec fn year_of(ts: int) -> int {
    date_of(ts / 86400).0
}

/// A timestamp as `YYYY-MM-DD hh:mm:ss`.
pub open spec fn timestamp_text(ts: int) -> Seq<u8> {
    let date = date_of(ts / 86400);
    let second = ts % 86400;
    signed_padded(date.0, 4) + seq![45u8] + padded(date.1 as nat, 2) + seq![45u8] + padded(
        date.2 as nat,
        2,
    ) + seq![32u8] + padded((second / 3600) as nat, 2) + seq![58u8] + padded(
        (second % 3600 / 60) as nat,
        2,
    ) + seq![58u8] + padded((second % 60) as nat, 2)
}

/// The number of leap years from the year 0 to the start of a year.
#[verifier::opaque]
spec fn leap_years_before(year: int) -> int {
    (year + 3) / 4 - (year + 99) / 100 + (year + 399) / 400
}

/// One more year adds one more leap year if it is one.
proof fn lemma_leap_years_step(year: int)
    ensures
        leap_years_before(year + 1) == leap_years_before(year) + year_length(year) - 365,
{
    reveal(leap_years_before);
    assert((year + 4) / 4 == (year + 3) / 4 + (if year % 4 == 0 { 1int } else { 0 }));
    assert((year + 100) / 100 == (year + 99) / 100 + (if year % 100 == 0 { 1int } else { 0 }));
    assert((year + 400) / 400 == (year + 399) / 400 + (if year % 400 == 0 { 1int } else { 0 }));
    assert(year % 400 == 0 ==> year % 100 == 0);
    assert(year % 100 == 0 ==> year % 4 == 0);
}

/// The leap years up to and with a year, counted in eras of 400 years.
proof fn lemma_leap_years_of_era(era: int, year_of_era: int)
    requires
        0 <= year_of_era < 400,
    ensures
        leap_years_before(400 * era + year_of_era + 1) == 97 * era + year_of_era / 4 - year_of_era
            / 100 + 1,
{
    reveal(leap_years_before);
    let year = 400 * era + year_of_era;
    assert((year + 4) / 4 == 100 * era + year_of_era / 4 + 1);
    assert((year + 100) / 100 == 4 * era + year_of_era / 100 + 1);
    assert((year + 400) / 400 == era + 1);
}

/// The closed form of `days_before_year`.
proof fn lemma_days_before_year(year: int)
    ensures
        days_before_year(year) == 365 * year + leap_years_before(year) - 719528,
    decreases (if year >= 1970 { year - 1970 } else { 1970 - year }),
{
    if year > 1970 {
        lemma_days_before_year(year - 1);
        lemma_leap_years_step(year - 1);
    } else if year < 1970 {
        lemma_days_before_year(year + 1);
        lemma_leap_years_step(year);
    } else {
        assert(leap_years_before(1970) == 478) by {
            reveal(leap_years_before);
        }
    }
}

/// The days before each month.
proof fn lemma_days_before_month(year: int, month: int)
    requires
        1 <= month <= 13,
    ensures
        days_before_month(year, month) == (if month <= 1 {
            0int
        } else if month == 2 {
            31
        } else {
            (153 * (month - 3) + 2) / 5 + 59 + (if is_leap(year) {
                1int
            } else {
                0
            })
        }),
{
    reveal_with_fuel(days_before_month, 13);
}

/// Within a year, a later month starts after the earlier ones have ended.
proof fn lemma_months_in_order(year: int, a: int, b: int)
    requires
        1 <= a < b <= 13,
    ensures
        days_before_month(year, a) + month_length(year, a) <= days_before_month(year, b),
        days_before_month(year, 13) == year_length(year),
{
    lemma_days_before_month(year, a);
    lemma_days_before_month(year, b);
    lemma_days_before_month(year, 13);
}

/// A later year starts after the earlier ones have ended.
proof fn lemma_years_in_order(a: int, b: int)
    requires
        a < b,
    ensures
        days_before_year(a) + year_length(a) <= days_before_year(b),
    decreases b - a,
{
    lemma_days_before_year(b);
    lemma_days_before_year(b - 1);
    lemma_leap_years_step(b - 1);
    if b > a + 1 {
        lemma_years_in_order(a, b - 1);
    }
}

/// No day has two dates.
pub proof fn date_is_unique(y1: int, m1: int, d1: int, y2: int, m2: int, d2: int)
    requires
        is_date(y1, m1, d1),
        is_date(y2, m2, d2),
        day_number(y1, m1, d1) == day_number(y2, m2, d2),
    ensures
        y1 == y2 && m1 == m2 && d1 == d2,
{
    lemma_months_in_order(y1, m1, 13);
    lemma_months_in_order(y2, m2, 13);
    lemma_days_before_month(y1, m1);
    lemma_days_before_month(y2, m2);
    if y1 < y2 {
        lemma_years_in_order(y1, y2);
    } else if y2 < y1 {
        lemma_years_in_order(y2, y1);
    } else if m1 < m2 {
        lemma_months_in_order(y1, m1, m2);
    } else if m2 < m1 {
        lemma_months_in_order(y1, m2, m1);
    }
}

/// The first of March, counted in eras of 400 years that start in March.
proof fn lemma_first_of_march(era: int, year_of_era: int)
    requires
        0 <= year_of_era < 400,
    ensures
        ({
            let year = 400 * era + year_of_era;
            &&& days_before_year(year) + days_before_month(year, 3) == 146097 * era + 365
                * year_of_era + year_of_era / 4 - year_of_era / 100 - 719468
            &&& days_before_year(year + 1) == days_before_year(year) + days_before_month(year, 3)
                + 306
        }),
{
    let year = 400 * era + year_of_era;
    lemma_days_before_year(year);
    lemma_days_before_year(year + 1);
    lemma_leap_years_step(year);
    lemma_leap_years_of_era(era, year_of_era);
    lemma_days_before_month(year, 3);
}

/// The parts of an era of 400 years that starts in March: centuries, cycles of
/// four years, and years. The last century and the last year of a cycle may
/// be a day longer.
proof fn lemma_era_parts(
    day_of_era: int,
    century: int,
    day_of_century: int,
    cycle: int,
    day_of_cycle: int,
    year_of_cycle: int,
    day_of_year: int,
)
    requires
        0 <= day_of_era < 146097,
        century == (if day_of_era / 36524 == 4 {
            3
        } else {
            day_of_era / 36524
        }),
        day_of_century == day_of_era - century * 36524,
        cycle == day_of_century / 1461,
        day_of_cycle == day_of_century - cycle * 1461,
        year_of_cycle == (if day_of_cycle / 365 == 4 {
            3
        } else {
            day_of_cycle / 365
        }),
        day_of_year == day_of_cycle - year_of_cycle * 365,
    ensures
        0 <= century < 4,
        0 <= cycle < 25,
        0 <= year_of_cycle < 4,
        0 <= day_of_year <= 365,
        day_of_year == 365 ==> year_of_cycle == 3 && (cycle < 24 || century == 3),
        ({
            let year_of_era = 100 * century + 4 * cycle + year_of_cycle;
            &&& 0 <= year_of_era < 400
            &&& day_of_era == 365 * year_of_era + year_of_era / 4 - year_of_era / 100 + day_of_year
        }),
{
    assert(0 <= day_of_century <= 36524);
    assert(day_of_century == 36524 ==> century == 3);
    assert(0 <= day_of_cycle <= 1460);
    let year_of_era = 100 * century + 4 * cycle + year_of_cycle;
    assert(year_of_era / 4 == 25 * century + cycle);
    assert(year_of_era / 100 == century);
}

/// The date of a day of a year that starts in March.
proof fn lemma_march_date(
    era: int,
    century: int,
    cycle: int,
    year_of_cycle: int,
    day_of_year: int,
    year: int,
    month: int,
    day: int,
)
    requires
        0 <= century < 4,
        0 <= cycle < 25,
        0 <= year_of_cycle < 4,
        0 <= day_of_year <= 365,
        day_of_year == 365 ==> year_of_cycle == 3 && (cycle < 24 || century == 3),
        ({
            let march_year = 400 * era + 100 * century + 4 * cycle + year_of_cycle;
            let march_month = (5 * day_of_year + 2) / 153;
            &&& day == day_of_year - (153 * march_month + 2) / 5 + 1
            &&& year == (if march_month < 10 {
                march_year
            } else {
                march_year + 1
            })
            &&& month == (if march_month < 10 {
                march_month + 3
            } else {
                march_month - 9
            })
        }),
    ensures
        is_date(year, month, day),
        ({
            let year_of_era = 100 * century + 4 * cycle + year_of_cycle;
            day_number(year, month, day) == 146097 * era + 365 * year_of_era + year_of_era / 4
                - year_of_era / 100 + day_of_year - 719468
        }),
{
    let year_of_era = 100 * century + 4 * cycle + year_of_cycle;
    let march_year = 400 * era + year_of_era;
    let march_month = (5 * day_of_year + 2) / 153;
    lemma_first_of_march(era, year_of_era);
    lemma_days_before_month(year, month);
    lemma_days_before_month(march_year, 3);
    assert(0 <= march_month <= 11);
    if day_of_year == 365 {
        assert((march_year + 1) % 4 == 0);
        assert((march_year + 1) % 100 == 0 ==> (march_year + 1) % 400 == 0);
    }
}

/// The calendar date of a day.
fn civil_date(days: i64) -> (date: (i64, u64, u64))
    requires
        -200_000_000_000_000 <= days <= 200_000_000_000_000,
    ensures
        (date.0 as int, date.1 as int, date.2 as int) == date_of(days as int),
        is_date(date.0 as int, date.1 as int, date.2 as int),
        day_number(date.0 as int, date.1 as int, date.2 as int) == days,
{
    // Days since the first of March of the year 0, shifted by whole eras of
    // 400 years so that no intermediate value is negative.
    let shifted: u64 = (days + 719468 + 204_535_800_000_000) as u64;
    let era: u64 = shifted / 146097;
    let day_of_era: u64 = shifted % 146097;
    let mut century: u64 = day_of_era / 36524;
    if century == 4 {
        century = 3;
    }
    let day_of_century: u64 = day_of_era - century * 36524;
    let cycle: u64 = day_of_century / 1461;
    let day_of_cycle: u64 = day_of_century - cycle * 1461;
    let mut year_of_cycle: u64 = day_of_cycle / 365;
    if year_of_cycle == 4 {
        year_of_cycle = 3;
    }
    let day_of_year: u64 = day_of_cycle - year_of_cycle * 365;
    proof {
        lemma_era_parts(
            day_of_era as int,
            century as int,
            day_of_century as int,
            cycle as int,
            day_of_cycle as int,
            year_of_cycle as int,
            day_of_year as int,
        );
    }
    let year_of_era: u64 = 100 * century + 4 * cycle + year_of_cycle;
    let march_month: u64 = (5 * day_of_year + 2) / 153;
    let day: u64 = day_of_year - (153 * march_month + 2) / 5 + 1;
    let march_year: i64 = era as i64 * 400 - 560_000_000_000 + year_of_era as i64;
    let (year, month): (i64, u64) = if march_month < 10 {
        (march_year, march_month + 3)
    } else {
        (march_year + 1, march_month - 9)
    };
    proof {
        let e = era as int - 1_400_000_000;
        lemma_march_date(
            e,
            century as int,
            cycle as int,
            year_of_cycle as int,
            day_of_year as int,
            year as int,
            month as int,
            day as int,
        );
        let witness = (year as int, month as int, day as int);
        assert(day_number(witness.0, witness.1, witness.2) == days);
        let chosen = date_of(days as int);
        date_is_unique(chosen.0, chosen.1, chosen.2, witness.0, witness.1, witness.2);
    }
    (year, month, day)
}

/// The day of a timestamp, counted from 1970-01-01, and the second within it.
fn day_and_second(ts: i64) -> (r: (i64, u64))
    ensures
        r.0 == ts as int / 86400,
        r.1 == ts as int % 86400,
        -200_000_000_000_000 <= r.0 <= 200_000_000_000_000,
{
    if ts >= 0 {
        let t: u64 = ts as u64;
        ((t / 86400) as i64, t % 86400)
    } else {
        let t: u64 = (-(ts + 1)) as u64;
        (-((t / 86400) as i64) - 1, 86399 - t % 86400)
    }
}

/// Writes a timestamp as date and time, whatever its year.
pub fn timestamp_bytes(ts: i64) -> (text: Vec<u8>)
    ensures
        text@ == timestamp_text(ts as int),
{
    let (day, second) = day_and_second(ts);
    let date = civil_date(day);
    let mut text: Vec<u8> = signed_padded_bytes(date.0, 4);
    text.push(45);
    append_bytes(&mut text, padded_bytes(date.1 as u128, 2).as_slice());
    text.push(45);
    append_bytes(&mut text, padded_bytes(date.2 as u128, 2).as_slice());
    text.push(32);
    append_bytes(&mut text, padded_bytes((second / 3600) as u128, 2).as_slice());
    text.push(58);
    append_bytes(&mut text, padded_bytes((second % 3600 / 60) as u128, 2).as_slice());
    text.push(58);
    append_bytes(&mut text, padded_bytes((second % 60) as u128, 2).as_slice());
    assert(text@ =~= timestamp_text(ts as int));
    text
}

/// Whether a timestamp's year has at most four digits and no sign.
pub open spec fn has_plain_year(ts: int) -> bool {
    0 <= year_of(ts) <= 9999
}

/// Writes a timestamp in the nineteen bytes of `YYYY-MM-DD hh:mm:ss`, or
/// nothing where the year needs a sign or a fifth digit.
pub fn format_timestamp(ts: i64) -> (text: Option<Vec<u8>>)
    ensures
        text is Some <==> has_plain_year(ts as int),
        text is Some ==> text->0@ == timestamp_text(ts as int),
        text is Some ==> text->0@.len() == 19,
{
    let (day, _) = day_and_second(ts);
    let (year, _, _) = civil_date(day);
    if year < 0 || year > 9999 {
        return None;
    }
    proof {
        timestamp_has_a_date(ts);
        lemma_timestamp_parts(ts as int);
    }
    Some(timestamp_bytes(ts))
}

/// Every timestamp lies on a day of the calendar.
pub proof fn timestamp_has_a_date(ts: i64)
    ensures
        ({
            let date = date_of(ts as int / 86400);
            &&& is_date(date.0, date.1, date.2)
            &&& day_number(date.0, date.1, date.2) == ts as int / 86400
        }),
{
    every_day_has_a_date(ts as int / 86400);
}

/// Every day, counted from 1970-01-01, has a date.
pub proof fn every_day_has_a_date(days: int)
    ensures
        ({
            let date = date_of(days);
            &&& is_date(date.0, date.1, date.2)
            &&& day_number(date.0, date.1, date.2) == days
        }),
{
    let (year, month, day) = lemma_find_date(days);
    let witness = (year, month, day);
    assert(day_number(witness.0, witness.1, witness.2) == days);
}

/// A date for a day.
proof fn lemma_find_date(days: int) -> (date: (int, int, int))
    ensures
        is_date(date.0, date.1, date.2),
        day_number(date.0, date.1, date.2) == days,
{
    let shifted = days + 719468;
    let era = shifted / 146097;
    let day_of_era = shifted % 146097;
    let century = if day_of_era / 36524 == 4 {
        3
    } else {
        day_of_era / 36524
    };
    let day_of_century = day_of_era - century * 36524;
    let cycle = day_of_century / 1461;
    let day_of_cycle = day_of_century - cycle * 1461;
    let year_of_cycle = if day_of_cycle / 365 == 4 {
        3
    } else {
        day_of_cycle / 365
    };
    let day_of_year = day_of_cycle - year_of_cycle * 365;
    lemma_era_parts(
        day_of_era,
        century,
        day_of_century,
        cycle,
        day_of_cycle,
        year_of_cycle,
        day_of_year,
    );
    let march_month = (5 * day_of_year + 2) / 153;
    let day = day_of_year - (153 * march_month + 2) / 5 + 1;
    let march_year = 400 * era + 100 * century + 4 * cycle + year_of_cycle;
    let (year, month) = if march_month < 10 {
        (march_year, march_month + 3)
    } else {
        (march_year + 1, march_month - 9)
    };
    lemma_march_date(era, century, cycle, year_of_cycle, day_of_year, year, month, day);
    (year, month, day)
}

/// Where each part of a timestamp's text stands.
proof fn lemma_timestamp_parts(ts: int)
    requires
        has_plain_year(ts),
    ensures
        ({
            let date = date_of(ts / 86400);
            let second = ts % 86400;
            let text = timestamp_text(ts);
            &&& is_date(date.0, date.1, date.2)
            &&& text.len() == 19
            &&& text[4] == 45 && text[7] == 45 && text[10] == 32 && text[13] == 58 && text[16] == 58
            &&& text.subrange(0, 4) == padded(date.0 as nat, 4)
            &&& text.subrange(5, 7) == padded(date.1 as nat, 2)
            &&& text.subrange(8, 10) == padded(date.2 as nat, 2)
            &&& text.subrange(11, 13) == padded((second / 3600) as nat, 2)
            &&& text.subrange(14, 16) == padded((second % 3600 / 60) as nat, 2)
            &&& text.subrange(17, 19) == padded((second % 60) as nat, 2)
        }),
{
    every_day_has_a_date(ts / 86400);
    let date = date_of(ts / 86400);
    let second = ts % 86400;
    let text = timestamp_text(ts);
    assert forall|n: nat, w: nat|
        (w == 2 && n < 100) || (w == 4 && n < 10000) implies #[trigger] padded(n, w).len()
        == w by {
        lemma_decimal_len(n);
        lemma_padded(n, w);
    }
    assert(second / 3600 < 100);
    assert(second % 3600 / 60 < 100);
    assert(second % 60 < 100);
    assert(text.subrange(0, 4) =~= padded(date.0 as nat, 4));
    assert(text.subrange(5, 7) =~= padded(date.1 as nat, 2));
    assert(text.subrange(8, 10) =~= padded(date.2 as nat, 2));
    assert(text.subrange(11, 13) =~= padded((second / 3600) as nat, 2));
    assert(text.subrange(14, 16) =~= padded((second % 3600 / 60) as nat, 2));
    assert(text.subrange(17, 19) =~= padded((second % 60) as nat, 2));
}

/// A timestamp of the years 0 to 9999 takes nineteen characters.
pub proof fn timestamp_text_len(ts: int)
    requires
        has_plain_year(ts),
    ensures
        timestamp_text(ts).len() == 19,
{
    lemma_timestamp_parts(ts);
}

/// Two timestamps of the years 0 to 9999 that read alike are the same second.
pub proof fn timestamp_text_is_unambiguous(a: int, b: int)
    requires
        has_plain_year(a),
        has_plain_year(b),
        timestamp_text(a) == timestamp_text(b),
    ensures
        a == b,
{
    lemma_timestamp_parts(a);
    lemma_timestamp_parts(b);
    every_day_has_a_date(a / 86400);
    every_day_has_a_date(b / 86400);
    let x = date_of(a / 86400);
    let y = date_of(b / 86400);
    let s = a % 86400;
    let t = b % 86400;
    lemma_padded(x.0 as nat, 4);
    lemma_padded(y.0 as nat, 4);
    lemma_padded(x.1 as nat, 2);
    lemma_padded(y.1 as nat, 2);
    lemma_padded(x.2 as nat, 2);
    lemma_padded(y.2 as nat, 2);
    lemma_padded((s / 3600) as nat, 2);
    lemma_padded((t / 3600) as nat, 2);
    lemma_padded((s % 3600 / 60) as nat, 2);
    lemma_padded((t % 3600 / 60) as nat, 2);
    lemma_padded((s % 60) as nat, 2);
    lemma_padded((t % 60) as nat, 2);
    assert(s == s / 3600 * 3600 + s % 3600 / 60 * 60 + s % 60);
    assert(t == t / 3600 * 3600 + t % 3600 / 60 * 60 + t % 60);
}

/// Earlier days have earlier dates.
proof fn lemma_dates_in_order(y1: int, m1: int, d1: int, y2: int, m2: int, d2: int)
    requires
        is_date(y1, m1, d1),
        is_date(y2, m2, d2),
        day_number(y1, m1, d1) < day_number(y2, m2, d2),
    ensures
        y1 < y2 || (y1 == y2 && (m1 < m2 || (m1 == m2 && d1 < d2))),
{
    lemma_months_in_order(y1, m1, 13);
    lemma_months_in_order(y2, m2, 13);
    lemma_days_before_month(y1, m1);
    lemma_days_before_month(y2, m2);
    if y2 < y1 {
        lemma_years_in_order(y2, y1);
    } else if y1 == y2 && m2 < m1 {
        lemma_months_in_order(y1, m2, m1);
    }
}

/// The years 0 to 9999 are those from 0000-01-01 00:00:00 to
/// 9999-12-31 23:59:59.
pub proof fn plain_years_are_a_range(ts: int)
    ensures
        has_plain_year(ts) <==> -62_167_219_200 <= ts <= 253_402_300_799,
{
    every_day_has_a_date(ts / 86400);
    let (year, month, day) = date_of(ts / 86400);
    lemma_months_in_order(year, month, 13);
    lemma_days_before_month(year, month);
    lemma_days_before_year(0);
    lemma_days_before_year(10000);
    assert(leap_years_before(0) == 0 && leap_years_before(10000) == 2425) by {
        reveal(leap_years_before);
    }
    if year < 0 {
        lemma_years_in_order(year, 0);
    } else if year > 0 {
        lemma_years_in_order(0, year);
    }
    if year < 10000 {
        lemma_years_in_order(year, 10000);
    } else if year > 10000 {
        lemma_years_in_order(10000, year);
    }
}

/// Numbers in order stand in order within texts that agree before them.
proof fn lemma_part_in_order(a: Seq<u8>, b: Seq<u8>, p: int, q: int, m: nat, n: nat)
    requires
        0 <= p <= q <= a.len(),
        a.len() == b.len(),
        a.take(p) == b.take(p),
        a.subrange(p, q) == padded(m, (q - p) as nat),
        b.subrange(p, q) == padded(n, (q - p) as nat),
        m < n,
    ensures
        text_before(a, b),
{
    let w = (q - p) as nat;
    lemma_padded(m, w);
    lemma_padded(n, w);
    let i = lemma_digits_in_order(padded(m, w), padded(n, w));
    assert(a[p + i] == a.subrange(p, q)[i]);
    assert(b[p + i] == b.subrange(p, q)[i]);
    assert forall|j: int| 0 <= j < p + i implies a[j] == b[j] by {
        if j < p {
            assert(a[j] == a.take(p)[j]);
            assert(b[j] == b.take(p)[j]);
        } else {
            assert(a[j] == a.subrange(p, q).take(i)[j - p]);
            assert(b[j] == b.subrange(p, q).take(i)[j - p]);
        }
    }
    assert(a.take(p + i) =~= b.take(p + i));
}

/// Texts that agree up to a part, in that part and in the byte behind it.
proof fn lemma_same_front(a: Seq<u8>, b: Seq<u8>, p: int, q: int)
    requires
        0 <= p <= q < a.len(),
        a.len() == b.len(),
        a.take(p) == b.take(p),
        a.subrange(p, q) == b.subrange(p, q),
        a[q] == b[q],
    ensures
        a.take(q + 1) == b.take(q + 1),
{
    assert forall|j: int| 0 <= j < q + 1 implies a[j] == b[j] by {
        if j < p {
            assert(a[j] == a.take(p)[j]);
            assert(b[j] == b.take(p)[j]);
        } else if j < q {
            assert(a[j] == a.subrange(p, q)[j - p]);
            assert(b[j] == b.subrange(p, q)[j - p]);
        }
    }
    assert(a.take(q + 1) =~= b.take(q + 1));
}

/// Later times of the years 0 to 9999 have texts that are later in byte order.
pub proof fn timestamp_texts_are_in_order(a: int, b: int)
    requires
        has_plain_year(a),
        has_plain_year(b),
        a < b,
    ensures
        text_before(timestamp_text(a), timestamp_text(b)),
{
    lemma_timestamp_parts(a);
    lemma_timestamp_parts(b);
    every_day_has_a_date(a / 86400);
    every_day_has_a_date(b / 86400);
    let x = date_of(a / 86400);
    let y = date_of(b / 86400);
    let s = a % 86400;
    let t = b % 86400;
    let u = timestamp_text(a);
    let v = timestamp_text(b);
    if a / 86400 < b / 86400 {
        lemma_dates_in_order(x.0, x.1, x.2, y.0, y.1, y.2);
    } else {
        assert(a / 86400 == b / 86400 && s < t);
    }
    assert(u.take(0) =~= v.take(0));
    if x.0 != y.0 {
        lemma_part_in_order(u, v, 0, 4, x.0 as nat, y.0 as nat);
    } else {
        lemma_same_front(u, v, 0, 4);
        if x.1 != y.1 {
            lemma_part_in_order(u, v, 5, 7, x.1 as nat, y.1 as nat);
        } else {
            lemma_same_front(u, v, 5, 7);
            if x.2 != y.2 {
                lemma_part_in_order(u, v, 8, 10, x.2 as nat, y.2 as nat);
            } else {
                lemma_same_front(u, v, 8, 10);
                lemma_seconds_in_order(u, v, s, t);
            }
        }
    }
}

/// Later times of a day have later texts.
proof fn lemma_seconds_in_order(u: Seq<u8>, v: Seq<u8>, s: int, t: int)
    requires
        0 <= s < t < 86400,
        u.len() == 19,
        v.len() == 19,
        u.take(11) == v.take(11),
        u[13] == v[13],
        u[16] == v[16],
        u.subrange(11, 13) == padded((s / 3600) as nat, 2),
        u.subrange(14, 16) == padded((s % 3600 / 60) as nat, 2),
        u.subrange(17, 19) == padded((s % 60) as nat, 2),
        v.subrange(11, 13) == padded((t / 3600) as nat, 2),
        v.subrange(14, 16) == padded((t % 3600 / 60) as nat, 2),
        v.subrange(17, 19) == padded((t % 60) as nat, 2),
    ensures
        text_before(u, v),
{
    assert(s == s / 3600 * 3600 + s % 3600 / 60 * 60 + s % 60);
    assert(t == t / 3600 * 3600 + t % 3600 / 60 * 60 + t % 60);
    if s / 3600 != t / 3600 {
        lemma_part_in_order(u, v, 11, 13, (s / 3600) as nat, (t / 3600) as nat);
    } else {
        lemma_same_front(u, v, 11, 13);
        if s % 3600 / 60 != t % 3600 / 60 {
            lemma_part_in_order(u, v, 14, 16, (s % 3600 / 60) as nat, (t % 3600 / 60) as nat);
        } else {
            lemma_same_front(u, v, 14, 16);
            lemma_part_in_order(u, v, 17, 19, (s % 60) as nat, (t % 60) as nat);
        }
    }
}

/// A timestamp of the years 0 to 9999 is written as `YYYY-MM-DD hh:mm:ss`:
/// digits and, between them, `-`, a space and `:`.
pub proof fn timestamp_text_has_the_format(ts: int, i: int)
    requires
        has_plain_year(ts),
        0 <= i < 19,
    ensures
        timestamp_text(ts).len() == 19,
        i == 4 || i == 7 ==> timestamp_text(ts)[i] == 45,
        i == 10 ==> timestamp_text(ts)[i] == 32,
        i == 13 || i == 16 ==> timestamp_text(ts)[i] == 58,
        i != 4 && i != 7 && i != 10 && i != 13 && i != 16 ==> 48 <= timestamp_text(ts)[i] <= 57,
{
    lemma_timestamp_parts(ts);
    let date = date_of(ts / 86400);
    let second = ts % 86400;
    let text = timestamp_text(ts);
    lemma_padded(date.0 as nat, 4);
    lemma_padded(date.1 as nat, 2);
    lemma_padded(date.2 as nat, 2);
    lemma_padded((second / 3600) as nat, 2);
    lemma_padded((second % 3600 / 60) as nat, 2);
    lemma_padded((second % 60) as nat, 2);
    if i < 4 {
        assert(text[i] == text.subrange(0, 4)[i]);
    } else if 5 <= i < 7 {
        assert(text[i] == text.subrange(5, 7)[i - 5]);
    } else if 8 <= i < 10 {
        assert(text[i] == text.subrange(8, 10)[i - 8]);
    } else if 11 <= i < 13 {
        assert(text[i] == text.subrange(11, 13)[i - 11]);
    } else if 14 <= i < 16 {
        assert(text[i] == text.subrange(14, 16)[i - 14]);
    } else if 17 <= i {
        assert(text[i] == text.subrange(17, 19)[i - 17]);
    }
}

/// Days follow one another as in the Gregorian calendar: the day 0 is
/// 1970-01-01, and the day after another is the next of its month, or the first
/// of the next month, or of the next year. April, June, September and November
/// have 30 days; February has 29 in every fourth year, except in the centuries
/// that 400 does not divide, and 28 otherwise; the other months have 31.
pub proof fn days_follow_the_calendar(days: int)
    ensures
        date_of(0) == (1970int, 1int, 1int),
        ({
            let (year, month, day) = date_of(days);
            let last = if month == 4 || month == 6 || month == 9 || month == 11 {
                30int
            } else if month != 2 {
                31
            } else if year % 4 == 0 && (year % 100 != 0 || year % 400 == 0) {
                29
            } else {
                28
            };
            &&& 1 <= month <= 12
            &&& 1 <= day <= last
            &&& date_of(days + 1) == if day < last {
                (year, month, day + 1)
            } else if month < 12 {
                (year, month + 1, 1)
            } else {
                (year + 1, 1, 1)
            }
        }),
{
    every_day_has_a_date(0);
    let zero = date_of(0);
    date_is_unique(zero.0, zero.1, zero.2, 1970, 1, 1);
    every_day_has_a_date(days);
    every_day_has_a_date(days + 1);
    let (year, month, day) = date_of(days);
    let next = if day < month_length(year, month) {
        (year, month, day + 1)
    } else if month < 12 {
        (year, month + 1, 1int)
    } else {
        (year + 1, 1int, 1int)
    };
    lemma_months_in_order(year, month, 13);
    assert(days_before_month(year, month + 1) == days_before_month(year, month) + month_length(
        year,
        month,
    ));
    assert(days_before_year(year + 1) == days_before_year(year) + year_length(year)) by {
        lemma_days_before_year(year);
        lemma_days_before_year(year + 1);
        lemma_leap_years_step(year);
    }
    assert(day_number(next.0, next.1, next.2) == days + 1);
    let chosen = date_of(days + 1);
    date_is_unique(chosen.0, chosen.1, chosen.2, next.0, next.1, next.2);
}

/// A timestamp of the years 0 to 9999 shows the date of its day, and the hour,
/// minute and second within it.
pub proof fn timestamps_show_date_and_time(ts: int)
    requires
        has_plain_year(ts),
    ensures
        ({
            let (year, month, day) = date_of(ts / 86400);
            let text = timestamp_text(ts);
            let second = ts % 86400;
            &&& decimal_value(text.subrange(0, 4)) == year
            &&& decimal_value(text.subrange(5, 7)) == month
            &&& decimal_value(text.subrange(8, 10)) == day
            &&& decimal_value(text.subrange(11, 13)) == second / 3600
            &&& decimal_value(text.subrange(14, 16)) == second % 3600 / 60
            &&& decimal_value(text.subrange(17, 19)) == second % 60
        }),
{
    lemma_timestamp_parts(ts);
    let date = date_of(ts / 86400);
    let second = ts % 86400;
    lemma_padded(date.0 as nat, 4);
    lemma_padded(date.1 as nat, 2);
    lemma_padded(date.2 as nat, 2);
    lemma_padded((second / 3600) as nat, 2);
    lemma_padded((second % 3600 / 60) as nat, 2);
    lemma_padded((second % 60) as nat, 2);
}

/// Outside the years 0 to 9999, the year of a timestamp has a sign or more
/// digits, and the rest reads as in any other.
pub proof fn far_timestamps_have_longer_years(ts: int)
    ensures
        ({
            let (year, month, day) = date_of(ts / 86400);
            let second = ts % 86400;
            timestamp_text(ts) == (if year < 0 {
                seq![45u8] + padded((-year) as nat, 3)
            } else {
                padded(year as nat, 4)
            }) + seq![45u8] + padded(month as nat, 2) + seq![45u8] + padded(day as nat, 2)
                + seq![32u8] + padded((second / 3600) as nat, 2) + seq![58u8] + padded(
                (second / 60 % 60) as nat,
                2,
            ) + seq![58u8] + padded((second % 60) as nat, 2)
        }),
{
    assert(ts % 86400 % 3600 / 60 == ts % 86400 / 60 % 60);
}

} // verus!
