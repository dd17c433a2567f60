//! Validation of Badí' dates and the mapping between (month, day) and the day of the year.
//!
//! Days of the year are 1-based: the eighteen months before Ayyám-i-Há take days
//! 1..=342, Ayyám-i-Há the following 4 or 5 days, and the nineteenth month the last 19.
use vstd::prelude::*;

use crate::badi_month::{BadiMonth, valid_month, days_in_month, next_month_spec, previous_month_spec};
use crate::error::BadiDateError;
use crate::statics::{
    year_specifics, year_specifics_spec, AYYAMIHA_DAY_0, AYYAMIHA_DAY_1, LAST_YEAR_SUPPORTED,
    YEAR_ZERO_IN_GREGORIAN,
};

verus! {

/// The leap-year rule of the Gregorian calendar.
pub open spec fn is_gregorian_leap_year(y: int) -> bool {
    (y % 4 == 0 && y % 100 != 0) || y % 400 == 0
}

/// Number of days of Ayyám-i-Há in Badí' year `year`: taken from the table of
/// irregularities where it has an entry, else from the Gregorian leap-year rule.
pub open spec fn ayyamiha_days_spec(year: u8) -> u16 {
    match year_specifics_spec(year) {
        Some(s) => if s.leapday { 5 } else { 4 },
        None => if is_gregorian_leap_year(year + YEAR_ZERO_IN_GREGORIAN) { 5 } else { 4 },
    }
}

/// Number of days in Badí' year `year`.
pub open spec fn year_length(year: u8) -> int {
    361 + ayyamiha_days_spec(year)
}

/// Whether (year, month, day) is a date that this library supports.
pub open spec fn valid_date(year: u8, month: BadiMonth, day: u16) -> bool {
    &&& 1 <= year <= LAST_YEAR_SUPPORTED
    &&& valid_month(month)
    &&& 1 <= day <= days_in_month(month, year)
}

/// The outcome of validating (year, month, day): the first rule that fails, in
/// the order year, month, day.
pub open spec fn check_date(year: u8, month: BadiMonth, day: u16) -> Result<(), BadiDateError> {
    if !(1 <= year <= LAST_YEAR_SUPPORTED) {
        Err(BadiDateError::DateNotSupported)
    } else if !valid_month(month) {
        Err(BadiDateError::MonthInvalid(month))
    } else if !(1 <= day <= days_in_month(month, year)) {
        Err(BadiDateError::DayInvalid(month, day, days_in_month(month, year)))
    } else {
        Ok(())
    }
}

/// The 1-based day of the year of (year, month, day).
pub open spec fn day_of_year_spec(year: u8, month: BadiMonth, day: u16) -> int {
    match month {
        BadiMonth::Month(m) => if m < 19 {
            19 * (m - 1) + day
        } else {
            AYYAMIHA_DAY_0 + ayyamiha_days_spec(year) + day
        },
        BadiMonth::AyyamIHa => AYYAMIHA_DAY_0 + day,
    }
}

/// The (month, day) on 1-based day `doy` of Badí' year `year`; day 0 reads as
/// day 0 of the first month, which no valid date has.
pub open spec fn month_and_day_spec(year: u8, doy: int) -> (BadiMonth, u16) {
    let ah = ayyamiha_days_spec(year);
    if doy < 1 {
        (BadiMonth::Month(1), 0)
    } else if doy <= AYYAMIHA_DAY_0 {
        (BadiMonth::Month(((doy - 1) / 19 + 1) as u8), ((doy - 1) % 19 + 1) as u16)
    } else if doy <= AYYAMIHA_DAY_0 + ah {
        (BadiMonth::AyyamIHa, (doy - AYYAMIHA_DAY_0) as u16)
    } else {
        (BadiMonth::Month(19), (doy - AYYAMIHA_DAY_0 - ah) as u16)
    }
}

/// Number of days in the Badí' years before `year` (from year 1 on).
pub open spec fn days_before_year(year: int) -> int
    decreases year,
{
    if year <= 1 {
        0
    } else {
        days_before_year(year - 1) + year_length((year - 1) as u8)
    }
}

/// Number of the day (year, month, day) counted from the first day of year 1,
/// which is day 1.
pub open spec fn absolute_day(year: u8, month: BadiMonth, day: u16) -> int {
    days_before_year(year as int) + day_of_year_spec(year, month, day)
}

/// Number of the last day that this library supports.
pub open spec fn last_absolute_day() -> int {
    days_before_year(LAST_YEAR_SUPPORTED + 1)
}

/// Computes the number of days in Ayyám-i-Há of the given Badí' year
pub fn get_number_of_ayyamiha_days(year: u8) -> (r: u16)
    ensures
        r == ayyamiha_days_spec(year),
        r == 4 || r == 5,
{
    match year_specifics(year) {
        Some(specifics) => if specifics.leapday {
            5
        } else {
            4
        },
        None => {
            let greg_year: i32 = year as i32 + YEAR_ZERO_IN_GREGORIAN;
            let is_leap_year = greg_year % 4 == 0 && greg_year % 100 != 0 || greg_year % 400 == 0;
            if is_leap_year {
                5
            } else {
                4
            }
        },
    }
}

/// Validates a Badí' year, month, and day
pub fn validate(year: u8, month: BadiMonth, day: u16) -> (r: Result<(), BadiDateError>)
    ensures
        r == check_date(year, month, day),
        r is Ok <==> valid_date(year, month, day),
{
    if !(1 <= year && year <= LAST_YEAR_SUPPORTED) {
        return Err(BadiDateError::DateNotSupported);
    }
    match month.validate() {
        Ok(_) => {},
        Err(err) => return Err(err),
    }
    let max_day = month.number_of_days(year);
    if day < 1 || day > max_day {
        return Err(BadiDateError::DayInvalid(month, day, max_day));
    }
    Ok(())
}

/// Computes the 1-based day of the year of a valid Badí' date
pub fn day_of_year(year: u8, month: &BadiMonth, day: u16) -> (r: u16)
    requires
        valid_date(year, *month, day),
    ensures
        r == day_of_year_spec(year, *month, day),
        1 <= r <= year_length(year),
{
    match *month {
        BadiMonth::Month(m) => if m < 19 {
            19 * (m - 1) as u16 + day
        } else {
            let ayyamiha_days = get_number_of_ayyamiha_days(year);
            AYYAMIHA_DAY_0 + ayyamiha_days + day
        },
        BadiMonth::AyyamIHa => AYYAMIHA_DAY_0 + day,
    }
}

/// The (month, day) on the 1-based day `doy` of the Badí' year `year`;
/// [`BadiDateError::DateNotSupported`] if the year is not supported. Day 0
/// gives day 0 of the first month, and days past the end of the year give days
/// past the end of the nineteenth month: validation rejects both.
pub fn month_and_day_from_doy(year: u8, doy: u16) -> (r: Result<(BadiMonth, u16), BadiDateError>)
    ensures
        !(1 <= year <= LAST_YEAR_SUPPORTED) ==> r == Err::<(BadiMonth, u16), BadiDateError>(
            BadiDateError::DateNotSupported,
        ),
        1 <= year <= LAST_YEAR_SUPPORTED ==> r == Ok::<(BadiMonth, u16), BadiDateError>(
            month_and_day_spec(year, doy as int),
        ),
        1 <= year <= LAST_YEAR_SUPPORTED && 1 <= doy <= year_length(year) ==> ({
            let (month, day) = month_and_day_spec(year, doy as int);
            valid_date(year, month, day) && day_of_year_spec(year, month, day) == doy
        }),
{
    if !(1 <= year && year <= LAST_YEAR_SUPPORTED) {
        return Err(BadiDateError::DateNotSupported);
    }
    proof {
        if 1 <= doy <= year_length(year) {
            lemma_day_of_year_round_trip(year, doy as int);
        }
    }
    if doy == 0 {
        return Ok((BadiMonth::Month(1), 0));
    }
    let ayyamiha_days = get_number_of_ayyamiha_days(year);
    let doy_0 = doy - 1;
    if doy < AYYAMIHA_DAY_1 {
        let month = (doy_0 / 19 + 1) as u8;
        let day = doy_0 % 19 + 1;
        Ok((BadiMonth::Month(month), day))
    } else if doy < AYYAMIHA_DAY_1 + ayyamiha_days {
        Ok((BadiMonth::AyyamIHa, doy - AYYAMIHA_DAY_0))
    } else {
        let day: u16 = doy - (AYYAMIHA_DAY_0 + ayyamiha_days);
        Ok((BadiMonth::Month(19), day))
    }
}

proof fn lemma_split_by_19(q: int, r: int)
    requires
        0 <= q,
        0 <= r < 19,
    ensures
        (19 * q + r) / 19 == q,
        (19 * q + r) % 19 == r,
{
    vstd::arithmetic::div_mod::lemma_fundamental_div_mod_converse(19 * q + r, 19, q, r);
}

/// Reading the (month, day) back from the day of the year of a valid date gives
/// that (month, day) again, and the day of the year lies within the year.
pub proof fn lemma_month_and_day_round_trip(year: u8, month: BadiMonth, day: u16)
    requires
        valid_date(year, month, day),
    ensures
        month_and_day_spec(year, day_of_year_spec(year, month, day)) == (month, day),
        1 <= day_of_year_spec(year, month, day) <= year_length(year),
{
    if let BadiMonth::Month(m) = month {
        if m < 19 {
            lemma_split_by_19(m - 1, day - 1);
            assert(19 * (m - 1) + day - 1 == 19 * (m - 1) + (day - 1));
        }
    }
}

/// Every day of a supported year is the day of the year of exactly the valid
/// date that [`month_and_day_spec`] gives.
pub proof fn lemma_day_of_year_round_trip(year: u8, doy: int)
    requires
        1 <= year <= LAST_YEAR_SUPPORTED,
        1 <= doy <= year_length(year),
    ensures
        valid_date(year, month_and_day_spec(year, doy).0, month_and_day_spec(year, doy).1),
        day_of_year_spec(year, month_and_day_spec(year, doy).0, month_and_day_spec(year, doy).1)
            == doy,
{
    if doy <= AYYAMIHA_DAY_0 {
        let q = (doy - 1) / 19;
        let r = (doy - 1) % 19;
        vstd::arithmetic::div_mod::lemma_fundamental_div_mod(doy - 1, 19);
        assert(0 <= q <= 17) by (nonlinear_arith)
            requires
                doy - 1 == 19 * q + r,
                0 <= r < 19,
                0 <= doy - 1 < 342,
        ;
    }
}

/// Each supported year starts right after the last day of the year before it,
/// and years have between 365 and 366 days.
pub proof fn lemma_days_before_year_bounds(year: int)
    requires
        1 <= year,
    ensures
        365 * (year - 1) <= days_before_year(year) <= 366 * (year - 1),
    decreases year,
{
    if year > 1 {
        lemma_days_before_year_bounds(year - 1);
    }
}

/// Years that come earlier end before later years begin.
pub proof fn lemma_days_before_year_monotone(a: int, b: int)
    requires
        1 <= a < b,
    ensures
        days_before_year(a) + year_length(a as u8) <= days_before_year(b),
    decreases b - a,
{
    if a + 1 < b {
        lemma_days_before_year_monotone(a, b - 1);
    }
}

/// Every valid date has a day number between the first and the last supported day.
pub proof fn lemma_absolute_day_bounds(year: u8, month: BadiMonth, day: u16)
    requires
        valid_date(year, month, day),
    ensures
        1 <= absolute_day(year, month, day) <= last_absolute_day(),
        days_before_year(year as int) < absolute_day(year, month, day) <= days_before_year(
            year as int,
        ) + year_length(year),
{
    lemma_month_and_day_round_trip(year, month, day);
    lemma_days_before_year_bounds(year as int);
    if year < LAST_YEAR_SUPPORTED {
        lemma_days_before_year_monotone(year as int, LAST_YEAR_SUPPORTED + 1);
    }
}

/// Two valid dates with the same day number are the same date.
pub proof fn lemma_absolute_day_injective(
    y1: u8,
    m1: BadiMonth,
    d1: u16,
    y2: u8,
    m2: BadiMonth,
    d2: u16,
)
    requires
        valid_date(y1, m1, d1),
        valid_date(y2, m2, d2),
        absolute_day(y1, m1, d1) == absolute_day(y2, m2, d2),
    ensures
        y1 == y2,
        m1 == m2,
        d1 == d2,
{
    lemma_absolute_day_bounds(y1, m1, d1);
    lemma_absolute_day_bounds(y2, m2, d2);
    if y1 < y2 {
        lemma_days_before_year_monotone(y1 as int, y2 as int);
    } else if y2 < y1 {
        lemma_days_before_year_monotone(y2 as int, y1 as int);
    }
    lemma_month_and_day_round_trip(y1, m1, d1);
    lemma_month_and_day_round_trip(y2, m2, d2);
}

/// The day after a valid date: the next day of the month, else the first day of
/// the next month, else Naw-Rúz of the next year; its day number is one more.
pub proof fn lemma_step_forward(year: u8, month: BadiMonth, day: u16)
    requires
        valid_date(year, month, day),
    ensures
        day < days_in_month(month, year) ==> valid_date(year, month, (day + 1) as u16)
            && absolute_day(year, month, (day + 1) as u16) == absolute_day(year, month, day) + 1,
        day == days_in_month(month, year) && next_month_spec(month) is Some ==> valid_date(
            year,
            next_month_spec(month)->0,
            1,
        ) && absolute_day(year, next_month_spec(month)->0, 1) == absolute_day(year, month, day)
            + 1,
        day == days_in_month(month, year) && next_month_spec(month) is None ==> month
            == BadiMonth::Month(19) && absolute_day((year + 1) as u8, BadiMonth::Month(1), 1)
            == absolute_day(year, month, day) + 1 && (year < LAST_YEAR_SUPPORTED ==> valid_date(
            (year + 1) as u8,
            BadiMonth::Month(1),
            1,
        )) && (year == LAST_YEAR_SUPPORTED ==> absolute_day(year, month, day)
            == last_absolute_day()),
{
    assert(days_before_year(year + 1) == days_before_year(year as int) + year_length(year));
}

/// The day before a valid date: the previous day of the month, else the last day
/// of the previous month, else the last day of the previous year; its day number
/// is one less.
pub proof fn lemma_step_backward(year: u8, month: BadiMonth, day: u16)
    requires
        valid_date(year, month, day),
    ensures
        day > 1 ==> valid_date(year, month, (day - 1) as u16) && absolute_day(
            year,
            month,
            (day - 1) as u16,
        ) == absolute_day(year, month, day) - 1,
        day == 1 && previous_month_spec(month) is Some ==> valid_date(
            year,
            previous_month_spec(month)->0,
            days_in_month(previous_month_spec(month)->0, year),
        ) && absolute_day(
            year,
            previous_month_spec(month)->0,
            days_in_month(previous_month_spec(month)->0, year),
        ) == absolute_day(year, month, day) - 1,
        day == 1 && previous_month_spec(month) is None ==> month == BadiMonth::Month(1) && (year
            > 1 ==> valid_date((year - 1) as u8, BadiMonth::Month(19), 19) && absolute_day(
            (year - 1) as u8,
            BadiMonth::Month(19),
            19,
        ) == absolute_day(year, month, day) - 1) && (year == 1 ==> absolute_day(year, month, day)
            == 1),
{
    if year > 1 {
        assert(days_before_year(year as int) == days_before_year(year - 1) + year_length(
            (year - 1) as u8,
        ));
    }
}

/// Number of days in the Badí' years before `year` (from year 1 on)
pub fn count_days_before_year(year: u8) -> (r: u32)
    requires
        1 <= year <= LAST_YEAR_SUPPORTED + 1,
    ensures
        r == days_before_year(year as int),
{
    let mut total: u32 = 0;
    let mut y: u8 = 1;
    while y < year
        invariant
            1 <= y <= year <= LAST_YEAR_SUPPORTED + 1,
            total == days_before_year(y as int),
        decreases year - y,
    {
        proof {
            lemma_days_before_year_bounds(y + 1);
        }
        total = total + 361 + get_number_of_ayyamiha_days(y) as u32;
        y = y + 1;
    }
    total
}

} // verus!
