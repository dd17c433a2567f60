//! Conversion between Gregorian instants and Badí' dates, anchored at local sunset.
//!
//! The library does not compute sunsets or time zones itself. A caller supplies
//! two functions of a local Gregorian calendar day: `sunset_on`, the instant of
//! sunset on that day (or the fallback time of day where it cannot be computed),
//! and `midnight_of`, the instant at which that day begins. Both give the
//! instant together with the local calendar day on which it falls.
use vstd::prelude::*;

use crate::badi_date::{BadiDate, BadiDateLike};
use crate::badi_month::BadiMonth;
use crate::calendar::{
    check_date, day_of_year_spec, is_gregorian_leap_year, month_and_day_from_doy,
    month_and_day_spec,
};
use crate::error::BadiDateError;
use crate::statics::{year_specifics, year_specifics_spec, LAST_YEAR_SUPPORTED, YEAR_ZERO_IN_GREGORIAN};

verus! {

/// A day of the proleptic Gregorian calendar
#[derive(Clone, Copy, Debug, PartialEq, Eq, Structural)]
pub struct CivilDate {
    /// The Gregorian year
    pub year: i32,
    /// The month [1 - 12]
    pub month: u32,
    /// The day of the month [1 - 31]
    pub day: u32,
}

/// An instant, and the local calendar day on which it falls
#[derive(Clone, Copy, Debug, PartialEq, Eq, Structural)]
pub struct LocalInstant {
    /// Seconds since 1970-01-01 00:00:00 UTC
    pub timestamp: i64,
    /// The local calendar day of the instant
    pub date: CivilDate,
}

/// Earliest supported instant: midnight starting 21 March 1844 in Tehran (local mean time)
pub const FIRST_SUPPORTED_TIMESTAMP: i64 = -3969314744;

/// Latest supported instant: midnight starting 19 March 2065 in Tehran
pub const LAST_SUPPORTED_TIMESTAMP: i64 = 3004633800;

/// Earliest year of the Gregorian dates that the calendar arithmetic handles
pub const MIN_CIVIL_YEAR: i32 = -262143;

/// Latest year of the Gregorian dates that the calendar arithmetic handles
pub const MAX_CIVIL_YEAR: i32 = 262142;

/// Number of days in `month` of Gregorian `year`.
pub open spec fn gregorian_month_length(year: int, month: int) -> int {
    if month == 2 {
        if is_gregorian_leap_year(year) { 29 } else { 28 }
    } else if month == 4 || month == 6 || month == 9 || month == 11 {
        30
    } else {
        31
    }
}

/// Whether `d` is a day of the Gregorian calendar within the handled years.
pub open spec fn valid_civil_date(d: CivilDate) -> bool {
    &&& MIN_CIVIL_YEAR <= d.year <= MAX_CIVIL_YEAR
    &&& 1 <= d.month <= 12
    &&& 1 <= d.day <= gregorian_month_length(d.year as int, d.month as int)
}

/// Number of days of Gregorian `year` before the first day of `month`.
pub open spec fn days_before_gregorian_month(year: int, month: int) -> int
    decreases month,
{
    if month <= 1 {
        0
    } else {
        days_before_gregorian_month(year, month - 1) + gregorian_month_length(year, month - 1)
    }
}

/// Number of days in the Gregorian years from year 1 up to `year` (negative
/// before year 1).
pub open spec fn days_before_civil_year(year: int) -> int {
    let y = year - 1;
    365 * y + y / 4 - y / 100 + y / 400
}

/// Number of the day `d`, with 1 January of year 1 as day 1.
pub open spec fn civil_day_number(d: CivilDate) -> int {
    days_before_civil_year(d.year as int) + days_before_gregorian_month(d.year as int, d.month as int)
        + d.day
}

/// Later Gregorian years start at least 364 days later per year.
proof fn lemma_days_before_civil_year_monotone(a: int, b: int)
    requires
        a <= b,
    ensures
        days_before_civil_year(a) + 364 * (b - a) <= days_before_civil_year(b),
{
    let (x, y) = (a - 1, b - 1);
    vstd::arithmetic::div_mod::lemma_fundamental_div_mod(x, 4);
    vstd::arithmetic::div_mod::lemma_fundamental_div_mod(y, 4);
    vstd::arithmetic::div_mod::lemma_fundamental_div_mod(x, 100);
    vstd::arithmetic::div_mod::lemma_fundamental_div_mod(y, 100);
    vstd::arithmetic::div_mod::lemma_fundamental_div_mod(x, 400);
    vstd::arithmetic::div_mod::lemma_fundamental_div_mod(y, 400);
    vstd::arithmetic::div_mod::lemma_div_is_ordered(x, y, 4);
    vstd::arithmetic::div_mod::lemma_div_is_ordered(x, y, 400);
}

/// A Gregorian year's days before a month, and the days of that month, stay
/// within the year.
proof fn lemma_days_before_gregorian_month_bounds(year: int, month: int)
    requires
        1 <= month <= 12,
    ensures
        0 <= days_before_gregorian_month(year, month),
        days_before_gregorian_month(year, month) + gregorian_month_length(year, month) <= (if is_gregorian_leap_year(year) { 366int } else { 365int }),
{
    reveal_with_fuel(days_before_gregorian_month, 13);
}

/// Every valid day lies between the first and the last handled day.
pub proof fn lemma_civil_day_number_range(d: CivilDate)
    requires
        valid_civil_date(d),
    ensures
        civil_day_number(CivilDate { year: MIN_CIVIL_YEAR, month: 1, day: 1 }) <= civil_day_number(d)
            <= civil_day_number(CivilDate { year: MAX_CIVIL_YEAR, month: 12, day: 31 }),
{
    lemma_days_before_gregorian_month_bounds(d.year as int, d.month as int);
    lemma_days_before_gregorian_month_bounds(MAX_CIVIL_YEAR as int, 12);
    lemma_days_before_civil_year_monotone(MIN_CIVIL_YEAR as int, d.year as int);
    lemma_days_before_civil_year_monotone(d.year as int, MAX_CIVIL_YEAR as int);
    reveal_with_fuel(days_before_gregorian_month, 13);
    assert(!is_gregorian_leap_year(MAX_CIVIL_YEAR as int));
}

/// Whether `later` is the day `days` days after `d`.
pub open spec fn days_later(d: CivilDate, days: int, later: CivilDate) -> bool {
    valid_civil_date(later) && civil_day_number(later) == civil_day_number(d) + days
}

/// The day of Naw-Rúz in Gregorian `year`: 21 March, or 20 March where the table
/// of irregularities says so for the Badí' year that begins then.
pub open spec fn naw_ruz_day_spec(year: int) -> CivilDate {
    let badi_year = year - YEAR_ZERO_IN_GREGORIAN;
    let day: u32 = if 0 <= badi_year <= 255 {
        match year_specifics_spec(badi_year as u8) {
            Some(s) => if s.naw_ruz_on_march_21 { 21 } else { 20 },
            None => 21,
        }
    } else {
        21
    };
    CivilDate { year: year as i32, month: 3, day }
}

/// Whether `r` is the last sunset at or before `at` as `sunset_on` gives it:
/// the sunset of the day of `at` if it is not later than `at`, else the sunset
/// of the day before.
pub open spec fn is_last_sunset<S: Fn(CivilDate) -> LocalInstant>(
    sunset_on: S,
    at: LocalInstant,
    r: LocalInstant,
) -> bool {
    exists|today: LocalInstant|
        #[trigger] sunset_on.ensures((at.date,), today) && ((today.timestamp <= at.timestamp && r
            == today) || (at.timestamp < today.timestamp && exists|prev: CivilDate|
            days_later(at.date, -1, prev) && #[trigger] sunset_on.ensures((prev,), r)))
}

/// Whether `r` is the next sunset after `at` as `sunset_on` gives it: the sunset
/// of the day of `at` if `at` is earlier, else the sunset of the day after.
pub open spec fn is_next_sunset<S: Fn(CivilDate) -> LocalInstant>(
    sunset_on: S,
    at: LocalInstant,
    r: LocalInstant,
) -> bool {
    exists|today: LocalInstant|
        #[trigger] sunset_on.ensures((at.date,), today) && ((at.timestamp < today.timestamp && r
            == today) || (today.timestamp <= at.timestamp && exists|next: CivilDate|
            days_later(at.date, 1, next) && #[trigger] sunset_on.ensures((next,), r)))
}

/// Whether `s` is the sunset that begins the Naw-Rúz of Gregorian `year`: the
/// last sunset at or before the midnight that starts that Naw-Rúz day.
pub open spec fn is_naw_ruz_sunset_of_year<S: Fn(CivilDate) -> LocalInstant, M: Fn(CivilDate) -> LocalInstant>(
    sunset_on: S,
    midnight_of: M,
    year: int,
    s: LocalInstant,
) -> bool {
    exists|midnight: LocalInstant|
        #[trigger] midnight_of.ensures((naw_ruz_day_spec(year),), midnight) && is_last_sunset(
            sunset_on,
            midnight,
            s,
        )
}

/// Whether `r` is the sunset that began the latest Naw-Rúz at or before `at`:
/// that of the local year of `at` where it is at or before `at`, else that of
/// the year before, which then is at or before `at`.
pub open spec fn is_last_naw_ruz_sunset<S: Fn(CivilDate) -> LocalInstant, M: Fn(CivilDate) -> LocalInstant>(
    sunset_on: S,
    midnight_of: M,
    at: LocalInstant,
    r: LocalInstant,
) -> bool {
    exists|first: LocalInstant|
        #[trigger] is_naw_ruz_sunset_of_year(sunset_on, midnight_of, at.date.year as int, first) && ((
        first.timestamp <= at.timestamp && r == first) || (at.timestamp < first.timestamp
            && r.timestamp <= at.timestamp && is_naw_ruz_sunset_of_year(
            sunset_on,
            midnight_of,
            at.date.year - 1,
            r,
        )))
}

/// Whether the supplied functions keep to the days they are given, and put the
/// sunset of every day before the midnight of every later day.
pub open spec fn supplied_days_in_order<S: Fn(CivilDate) -> LocalInstant, M: Fn(CivilDate) -> LocalInstant>(
    sunset_on: S,
    midnight_of: M,
) -> bool {
    &&& forall|d: CivilDate, m: LocalInstant|
        valid_civil_date(d) && #[trigger] midnight_of.ensures((d,), m) ==> m.date == d
    &&& forall|d: CivilDate, s: LocalInstant|
        valid_civil_date(d) && #[trigger] sunset_on.ensures((d,), s) ==> s.date == d
    &&& forall|d: CivilDate, e: CivilDate, s: LocalInstant, m: LocalInstant|
        valid_civil_date(d) && valid_civil_date(e) && civil_day_number(d) < civil_day_number(e)
            && #[trigger] sunset_on.ensures((d,), s) && #[trigger] midnight_of.ensures((e,), m)
            ==> s.timestamp < m.timestamp
}

/// Whether the sunset of every day before the local day of `at` comes at or
/// before `at`.
pub open spec fn sunsets_before<S: Fn(CivilDate) -> LocalInstant>(sunset_on: S, at: LocalInstant) -> bool {
    forall|d: CivilDate, s: LocalInstant|
        valid_civil_date(d) && civil_day_number(d) < civil_day_number(at.date)
            && #[trigger] sunset_on.ensures((d,), s) ==> s.timestamp <= at.timestamp
}

/// The Badí' (year, month, day) that begins `days` days after the Naw-Rúz sunset
/// that falls in Gregorian `gregorian_year`.
pub open spec fn date_after_naw_ruz_spec(gregorian_year: int, days: int) -> Result<
    (u8, BadiMonth, u16),
    BadiDateError,
> {
    let year = gregorian_year - YEAR_ZERO_IN_GREGORIAN;
    if !(1 <= year <= LAST_YEAR_SUPPORTED) || !(0 <= days < 0xffff) {
        Err(BadiDateError::DateNotSupported)
    } else {
        let md = month_and_day_spec(year as u8, days + 1);
        match check_date(year as u8, md.0, md.1) {
            Ok(_) => Ok((year as u8, md.0, md.1)),
            Err(e) => Err(e),
        }
    }
}

/// Relies on chrono's `NaiveDate::from_ymd_opt` (None for a day that does not
/// exist or lies outside chrono's years) and `Datelike::num_days_from_ce` (days
/// counted with 1 January of year 1 as day 1).
#[verifier::external_body]
fn day_number(d: CivilDate) -> (r: Option<i32>)
    ensures
        r is Some <==> valid_civil_date(d),
        r is Some ==> r->0 == civil_day_number(d),
{
    match chrono::NaiveDate::from_ymd_opt(d.year, d.month, d.day) {
        Some(date) => Some(chrono::Datelike::num_days_from_ce(&date)),
        None => None,
    }
}

/// Relies on chrono's `NaiveDate::from_num_days_from_ce_opt`: the day with the
/// given number (1 January of year 1 is day 1), None outside chrono's years.
#[verifier::external_body]
fn date_of_day_number(n: i32) -> (r: Option<CivilDate>)
    ensures
        r is Some ==> valid_civil_date(r->0) && civil_day_number(r->0) == n,
        civil_day_number(CivilDate { year: MIN_CIVIL_YEAR, month: 1, day: 1 }) <= n
            <= civil_day_number(CivilDate { year: MAX_CIVIL_YEAR, month: 12, day: 31 })
            ==> r is Some,
{
    match chrono::NaiveDate::from_num_days_from_ce_opt(n) {
        Some(date) => Some(
            CivilDate {
                year: chrono::Datelike::year(&date),
                month: chrono::Datelike::month(&date),
                day: chrono::Datelike::day(&date),
            },
        ),
        None => None,
    }
}

/// The days that the handled years cover have numbers that fit in an `i32`.
proof fn lemma_day_number_range()
    ensures
        i32::MIN <= civil_day_number(CivilDate { year: MIN_CIVIL_YEAR, month: 1, day: 1 }),
        civil_day_number(CivilDate { year: MAX_CIVIL_YEAR, month: 12, day: 31 }) <= i32::MAX,
{
    reveal_with_fuel(days_before_gregorian_month, 12);
}

/// The day `days` days after `d` (before, if negative); None where `d` is no
/// valid day or the result lies outside the handled years
pub fn shift_date(d: CivilDate, days: i32) -> (r: Option<CivilDate>)
    ensures
        r is Some ==> days_later(d, days as int, r->0),
        valid_civil_date(d) && civil_day_number(CivilDate { year: MIN_CIVIL_YEAR, month: 1, day: 1 })
            <= civil_day_number(d) + days <= civil_day_number(
            CivilDate { year: MAX_CIVIL_YEAR, month: 12, day: 31 },
        ) ==> r is Some,
{
    proof {
        lemma_day_number_range();
    }
    match day_number(d) {
        Some(n) => {
            let target: i64 = n as i64 + days as i64;
            if target < i32::MIN as i64 || target > i32::MAX as i64 {
                None
            } else {
                date_of_day_number(target as i32)
            }
        },
        None => None,
    }
}

/// The day of Naw-Rúz in the given Gregorian year
pub fn naw_ruz_day(year: i32) -> (r: CivilDate)
    ensures
        r == naw_ruz_day_spec(year as int),
{
    let badi_year: i64 = year as i64 - YEAR_ZERO_IN_GREGORIAN as i64;
    let day: u32 = if 0 <= badi_year && badi_year <= 255 {
        match year_specifics(badi_year as u8) {
            Some(specifics) => if specifics.naw_ruz_on_march_21 {
                21
            } else {
                20
            },
            None => 21,
        }
    } else {
        21
    };
    CivilDate { year, month: 3, day }
}

/// The last sunset at or before `at`; None where the day before cannot be formed
pub fn get_last_sunset<S: Fn(CivilDate) -> LocalInstant>(sunset_on: &S, at: LocalInstant) -> (r: Option<LocalInstant>)
    requires
        forall|d: CivilDate| #[trigger] sunset_on.requires((d,)),
    ensures
        r is Some ==> is_last_sunset(*sunset_on, at, r->0),
        r is Some ==> sunset_on.ensures((at.date,), r->0) || exists|d: CivilDate|
            #[trigger] days_later(at.date, -1, d) && sunset_on.ensures((d,), r->0),
        valid_civil_date(at.date) && civil_day_number(at.date) > civil_day_number(
            CivilDate { year: MIN_CIVIL_YEAR, month: 1, day: 1 },
        ) ==> r is Some,
{
    proof {
        if valid_civil_date(at.date) {
            lemma_civil_day_number_range(at.date);
        }
    }
    let sunset = sunset_on(at.date);
    if at.timestamp < sunset.timestamp {
        match shift_date(at.date, -1) {
            Some(previous) => {
                let r = sunset_on(previous);
                assert(is_last_sunset(*sunset_on, at, r));
                assert(sunset_on.ensures((previous,), r) && days_later(at.date, -1, previous));
                Some(r)
            },
            None => None,
        }
    } else {
        assert(sunset_on.ensures((at.date,), sunset));
        Some(sunset)
    }
}

/// The next sunset after `at` (at `at` itself, the one after); None where the day
/// after cannot be formed
pub fn get_next_sunset<S: Fn(CivilDate) -> LocalInstant>(sunset_on: &S, at: LocalInstant) -> (r: Option<LocalInstant>)
    requires
        forall|d: CivilDate| #[trigger] sunset_on.requires((d,)),
    ensures
        r is Some ==> is_next_sunset(*sunset_on, at, r->0),
        r is Some ==> sunset_on.ensures((at.date,), r->0) || exists|d: CivilDate|
            #[trigger] days_later(at.date, 1, d) && sunset_on.ensures((d,), r->0),
        valid_civil_date(at.date) && civil_day_number(at.date) < civil_day_number(
            CivilDate { year: MAX_CIVIL_YEAR, month: 12, day: 31 },
        ) ==> r is Some,
{
    proof {
        if valid_civil_date(at.date) {
            lemma_civil_day_number_range(at.date);
        }
    }
    let sunset = sunset_on(at.date);
    if at.timestamp >= sunset.timestamp {
        match shift_date(at.date, 1) {
            Some(next) => {
                let r = sunset_on(next);
                assert(is_next_sunset(*sunset_on, at, r));
                assert(sunset_on.ensures((next,), r) && days_later(at.date, 1, next));
                Some(r)
            },
            None => None,
        }
    } else {
        assert(sunset_on.ensures((at.date,), sunset));
        Some(sunset)
    }
}

/// The Naw-Rúz day of a handled year is a valid day, about 80 days into its year.
proof fn lemma_naw_ruz_day_number(year: int)
    requires
        MIN_CIVIL_YEAR <= year <= MAX_CIVIL_YEAR,
    ensures
        valid_civil_date(naw_ruz_day_spec(year)),
        days_before_civil_year(year) + 79 <= civil_day_number(naw_ruz_day_spec(year))
            <= days_before_civil_year(year) + 81,
        civil_day_number(CivilDate { year: MIN_CIVIL_YEAR, month: 1, day: 1 }) < civil_day_number(
            naw_ruz_day_spec(year),
        ),
{
    reveal_with_fuel(days_before_gregorian_month, 3);
    lemma_days_before_civil_year_monotone(MIN_CIVIL_YEAR as int, year);
}

/// A valid day lies after the start of its year.
proof fn lemma_day_number_in_year(d: CivilDate)
    requires
        valid_civil_date(d),
    ensures
        days_before_civil_year(d.year as int) < civil_day_number(d),
{
    lemma_days_before_gregorian_month_bounds(d.year as int, d.month as int);
}

/// The sunset that begins the Naw-Rúz of Gregorian `year`; None where the day
/// before that Naw-Rúz cannot be formed
fn naw_ruz_sunset_of_year<S: Fn(CivilDate) -> LocalInstant, M: Fn(CivilDate) -> LocalInstant>(
    sunset_on: &S,
    midnight_of: &M,
    year: i32,
) -> (r: Option<LocalInstant>)
    requires
        forall|d: CivilDate| #[trigger] sunset_on.requires((d,)),
        forall|d: CivilDate| #[trigger] midnight_of.requires((d,)),
    ensures
        r is Some ==> is_naw_ruz_sunset_of_year(*sunset_on, *midnight_of, year as int, r->0),
        supplied_days_in_order(*sunset_on, *midnight_of) && MIN_CIVIL_YEAR <= year <= MAX_CIVIL_YEAR
            ==> r is Some && valid_civil_date(r->0.date) && civil_day_number(r->0.date)
            <= civil_day_number(naw_ruz_day_spec(year as int)) && sunset_on.ensures(
            (r->0.date,),
            r->0,
        ),
{
    let naw_ruz = naw_ruz_day(year);
    let midnight = midnight_of(naw_ruz);
    proof {
        if MIN_CIVIL_YEAR <= year <= MAX_CIVIL_YEAR {
            lemma_naw_ruz_day_number(year as int);
        }
    }
    let r = get_last_sunset(sunset_on, midnight);
    proof {
        if r is Some {
            assert(is_naw_ruz_sunset_of_year(*sunset_on, *midnight_of, year as int, r->0));
        }
    }
    r
}

/// The sunset that began the latest Naw-Rúz at or before `at`: that of the
/// local year of `at` if it is at or before `at`, else that of the year before
/// if it is; None where neither is, or a day cannot be formed
pub fn get_sunset_of_last_naw_ruz<S: Fn(CivilDate) -> LocalInstant, M: Fn(CivilDate) -> LocalInstant>(
    sunset_on: &S,
    midnight_of: &M,
    at: LocalInstant,
) -> (r: Option<LocalInstant>)
    requires
        forall|d: CivilDate| #[trigger] sunset_on.requires((d,)),
        forall|d: CivilDate| #[trigger] midnight_of.requires((d,)),
    ensures
        r is Some ==> r->0.timestamp <= at.timestamp && is_last_naw_ruz_sunset(
            *sunset_on,
            *midnight_of,
            at,
            r->0,
        ),
        supplied_days_in_order(*sunset_on, *midnight_of) && sunsets_before(*sunset_on, at)
            && valid_civil_date(at.date) && MIN_CIVIL_YEAR < at.date.year ==> r is Some,
        r is Some && supplied_days_in_order(*sunset_on, *midnight_of) && valid_civil_date(at.date)
            ==> valid_civil_date(r->0.date) && civil_day_number(r->0.date) <= civil_day_number(
            naw_ruz_day_spec(at.date.year as int),
        ),
{
    let year = at.date.year;
    let first = match naw_ruz_sunset_of_year(sunset_on, midnight_of, year) {
        Some(sunset) => sunset,
        None => return None,
    };
    if first.timestamp <= at.timestamp {
        return Some(first);
    }
    if year <= MIN_CIVIL_YEAR {
        return None;
    }
    let second = match naw_ruz_sunset_of_year(sunset_on, midnight_of, year - 1) {
        Some(sunset) => sunset,
        None => return None,
    };
    proof {
        if supplied_days_in_order(*sunset_on, *midnight_of) && valid_civil_date(at.date) {
            lemma_naw_ruz_day_number(year - 1);
            lemma_naw_ruz_day_number(year as int);
            lemma_days_before_civil_year_monotone(year - 1, year as int);
            lemma_day_number_in_year(at.date);
        }
    }
    if second.timestamp <= at.timestamp {
        Some(second)
    } else {
        None
    }
}

/// The Badí' date that begins `days` days after the Naw-Rúz sunset that falls in
/// Gregorian `gregorian_year`
pub fn date_after_naw_ruz(gregorian_year: i32, days: i64) -> (r: Result<BadiDate, BadiDateError>)
    ensures
        match r {
            Ok(d) => d.inv() && date_after_naw_ruz_spec(gregorian_year as int, days as int) == Ok::<
                (u8, BadiMonth, u16),
                BadiDateError,
            >(d@),
            Err(e) => date_after_naw_ruz_spec(gregorian_year as int, days as int) == Err::<
                (u8, BadiMonth, u16),
                BadiDateError,
            >(e),
        },
{
    let year: i64 = gregorian_year as i64 - YEAR_ZERO_IN_GREGORIAN as i64;
    if !(1 <= year && year <= LAST_YEAR_SUPPORTED as i64) || !(0 <= days && days < 0xffff) {
        return Err(BadiDateError::DateNotSupported);
    }
    let (month, day) = match month_and_day_from_doy(year as u8, (days + 1) as u16) {
        Ok(month_and_day) => month_and_day,
        Err(err) => return Err(err),
    };
    BadiDate::new(year as u8, month, day)
}

/// Whether `r` is the midnight that starts the Badí' day `doy` of `year`: the
/// beginning of the local day `doy` days after the day of the Naw-Rúz sunset
/// found from 23 March of the Gregorian year in which `year` begins.
pub open spec fn is_midnight_of_day<S: Fn(CivilDate) -> LocalInstant, M: Fn(CivilDate) -> LocalInstant>(
    sunset_on: S,
    midnight_of: M,
    year: u8,
    doy: int,
    r: LocalInstant,
) -> bool {
    exists|seed: LocalInstant, naw_ruz: LocalInstant, day: CivilDate|
        #![trigger midnight_of.ensures((day,), r), midnight_of.ensures((CivilDate { year: (YEAR_ZERO_IN_GREGORIAN + year) as i32, month: 3, day: 23 },), seed), is_last_naw_ruz_sunset(sunset_on, midnight_of, seed, naw_ruz)]
        {
            &&& midnight_of.ensures(
                (CivilDate { year: (YEAR_ZERO_IN_GREGORIAN + year) as i32, month: 3, day: 23 },),
                seed,
            )
            &&& naw_ruz.timestamp <= seed.timestamp
            &&& is_last_naw_ruz_sunset(sunset_on, midnight_of, seed, naw_ruz)
            &&& days_later(naw_ruz.date, doy, day)
            &&& midnight_of.ensures((day,), r)
        }
}

/// The year, month, and day of a date result, or its error.
pub open spec fn date_result_view(r: Result<BadiDate, BadiDateError>) -> Result<(u8, BadiMonth, u16), BadiDateError> {
    match r {
        Ok(d) => Ok(d@),
        Err(e) => Err(e),
    }
}

impl BadiDate {
    /// The Badí' date of the local instant `at`: the day that began with the last
    /// sunset at or before `at`, counted from the sunset that began the last
    /// Naw-Rúz; [`BadiDateError::DateNotSupported`] outside the supported instants
    pub fn from_local<S: Fn(CivilDate) -> LocalInstant, M: Fn(CivilDate) -> LocalInstant>(
        at: LocalInstant,
        sunset_on: &S,
        midnight_of: &M,
    ) -> (r: Result<BadiDate, BadiDateError>)
        requires
            forall|d: CivilDate| #[trigger] sunset_on.requires((d,)),
            forall|d: CivilDate| #[trigger] midnight_of.requires((d,)),
        ensures
            !(FIRST_SUPPORTED_TIMESTAMP <= at.timestamp <= LAST_SUPPORTED_TIMESTAMP) ==> r
                == Err::<BadiDate, BadiDateError>(BadiDateError::DateNotSupported),
            r is Ok ==> r->Ok_0.inv() && exists|last: LocalInstant, naw_ruz: LocalInstant|
                {
                    &&& is_last_sunset(*sunset_on, at, last)
                    &&& is_last_naw_ruz_sunset(*sunset_on, *midnight_of, at, naw_ruz)
                    &&& naw_ruz.timestamp <= at.timestamp
                    &&& #[trigger] date_after_naw_ruz_spec(
                        naw_ruz.date.year as int,
                        civil_day_number(last.date) - civil_day_number(naw_ruz.date),
                    ) == Ok::<(u8, BadiMonth, u16), BadiDateError>(r->Ok_0@)
                },
            FIRST_SUPPORTED_TIMESTAMP <= at.timestamp <= LAST_SUPPORTED_TIMESTAMP && valid_civil_date(
                at.date,
            ) && MIN_CIVIL_YEAR < at.date.year && supplied_days_in_order(*sunset_on, *midnight_of)
                && sunsets_before(*sunset_on, at) ==> exists|last: LocalInstant, naw_ruz: LocalInstant|
                {
                    &&& is_last_sunset(*sunset_on, at, last)
                    &&& is_last_naw_ruz_sunset(*sunset_on, *midnight_of, at, naw_ruz)
                    &&& naw_ruz.timestamp <= at.timestamp
                    &&& #[trigger] date_after_naw_ruz_spec(
                        naw_ruz.date.year as int,
                        civil_day_number(last.date) - civil_day_number(naw_ruz.date),
                    ) == date_result_view(r)
                },
    {
        if at.timestamp < FIRST_SUPPORTED_TIMESTAMP || at.timestamp > LAST_SUPPORTED_TIMESTAMP {
            return Err(BadiDateError::DateNotSupported);
        }
        proof {
            if valid_civil_date(at.date) && MIN_CIVIL_YEAR < at.date.year {
                lemma_day_number_in_year(at.date);
                lemma_days_before_civil_year_monotone(MIN_CIVIL_YEAR as int, at.date.year as int);
            }
        }
        let last_sunset = match get_last_sunset(sunset_on, at) {
            Some(sunset) => sunset,
            None => return Err(BadiDateError::DateNotSupported),
        };
        let last_naw_ruz = match get_sunset_of_last_naw_ruz(sunset_on, midnight_of, at) {
            Some(sunset) => sunset,
            None => return Err(BadiDateError::DateNotSupported),
        };
        let (last_day, naw_ruz_day) = match (day_number(last_sunset.date), day_number(last_naw_ruz.date)) {
            (Some(l), Some(n)) => (l, n),
            _ => return Err(BadiDateError::DateNotSupported),
        };
        let r = date_after_naw_ruz(last_naw_ruz.date.year, last_day as i64 - naw_ruz_day as i64);
        proof {
            assert(date_after_naw_ruz_spec(
                last_naw_ruz.date.year as int,
                civil_day_number(last_sunset.date) - civil_day_number(last_naw_ruz.date),
            ) == date_result_view(r));
        }
        r
    }

    /// Midnight (local time) that starts this Badí' date; None where the
    /// supplied times do not allow the search
    pub fn midnight<S: Fn(CivilDate) -> LocalInstant, M: Fn(CivilDate) -> LocalInstant>(
        &self,
        sunset_on: &S,
        midnight_of: &M,
    ) -> (r: Option<LocalInstant>)
        requires
            self.inv(),
            forall|d: CivilDate| #[trigger] sunset_on.requires((d,)),
            forall|d: CivilDate| #[trigger] midnight_of.requires((d,)),
        ensures
            r is Some ==> is_midnight_of_day(
                *sunset_on,
                *midnight_of,
                self@.0,
                day_of_year_spec(self@.0, self@.1, self@.2),
                r->0,
            ),
            supplied_days_in_order(*sunset_on, *midnight_of) ==> r is Some && valid_civil_date(
                r->0.date,
            ) && civil_day_number(CivilDate { year: MIN_CIVIL_YEAR, month: 1, day: 1 })
                < civil_day_number(r->0.date) < civil_day_number(
                CivilDate { year: MAX_CIVIL_YEAR, month: 12, day: 31 },
            ),
    {
        proof {
            self.lemma_wf();
        }
        let seed_day = CivilDate { year: YEAR_ZERO_IN_GREGORIAN + self.year() as i32, month: 3, day: 23 };
        let seed = midnight_of(seed_day);
        proof {
            if supplied_days_in_order(*sunset_on, *midnight_of) {
                assert forall|d: CivilDate, s: LocalInstant|
                    valid_civil_date(d) && civil_day_number(d) < civil_day_number(seed.date)
                        && #[trigger] sunset_on.ensures((d,), s) implies s.timestamp
                        <= seed.timestamp by {
                    assert(midnight_of.ensures((seed_day,), seed));
                }
                lemma_naw_ruz_day_number(seed_day.year as int);
                lemma_days_before_civil_year_monotone(seed_day.year as int, MAX_CIVIL_YEAR as int);
                lemma_days_before_gregorian_month_bounds(MAX_CIVIL_YEAR as int, 12);
            }
        }
        let naw_ruz = match get_sunset_of_last_naw_ruz(sunset_on, midnight_of, seed) {
            Some(sunset) => sunset,
            None => return None,
        };
        proof {
            if supplied_days_in_order(*sunset_on, *midnight_of) {
                lemma_civil_day_number_range(naw_ruz.date);
            }
        }
        let day = match shift_date(naw_ruz.date, self.day_of_year() as i32) {
            Some(day) => day,
            None => return None,
        };
        let r = midnight_of(day);
        assert(is_midnight_of_day(
            *sunset_on,
            *midnight_of,
            self@.0,
            day_of_year_spec(self@.0, self@.1, self@.2),
            r,
        ));
        Some(r)
    }

    /// The sunset that begins this Badí' date (the last sunset at or before its midnight)
    pub fn start<S: Fn(CivilDate) -> LocalInstant, M: Fn(CivilDate) -> LocalInstant>(
        &self,
        sunset_on: &S,
        midnight_of: &M,
    ) -> (r: Option<LocalInstant>)
        requires
            self.inv(),
            forall|d: CivilDate| #[trigger] sunset_on.requires((d,)),
            forall|d: CivilDate| #[trigger] midnight_of.requires((d,)),
        ensures
            r is Some ==> exists|midnight: LocalInstant|
                is_midnight_of_day(
                    *sunset_on,
                    *midnight_of,
                    self@.0,
                    day_of_year_spec(self@.0, self@.1, self@.2),
                    midnight,
                ) && #[trigger] is_last_sunset(*sunset_on, midnight, r->0),
            supplied_days_in_order(*sunset_on, *midnight_of) ==> r is Some,
    {
        match self.midnight(sunset_on, midnight_of) {
            Some(midnight) => get_last_sunset(sunset_on, midnight),
            None => None,
        }
    }

    /// The sunset that ends this Badí' date (the next sunset after its midnight)
    pub fn end<S: Fn(CivilDate) -> LocalInstant, M: Fn(CivilDate) -> LocalInstant>(
        &self,
        sunset_on: &S,
        midnight_of: &M,
    ) -> (r: Option<LocalInstant>)
        requires
            self.inv(),
            forall|d: CivilDate| #[trigger] sunset_on.requires((d,)),
            forall|d: CivilDate| #[trigger] midnight_of.requires((d,)),
        ensures
            r is Some ==> exists|midnight: LocalInstant|
                is_midnight_of_day(
                    *sunset_on,
                    *midnight_of,
                    self@.0,
                    day_of_year_spec(self@.0, self@.1, self@.2),
                    midnight,
                ) && #[trigger] is_next_sunset(*sunset_on, midnight, r->0),
            supplied_days_in_order(*sunset_on, *midnight_of) ==> r is Some,
    {
        match self.midnight(sunset_on, midnight_of) {
            Some(midnight) => get_next_sunset(sunset_on, midnight),
            None => None,
        }
    }
}

/// Whether every instant on the local day of `at` comes at or after the sunset
/// of the day before and before the sunset of the day after, as `sunset_on`
/// gives them.
pub open spec fn sunsets_bracket_day<S: Fn(CivilDate) -> LocalInstant>(
    sunset_on: S,
    at: LocalInstant,
) -> bool {
    &&& forall|d: CivilDate, s: LocalInstant|
        days_later(at.date, -1, d) && #[trigger] sunset_on.ensures((d,), s) ==> s.timestamp
            <= at.timestamp
    &&& forall|d: CivilDate, s: LocalInstant|
        days_later(at.date, 1, d) && #[trigger] sunset_on.ensures((d,), s) ==> at.timestamp
            < s.timestamp
}

/// Where the sunsets bracket the day of `at`, the last sunset at or before `at`
/// and the next sunset after it enclose `at`: `last <= at < next`, so the
/// sunset that starts a day comes no later than the sunset that ends it.
pub proof fn lemma_sunsets_enclose_instant<S: Fn(CivilDate) -> LocalInstant>(
    sunset_on: S,
    at: LocalInstant,
    last: LocalInstant,
    next: LocalInstant,
)
    requires
        sunsets_bracket_day(sunset_on, at),
        is_last_sunset(sunset_on, at, last),
        is_next_sunset(sunset_on, at, next),
    ensures
        last.timestamp <= at.timestamp,
        at.timestamp < next.timestamp,
        last.timestamp < next.timestamp,
{
    let today = choose|today: LocalInstant|
        #[trigger] sunset_on.ensures((at.date,), today) && ((today.timestamp <= at.timestamp
            && last == today) || (at.timestamp < today.timestamp && exists|prev: CivilDate|
            days_later(at.date, -1, prev) && #[trigger] sunset_on.ensures((prev,), last)));
    if at.timestamp < today.timestamp {
        let prev = choose|prev: CivilDate|
            days_later(at.date, -1, prev) && #[trigger] sunset_on.ensures((prev,), last);
        assert(last.timestamp <= at.timestamp);
    }
    let today2 = choose|today: LocalInstant|
        #[trigger] sunset_on.ensures((at.date,), today) && ((at.timestamp < today.timestamp && next
            == today) || (today.timestamp <= at.timestamp && exists|n: CivilDate|
            days_later(at.date, 1, n) && #[trigger] sunset_on.ensures((n,), next)));
    if today2.timestamp <= at.timestamp {
        let n = choose|n: CivilDate| days_later(at.date, 1, n) && #[trigger] sunset_on.ensures((n,), next);
        assert(at.timestamp < next.timestamp);
    }
}

} // verus!
