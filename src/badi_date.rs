//! The Badí' date value and the interface that every kind of Badí' date offers.
use vstd::prelude::*;

use crate::badi_month::BadiMonth;
use crate::calendar::{
    absolute_day, check_date, day_of_year, day_of_year_spec, lemma_absolute_day_injective,
    lemma_day_of_year_round_trip, month_and_day_from_doy, month_and_day_spec, valid_date, validate,
    year_length, count_days_before_year, last_absolute_day, lemma_absolute_day_bounds,
    lemma_days_before_year_bounds,
};
use crate::error::BadiDateError;
use crate::statics::LAST_YEAR_SUPPORTED;

verus! {

/// The number of the day of `d`, counted from the first day of year 1.
pub open spec fn date_number<T: BadiDateLike>(d: T) -> int {
    absolute_day(d.spec_year(), d.spec_month(), d.spec_day())
}

/// Common interface of the kinds of Badí' date
pub trait BadiDateLike: Sized {
    /// Whether the value holds a valid date
    spec fn wf(&self) -> bool;

    /// The year of the date
    spec fn spec_year(&self) -> u8;

    /// The month of the date
    spec fn spec_month(&self) -> BadiMonth;

    /// The day of the month of the date
    spec fn spec_day(&self) -> u16;

    /// A well-formed value holds a valid date.
    proof fn lemma_wf(&self)
        requires
            self.wf(),
        ensures
            valid_date(self.spec_year(), self.spec_month(), self.spec_day()),
    ;

    /// The Bahá’í Era/Badí' year [1 - 221 supported] (year 1 starts 21 March 1844)
    fn year(&self) -> (r: u8)
        requires
            self.wf(),
        ensures
            r == self.spec_year(),
    ;

    /// The Badí' month [1 - 19] or Ayyám-i-Há
    fn month(&self) -> (r: BadiMonth)
        requires
            self.wf(),
        ensures
            r == self.spec_month(),
    ;

    /// The Badí' day [1 - number of days of the month]
    fn day(&self) -> (r: u16)
        requires
            self.wf(),
        ensures
            r == self.spec_day(),
    ;

    /// Whether the current date is a Feast day (the first day of an ordinal month)
    fn is_feast(&self) -> (r: bool)
        requires
            self.wf(),
        ensures
            r == (self.spec_day() == 1 && self.spec_month() != BadiMonth::AyyamIHa),
    {
        self.day() == 1 && self.month() != BadiMonth::AyyamIHa
    }

    /// The day of the current year (starting with 1 on Naw-Rúz)
    fn day_of_year(&self) -> (r: u16)
        requires
            self.wf(),
        ensures
            r == day_of_year_spec(self.spec_year(), self.spec_month(), self.spec_day()),
    ;

    /// Returns a new date with the given `year` (checks input for validity)
    fn with_year(&self, year: u8) -> (r: Result<Self, BadiDateError>)
        requires
            self.wf(),
        ensures
            match r {
                Ok(d) => {
                    &&& check_date(year, self.spec_month(), self.spec_day()) is Ok
                    &&& d.wf()
                    &&& d.spec_year() == year
                    &&& d.spec_month() == self.spec_month()
                    &&& d.spec_day() == self.spec_day()
                },
                Err(e) => check_date(year, self.spec_month(), self.spec_day()) == Err::<(), BadiDateError>(e),
            },
    ;

    /// Returns a new date with the given `month` (checks input for validity)
    fn with_month(&self, month: BadiMonth) -> (r: Result<Self, BadiDateError>)
        requires
            self.wf(),
        ensures
            match r {
                Ok(d) => {
                    &&& check_date(self.spec_year(), month, self.spec_day()) is Ok
                    &&& d.wf()
                    &&& d.spec_year() == self.spec_year()
                    &&& d.spec_month() == month
                    &&& d.spec_day() == self.spec_day()
                },
                Err(e) => check_date(self.spec_year(), month, self.spec_day()) == Err::<(), BadiDateError>(e),
            },
    ;

    /// Returns a new date with the given `day` (checks input for validity)
    fn with_day(&self, day: u16) -> (r: Result<Self, BadiDateError>)
        requires
            self.wf(),
        ensures
            match r {
                Ok(d) => {
                    &&& check_date(self.spec_year(), self.spec_month(), day) is Ok
                    &&& d.wf()
                    &&& d.spec_year() == self.spec_year()
                    &&& d.spec_month() == self.spec_month()
                    &&& d.spec_day() == day
                },
                Err(e) => check_date(self.spec_year(), self.spec_month(), day) == Err::<(), BadiDateError>(e),
            },
    ;

    /// Returns a new date with the given `year`, `month`, and `day` (checks input for validity)
    fn with_ymd(&self, year: u8, month: BadiMonth, day: u16) -> (r: Result<Self, BadiDateError>)
        requires
            self.wf(),
        ensures
            match r {
                Ok(d) => {
                    &&& check_date(year, month, day) is Ok
                    &&& d.wf()
                    &&& d.spec_year() == year
                    &&& d.spec_month() == month
                    &&& d.spec_day() == day
                },
                Err(e) => check_date(year, month, day) == Err::<(), BadiDateError>(e),
            },
    ;

    /// Returns a new date with the given `year` and **1-based** `day_of_year`
    /// (checks input for validity: a day of the year of 0 is day 0 of the first
    /// month, and gives [`BadiDateError::DayInvalid`])
    fn with_year_and_doy(&self, year: u8, day_of_year: u16) -> (r: Result<Self, BadiDateError>)
        requires
            self.wf(),
        ensures
            r is Ok <==> 1 <= year <= LAST_YEAR_SUPPORTED && 1 <= day_of_year <= year_length(year),
            r is Ok ==> day_of_year_spec(r->Ok_0.spec_year(), r->Ok_0.spec_month(), r->Ok_0.spec_day())
                == day_of_year,
            !(1 <= year <= LAST_YEAR_SUPPORTED) ==> r == Err::<Self, BadiDateError>(
                BadiDateError::DateNotSupported,
            ),
            1 <= year <= LAST_YEAR_SUPPORTED ==> {
                let md = month_and_day_spec(year, day_of_year as int);
                match r {
                    Ok(d) => {
                        &&& check_date(year, md.0, md.1) is Ok
                        &&& d.wf()
                        &&& d.spec_year() == year
                        &&& d.spec_month() == md.0
                        &&& d.spec_day() == md.1
                    },
                    Err(e) => check_date(year, md.0, md.1) == Err::<(), BadiDateError>(e),
                }
            },
    ;
}

/// A date in the Badí' (Bahá’í) calendar without time zone or location;
/// dates order by year, then month in the order of the year, then day
#[derive(Clone, Copy, Debug, PartialEq, Eq, PartialOrd, Structural)]
pub struct BadiDate {
    year: u8,
    month: BadiMonth,
    day: u16,
    day_of_year: u16,
}

impl View for BadiDate {
    type V = (u8, BadiMonth, u16);

    /// The year, month, and day of the date
    closed spec fn view(&self) -> (u8, BadiMonth, u16) {
        (self.year, self.month, self.day)
    }
}

impl BadiDate {
    /// The date is valid and its day of the year is the one that its year, month,
    /// and day give.
    pub closed spec fn inv(&self) -> bool {
        &&& valid_date(self.year, self.month, self.day)
        &&& self.day_of_year == day_of_year_spec(self.year, self.month, self.day)
    }

    /// Creates a new [`BadiDate`] given year, [`BadiMonth`], and day; checks for validity
    pub fn new(year: u8, month: BadiMonth, day: u16) -> (r: Result<Self, BadiDateError>)
        ensures
            match r {
                Ok(d) => {
                    &&& check_date(year, month, day) is Ok
                    &&& d.inv()
                    &&& d@ == (year, month, day)
                },
                Err(e) => check_date(year, month, day) == Err::<(), BadiDateError>(e),
            },
    {
        match validate(year, month, day) {
            Ok(_) => {},
            Err(err) => return Err(err),
        }
        let day_of_year = day_of_year(year, &month, day);
        Ok(BadiDate { year, month, day, day_of_year })
    }

    /// Number of this day counted from the first day of year 1, which is day 1
    pub fn days_from_epoch(&self) -> (r: u32)
        requires
            self.inv(),
        ensures
            r == date_number(*self),
    {
        proof {
            lemma_absolute_day_bounds(self.year, self.month, self.day);
            lemma_days_before_year_bounds(LAST_YEAR_SUPPORTED + 1);
        }
        count_days_before_year(self.year) + self.day_of_year as u32
    }

    /// Number of the last supported day, counted as in [`BadiDate::days_from_epoch`]
    pub fn last_day_number() -> (r: u32)
        ensures
            r == last_absolute_day(),
    {
        count_days_before_year(LAST_YEAR_SUPPORTED + 1)
    }

    /// Two well-formed dates with the same year, month, and day are equal.
    pub proof fn lemma_same_date(a: BadiDate, b: BadiDate)
        requires
            a.inv(),
            b.inv(),
            a@ == b@,
        ensures
            a == b,
    {
    }

    /// Two well-formed dates with the same day number are equal.
    pub proof fn lemma_same_date_number(a: BadiDate, b: BadiDate)
        requires
            a.inv(),
            b.inv(),
            absolute_day(a@.0, a@.1, a@.2) == absolute_day(b@.0, b@.1, b@.2),
        ensures
            a == b,
    {
        lemma_absolute_day_injective(a.year, a.month, a.day, b.year, b.month, b.day);
    }
}

impl BadiDateLike for BadiDate {
    open spec fn wf(&self) -> bool {
        self.inv()
    }

    open spec fn spec_year(&self) -> u8 {
        self@.0
    }

    open spec fn spec_month(&self) -> BadiMonth {
        self@.1
    }

    open spec fn spec_day(&self) -> u16 {
        self@.2
    }

    proof fn lemma_wf(&self) {
    }

    fn year(&self) -> (r: u8) {
        self.year
    }

    fn month(&self) -> (r: BadiMonth) {
        self.month
    }

    fn day(&self) -> (r: u16) {
        self.day
    }

    fn day_of_year(&self) -> (r: u16) {
        self.day_of_year
    }

    fn with_year(&self, year: u8) -> (r: Result<Self, BadiDateError>) {
        Self::new(year, self.month, self.day)
    }

    fn with_month(&self, month: BadiMonth) -> (r: Result<Self, BadiDateError>) {
        Self::new(self.year, month, self.day)
    }

    fn with_day(&self, day: u16) -> (r: Result<Self, BadiDateError>) {
        Self::new(self.year, self.month, day)
    }

    fn with_ymd(&self, year: u8, month: BadiMonth, day: u16) -> (r: Result<Self, BadiDateError>) {
        Self::new(year, month, day)
    }

    fn with_year_and_doy(&self, year: u8, day_of_year: u16) -> (r: Result<Self, BadiDateError>) {
        proof {
            if 1 <= year <= LAST_YEAR_SUPPORTED && 1 <= day_of_year <= year_length(year) {
                lemma_day_of_year_round_trip(year, day_of_year as int);
            }
        }
        let (month, day) = match month_and_day_from_doy(year, day_of_year) {
            Ok(result) => result,
            Err(err) => return Err(err),
        };
        Self::new(year, month, day)
    }
}

} // verus!
