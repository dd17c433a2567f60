//! The nineteen months of the Badí' year and the intercalary days of Ayyám-i-Há.
use vstd::prelude::*;

use crate::calendar::{get_number_of_ayyamiha_days, ayyamiha_days_spec};
use crate::error::BadiDateError;

verus! {

/// Represents one of the 19 Bahá’í months or Ayyám-i-Há
#[derive(Clone, Copy, Debug, PartialEq, Eq, Structural)]
pub enum BadiMonth {
    /// One of the 19 Badí' months (parameter is the 1-based month number)
    Month(u8),
    /// The intercalary days of Ayyám-i-Há
    AyyamIHa,
}

/// Whether `m` names a month that exists: an ordinal month in 1..=19, or Ayyám-i-Há.
pub open spec fn valid_month(m: BadiMonth) -> bool {
    match m {
        BadiMonth::Month(n) => 1 <= n <= 19,
        BadiMonth::AyyamIHa => true,
    }
}

/// Position of a month within the year: the ordinal months 1..=18 at their
/// number, Ayyám-i-Há at 19, and the ordinal months from 19 on one place later.
pub open spec fn month_position(m: BadiMonth) -> int {
    match m {
        BadiMonth::Month(n) => if n < 19 { n as int } else { n + 1 },
        BadiMonth::AyyamIHa => 19,
    }
}

/// How `a` compares to `b` in the order of the year.
pub open spec fn month_cmp_spec(a: BadiMonth, b: BadiMonth) -> core::cmp::Ordering {
    if month_position(a) < month_position(b) {
        core::cmp::Ordering::Less
    } else if month_position(a) == month_position(b) {
        core::cmp::Ordering::Equal
    } else {
        core::cmp::Ordering::Greater
    }
}

/// The month that follows `m` in the year, if any.
pub open spec fn next_month_spec(m: BadiMonth) -> Option<BadiMonth> {
    match m {
        BadiMonth::Month(n) => if n < 18 {
            Some(BadiMonth::Month((n + 1) as u8))
        } else if n == 18 {
            Some(BadiMonth::AyyamIHa)
        } else {
            None
        },
        BadiMonth::AyyamIHa => Some(BadiMonth::Month(19)),
    }
}

/// The month that precedes `m` in the year, if any.
pub open spec fn previous_month_spec(m: BadiMonth) -> Option<BadiMonth> {
    match m {
        BadiMonth::Month(n) => if n == 1 {
            None
        } else if n == 19 {
            Some(BadiMonth::AyyamIHa)
        } else if n < 19 {
            Some(BadiMonth::Month((n - 1) as u8))
        } else {
            None
        },
        BadiMonth::AyyamIHa => Some(BadiMonth::Month(18)),
    }
}

/// Number of days of month `m` in Badí' year `year`.
pub open spec fn days_in_month(m: BadiMonth, year: u8) -> u16 {
    match m {
        BadiMonth::Month(_) => 19,
        BadiMonth::AyyamIHa => ayyamiha_days_spec(year),
    }
}

impl PartialOrd for BadiMonth {
    fn partial_cmp(&self, other: &BadiMonth) -> (r: Option<core::cmp::Ordering>) {
        let (a, b) = (self.position(), other.position());
        let ord = if a < b {
            core::cmp::Ordering::Less
        } else if a == b {
            core::cmp::Ordering::Equal
        } else {
            core::cmp::Ordering::Greater
        };
        Some(ord)
    }
}

impl vstd::std_specs::cmp::PartialOrdSpecImpl for BadiMonth {
    open spec fn obeys_partial_cmp_spec() -> bool {
        true
    }

    open spec fn partial_cmp_spec(&self, other: &BadiMonth) -> Option<core::cmp::Ordering> {
        Some(month_cmp_spec(*self, *other))
    }
}

impl BadiMonth {
    /// Position of the month within the year (see [`month_position`])
    fn position(&self) -> (r: u16)
        ensures
            r == month_position(*self),
    {
        match *self {
            BadiMonth::Month(n) => if n < 19 {
                n as u16
            } else {
                n as u16 + 1
            },
            BadiMonth::AyyamIHa => 19,
        }
    }

    /// First month of the year (Bahá)
    pub fn first() -> (r: Self)
        ensures
            r == BadiMonth::Month(1),
    {
        BadiMonth::Month(1)
    }

    /// Last month of the year (ʻAláʼ)
    pub fn last() -> (r: Self)
        ensures
            r == BadiMonth::Month(19),
    {
        BadiMonth::Month(19)
    }

    /// Next month of the year (None if `self` is ʻAláʼ)
    pub fn next(&self) -> (r: Option<Self>)
        ensures
            r == next_month_spec(*self),
    {
        match *self {
            BadiMonth::Month(month) => if month < 18 {
                Some(BadiMonth::Month(month + 1))
            } else if month == 18 {
                Some(BadiMonth::AyyamIHa)
            } else {
                None
            },
            BadiMonth::AyyamIHa => Some(BadiMonth::Month(19)),
        }
    }

    /// Previous month of the year (None if `self` is Bahá)
    pub fn previous(&self) -> (r: Option<Self>)
        requires
            *self != BadiMonth::Month(0),
        ensures
            r == previous_month_spec(*self),
    {
        match *self {
            BadiMonth::Month(month) => {
                if month == 1 {
                    None
                } else if month == 19 {
                    Some(BadiMonth::AyyamIHa)
                } else if month < 19 {
                    Some(BadiMonth::Month(month - 1))
                } else {
                    None
                }
            },
            BadiMonth::AyyamIHa => Some(BadiMonth::Month(18)),
        }
    }

    /// Return `self` if the month is valid, otherwise [`BadiDateError::MonthInvalid`]
    pub fn validate(&self) -> (r: Result<Self, BadiDateError>)
        ensures
            valid_month(*self) ==> r == Ok::<BadiMonth, BadiDateError>(*self),
            !valid_month(*self) ==> r == Err::<BadiMonth, BadiDateError>(
                BadiDateError::MonthInvalid(*self),
            ),
    {
        let ok = match *self {
            BadiMonth::Month(month) => 1 <= month && month <= 19,
            BadiMonth::AyyamIHa => true,
        };
        if ok {
            Ok(*self)
        } else {
            Err(BadiDateError::MonthInvalid(*self))
        }
    }

    /// Max number of days in the month (the year decides the days of Ayyám-i-Há)
    pub fn number_of_days(&self, year: u8) -> (r: u16)
        ensures
            r == days_in_month(*self, year),
    {
        match *self {
            BadiMonth::Month(_) => 19,
            BadiMonth::AyyamIHa => get_number_of_ayyamiha_days(year),
        }
    }
}

} // verus!
