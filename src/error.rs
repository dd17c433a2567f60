//! Errors reported when a Badí' date cannot be built.
use vstd::prelude::*;

use crate::badi_month::BadiMonth;

verus! {

/// Error returned from trying to construct a Badí' date with invalid parameters
#[derive(Clone, Copy, Debug, PartialEq, Eq, Structural)]
pub enum BadiDateError {
    /// The day number (second field) is not valid for the month (first field),
    /// which has the number of days given in the third field
    DayInvalid(BadiMonth, u16, u16),
    /// The month itself is invalid (an ordinal month outside 1..=19)
    MonthInvalid(BadiMonth),
    /// The date is not in the supported range
    DateNotSupported,
}

} // verus!
