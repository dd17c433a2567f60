//! The holy day of a date, and the holy days before and after it.
use vstd::prelude::*;

use crate::badi_date::{BadiDate, BadiDateLike};
use crate::bahai_holy_day::{
    first_holy_day_after, holy_day_on, is_holy_day, holy_day_search_result, holy_days_spec,
    last_holy_day_before, lemma_holy_days_increasing, next_holy_day_target,
    previous_holy_day_target, BahaiHolyDay,
};
use crate::calendar::day_of_year_spec;
use crate::error::BadiDateError;

verus! {

/// Provides the holy day of a date, and the previous and next holy days
pub trait HolyDayProviding: BadiDateLike {
    /// The holy day on this date, if it is one
    fn holy_day(&self) -> (r: Option<BahaiHolyDay>)
        requires
            self.wf(),
        ensures
            r == holy_day_on(
                self.spec_year(),
                day_of_year_spec(self.spec_year(), self.spec_month(), self.spec_day()),
            ),
    {
        let year = self.year();
        let doy = self.day_of_year();
        let days = BahaiHolyDay::holy_days_for_year(year);
        proof {
            lemma_holy_days_increasing(year);
        }
        let mut i: usize = 0;
        while i < days.len()
            invariant
                days@ == holy_days_spec(year),
                year == self.spec_year(),
                doy == day_of_year_spec(self.spec_year(), self.spec_month(), self.spec_day()),
                0 <= i <= 11,
                forall|j: int| 0 <= j < i ==> days@[j].0 != doy,
            decreases days.len() - i,
        {
            if days[i].0 == doy {
                proof {
                    let ghost witness = i as int;
                    assert(0 <= witness < 11 && holy_days_spec(year)[witness].0 == doy);
                    assert(is_holy_day(year, doy as int));
                    let k = choose|k: int| 0 <= k < 11 && holy_days_spec(year)[k].0 == doy as int;
                    assert(k == witness);
                    assert(holy_day_on(year, doy as int) == Some(days@[witness].1));
                }
                return Some(days[i].1);
            }
            i = i + 1;
        }
        None
    }

    /// The next holy day after this date, if within the supported date range
    fn next_holy_day(&self) -> (r: Result<Self, BadiDateError>)
        requires
            self.wf(),
        ensures
            holy_day_search_result(
                r,
                next_holy_day_target(
                    self.spec_year(),
                    day_of_year_spec(self.spec_year(), self.spec_month(), self.spec_day()),
                ),
            ),
    {
        let year = self.year();
        proof {
            self.lemma_wf();
        }
        match first_holy_day_after(year, self.day_of_year()) {
            Some(day_of_year) => self.with_year_and_doy(year, day_of_year),
            None => match first_holy_day_after(year + 1, 0) {
                Some(day_of_year) => self.with_year_and_doy(year + 1, day_of_year),
                None => Err(BadiDateError::DateNotSupported),
            },
        }
    }

    /// The previous holy day before this date, if within the supported date range
    fn previous_holy_day(&self) -> (r: Result<Self, BadiDateError>)
        requires
            self.wf(),
        ensures
            holy_day_search_result(
                r,
                previous_holy_day_target(
                    self.spec_year(),
                    day_of_year_spec(self.spec_year(), self.spec_month(), self.spec_day()),
                ),
            ),
    {
        let year = self.year();
        proof {
            self.lemma_wf();
        }
        match last_holy_day_before(year, self.day_of_year()) {
            Some(day_of_year) => self.with_year_and_doy(year, day_of_year),
            None => match last_holy_day_before(year - 1, 366) {
                Some(day_of_year) => self.with_year_and_doy(year - 1, day_of_year),
                None => Err(BadiDateError::DateNotSupported),
            },
        }
    }
}

impl HolyDayProviding for BadiDate {

}

} // verus!
