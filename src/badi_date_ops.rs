//! Date arithmetic on any kind of Badí' date: days, months, Feasts, and Naw-Rúz.
use vstd::prelude::*;

use crate::badi_date::{date_number, BadiDate, BadiDateLike};
use crate::badi_month::{days_in_month, next_month_spec, previous_month_spec, valid_month, BadiMonth};
use crate::calendar::{
    day_of_year_spec, lemma_absolute_day_bounds, lemma_days_before_year_bounds,
    lemma_step_backward, lemma_step_forward, last_absolute_day, valid_date, absolute_day,
};
use crate::statics::LAST_YEAR_SUPPORTED;

verus! {

/// Determines the resulting day when adding or subtracting [`BadiMonth`]s
#[derive(Clone, Copy, Debug, PartialEq, Eq, Structural)]
pub enum DayChangeAction {
    /// Take the minimum of the current day and the number of days in the **resulting** month
    Keep,
    /// Change to the first day of the **resulting** month
    FirstInMonth,
    /// Change to the last day of the **resulting** month
    LastInMonth,
}

impl Default for DayChangeAction {
    fn default() -> (r: Self)
        ensures
            r == DayChangeAction::Keep,
    {
        DayChangeAction::Keep
    }
}

/// The (year, month) one month after (year, month); with `skip_ayyamiha`,
/// Ayyám-i-Há is passed over.
pub open spec fn month_after(year: int, month: BadiMonth, skip_ayyamiha: bool) -> (int, BadiMonth) {
    match next_month_spec(month) {
        Some(m) => if skip_ayyamiha && m == BadiMonth::AyyamIHa {
            (year, BadiMonth::Month(19))
        } else {
            (year, m)
        },
        None => (year + 1, BadiMonth::Month(1)),
    }
}

/// The (year, month) one month before (year, month); with `skip_ayyamiha`,
/// Ayyám-i-Há is passed over.
pub open spec fn month_before(year: int, month: BadiMonth, skip_ayyamiha: bool) -> (int, BadiMonth) {
    match previous_month_spec(month) {
        Some(m) => if skip_ayyamiha && m == BadiMonth::AyyamIHa {
            (year, BadiMonth::Month(18))
        } else {
            (year, m)
        },
        None => (year - 1, BadiMonth::Month(19)),
    }
}

/// The day kept on arriving in `month` of `year` with day `day`.
pub open spec fn resolved_day(day: int, month: BadiMonth, year: int, action: DayChangeAction) -> int {
    match action {
        DayChangeAction::Keep => if day <= days_in_month(month, year as u8) {
            day
        } else {
            days_in_month(month, year as u8) as int
        },
        DayChangeAction::FirstInMonth => 1,
        DayChangeAction::LastInMonth => days_in_month(month, year as u8) as int,
    }
}

/// The (year, month, day) reached after `n` steps of one month, forward or
/// backward, resolving the day after each step.
pub open spec fn months_added(
    year: int,
    month: BadiMonth,
    day: int,
    n: nat,
    forward: bool,
    action: DayChangeAction,
    skip_ayyamiha: bool,
) -> (int, BadiMonth, int)
    decreases n,
{
    if n == 0 {
        (year, month, day)
    } else {
        let prev = months_added(year, month, day, (n - 1) as nat, forward, action, skip_ayyamiha);
        let ym = if forward {
            month_after(prev.0, prev.1, skip_ayyamiha)
        } else {
            month_before(prev.0, prev.1, skip_ayyamiha)
        };
        (ym.0, ym.1, resolved_day(prev.2, ym.1, ym.0, action))
    }
}

/// The (year, month) reached after `n` steps of one month, forward or backward.
pub open spec fn months_added_ym(
    year: int,
    month: BadiMonth,
    n: nat,
    forward: bool,
    skip_ayyamiha: bool,
) -> (int, BadiMonth)
    decreases n,
{
    if n == 0 {
        (year, month)
    } else {
        let prev = months_added_ym(year, month, (n - 1) as nat, forward, skip_ayyamiha);
        if forward {
            month_after(prev.0, prev.1, skip_ayyamiha)
        } else {
            month_before(prev.0, prev.1, skip_ayyamiha)
        }
    }
}

/// The year and month that stepping months reaches do not depend on the day or
/// on how the day is resolved.
pub proof fn lemma_months_added_ym(
    year: int,
    month: BadiMonth,
    day: int,
    n: nat,
    forward: bool,
    action: DayChangeAction,
    skip_ayyamiha: bool,
)
    ensures
        months_added(year, month, day, n, forward, action, skip_ayyamiha).0 == months_added_ym(
            year,
            month,
            n,
            forward,
            skip_ayyamiha,
        ).0,
        months_added(year, month, day, n, forward, action, skip_ayyamiha).1 == months_added_ym(
            year,
            month,
            n,
            forward,
            skip_ayyamiha,
        ).1,
    decreases n,
{
    if n > 0 {
        lemma_months_added_ym(year, month, day, (n - 1) as nat, forward, action, skip_ayyamiha);
    }
}

/// Where `add_months(months, action, skip_ayyamiha)` lands from `d`.
pub open spec fn shifted_by_months<T: BadiDateLike>(
    d: T,
    months: int,
    action: DayChangeAction,
    skip_ayyamiha: bool,
) -> (int, BadiMonth, int) {
    months_added(
        d.spec_year() as int,
        d.spec_month(),
        d.spec_day() as int,
        (if months < 0 { -months } else { months }) as nat,
        months > 0,
        action,
        skip_ayyamiha,
    )
}

/// Whether `d` is well formed and holds (year, month, day).
pub open spec fn holds_date<T: BadiDateLike>(d: T, ymd: (int, BadiMonth, int)) -> bool {
    &&& d.wf()
    &&& d.spec_year() == ymd.0
    &&& d.spec_month() == ymd.1
    &&& d.spec_day() == ymd.2
}

/// Stepping months forward never lowers the year, and stepping backward never
/// raises it.
pub proof fn lemma_months_added_monotone(
    year: int,
    month: BadiMonth,
    day: int,
    i: nat,
    n: nat,
    forward: bool,
    action: DayChangeAction,
    skip_ayyamiha: bool,
)
    requires
        i <= n,
    ensures
        ({
            let a = months_added(year, month, day, i, forward, action, skip_ayyamiha);
            let b = months_added(year, month, day, n, forward, action, skip_ayyamiha);
            &&& forward ==> year <= a.0 <= b.0
            &&& !forward ==> b.0 <= a.0 <= year
        }),
    decreases n,
{
    if n > 0 {
        if i < n {
            lemma_months_added_monotone(year, month, day, i, (n - 1) as nat, forward, action, skip_ayyamiha);
        } else {
            lemma_months_added_monotone(year, month, day, (n - 1) as nat, (n - 1) as nat, forward, action, skip_ayyamiha);
        }
    }
}

/// While the year stays supported, stepping months keeps the date valid.
pub proof fn lemma_months_added_valid(
    year: int,
    month: BadiMonth,
    day: int,
    i: nat,
    forward: bool,
    action: DayChangeAction,
    skip_ayyamiha: bool,
)
    requires
        1 <= year <= LAST_YEAR_SUPPORTED,
        valid_date(year as u8, month, day as u16),
        1 <= day <= 19,
        1 <= months_added(year, month, day, i, forward, action, skip_ayyamiha).0
            <= LAST_YEAR_SUPPORTED,
    ensures
        ({
            let a = months_added(year, month, day, i, forward, action, skip_ayyamiha);
            &&& valid_date(a.0 as u8, a.1, a.2 as u16)
            &&& 1 <= a.2 <= 19
        }),
    decreases i,
{
    if i > 0 {
        lemma_months_added_monotone(year, month, day, (i - 1) as nat, i, forward, action, skip_ayyamiha);
        lemma_months_added_valid(year, month, day, (i - 1) as nat, forward, action, skip_ayyamiha);
    }
}

/// Provides methods that return a modified copy of a Badí' date
pub trait BadiDateOps: BadiDateLike {
    /// Returns the date of the next Feast (day 1 of the next month; **skips** Ayyám-i-Há)
    fn next_feast(&self) -> (r: Self)
        requires
            self.wf(),
            1 <= shifted_by_months(*self, 1, DayChangeAction::FirstInMonth, true).0
                <= LAST_YEAR_SUPPORTED,
        ensures
            holds_date(r, shifted_by_months(*self, 1, DayChangeAction::FirstInMonth, true)),
    {
        self.add_months(1, DayChangeAction::FirstInMonth, true)
    }

    /// Returns the date of the previous Feast (day 1 of the current month if the
    /// current day is later, else of the previous month; **skips** Ayyám-i-Há)
    fn previous_feast(&self) -> (r: Self)
        requires
            self.wf(),
            self.spec_day() == 1 ==> 1 <= shifted_by_months(
                *self,
                -1,
                DayChangeAction::FirstInMonth,
                true,
            ).0 <= LAST_YEAR_SUPPORTED,
        ensures
            self.spec_day() == 1 ==> holds_date(
                r,
                shifted_by_months(*self, -1, DayChangeAction::FirstInMonth, true),
            ),
            self.spec_day() != 1 ==> holds_date(
                r,
                (self.spec_year() as int, self.spec_month(), 1),
            ),
    {
        if self.day() == 1 {
            self.add_months(-1, DayChangeAction::FirstInMonth, true)
        } else {
            proof {
                self.lemma_wf();
            }
            self.with_day(1).unwrap()
        }
    }

    /// Returns Naw-Rúz (day 1 of `BadiMonth::Month(1)`) of the next year
    fn next_naw_ruz(&self) -> (r: Self)
        requires
            self.wf(),
            self.spec_year() < LAST_YEAR_SUPPORTED,
        ensures
            holds_date(r, (self.spec_year() + 1, BadiMonth::Month(1), 1)),
    {
        proof {
            self.lemma_wf();
        }
        self.with_ymd(self.year() + 1, BadiMonth::Month(1), 1).unwrap()
    }

    /// Returns the latest Naw-Rúz before this date (this date itself is kept
    /// out: on Naw-Rúz it returns the Naw-Rúz of the previous year)
    fn previous_naw_ruz(&self) -> (r: Self)
        requires
            self.wf(),
            !(self.spec_year() == 1 && day_of_year_spec(
                self.spec_year(),
                self.spec_month(),
                self.spec_day(),
            ) == 1),
        ensures
            day_of_year_spec(self.spec_year(), self.spec_month(), self.spec_day()) > 1
                ==> holds_date(r, (self.spec_year() as int, BadiMonth::Month(1), 1)),
            day_of_year_spec(self.spec_year(), self.spec_month(), self.spec_day()) == 1
                ==> holds_date(r, (self.spec_year() - 1, BadiMonth::Month(1), 1)),
    {
        proof {
            self.lemma_wf();
            lemma_absolute_day_bounds(self.spec_year(), self.spec_month(), self.spec_day());
        }
        let year = if self.day_of_year() > 1 {
            self.year()
        } else {
            self.year() - 1
        };
        self.with_ymd(year, BadiMonth::Month(1), 1).unwrap()
    }

    /// Returns the date `days` days later (earlier if negative), rolling over
    /// months and years; Ayyám-i-Há counts like any other month
    fn add_days(&self, days: i32) -> (r: Self)
        requires
            self.wf(),
            1 <= date_number(*self) + days <= last_absolute_day(),
        ensures
            r.wf(),
            date_number(r) == date_number(*self) + days,
    {
        proof {
            self.lemma_wf();
            lemma_absolute_day_bounds(self.spec_year(), self.spec_month(), self.spec_day());
            lemma_days_before_year_bounds(LAST_YEAR_SUPPORTED + 1);
        }
        let positive = days > 0;
        let abs_days: i32 = if days < 0 {
            -days
        } else {
            days
        };
        let mut day = self.day();
        let mut month = self.month();
        let mut year = self.year();
        let ghost start = date_number(*self);
        let mut i: i32 = 0;
        while i < abs_days
            invariant
                0 <= i <= abs_days,
                abs_days as int == (if days < 0 { -days } else { days as int }),
                positive == (days > 0),
                valid_date(year, month, day),
                absolute_day(year, month, day) == start + (if positive { i as int } else { -i }),
                1 <= start + days <= last_absolute_day(),
            decreases abs_days - i,
        {
            proof {
                lemma_step_forward(year, month, day);
                lemma_step_backward(year, month, day);
                lemma_absolute_day_bounds(year, month, day);
            }
            if positive {
                day = day + 1;
                let max_day = month.number_of_days(year);
                if day > max_day {
                    day = 1;
                    match month.next() {
                        Some(m) => month = m,
                        None => {
                            month = BadiMonth::first();
                            year = year + 1;
                        },
                    }
                }
            } else {
                day = day - 1;
                if day < 1 {
                    match month.previous() {
                        Some(m) => {
                            month = m;
                            day = m.number_of_days(year);
                        },
                        None => {
                            month = BadiMonth::last();
                            year = year - 1;
                            day = 19;
                        },
                    }
                }
            }
            i = i + 1;
        }
        self.with_ymd(year, month, day).unwrap()
    }

    /// Adds `months` months (subtracts if negative)
    /// * `day_change_action` - determines the resulting day (see [`DayChangeAction`])
    /// * `skip_ayyamiha` - whether to skip over the "month" of Ayyám-i-Há
    fn add_months(&self, months: i32, day_change_action: DayChangeAction, skip_ayyamiha: bool) -> (r: Self)
        requires
            self.wf(),
            months > i32::MIN,
            1 <= shifted_by_months(*self, months as int, day_change_action, skip_ayyamiha).0
                <= LAST_YEAR_SUPPORTED,
        ensures
            holds_date(r, shifted_by_months(*self, months as int, day_change_action, skip_ayyamiha)),
    {
        proof {
            self.lemma_wf();
        }
        let abs_months: i32 = if months < 0 {
            -months
        } else {
            months
        };
        let positive = months > 0;
        let mut day = self.day();
        let mut month = self.month();
        let mut year = self.year();
        let ghost (y0, m0, d0) = (year as int, month, day as int);
        let mut i: i32 = 0;
        while i < abs_months
            invariant
                0 <= i <= abs_months,
                abs_months as int == (if months < 0 { -months } else { months as int }),
                positive == (months > 0),
                valid_date(y0 as u8, m0, d0 as u16),
                1 <= d0 <= 19,
                y0 == self.spec_year(),
                1 <= y0 <= LAST_YEAR_SUPPORTED,
                1 <= months_added(y0, m0, d0, abs_months as nat, positive, day_change_action, skip_ayyamiha).0
                    <= LAST_YEAR_SUPPORTED,
                (year as int, month, day as int) == months_added(
                    y0,
                    m0,
                    d0,
                    i as nat,
                    positive,
                    day_change_action,
                    skip_ayyamiha,
                ),
            decreases abs_months - i,
        {
            proof {
                lemma_months_added_monotone(y0, m0, d0, i as nat, abs_months as nat, positive, day_change_action, skip_ayyamiha);
                lemma_months_added_monotone(y0, m0, d0, (i + 1) as nat, abs_months as nat, positive, day_change_action, skip_ayyamiha);
                lemma_months_added_valid(y0, m0, d0, i as nat, positive, day_change_action, skip_ayyamiha);
                lemma_months_added_valid(y0, m0, d0, (i + 1) as nat, positive, day_change_action, skip_ayyamiha);
            }
            if positive {
                match month.next() {
                    Some(m) => {
                        if skip_ayyamiha && m == BadiMonth::AyyamIHa {
                            month = BadiMonth::Month(19);
                        } else {
                            month = m;
                        }
                    },
                    None => {
                        month = BadiMonth::first();
                        year = year + 1;
                    },
                }
            } else {
                match month.previous() {
                    Some(m) => {
                        if skip_ayyamiha && m == BadiMonth::AyyamIHa {
                            month = BadiMonth::Month(18);
                        } else {
                            month = m;
                        }
                    },
                    None => {
                        month = BadiMonth::last();
                        year = year - 1;
                    },
                }
            }
            match day_change_action {
                DayChangeAction::Keep => {
                    let max_day = month.number_of_days(year);
                    if day > max_day {
                        day = max_day;
                    }
                },
                DayChangeAction::FirstInMonth => day = 1,
                DayChangeAction::LastInMonth => day = month.number_of_days(year),
            }
            i = i + 1;
        }
        proof {
            lemma_months_added_valid(y0, m0, d0, i as nat, positive, day_change_action, skip_ayyamiha);
        }
        self.with_ymd(year, month, day).unwrap()
    }

    /// The year that `add_months(months, _, skip_ayyamiha)` reaches, whether
    /// supported or not (whatever the day and the way it is resolved)
    fn year_after_months(&self, months: i32, skip_ayyamiha: bool) -> (r: i64)
        requires
            self.wf(),
            months > i32::MIN,
        ensures
            forall|action: DayChangeAction|
                r == #[trigger] shifted_by_months(*self, months as int, action, skip_ayyamiha).0,
    {
        proof {
            self.lemma_wf();
        }
        let abs_months: i32 = if months < 0 {
            -months
        } else {
            months
        };
        let positive = months > 0;
        let mut month = self.month();
        let mut year: i64 = self.year() as i64;
        let ghost (y0, m0) = (year as int, month);
        let mut i: i32 = 0;
        while i < abs_months
            invariant
                0 <= i <= abs_months,
                positive == (months > 0),
                valid_month(month),
                y0 - i <= year <= y0 + i,
                0 <= y0 <= 255,
                (year as int, month) == months_added_ym(y0, m0, i as nat, positive, skip_ayyamiha),
            decreases abs_months - i,
        {
            if positive {
                match month.next() {
                    Some(m) => {
                        if skip_ayyamiha && m == BadiMonth::AyyamIHa {
                            month = BadiMonth::Month(19);
                        } else {
                            month = m;
                        }
                    },
                    None => {
                        month = BadiMonth::first();
                        year = year + 1;
                    },
                }
            } else {
                match month.previous() {
                    Some(m) => {
                        if skip_ayyamiha && m == BadiMonth::AyyamIHa {
                            month = BadiMonth::Month(18);
                        } else {
                            month = m;
                        }
                    },
                    None => {
                        month = BadiMonth::last();
                        year = year - 1;
                    },
                }
            }
            i = i + 1;
        }
        proof {
            assert forall|action: DayChangeAction|
                year == #[trigger] shifted_by_months(*self, months as int, action, skip_ayyamiha).0 by {
                lemma_months_added_ym(
                    y0,
                    m0,
                    self.spec_day() as int,
                    abs_months as nat,
                    positive,
                    action,
                    skip_ayyamiha,
                );
            }
        }
        year
    }

    /// Goes to the previous month, keeping the day where the month has it
    fn previous_month(&self, skip_ayyamiha: bool) -> (r: Self)
        requires
            self.wf(),
            1 <= shifted_by_months(*self, -1, DayChangeAction::Keep, skip_ayyamiha).0
                <= LAST_YEAR_SUPPORTED,
        ensures
            holds_date(r, shifted_by_months(*self, -1, DayChangeAction::Keep, skip_ayyamiha)),
    {
        self.add_months(-1, DayChangeAction::Keep, skip_ayyamiha)
    }

    /// Goes to the next month, keeping the day where the month has it
    fn next_month(&self, skip_ayyamiha: bool) -> (r: Self)
        requires
            self.wf(),
            1 <= shifted_by_months(*self, 1, DayChangeAction::Keep, skip_ayyamiha).0
                <= LAST_YEAR_SUPPORTED,
        ensures
            holds_date(r, shifted_by_months(*self, 1, DayChangeAction::Keep, skip_ayyamiha)),
    {
        self.add_months(1, DayChangeAction::Keep, skip_ayyamiha)
    }

    /// Goes to the previous day
    fn previous_day(&self) -> (r: Self)
        requires
            self.wf(),
            date_number(*self) > 1,
        ensures
            r.wf(),
            date_number(r) == date_number(*self) - 1,
    {
        proof {
            self.lemma_wf();
            lemma_absolute_day_bounds(self.spec_year(), self.spec_month(), self.spec_day());
        }
        self.add_days(-1)
    }

    /// Goes to the next day
    fn next_day(&self) -> (r: Self)
        requires
            self.wf(),
            date_number(*self) < last_absolute_day(),
        ensures
            r.wf(),
            date_number(r) == date_number(*self) + 1,
    {
        proof {
            self.lemma_wf();
            lemma_absolute_day_bounds(self.spec_year(), self.spec_month(), self.spec_day());
        }
        self.add_days(1)
    }
}

impl BadiDateOps for BadiDate {

}

/// Adding `k` days and then `-k` days gives back the date one started from.
pub proof fn lemma_add_days_inverse(d: BadiDate, k: int, there: BadiDate, back: BadiDate)
    requires
        d.wf(),
        there.wf(),
        back.wf(),
        date_number(there) == date_number(d) + k,
        date_number(back) == date_number(there) - k,
    ensures
        back == d,
{
    BadiDate::lemma_same_date_number(back, d);
}

/// The day before the day after a date is that date.
pub proof fn lemma_next_then_previous_day(d: BadiDate, next: BadiDate, back: BadiDate)
    requires
        d.wf(),
        next.wf(),
        back.wf(),
        date_number(next) == date_number(d) + 1,
        date_number(back) == date_number(next) - 1,
    ensures
        back == d,
{
    lemma_add_days_inverse(d, 1, next, back);
}

/// For any kind of date, the day before the day after a date holds the same
/// year, month, and day as that date.
pub proof fn lemma_next_then_previous_day_holds<T: BadiDateLike>(d: T, next: T, back: T)
    requires
        d.wf(),
        next.wf(),
        back.wf(),
        date_number(next) == date_number(d) + 1,
        date_number(back) == date_number(next) - 1,
    ensures
        back.spec_year() == d.spec_year(),
        back.spec_month() == d.spec_month(),
        back.spec_day() == d.spec_day(),
{
    d.lemma_wf();
    back.lemma_wf();
    crate::calendar::lemma_absolute_day_injective(
        back.spec_year(),
        back.spec_month(),
        back.spec_day(),
        d.spec_year(),
        d.spec_month(),
        d.spec_day(),
    );
}

/// The day after the last day of Ayyám-i-Há is the first day of the nineteenth
/// month of the same year.
pub proof fn lemma_day_after_ayyamiha(d: BadiDate, next: BadiDate)
    requires
        d.wf(),
        next.wf(),
        d.spec_month() == BadiMonth::AyyamIHa,
        d.spec_day() == days_in_month(BadiMonth::AyyamIHa, d.spec_year()),
        date_number(next) == date_number(d) + 1,
    ensures
        next.spec_year() == d.spec_year(),
        next.spec_month() == BadiMonth::Month(19),
        next.spec_day() == 1,
{
    d.lemma_wf();
    next.lemma_wf();
    lemma_step_forward(d.spec_year(), d.spec_month(), d.spec_day());
    crate::calendar::lemma_absolute_day_injective(
        next.spec_year(),
        next.spec_month(),
        next.spec_day(),
        d.spec_year(),
        BadiMonth::Month(19),
        1,
    );
}

/// The day after the last day of the nineteenth month is Naw-Rúz of the next year.
pub proof fn lemma_day_after_last_of_year(d: BadiDate, next: BadiDate)
    requires
        d.wf(),
        next.wf(),
        d.spec_month() == BadiMonth::Month(19),
        d.spec_day() == days_in_month(BadiMonth::Month(19), d.spec_year()),
        date_number(next) == date_number(d) + 1,
    ensures
        next.spec_year() == d.spec_year() + 1,
        next.spec_month() == BadiMonth::Month(1),
        next.spec_day() == 1,
{
    d.lemma_wf();
    next.lemma_wf();
    lemma_step_forward(d.spec_year(), d.spec_month(), d.spec_day());
    lemma_absolute_day_bounds(next.spec_year(), next.spec_month(), next.spec_day());
    crate::calendar::lemma_absolute_day_injective(
        next.spec_year(),
        next.spec_month(),
        next.spec_day(),
        (d.spec_year() + 1) as u8,
        BadiMonth::Month(1),
        1,
    );
}

} // verus!
