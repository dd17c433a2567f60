//! The eleven Bahá’í Holy Days and where they fall in each Badí' year.
use vstd::prelude::*;

use crate::badi_date::BadiDateLike;
use crate::badi_date_ops::holds_date;
use crate::calendar::month_and_day_spec;
use crate::error::BadiDateError;
use crate::statics::{year_specifics, year_specifics_spec, LAST_YEAR_SUPPORTED};

verus! {

/// The 11 Bahá’í Holy Days (work is to be suspended on 9 of them)
#[derive(Debug, Copy, Clone, Eq, Hash, Ord, PartialEq, PartialOrd, Structural)]
pub enum BahaiHolyDay {
    /// Naw-Rúz
    NawRuz,
    /// 1st day of Riḍván
    Ridvan1st,
    /// 9th day of Riḍván
    Ridvan9th,
    /// 12th day of Riḍván
    Ridvan12th,
    /// Declaration of the Báb
    DeclarationOfTheBab,
    /// Ascension of Bahá’u’lláh
    AscensionOfBahaullah,
    /// Martyrdom of the Báb
    MartyrdomOfTheBab,
    /// Birth of the Báb
    BirthOfTheBab,
    /// Birth of Bahá’u’lláh
    BirthOfBahaullah,
    /// Day of the Covenant (work not suspended)
    DayOfTheCovenant,
    /// Ascension of ‘Abdu’l-Bahá (work not suspended)
    AscensionOfAbdulBaha,
}

/// Day of the year of each holy day where the table of irregularities says nothing.
pub open spec fn fallback_day_of_year(h: BahaiHolyDay) -> u16 {
    match h {
        BahaiHolyDay::NawRuz => 1,
        BahaiHolyDay::Ridvan1st => 32,
        BahaiHolyDay::Ridvan9th => 40,
        BahaiHolyDay::Ridvan12th => 43,
        BahaiHolyDay::DeclarationOfTheBab => 65,
        BahaiHolyDay::AscensionOfBahaullah => 70,
        BahaiHolyDay::MartyrdomOfTheBab => 112,
        BahaiHolyDay::BirthOfTheBab => 214,
        BahaiHolyDay::BirthOfBahaullah => 237,
        BahaiHolyDay::DayOfTheCovenant => 251,
        BahaiHolyDay::AscensionOfAbdulBaha => 253,
    }
}

/// Day of the year on which holy day `h` falls in Badí' year `year`: the two
/// Twin Birthdays follow the table of irregularities where it has the year (the
/// Birth of Bahá’u’lláh on the day after the Birth of the Báb).
pub open spec fn holy_day_doy(h: BahaiHolyDay, year: u8) -> u16 {
    match (h, year_specifics_spec(year)) {
        (BahaiHolyDay::BirthOfTheBab, Some(s)) => s.birth_of_bab,
        (BahaiHolyDay::BirthOfBahaullah, Some(s)) => (s.birth_of_bab + 1) as u16,
        _ => fallback_day_of_year(h),
    }
}

/// The holy days of `year` with their days of the year, in the order of the year.
pub open spec fn holy_days_spec(year: u8) -> Seq<(u16, BahaiHolyDay)> {
    seq![
        (holy_day_doy(BahaiHolyDay::NawRuz, year), BahaiHolyDay::NawRuz),
        (holy_day_doy(BahaiHolyDay::Ridvan1st, year), BahaiHolyDay::Ridvan1st),
        (holy_day_doy(BahaiHolyDay::Ridvan9th, year), BahaiHolyDay::Ridvan9th),
        (holy_day_doy(BahaiHolyDay::Ridvan12th, year), BahaiHolyDay::Ridvan12th),
        (holy_day_doy(BahaiHolyDay::DeclarationOfTheBab, year), BahaiHolyDay::DeclarationOfTheBab),
        (holy_day_doy(BahaiHolyDay::AscensionOfBahaullah, year), BahaiHolyDay::AscensionOfBahaullah),
        (holy_day_doy(BahaiHolyDay::MartyrdomOfTheBab, year), BahaiHolyDay::MartyrdomOfTheBab),
        (holy_day_doy(BahaiHolyDay::BirthOfTheBab, year), BahaiHolyDay::BirthOfTheBab),
        (holy_day_doy(BahaiHolyDay::BirthOfBahaullah, year), BahaiHolyDay::BirthOfBahaullah),
        (holy_day_doy(BahaiHolyDay::DayOfTheCovenant, year), BahaiHolyDay::DayOfTheCovenant),
        (holy_day_doy(BahaiHolyDay::AscensionOfAbdulBaha, year), BahaiHolyDay::AscensionOfAbdulBaha),
    ]
}

/// Whether day `doy` of `year` is a holy day.
pub open spec fn is_holy_day(year: u8, doy: int) -> bool {
    exists|i: int| 0 <= i < 11 && holy_days_spec(year)[i].0 == doy
}

/// The holy day on day `doy` of `year`, if any.
pub open spec fn holy_day_on(year: u8, doy: int) -> Option<BahaiHolyDay> {
    if is_holy_day(year, doy) {
        Some(
            holy_days_spec(year)[choose|i: int|
                0 <= i < 11 && holy_days_spec(year)[i].0 == doy].1,
        )
    } else {
        None
    }
}

/// The day of the year of the first holy day of `year` that comes after day `after`.
pub open spec fn first_holy_day_after_spec(year: u8, after: int) -> Option<u16> {
    let days = holy_days_spec(year);
    if exists|i: int| 0 <= i < 11 && days[i].0 > after {
        Some(
            days[choose|i: int|
                0 <= i < 11 && days[i].0 > after && forall|j: int| 0 <= j < i ==> days[j].0 <= after].0,
        )
    } else {
        None
    }
}

/// The day of the year of the last holy day of `year` that comes before day `before`.
pub open spec fn last_holy_day_before_spec(year: u8, before: int) -> Option<u16> {
    let days = holy_days_spec(year);
    if exists|i: int| 0 <= i < 11 && days[i].0 < before {
        Some(
            days[choose|i: int|
                0 <= i < 11 && days[i].0 < before && forall|j: int| i < j < 11 ==> days[j].0 >= before].0,
        )
    } else {
        None
    }
}

/// (year, day of the year) of the next holy day after day `doy` of `year`: the
/// first later one of the same year, else the first one of the next year.
pub open spec fn next_holy_day_target(year: u8, doy: int) -> Option<(int, int)> {
    match first_holy_day_after_spec(year, doy) {
        Some(d) => Some((year as int, d as int)),
        None => match first_holy_day_after_spec((year + 1) as u8, 0) {
            Some(d) => Some((year + 1, d as int)),
            None => None,
        },
    }
}

/// (year, day of the year) of the previous holy day before day `doy` of `year`:
/// the last earlier one of the same year, else the last one of the previous year.
pub open spec fn previous_holy_day_target(year: u8, doy: int) -> Option<(int, int)> {
    match last_holy_day_before_spec(year, doy) {
        Some(d) => Some((year as int, d as int)),
        None => match last_holy_day_before_spec((year - 1) as u8, 366) {
            Some(d) => Some((year - 1, d as int)),
            None => None,
        },
    }
}

/// The date that a search for a holy day returns on finding `target`: the
/// date of that day of that year where the year is supported.
pub open spec fn holy_day_search_result<T: BadiDateLike>(
    r: Result<T, BadiDateError>,
    target: Option<(int, int)>,
) -> bool {
    match target {
        Some((y, d)) => if 1 <= y <= LAST_YEAR_SUPPORTED {
            let md = month_and_day_spec(y as u8, d);
            r is Ok && holds_date(r->Ok_0, (y, md.0, md.1 as int))
        } else {
            r == Err::<T, BadiDateError>(BadiDateError::DateNotSupported)
        },
        None => r == Err::<T, BadiDateError>(BadiDateError::DateNotSupported),
    }
}

/// The holy days of every year fall on distinct days, in the order of the list.
pub proof fn lemma_holy_days_increasing(year: u8)
    ensures
        forall|i: int, j: int|
            0 <= i < j < 11 ==> #[trigger] holy_days_spec(year)[i].0 < #[trigger] holy_days_spec(
                year,
            )[j].0,
        holy_days_spec(year).len() == 11,
        holy_days_spec(year)[0].0 == 1,
        forall|i: int| 0 <= i < 11 ==> 1 <= #[trigger] holy_days_spec(year)[i].0 <= 253,
{
    let days = holy_days_spec(year);
    match year_specifics_spec(year) {
        Some(s) => {
            assert(209 <= s.birth_of_bab <= 238);
        },
        None => {},
    }
    assert(days[0].0 < days[1].0 && days[1].0 < days[2].0 && days[2].0 < days[3].0);
    assert(days[3].0 < days[4].0 && days[4].0 < days[5].0 && days[5].0 < days[6].0);
    assert(days[6].0 < days[7].0 && days[7].0 < days[8].0 && days[8].0 < days[9].0);
    assert(days[9].0 < days[10].0);
}

impl BahaiHolyDay {
    /// Day of the year of the holy day where the table of irregularities says nothing
    fn fallback_day_of_year(&self) -> (r: u16)
        ensures
            r == fallback_day_of_year(*self),
    {
        match *self {
            BahaiHolyDay::NawRuz => 1,
            BahaiHolyDay::Ridvan1st => 32,
            BahaiHolyDay::Ridvan9th => 40,
            BahaiHolyDay::Ridvan12th => 43,
            BahaiHolyDay::DeclarationOfTheBab => 65,
            BahaiHolyDay::AscensionOfBahaullah => 70,
            BahaiHolyDay::MartyrdomOfTheBab => 112,
            BahaiHolyDay::BirthOfTheBab => 214,
            BahaiHolyDay::BirthOfBahaullah => 237,
            BahaiHolyDay::DayOfTheCovenant => 251,
            BahaiHolyDay::AscensionOfAbdulBaha => 253,
        }
    }

    /// The 1-based day of the Badí' `year` on which the holy day occurs
    pub fn day_of_year(&self, year: u8) -> (r: u16)
        ensures
            r == holy_day_doy(*self, year),
    {
        let day = self.fallback_day_of_year();
        let twin = match *self {
            BahaiHolyDay::BirthOfTheBab | BahaiHolyDay::BirthOfBahaullah => true,
            _ => false,
        };
        if twin {
            return match year_specifics(year) {
                Some(specifics) => {
                    proof {
                        assert(209 <= specifics.birth_of_bab <= 238);
                    }
                    if *self == BahaiHolyDay::BirthOfTheBab {
                        specifics.birth_of_bab
                    } else {
                        specifics.birth_of_bab + 1
                    }
                },
                None => day,
            };
        }
        day
    }

    /// Whether work is to be suspended on this holy day
    pub fn work_suspended(&self) -> (r: bool)
        ensures
            r == !(*self == BahaiHolyDay::DayOfTheCovenant || *self
                == BahaiHolyDay::AscensionOfAbdulBaha),
    {
        match *self {
            BahaiHolyDay::DayOfTheCovenant | BahaiHolyDay::AscensionOfAbdulBaha => false,
            _ => true,
        }
    }

    /// The holy days of `year` with their days of the year, in the order of the
    /// year (the days are distinct and increase along the list)
    pub fn holy_days_for_year(year: u8) -> (r: Vec<(u16, BahaiHolyDay)>)
        ensures
            r@ == holy_days_spec(year),
    {
        let mut days: Vec<(u16, BahaiHolyDay)> = Vec::new();
        days.push((BahaiHolyDay::NawRuz.day_of_year(year), BahaiHolyDay::NawRuz));
        days.push((BahaiHolyDay::Ridvan1st.day_of_year(year), BahaiHolyDay::Ridvan1st));
        days.push((BahaiHolyDay::Ridvan9th.day_of_year(year), BahaiHolyDay::Ridvan9th));
        days.push((BahaiHolyDay::Ridvan12th.day_of_year(year), BahaiHolyDay::Ridvan12th));
        days.push((BahaiHolyDay::DeclarationOfTheBab.day_of_year(year), BahaiHolyDay::DeclarationOfTheBab));
        days.push((BahaiHolyDay::AscensionOfBahaullah.day_of_year(year), BahaiHolyDay::AscensionOfBahaullah));
        days.push((BahaiHolyDay::MartyrdomOfTheBab.day_of_year(year), BahaiHolyDay::MartyrdomOfTheBab));
        days.push((BahaiHolyDay::BirthOfTheBab.day_of_year(year), BahaiHolyDay::BirthOfTheBab));
        days.push((BahaiHolyDay::BirthOfBahaullah.day_of_year(year), BahaiHolyDay::BirthOfBahaullah));
        days.push((BahaiHolyDay::DayOfTheCovenant.day_of_year(year), BahaiHolyDay::DayOfTheCovenant));
        days.push((BahaiHolyDay::AscensionOfAbdulBaha.day_of_year(year), BahaiHolyDay::AscensionOfAbdulBaha));
        assert(days@ =~= holy_days_spec(year));
        days
    }
}

/// The day of the year of the first holy day of `year` after day `after`
pub fn first_holy_day_after(year: u8, after: u16) -> (r: Option<u16>)
    ensures
        r == first_holy_day_after_spec(year, after as int),
        r is Some ==> 1 <= r->0,
{
    let days = BahaiHolyDay::holy_days_for_year(year);
    proof {
        lemma_holy_days_increasing(year);
    }
    let mut i: usize = 0;
    while i < days.len()
        invariant
            days@ == holy_days_spec(year),
            0 <= i <= 11,
            forall|j: int| 0 <= j < i ==> days@[j].0 <= after,
        decreases days.len() - i,
    {
        if days[i].0 > after {
            return Some(days[i].0);
        }
        i = i + 1;
    }
    None
}

/// The day of the year of the last holy day of `year` before day `before`
pub fn last_holy_day_before(year: u8, before: u16) -> (r: Option<u16>)
    ensures
        r == last_holy_day_before_spec(year, before as int),
        r is Some ==> 1 <= r->0,
{
    let days = BahaiHolyDay::holy_days_for_year(year);
    proof {
        lemma_holy_days_increasing(year);
    }
    let mut i: usize = days.len();
    while i > 0
        invariant
            days@ == holy_days_spec(year),
            0 <= i <= 11,
            forall|j: int| i <= j < 11 ==> days@[j].0 >= before,
        decreases i,
    {
        if days[i - 1].0 < before {
            return Some(days[i - 1].0);
        }
        i = i - 1;
    }
    None
}

} // verus!
