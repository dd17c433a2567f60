//! Calendar constants and the table of per-year irregularities.
use vstd::prelude::*;

verus! {

/// Gregorian year in which Badí' year 1 begins.
pub const YEAR_ONE_IN_GREGORIAN: i32 = 1844;

/// Gregorian year in which Badí' year 0 would begin.
pub const YEAR_ZERO_IN_GREGORIAN: i32 = 1843;

/// Last Badí' year that this library supports.
pub const LAST_YEAR_SUPPORTED: u8 = 221;

/// Day of the year of the first day of Ayyám-i-Há.
pub const AYYAMIHA_DAY_1: u16 = 343;

/// Day of the year of the last day before Ayyám-i-Há (18 months of 19 days).
pub const AYYAMIHA_DAY_0: u16 = 342;

/// What differs from the computed defaults in one Badí' year.
#[derive(Clone, Copy, Debug, PartialEq, Eq, Structural)]
pub struct YearSpecifics {
    /// Whether Ayyám-i-Há has five days instead of four
    pub leapday: bool,
    /// Whether Naw-Rúz falls on 21 March (otherwise on 20 March)
    pub naw_ruz_on_march_21: bool,
    /// Day of the year of the Birth of the Báb
    pub birth_of_bab: u16,
}

impl YearSpecifics {
    /// Bundles the irregularities of one year.
    pub fn new(birth_of_bab: u16, leapday: bool, naw_ruz_on_march_21: bool) -> (r: YearSpecifics)
        ensures
            r == (YearSpecifics { leapday, naw_ruz_on_march_21, birth_of_bab }),
    {
        YearSpecifics { leapday, naw_ruz_on_march_21, birth_of_bab }
    }
}

/// The irregularities recorded for `year`, if the table has an entry for it.
pub open spec fn year_specifics_spec(year: u8) -> Option<YearSpecifics> {
    match year {
        172 => Some(YearSpecifics { birth_of_bab: 238, leapday: false, naw_ruz_on_march_21: true }),
        173 => Some(YearSpecifics { birth_of_bab: 227, leapday: false, naw_ruz_on_march_21: false }),
        174 => Some(YearSpecifics { birth_of_bab: 216, leapday: true, naw_ruz_on_march_21: false }),
        175 => Some(YearSpecifics { birth_of_bab: 234, leapday: false, naw_ruz_on_march_21: true }),
        176 => Some(YearSpecifics { birth_of_bab: 223, leapday: false, naw_ruz_on_march_21: true }),
        177 => Some(YearSpecifics { birth_of_bab: 213, leapday: false, naw_ruz_on_march_21: false }),
        178 => Some(YearSpecifics { birth_of_bab: 232, leapday: true, naw_ruz_on_march_21: false }),
        179 => Some(YearSpecifics { birth_of_bab: 220, leapday: false, naw_ruz_on_march_21: true }),
        180 => Some(YearSpecifics { birth_of_bab: 210, leapday: false, naw_ruz_on_march_21: true }),
        181 => Some(YearSpecifics { birth_of_bab: 228, leapday: false, naw_ruz_on_march_21: false }),
        182 => Some(YearSpecifics { birth_of_bab: 217, leapday: true, naw_ruz_on_march_21: false }),
        183 => Some(YearSpecifics { birth_of_bab: 235, leapday: false, naw_ruz_on_march_21: true }),
        184 => Some(YearSpecifics { birth_of_bab: 224, leapday: false, naw_ruz_on_march_21: true }),
        185 => Some(YearSpecifics { birth_of_bab: 214, leapday: false, naw_ruz_on_march_21: false }),
        186 => Some(YearSpecifics { birth_of_bab: 233, leapday: false, naw_ruz_on_march_21: false }),
        187 => Some(YearSpecifics { birth_of_bab: 223, leapday: true, naw_ruz_on_march_21: false }),
        188 => Some(YearSpecifics { birth_of_bab: 211, leapday: false, naw_ruz_on_march_21: true }),
        189 => Some(YearSpecifics { birth_of_bab: 230, leapday: false, naw_ruz_on_march_21: false }),
        190 => Some(YearSpecifics { birth_of_bab: 238, leapday: false, naw_ruz_on_march_21: false }),
        191 => Some(YearSpecifics { birth_of_bab: 238, leapday: true, naw_ruz_on_march_21: false }),
        192 => Some(YearSpecifics { birth_of_bab: 226, leapday: false, naw_ruz_on_march_21: true }),
        193 => Some(YearSpecifics { birth_of_bab: 215, leapday: false, naw_ruz_on_march_21: false }),
        194 => Some(YearSpecifics { birth_of_bab: 234, leapday: false, naw_ruz_on_march_21: false }),
        195 => Some(YearSpecifics { birth_of_bab: 224, leapday: true, naw_ruz_on_march_21: false }),
        196 => Some(YearSpecifics { birth_of_bab: 213, leapday: false, naw_ruz_on_march_21: true }),
        197 => Some(YearSpecifics { birth_of_bab: 232, leapday: false, naw_ruz_on_march_21: false }),
        198 => Some(YearSpecifics { birth_of_bab: 221, leapday: false, naw_ruz_on_march_21: false }),
        199 => Some(YearSpecifics { birth_of_bab: 210, leapday: true, naw_ruz_on_march_21: false }),
        200 => Some(YearSpecifics { birth_of_bab: 228, leapday: false, naw_ruz_on_march_21: true }),
        201 => Some(YearSpecifics { birth_of_bab: 217, leapday: false, naw_ruz_on_march_21: false }),
        202 => Some(YearSpecifics { birth_of_bab: 236, leapday: false, naw_ruz_on_march_21: false }),
        203 => Some(YearSpecifics { birth_of_bab: 225, leapday: true, naw_ruz_on_march_21: false }),
        204 => Some(YearSpecifics { birth_of_bab: 214, leapday: false, naw_ruz_on_march_21: true }),
        205 => Some(YearSpecifics { birth_of_bab: 233, leapday: false, naw_ruz_on_march_21: false }),
        206 => Some(YearSpecifics { birth_of_bab: 223, leapday: false, naw_ruz_on_march_21: false }),
        207 => Some(YearSpecifics { birth_of_bab: 212, leapday: true, naw_ruz_on_march_21: false }),
        208 => Some(YearSpecifics { birth_of_bab: 230, leapday: false, naw_ruz_on_march_21: true }),
        209 => Some(YearSpecifics { birth_of_bab: 219, leapday: false, naw_ruz_on_march_21: false }),
        210 => Some(YearSpecifics { birth_of_bab: 237, leapday: false, naw_ruz_on_march_21: false }),
        211 => Some(YearSpecifics { birth_of_bab: 227, leapday: true, naw_ruz_on_march_21: false }),
        212 => Some(YearSpecifics { birth_of_bab: 215, leapday: false, naw_ruz_on_march_21: true }),
        213 => Some(YearSpecifics { birth_of_bab: 234, leapday: false, naw_ruz_on_march_21: false }),
        214 => Some(YearSpecifics { birth_of_bab: 224, leapday: false, naw_ruz_on_march_21: false }),
        215 => Some(YearSpecifics { birth_of_bab: 213, leapday: false, naw_ruz_on_march_21: false }),
        216 => Some(YearSpecifics { birth_of_bab: 232, leapday: true, naw_ruz_on_march_21: false }),
        217 => Some(YearSpecifics { birth_of_bab: 220, leapday: false, naw_ruz_on_march_21: false }),
        218 => Some(YearSpecifics { birth_of_bab: 209, leapday: false, naw_ruz_on_march_21: false }),
        219 => Some(YearSpecifics { birth_of_bab: 228, leapday: false, naw_ruz_on_march_21: false }),
        220 => Some(YearSpecifics { birth_of_bab: 218, leapday: true, naw_ruz_on_march_21: false }),
        221 => Some(YearSpecifics { birth_of_bab: 236, leapday: false, naw_ruz_on_march_21: false }),
        _ => None,
    }
}

/// Looks `year` up in the table of irregularities.
pub fn year_specifics(year: u8) -> (r: Option<YearSpecifics>)
    ensures
        r == year_specifics_spec(year),
        r is Some <==> 172 <= year <= 221,
{
    match year {
        172 => Some(YearSpecifics { birth_of_bab: 238, leapday: false, naw_ruz_on_march_21: true }),
        173 => Some(YearSpecifics { birth_of_bab: 227, leapday: false, naw_ruz_on_march_21: false }),
        174 => Some(YearSpecifics { birth_of_bab: 216, leapday: true, naw_ruz_on_march_21: false }),
        175 => Some(YearSpecifics { birth_of_bab: 234, leapday: false, naw_ruz_on_march_21: true }),
        176 => Some(YearSpecifics { birth_of_bab: 223, leapday: false, naw_ruz_on_march_21: true }),
        177 => Some(YearSpecifics { birth_of_bab: 213, leapday: false, naw_ruz_on_march_21: false }),
        178 => Some(YearSpecifics { birth_of_bab: 232, leapday: true, naw_ruz_on_march_21: false }),
        179 => Some(YearSpecifics { birth_of_bab: 220, leapday: false, naw_ruz_on_march_21: true }),
        180 => Some(YearSpecifics { birth_of_bab: 210, leapday: false, naw_ruz_on_march_21: true }),
        181 => Some(YearSpecifics { birth_of_bab: 228, leapday: false, naw_ruz_on_march_21: false }),
        182 => Some(YearSpecifics { birth_of_bab: 217, leapday: true, naw_ruz_on_march_21: false }),
        183 => Some(YearSpecifics { birth_of_bab: 235, leapday: false, naw_ruz_on_march_21: true }),
        184 => Some(YearSpecifics { birth_of_bab: 224, leapday: false, naw_ruz_on_march_21: true }),
        185 => Some(YearSpecifics { birth_of_bab: 214, leapday: false, naw_ruz_on_march_21: false }),
        186 => Some(YearSpecifics { birth_of_bab: 233, leapday: false, naw_ruz_on_march_21: false }),
        187 => Some(YearSpecifics { birth_of_bab: 223, leapday: true, naw_ruz_on_march_21: false }),
        188 => Some(YearSpecifics { birth_of_bab: 211, leapday: false, naw_ruz_on_march_21: true }),
        189 => Some(YearSpecifics { birth_of_bab: 230, leapday: false, naw_ruz_on_march_21: false }),
        190 => Some(YearSpecifics { birth_of_bab: 238, leapday: false, naw_ruz_on_march_21: false }),
        191 => Some(YearSpecifics { birth_of_bab: 238, leapday: true, naw_ruz_on_march_21: false }),
        192 => Some(YearSpecifics { birth_of_bab: 226, leapday: false, naw_ruz_on_march_21: true }),
        193 => Some(YearSpecifics { birth_of_bab: 215, leapday: false, naw_ruz_on_march_21: false }),
        194 => Some(YearSpecifics { birth_of_bab: 234, leapday: false, naw_ruz_on_march_21: false }),
        195 => Some(YearSpecifics { birth_of_bab: 224, leapday: true, naw_ruz_on_march_21: false }),
        196 => Some(YearSpecifics { birth_of_bab: 213, leapday: false, naw_ruz_on_march_21: true }),
        197 => Some(YearSpecifics { birth_of_bab: 232, leapday: false, naw_ruz_on_march_21: false }),
        198 => Some(YearSpecifics { birth_of_bab: 221, leapday: false, naw_ruz_on_march_21: false }),
        199 => Some(YearSpecifics { birth_of_bab: 210, leapday: true, naw_ruz_on_march_21: false }),
        200 => Some(YearSpecifics { birth_of_bab: 228, leapday: false, naw_ruz_on_march_21: true }),
        201 => Some(YearSpecifics { birth_of_bab: 217, leapday: false, naw_ruz_on_march_21: false }),
        202 => Some(YearSpecifics { birth_of_bab: 236, leapday: false, naw_ruz_on_march_21: false }),
        203 => Some(YearSpecifics { birth_of_bab: 225, leapday: true, naw_ruz_on_march_21: false }),
        204 => Some(YearSpecifics { birth_of_bab: 214, leapday: false, naw_ruz_on_march_21: true }),
        205 => Some(YearSpecifics { birth_of_bab: 233, leapday: false, naw_ruz_on_march_21: false }),
        206 => Some(YearSpecifics { birth_of_bab: 223, leapday: false, naw_ruz_on_march_21: false }),
        207 => Some(YearSpecifics { birth_of_bab: 212, leapday: true, naw_ruz_on_march_21: false }),
        208 => Some(YearSpecifics { birth_of_bab: 230, leapday: false, naw_ruz_on_march_21: true }),
        209 => Some(YearSpecifics { birth_of_bab: 219, leapday: false, naw_ruz_on_march_21: false }),
        210 => Some(YearSpecifics { birth_of_bab: 237, leapday: false, naw_ruz_on_march_21: false }),
        211 => Some(YearSpecifics { birth_of_bab: 227, leapday: true, naw_ruz_on_march_21: false }),
        212 => Some(YearSpecifics { birth_of_bab: 215, leapday: false, naw_ruz_on_march_21: true }),
        213 => Some(YearSpecifics { birth_of_bab: 234, leapday: false, naw_ruz_on_march_21: false }),
        214 => Some(YearSpecifics { birth_of_bab: 224, leapday: false, naw_ruz_on_march_21: false }),
        215 => Some(YearSpecifics { birth_of_bab: 213, leapday: false, naw_ruz_on_march_21: false }),
        216 => Some(YearSpecifics { birth_of_bab: 232, leapday: true, naw_ruz_on_march_21: false }),
        217 => Some(YearSpecifics { birth_of_bab: 220, leapday: false, naw_ruz_on_march_21: false }),
        218 => Some(YearSpecifics { birth_of_bab: 209, leapday: false, naw_ruz_on_march_21: false }),
        219 => Some(YearSpecifics { birth_of_bab: 228, leapday: false, naw_ruz_on_march_21: false }),
        220 => Some(YearSpecifics { birth_of_bab: 218, leapday: true, naw_ruz_on_march_21: false }),
        221 => Some(YearSpecifics { birth_of_bab: 236, leapday: false, naw_ruz_on_march_21: false }),
        _ => None,
    }
}

} // verus!
