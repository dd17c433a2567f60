//! Dates of the Badí' (Bahá’í) calendar: validation, day-of-year arithmetic,
//! holy days, and the sunset-anchored conversion from Gregorian instants.
pub mod badi_date;
pub mod badi_date_ops;
pub mod bahai_holy_day;
pub mod badi_month;
pub mod calendar;
pub mod coordinates;
pub mod error;
pub mod gregorian;
pub mod holy_day_providing;
pub mod statics;

pub use badi_date::{BadiDate, BadiDateLike};
pub use badi_date_ops::{BadiDateOps, DayChangeAction};
/// Alternative name of [`BadiDateOps`]
pub use badi_date_ops::BadiDateOps as DateOps;
pub use gregorian::{CivilDate, LocalInstant};
pub use badi_month::BadiMonth;
pub use bahai_holy_day::BahaiHolyDay;
pub use coordinates::CoordinatesError;
pub use error::BadiDateError;
pub use holy_day_providing::HolyDayProviding;
