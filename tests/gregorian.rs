use badi_date::gregorian::{
    date_after_naw_ruz, get_last_sunset, get_next_sunset, get_sunset_of_last_naw_ruz, naw_ruz_day,
    shift_date, CivilDate, LocalInstant,
};
use badi_date::{BadiDate, BadiDateError, BadiMonth};
use chrono::{DateTime, Datelike, NaiveDate, TimeZone};
use chrono_tz::Tz;

fn civil(d: NaiveDate) -> CivilDate {
    CivilDate { year: d.year(), month: d.month(), day: d.day() }
}

fn local(dt: DateTime<Tz>) -> LocalInstant {
    LocalInstant { timestamp: dt.timestamp(), date: civil(dt.date_naive()) }
}

fn sunset_fn(tz: Tz, coords: Option<(f64, f64)>) -> impl Fn(CivilDate) -> LocalInstant {
    move |d| match coords {
        Some((lat, lon)) if (-66.0..=66.0).contains(&lat) => {
            let (_, ts) = sunrise::sunrise_sunset(lat, lon, d.year, d.month, d.day);
            local(tz.from_utc_datetime(&DateTime::from_timestamp(ts, 0).unwrap().naive_utc()))
        }
        _ => local(tz.with_ymd_and_hms(d.year, d.month, d.day, 18, 0, 0).earliest().unwrap()),
    }
}

fn midnight_fn(tz: Tz) -> impl Fn(CivilDate) -> LocalInstant {
    move |d| local(tz.with_ymd_and_hms(d.year, d.month, d.day, 0, 0, 0).earliest().unwrap())
}

fn denver() -> Tz {
    "America/Denver".parse().unwrap()
}

const DENVER: Option<(f64, f64)> = Some((39.613319, -105.016647));

fn convert(date: DateTime<Tz>, coords: Option<(f64, f64)>) -> Result<BadiDate, BadiDateError> {
    let tz = date.timezone();
    BadiDate::from_local(local(date), &sunset_fn(tz, coords), &midnight_fn(tz))
}

fn check_enclosed(badi_date: &BadiDate, date: DateTime<Tz>, coords: Option<(f64, f64)>) {
    let tz = date.timezone();
    let start = badi_date.start(&sunset_fn(tz, coords), &midnight_fn(tz)).unwrap();
    let end = badi_date.end(&sunset_fn(tz, coords), &midnight_fn(tz)).unwrap();
    assert!(start.timestamp <= end.timestamp);
    assert!(start.timestamp <= date.timestamp() && date.timestamp() <= end.timestamp);
}

#[test]
fn denver_sunset_decides_the_day() {
    let tz = denver();
    let before = tz.with_ymd_and_hms(2024, 3, 19, 18, 0, 0).unwrap();
    assert_eq!(
        convert(before, DENVER).unwrap(),
        BadiDate::new(180, BadiMonth::Month(19), 19).unwrap()
    );
    let after = tz.with_ymd_and_hms(2024, 3, 19, 20, 0, 0).unwrap();
    assert_eq!(
        convert(after, DENVER).unwrap(),
        BadiDate::new(181, BadiMonth::Month(1), 1).unwrap()
    );
}

#[test]
fn without_coordinates_the_day_starts_at_six() {
    let tz = denver();
    let at_six = tz.with_ymd_and_hms(2024, 3, 19, 18, 0, 0).unwrap();
    assert_eq!(
        convert(at_six, None).unwrap(),
        BadiDate::new(181, BadiMonth::Month(1), 1).unwrap()
    );
    let before_six = tz.with_ymd_and_hms(2024, 3, 19, 17, 59, 59).unwrap();
    assert_eq!(
        convert(before_six, None).unwrap(),
        BadiDate::new(180, BadiMonth::Month(19), 19).unwrap()
    );
    // polar latitudes use the same fallback
    assert_eq!(
        convert(at_six, Some((70.0, -105.0))).unwrap(),
        BadiDate::new(181, BadiMonth::Month(1), 1).unwrap()
    );
}

#[test]
fn badi_date_from_datetime() {
    let denver = denver();
    let coords = DENVER;
    let test_dates: Vec<(String, DateTime<Tz>, BadiDate)> = vec![
        (
            "2024 Naw Ruz before sunset".to_string(),
            denver.with_ymd_and_hms(2024, 3, 19, 12, 0, 0).unwrap(),
            BadiDate::new(180, BadiMonth::Month(19), 19).unwrap(),
        ),
        (
            "2024 Naw Ruz after sunset".to_string(),
            denver.with_ymd_and_hms(2024, 3, 19, 20, 0, 0).unwrap(),
            BadiDate::new(181, BadiMonth::Month(1), 1).unwrap(),
        ),
        (
            "2024 day after Naw Ruz before sunset".to_string(),
            denver.with_ymd_and_hms(2024, 3, 20, 0, 0, 0).unwrap(),
            BadiDate::new(181, BadiMonth::Month(1), 1).unwrap(),
        ),
        (
            "2024 day after Naw Ruz after sunset".to_string(),
            denver.with_ymd_and_hms(2024, 3, 20, 20, 0, 0).unwrap(),
            BadiDate::new(181, BadiMonth::Month(1), 2).unwrap(),
        ),
        (
            "2024 Jalal before sunset".to_string(),
            denver.with_ymd_and_hms(2024, 4, 7, 10, 32, 0).unwrap(),
            BadiDate::new(181, BadiMonth::Month(1), 19).unwrap(),
        ),
        (
            "2024 Jalal after sunset".to_string(),
            denver.with_ymd_and_hms(2024, 4, 7, 19, 32, 0).unwrap(),
            BadiDate::new(181, BadiMonth::Month(2), 1).unwrap(),
        ),
        (
            "Feast of ‘Izzat (Might) 181 B.E. before sunset".to_string(),
            denver.with_ymd_and_hms(2024, 9, 6, 10, 24, 0).unwrap(),
            BadiDate::new(181, BadiMonth::Month(9), 19).unwrap(),
        ),
        (
            "Feast of ‘Izzat (Might) 181 B.E. after sunset".to_string(),
            denver.with_ymd_and_hms(2024, 9, 6, 19, 24, 0).unwrap(),
            BadiDate::new(181, BadiMonth::Month(10), 1).unwrap(),
        ),
        (
            "Feast of ‘Izzat (Might) 181 B.E. after midnight".to_string(),
            denver.with_ymd_and_hms(2024, 9, 7, 0, 0, 0).unwrap(),
            BadiDate::new(181, BadiMonth::Month(10), 1).unwrap(),
        ),
        (
            "Feast of Sharaf (Honour) 181 B.E. before sunset".to_string(),
            denver.with_ymd_and_hms(2024, 12, 29, 15, 45, 0).unwrap(),
            BadiDate::new(181, BadiMonth::Month(15), 19).unwrap(),
        ),
        (
            "Feast of Sharaf (Honour) 181 B.E.".to_string(),
            denver.with_ymd_and_hms(2024, 12, 29, 16, 46, 0).unwrap(),
            BadiDate::new(181, BadiMonth::Month(16), 1).unwrap(),
        ),
        (
            "some day".to_string(),
            denver.with_ymd_and_hms(2024, 6, 4, 0, 15, 0).unwrap(),
            BadiDate::new(181, BadiMonth::Month(5), 1).unwrap(),
        ),
        (
            "Feast of Jalál (Glory) 182 B.E.".to_string(),
            denver.with_ymd_and_hms(2025, 4, 7, 19, 30, 0).unwrap(),
            BadiDate::new(182, BadiMonth::Month(2), 1).unwrap(),
        ),
        (
            "Feast day".to_string(),
            denver.with_ymd_and_hms(2024, 6, 3, 20, 30, 0).unwrap(),
            BadiDate::new(181, BadiMonth::Month(5), 1).unwrap(),
        ),
        (
            "Mulk day 19 2025".to_string(),
            denver.with_ymd_and_hms(2025, 2, 24, 16, 30, 0).unwrap(),
            BadiDate::new(181, BadiMonth::Month(18), 19).unwrap(),
        ),
        (
            "Ayyám-i-Há day 1 2025".to_string(),
            denver.with_ymd_and_hms(2025, 2, 24, 18, 30, 0).unwrap(),
            BadiDate::new(181, BadiMonth::AyyamIHa, 1).unwrap(),
        ),
        (
            "Ayyám-i-Há day 4 2025".to_string(),
            denver.with_ymd_and_hms(2025, 2, 28, 16, 30, 0).unwrap(),
            BadiDate::new(181, BadiMonth::AyyamIHa, 4).unwrap(),
        ),
    ];

    for (description, date, expected_badi) in test_dates {
        let badi_date = convert(date, coords).unwrap();
        assert_eq!(badi_date, expected_badi, "{}", description);
        check_enclosed(&badi_date, date, coords);
    }
}

#[test]
fn badi_date_from_local() {
    let denver = denver();
    let coords = DENVER;
    let test_dates: Vec<(String, DateTime<Tz>, BadiDate)> = vec![
        (
            "2024 Naw Ruz before sunset".to_string(),
            denver.with_ymd_and_hms(2024, 3, 19, 12, 0, 0).unwrap(),
            BadiDate::new(180, BadiMonth::Month(19), 19).unwrap(),
        ),
        (
            "2024 Naw Ruz after sunset".to_string(),
            denver.with_ymd_and_hms(2024, 3, 19, 20, 0, 0).unwrap(),
            BadiDate::new(181, BadiMonth::Month(1), 1).unwrap(),
        ),
        (
            "2024 day after Naw Ruz before sunset".to_string(),
            denver.with_ymd_and_hms(2024, 3, 20, 0, 0, 0).unwrap(),
            BadiDate::new(181, BadiMonth::Month(1), 1).unwrap(),
        ),
        (
            "2024 day after Naw Ruz after sunset".to_string(),
            denver.with_ymd_and_hms(2024, 3, 20, 20, 0, 0).unwrap(),
            BadiDate::new(181, BadiMonth::Month(1), 2).unwrap(),
        ),
        (
            "2024 Jalal before sunset".to_string(),
            denver.with_ymd_and_hms(2024, 4, 7, 10, 32, 0).unwrap(),
            BadiDate::new(181, BadiMonth::Month(1), 19).unwrap(),
        ),
        (
            "2024 Jalal after sunset".to_string(),
            denver.with_ymd_and_hms(2024, 4, 7, 19, 32, 0).unwrap(),
            BadiDate::new(181, BadiMonth::Month(2), 1).unwrap(),
        ),
        (
            "Feast of ‘Izzat (Might) 181 B.E. before sunset".to_string(),
            denver.with_ymd_and_hms(2024, 9, 6, 10, 24, 0).unwrap(),
            BadiDate::new(181, BadiMonth::Month(9), 19).unwrap(),
        ),
        (
            "Feast of ‘Izzat (Might) 181 B.E. after sunset".to_string(),
            denver.with_ymd_and_hms(2024, 9, 6, 19, 24, 0).unwrap(),
            BadiDate::new(181, BadiMonth::Month(10), 1).unwrap(),
        ),
        (
            "Feast of ‘Izzat (Might) 181 B.E. after midnight".to_string(),
            denver.with_ymd_and_hms(2024, 9, 7, 0, 0, 0).unwrap(),
            BadiDate::new(181, BadiMonth::Month(10), 1).unwrap(),
        ),
        (
            "Feast of Sharaf (Honour) 181 B.E. before sunset".to_string(),
            denver.with_ymd_and_hms(2024, 12, 29, 15, 45, 0).unwrap(),
            BadiDate::new(181, BadiMonth::Month(15), 19).unwrap(),
        ),
        (
            "Feast of Sharaf (Honour) 181 B.E.".to_string(),
            denver.with_ymd_and_hms(2024, 12, 29, 16, 46, 0).unwrap(),
            BadiDate::new(181, BadiMonth::Month(16), 1).unwrap(),
        ),
        (
            "some day".to_string(),
            denver.with_ymd_and_hms(2024, 6, 4, 0, 15, 0).unwrap(),
            BadiDate::new(181, BadiMonth::Month(5), 1).unwrap(),
        ),
        (
            "Feast of Jalál (Glory) 182 B.E.".to_string(),
            denver.with_ymd_and_hms(2025, 4, 7, 19, 30, 0).unwrap(),
            BadiDate::new(182, BadiMonth::Month(2), 1).unwrap(),
        ),
        (
            "Feast day".to_string(),
            denver.with_ymd_and_hms(2024, 6, 3, 20, 30, 0).unwrap(),
            BadiDate::new(181, BadiMonth::Month(5), 1).unwrap(),
        ),
    ];

    for (description, date, expected_badi) in test_dates {
        println!(
            "\n==================================\nTEST: {}, date: {}",
            description, date
        );
        let badi_date = convert(date, coords).unwrap();
        assert_eq!(badi_date, expected_badi, "{}", description);
        check_enclosed(&badi_date, date, coords);
    }
}

#[test]
fn instants_outside_the_supported_range() {
    let tz = denver();
    let early = tz.with_ymd_and_hms(1800, 1, 1, 12, 0, 0).unwrap();
    assert_eq!(convert(early, DENVER), Err(BadiDateError::DateNotSupported));
    let late = tz.with_ymd_and_hms(2070, 1, 1, 12, 0, 0).unwrap();
    assert_eq!(convert(late, DENVER), Err(BadiDateError::DateNotSupported));
}

#[test]
fn naw_ruz_days_follow_the_table() {
    // Badí' year 181 begins on 20 March 2024, year 180 on 21 March 2023
    assert_eq!(naw_ruz_day(2024), CivilDate { year: 2024, month: 3, day: 20 });
    assert_eq!(naw_ruz_day(2023), CivilDate { year: 2023, month: 3, day: 21 });
    assert_eq!(naw_ruz_day(1900), CivilDate { year: 1900, month: 3, day: 21 });
}

#[test]
fn shifting_civil_dates() {
    let d = CivilDate { year: 2024, month: 3, day: 1 };
    assert_eq!(shift_date(d, -1), Some(CivilDate { year: 2024, month: 2, day: 29 }));
    assert_eq!(shift_date(d, 365), Some(CivilDate { year: 2025, month: 3, day: 1 }));
    assert_eq!(shift_date(CivilDate { year: 2024, month: 2, day: 30 }, 1), None);
}

#[test]
fn dates_after_naw_ruz() {
    assert_eq!(date_after_naw_ruz(2024, 0), BadiDate::new(181, BadiMonth::Month(1), 1));
    assert_eq!(date_after_naw_ruz(2024, 342), BadiDate::new(181, BadiMonth::AyyamIHa, 1));
    assert_eq!(date_after_naw_ruz(2024, 364), BadiDate::new(181, BadiMonth::Month(19), 19));
    assert_eq!(
        date_after_naw_ruz(2024, 365),
        Err(BadiDateError::DayInvalid(BadiMonth::Month(19), 20, 19))
    );
    assert_eq!(date_after_naw_ruz(1843, 10), Err(BadiDateError::DateNotSupported));
    assert_eq!(date_after_naw_ruz(2024, -1), Err(BadiDateError::DateNotSupported));
}

#[test]
fn naw_ruz_search_tries_the_own_year_then_the_year_before() {
    let tz = denver();
    let sunset = sunset_fn(tz, DENVER);
    let midnight = midnight_fn(tz);
    // before the sunset of 19 March 2024 that begins Naw-Rúz 181: Naw-Rúz 180
    let before = local(tz.with_ymd_and_hms(2024, 3, 19, 12, 0, 0).unwrap());
    let found = get_sunset_of_last_naw_ruz(&sunset, &midnight, before).unwrap();
    assert_eq!(found.date, CivilDate { year: 2023, month: 3, day: 20 });
    assert!(found.timestamp <= before.timestamp);
    // after it: Naw-Rúz 181
    let after = local(tz.with_ymd_and_hms(2024, 3, 19, 20, 0, 0).unwrap());
    let found = get_sunset_of_last_naw_ruz(&sunset, &midnight, after).unwrap();
    assert_eq!(found.date, CivilDate { year: 2024, month: 3, day: 19 });
    // a day in December counts from the Naw-Rúz of its own year
    let december = local(tz.with_ymd_and_hms(2024, 12, 1, 12, 0, 0).unwrap());
    let found = get_sunset_of_last_naw_ruz(&sunset, &midnight, december).unwrap();
    assert_eq!(found.date, CivilDate { year: 2024, month: 3, day: 19 });
}

#[test]
fn sunsets_around_an_instant() {
    let tz = denver();
    let sunset = sunset_fn(tz, DENVER);
    let at = local(tz.with_ymd_and_hms(2024, 6, 4, 12, 0, 0).unwrap());
    let last = get_last_sunset(&sunset, at).unwrap();
    let next = get_next_sunset(&sunset, at).unwrap();
    assert!(last.timestamp <= at.timestamp && at.timestamp < next.timestamp);
    assert_eq!(last.date, CivilDate { year: 2024, month: 6, day: 3 });
    assert_eq!(next.date, CivilDate { year: 2024, month: 6, day: 4 });
}
