use badi_date::{BadiDate, BadiDateLike, BadiDateOps, BadiMonth, DayChangeAction};

#[test]
fn test_is_feast() {
    let badi = BadiDate::new(181, BadiMonth::Month(19), 2).unwrap();
    assert!(!badi.is_feast());

    let badi = BadiDate::new(181, BadiMonth::Month(19), 1).unwrap();
    assert!(badi.is_feast());

    let badi = BadiDate::new(181, BadiMonth::AyyamIHa, 1).unwrap();
    assert!(!badi.is_feast());
}

#[test]
fn badi_date_ops_add_subtract_next_previous() {
    let badi = BadiDate::new(181, BadiMonth::Month(1), 2).unwrap();
    assert_eq!(
        badi.next_day(),
        BadiDate::new(181, BadiMonth::Month(1), 3).unwrap()
    );
    assert_eq!(
        badi.add_days(-2),
        BadiDate::new(180, BadiMonth::Month(19), 19).unwrap()
    );
    assert_eq!(badi.add_days(-2).add_days(2), badi);
    assert_eq!(
        badi.add_days(-21),
        BadiDate::new(180, BadiMonth::AyyamIHa, 4).unwrap()
    );
    assert_eq!(
        BadiDate::new(180, BadiMonth::AyyamIHa, 4)
            .unwrap()
            .add_days(1),
        BadiDate::new(180, BadiMonth::Month(19), 1).unwrap()
    );
    assert_eq!(
        BadiDate::new(180, BadiMonth::Month(18), 19)
            .unwrap()
            .add_days(5),
        BadiDate::new(180, BadiMonth::Month(19), 1).unwrap()
    );
    assert_eq!(
        badi.next_month(true),
        BadiDate::new(181, BadiMonth::Month(2), 2).unwrap()
    );
    assert_eq!(
        BadiDate::new(180, BadiMonth::Month(18), 17)
            .unwrap()
            .next_month(true),
        BadiDate::new(180, BadiMonth::Month(19), 17).unwrap()
    );
    assert_eq!(
        BadiDate::new(180, BadiMonth::Month(18), 17)
            .unwrap()
            .next_month(false),
        BadiDate::new(180, BadiMonth::AyyamIHa, 4).unwrap()
    );
    assert_eq!(
        BadiDate::new(180, BadiMonth::Month(18), 17)
            .unwrap()
            .add_months(2, DayChangeAction::Keep, false),
        BadiDate::new(180, BadiMonth::Month(19), 4).unwrap()
    );
    assert_eq!(
        BadiDate::new(180, BadiMonth::Month(18), 17)
            .unwrap()
            .add_months(2, DayChangeAction::Keep, true),
        BadiDate::new(181, BadiMonth::Month(1), 17).unwrap()
    );
    assert_eq!(
        BadiDate::new(180, BadiMonth::Month(18), 17)
            .unwrap()
            .next_feast(),
        BadiDate::new(180, BadiMonth::Month(19), 1).unwrap()
    );
    assert_eq!(
        BadiDate::new(180, BadiMonth::Month(18), 1)
            .unwrap()
            .next_feast(),
        BadiDate::new(180, BadiMonth::Month(19), 1).unwrap()
    );
    assert_eq!(
        BadiDate::new(180, BadiMonth::Month(18), 17)
            .unwrap()
            .previous_feast(),
        BadiDate::new(180, BadiMonth::Month(18), 1).unwrap()
    );
    assert_eq!(
        BadiDate::new(180, BadiMonth::Month(18), 17)
            .unwrap()
            .previous_feast()
            .previous_feast(),
        BadiDate::new(180, BadiMonth::Month(17), 1).unwrap()
    );
}

#[test]
fn add_days_crosses_the_year_end() {
    let last = BadiDate::new(180, BadiMonth::Month(19), 19).unwrap();
    assert_eq!(
        last.add_days(1),
        BadiDate::new(181, BadiMonth::Month(1), 1).unwrap()
    );
}

#[test]
fn day_after_last_day_of_ayyamiha() {
    // 182 has a leap day: five days of Ayyám-i-Há
    let last = BadiDate::new(182, BadiMonth::AyyamIHa, 5).unwrap();
    assert_eq!(
        last.add_days(1),
        BadiDate::new(182, BadiMonth::Month(19), 1).unwrap()
    );
    let last = BadiDate::new(181, BadiMonth::AyyamIHa, 4).unwrap();
    assert_eq!(
        last.next_day(),
        BadiDate::new(181, BadiMonth::Month(19), 1).unwrap()
    );
}

#[test]
fn day_after_last_day_of_year() {
    let d = BadiDate::new(150, BadiMonth::Month(19), 19).unwrap();
    assert_eq!(
        d.add_days(1),
        BadiDate::new(151, BadiMonth::Month(1), 1).unwrap()
    );
}

#[test]
fn add_days_round_trips() {
    let d = BadiDate::new(181, BadiMonth::Month(7), 11).unwrap();
    for k in [-800, -365, -19, -1, 0, 1, 5, 19, 366, 1000] {
        assert_eq!(d.add_days(k).add_days(-k), d);
    }
    assert_eq!(d.next_day().previous_day(), d);
    assert_eq!(
        BadiDate::new(1, BadiMonth::Month(1), 2).unwrap().previous_day(),
        BadiDate::new(1, BadiMonth::Month(1), 1).unwrap()
    );
}

#[test]
fn add_days_over_a_whole_year() {
    // 181 has four days of Ayyám-i-Há: 365 days
    let d = BadiDate::new(181, BadiMonth::Month(1), 1).unwrap();
    assert_eq!(d.add_days(365), BadiDate::new(182, BadiMonth::Month(1), 1).unwrap());
    // 182 has five: 366 days
    let d = BadiDate::new(182, BadiMonth::Month(1), 1).unwrap();
    assert_eq!(d.add_days(366), BadiDate::new(183, BadiMonth::Month(1), 1).unwrap());
}

#[test]
fn add_months_policies() {
    let d = BadiDate::new(180, BadiMonth::Month(18), 17).unwrap();
    assert_eq!(d.add_months(0, DayChangeAction::LastInMonth, false), d);
    assert_eq!(
        d.add_months(1, DayChangeAction::LastInMonth, false),
        BadiDate::new(180, BadiMonth::AyyamIHa, 4).unwrap()
    );
    assert_eq!(
        d.add_months(1, DayChangeAction::FirstInMonth, false),
        BadiDate::new(180, BadiMonth::AyyamIHa, 1).unwrap()
    );
    assert_eq!(
        d.add_months(-18, DayChangeAction::Keep, true),
        BadiDate::new(179, BadiMonth::Month(19), 17).unwrap()
    );
    assert_eq!(
        BadiDate::new(181, BadiMonth::Month(19), 3)
            .unwrap()
            .previous_month(false),
        BadiDate::new(181, BadiMonth::AyyamIHa, 3).unwrap()
    );
    assert_eq!(
        BadiDate::new(181, BadiMonth::Month(19), 3)
            .unwrap()
            .previous_month(true),
        BadiDate::new(181, BadiMonth::Month(18), 3).unwrap()
    );
    assert_eq!(
        BadiDate::new(181, BadiMonth::Month(1), 3)
            .unwrap()
            .previous_month(true),
        BadiDate::new(180, BadiMonth::Month(19), 3).unwrap()
    );
    assert_eq!(DayChangeAction::default(), DayChangeAction::Keep);
}

#[test]
fn feasts_and_naw_ruz() {
    let d = BadiDate::new(181, BadiMonth::Month(1), 1).unwrap();
    assert_eq!(
        d.previous_feast(),
        BadiDate::new(180, BadiMonth::Month(19), 1).unwrap()
    );
    assert_eq!(
        BadiDate::new(181, BadiMonth::Month(19), 1).unwrap().previous_feast(),
        BadiDate::new(181, BadiMonth::Month(18), 1).unwrap()
    );
    assert_eq!(
        BadiDate::new(181, BadiMonth::Month(19), 5).unwrap().next_feast(),
        BadiDate::new(182, BadiMonth::Month(1), 1).unwrap()
    );
    assert_eq!(
        BadiDate::new(181, BadiMonth::Month(5), 5).unwrap().next_naw_ruz(),
        BadiDate::new(182, BadiMonth::Month(1), 1).unwrap()
    );
    assert_eq!(
        BadiDate::new(181, BadiMonth::Month(5), 5).unwrap().previous_naw_ruz(),
        BadiDate::new(181, BadiMonth::Month(1), 1).unwrap()
    );
    assert_eq!(
        d.previous_naw_ruz(),
        BadiDate::new(180, BadiMonth::Month(1), 1).unwrap()
    );
}

#[test]
fn year_reached_by_adding_months() {
    let d = BadiDate::new(180, BadiMonth::Month(18), 17).unwrap();
    assert_eq!(d.year_after_months(2, true), 181);
    assert_eq!(d.year_after_months(2, false), 180);
    assert_eq!(d.year_after_months(-18, true), 179);
    assert_eq!(BadiDate::new(221, BadiMonth::Month(19), 1).unwrap().year_after_months(1, true), 222);
}
