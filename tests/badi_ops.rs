use badi_date::{BadiDate, BadiMonth, DateOps, DayChangeAction};

#[test]
fn badi_ops_add_subtract_next_previous() {
    let badi = BadiDate::new(181, BadiMonth::Month(1), 2).unwrap();
    assert_eq!(
        badi.next_day(),
        BadiDate::new(181, BadiMonth::Month(1), 3).unwrap()
    );
    assert_eq!(
        badi.add_days(-2),
        BadiDate::new(180, BadiMonth::Month(19), 19).unwrap()
    );
    assert_eq!(badi.add_days(-2).add_days(2), badi);
    assert_eq!(
        badi.add_days(-21),
        BadiDate::new(180, BadiMonth::AyyamIHa, 4).unwrap()
    );
    assert_eq!(
        BadiDate::new(180, BadiMonth::AyyamIHa, 4)
            .unwrap()
            .add_days(1),
        BadiDate::new(180, BadiMonth::Month(19), 1).unwrap()
    );
    assert_eq!(
        BadiDate::new(180, BadiMonth::Month(18), 19)
            .unwrap()
            .add_days(5),
        BadiDate::new(180, BadiMonth::Month(19), 1).unwrap()
    );
    assert_eq!(
        badi.next_month(true),
        BadiDate::new(181, BadiMonth::Month(2), 2).unwrap()
    );
    assert_eq!(
        BadiDate::new(180, BadiMonth::Month(18), 17)
            .unwrap()
            .next_month(true),
        BadiDate::new(180, BadiMonth::Month(19), 17).unwrap()
    );
    assert_eq!(
        BadiDate::new(180, BadiMonth::Month(18), 17)
            .unwrap()
            .next_month(false),
        BadiDate::new(180, BadiMonth::AyyamIHa, 4).unwrap()
    );
    assert_eq!(
        BadiDate::new(180, BadiMonth::Month(18), 17)
            .unwrap()
            .add_months(2, DayChangeAction::Keep, false),
        BadiDate::new(180, BadiMonth::Month(19), 4).unwrap()
    );
    assert_eq!(
        BadiDate::new(180, BadiMonth::Month(18), 17)
            .unwrap()
            .add_months(2, DayChangeAction::Keep, true),
        BadiDate::new(181, BadiMonth::Month(1), 17).unwrap()
    );
    assert_eq!(
        BadiDate::new(180, BadiMonth::Month(18), 17)
            .unwrap()
            .next_feast(),
        BadiDate::new(180, BadiMonth::Month(19), 1).unwrap()
    );
    assert_eq!(
        BadiDate::new(180, BadiMonth::Month(18), 1)
            .unwrap()
            .next_feast(),
        BadiDate::new(180, BadiMonth::Month(19), 1).unwrap()
    );
    assert_eq!(
        BadiDate::new(180, BadiMonth::Month(18), 17)
            .unwrap()
            .previous_feast(),
        BadiDate::new(180, BadiMonth::Month(18), 1).unwrap()
    );
    assert_eq!(
        BadiDate::new(180, BadiMonth::Month(18), 17)
            .unwrap()
            .previous_feast()
            .previous_feast(),
        BadiDate::new(180, BadiMonth::Month(17), 1).unwrap()
    );
}
