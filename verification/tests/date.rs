use opra_statistical_profiler::date::Date;

#[test]
fn days_are_counted_from_the_first_of_year_one() {
    assert_eq!(Date::from_ymd_opt(1, 1, 1).unwrap().days_from_ce, 1);
    assert_eq!(Date::from_ymd_opt(0, 12, 31).unwrap().days_from_ce, 0);
    assert_eq!(Date::from_ymd_opt(1970, 1, 1).unwrap().days_from_ce, 719_163);
    assert_eq!(Date::from_ymd_opt(2025, 11, 14).unwrap().days_from_ce, 739_569);
}

#[test]
fn the_calendar_decides_which_days_exist() {
    assert!(Date::from_ymd_opt(2000, 2, 29).is_some());
    assert!(Date::from_ymd_opt(1900, 2, 29).is_none());
    assert!(Date::from_ymd_opt(2025, 4, 31).is_none());
    assert!(Date::from_ymd_opt(2025, 0, 1).is_none());
    assert!(Date::from_ymd_opt(2025, 13, 1).is_none());
    assert!(Date::from_ymd_opt(2025, 1, 0).is_none());
    assert!(Date::from_ymd_opt(262_142, 12, 31).is_some());
    assert!(Date::from_ymd_opt(262_143, 1, 1).is_none());
    assert!(Date::from_ymd_opt(-262_143, 1, 1).is_some());
    assert!(Date::from_ymd_opt(-262_144, 12, 31).is_none());
}

#[test]
fn numbers_and_days_go_back_and_forth() {
    for (y, m, d) in [(2025, 11, 14), (1, 1, 1), (2024, 2, 29), (-5, 3, 1), (9999, 12, 31)] {
        let date = Date::from_ymd_opt(y, m, d).unwrap();
        assert_eq!(date.ymd(), (y, m, d));
        assert_eq!(Date::from_num_days_from_ce_opt(date.days_from_ce), Some(date));
    }
    assert!(Date::from_num_days_from_ce_opt(i32::MAX).is_none());
    assert!(Date::from_num_days_from_ce_opt(i32::MIN).is_none());
    let first = Date::from_ymd_opt(-262_143, 1, 1).unwrap();
    let last = Date::from_ymd_opt(262_142, 12, 31).unwrap();
    assert!(Date::from_num_days_from_ce_opt(first.days_from_ce).is_some());
    assert!(Date::from_num_days_from_ce_opt(first.days_from_ce - 1).is_none());
    assert!(Date::from_num_days_from_ce_opt(last.days_from_ce).is_some());
    assert!(Date::from_num_days_from_ce_opt(last.days_from_ce + 1).is_none());
}

#[test]
fn numbers_are_in_calendar_order() {
    let a = Date::from_ymd_opt(2025, 11, 14).unwrap();
    let b = Date::from_ymd_opt(2025, 12, 1).unwrap();
    let c = Date::from_ymd_opt(2026, 1, 1).unwrap();
    assert!(a.days_from_ce < b.days_from_ce && b.days_from_ce < c.days_from_ce);
    assert_eq!(b.days_since(a), 17);
    assert_eq!(a.days_since(b), -17);
}

#[test]
fn texts_are_years_months_and_days() {
    assert_eq!(Date::from_ymd_opt(2025, 11, 4).unwrap().to_text(), "2025-11-04");
    assert_eq!(Date::from_ymd_opt(7, 1, 2).unwrap().to_text(), "0007-01-02");
    assert_eq!(Date::from_ymd_opt(10_000, 1, 2).unwrap().to_text(), "+10000-01-02");
    assert_eq!(Date::from_ymd_opt(-1, 1, 2).unwrap().to_text(), "-0001-01-02");
}
