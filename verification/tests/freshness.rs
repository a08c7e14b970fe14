use brew_tray::bean::{BeanFreshnessInfo, CoffeeBean, FreshnessState, WindowProgress};
use brew_tray::freshness::{calculate_freshness, classify};
use chrono::{Datelike, NaiveDate};

fn day(y: i32, m: u32, d: u32) -> i32 {
    NaiveDate::from_ymd_opt(y, m, d).unwrap().num_days_from_ce()
}

fn bean(roast_date: Option<&str>) -> CoffeeBean {
    CoffeeBean {
        id: "b1".to_string(),
        name: "Kenya".to_string(),
        remaining: Some("100".to_string()),
        capacity: Some("250".to_string()),
        roast_date: roast_date.map(|s| s.to_string()),
        start_day: None,
        end_day: None,
        is_frozen: None,
        is_in_transit: None,
    }
}

fn on_day(days: i32, start: i32, end: i32) -> BeanFreshnessInfo {
    let mut b = bean(Some("2024-03-01"));
    b.start_day = Some(start);
    b.end_day = Some(end);
    calculate_freshness(&b, day(2024, 3, 1) + days)
}

#[test]
fn roast_date_is_read_as_a_calendar_date() {
    let info = calculate_freshness(&bean(Some("2024-01-01")), day(2024, 1, 8));
    assert_eq!(info.days_since_roast, 7);
    let info = calculate_freshness(&bean(Some("2023-12-25")), day(2024, 3, 1));
    assert_eq!(info.days_since_roast, 67);
}

#[test]
fn days_since_roast_may_be_negative() {
    let info = calculate_freshness(&bean(Some("2024-01-10")), day(2024, 1, 8));
    assert_eq!(info.days_since_roast, -2);
    assert_eq!(info.freshness_state, FreshnessState::Resting);
}

#[test]
fn window_defaults_to_seven_and_thirty() {
    let info = calculate_freshness(&bean(Some("2024-01-01")), day(2024, 1, 2));
    assert_eq!(info.start_day, 7);
    assert_eq!(info.end_day, 30);
    assert_eq!(info.freshness_state, FreshnessState::Resting);
}

#[test]
fn info_carries_the_record() {
    let b = bean(Some("2024-01-01"));
    let info = calculate_freshness(&b, day(2024, 1, 2));
    assert_eq!(info.bean, b);
}

#[test]
fn in_transit_wins_over_everything() {
    let mut b = bean(Some("2020-01-01"));
    b.is_in_transit = Some(true);
    b.is_frozen = Some(true);
    let info = calculate_freshness(&b, day(2024, 1, 1));
    assert_eq!(info.freshness_state, FreshnessState::InTransit);
    assert!(info.days_since_roast > info.end_day as i64);
}

#[test]
fn frozen_wins_over_the_roast_clock() {
    let mut b = bean(Some("2020-01-01"));
    b.is_frozen = Some(true);
    b.is_in_transit = Some(false);
    let info = calculate_freshness(&b, day(2024, 1, 1));
    assert_eq!(info.freshness_state, FreshnessState::Frozen);
    let mut b = bean(None);
    b.is_frozen = Some(true);
    assert_eq!(
        calculate_freshness(&b, day(2024, 1, 1)).freshness_state,
        FreshnessState::Frozen
    );
}

#[test]
fn missing_roast_date_is_unknown() {
    let info = calculate_freshness(&bean(None), day(2024, 1, 1));
    assert_eq!(info.freshness_state, FreshnessState::Unknown);
    assert_eq!(info.days_since_roast, 0);
    assert_eq!(info.progress_percent, WindowProgress { elapsed: 0, span: 1 });
}

#[test]
fn unreadable_roast_date_is_unknown() {
    for text in ["", "yesterday", "2024-13-01", "2024-02-30", "01/02/2024", "2024-01"] {
        let info = calculate_freshness(&bean(Some(text)), day(2024, 1, 1));
        assert_eq!(info.freshness_state, FreshnessState::Unknown, "{text:?}");
        assert_eq!(info.days_since_roast, 0, "{text:?}");
    }
}

#[test]
fn first_day_of_the_window_is_optimal() {
    assert_eq!(on_day(7, 7, 30).freshness_state, FreshnessState::Optimal);
    assert_eq!(on_day(6, 7, 30).freshness_state, FreshnessState::Resting);
}

#[test]
fn last_day_of_the_window_is_optimal() {
    assert_eq!(on_day(30, 7, 30).freshness_state, FreshnessState::Optimal);
}

#[test]
fn day_after_the_window_is_decline() {
    assert_eq!(on_day(31, 7, 30).freshness_state, FreshnessState::Decline);
}

#[test]
fn window_that_ends_before_it_starts_is_never_optimal() {
    assert_eq!(on_day(10, 10, 5).freshness_state, FreshnessState::Decline);
    assert_eq!(on_day(5, 10, 5).freshness_state, FreshnessState::Resting);
}

#[test]
fn progress_is_linear_inside_the_window() {
    let info = on_day(17, 7, 30);
    assert_eq!(info.progress_percent, WindowProgress { elapsed: 10, span: 23 });
    assert_eq!(info.progress_percent.percent(), 43);
    assert_eq!(on_day(7, 7, 30).progress_percent.percent(), 0);
    assert_eq!(on_day(30, 7, 30).progress_percent.percent(), 100);
    assert_eq!(on_day(12, 2, 22).progress_percent.percent(), 50);
}

#[test]
fn progress_is_nothing_before_the_window() {
    assert_eq!(on_day(3, 7, 30).progress_percent, WindowProgress { elapsed: 0, span: 1 });
    assert_eq!(on_day(3, 7, 30).progress_percent.percent(), 0);
}

#[test]
fn progress_is_complete_after_the_window() {
    assert_eq!(on_day(31, 7, 30).progress_percent, WindowProgress { elapsed: 1, span: 1 });
    assert_eq!(on_day(31, 7, 30).progress_percent.percent(), 100);
}

#[test]
fn progress_is_complete_past_the_end_in_any_state() {
    let mut b = bean(Some("2020-01-01"));
    b.is_frozen = Some(true);
    let info = calculate_freshness(&b, day(2024, 1, 1));
    assert_eq!(info.progress_percent, WindowProgress::full());
}

#[test]
fn progress_of_a_window_of_one_day() {
    let info = on_day(7, 7, 7);
    assert_eq!(info.freshness_state, FreshnessState::Optimal);
    assert_eq!(info.progress_percent, WindowProgress::none());
}

#[test]
fn classify_takes_the_roast_day_as_given() {
    let b = bean(Some("this text is not looked at"));
    let info = classify(&b, Some(100), 110);
    assert_eq!(info.days_since_roast, 10);
    assert_eq!(info.freshness_state, FreshnessState::Optimal);
    let info = classify(&b, None, 110);
    assert_eq!(info.freshness_state, FreshnessState::Unknown);
}

#[test]
fn classify_stands_the_widest_day_numbers() {
    let mut b = bean(None);
    b.start_day = Some(i32::MIN);
    b.end_day = Some(i32::MAX);
    let info = classify(&b, Some(i32::MIN), i32::MAX);
    assert_eq!(info.days_since_roast, i32::MAX as i64 - i32::MIN as i64);
    assert_eq!(info.freshness_state, FreshnessState::Decline);
    let info = classify(&b, Some(0), 0);
    assert_eq!(info.freshness_state, FreshnessState::Optimal);
    assert_eq!(
        info.progress_percent,
        WindowProgress { elapsed: -(i32::MIN as i64), span: u32::MAX as i64 }
    );
    assert_eq!(info.progress_percent.percent(), 50);
}
