use nc_backup_lib::date::CalendarDate;
use nc_backup_lib::retention::{Retention, RetentionConfig};

fn day(y: i32, m: u32, d: u32) -> CalendarDate {
    CalendarDate::new(y, m, d).unwrap()
}

fn config(daily: Option<usize>, weekly: Option<usize>, monthly: Option<usize>, quarterly: Option<usize>, yearly: Option<usize>) -> RetentionConfig {
    RetentionConfig { daily, weekly, monthly, quarterly, yearly }
}

fn run(cfg: RetentionConfig, dates: &[CalendarDate]) -> Vec<bool> {
    let mut r = Retention::new(cfg);
    dates.iter().map(|d| r.retain(*d)).collect()
}

#[test]
fn daily_quota_of_two_keeps_first_of_each_day() {
    let cfg = config(Some(2), Some(0), Some(0), Some(0), Some(0));
    let dates = [day(2024, 1, 3), day(2024, 1, 3), day(2024, 1, 2), day(2024, 1, 1)];
    assert_eq!(run(cfg, &dates), vec![true, false, true, false]);
}

#[test]
fn unbounded_tiers_keep_every_new_day() {
    let cfg = config(None, None, None, None, None);
    let dates = [day(2024, 3, 5), day(2024, 3, 4), day(2023, 12, 31), day(2020, 2, 29), day(1999, 1, 1)];
    assert_eq!(run(cfg, &dates), vec![true; 5]);
}

#[test]
fn unbounded_tiers_drop_a_repeated_day() {
    let cfg = config(None, None, None, None, None);
    let dates = [day(2024, 3, 5), day(2024, 3, 5), day(2024, 3, 4)];
    assert_eq!(run(cfg, &dates), vec![true, false, true]);
}

#[test]
fn zero_quotas_keep_nothing() {
    let cfg = config(Some(0), Some(0), Some(0), Some(0), Some(0));
    let dates = [day(2024, 3, 5), day(2023, 3, 5), day(2022, 1, 1)];
    assert_eq!(run(cfg, &dates), vec![false; 3]);
}

#[test]
fn later_dates_never_change_earlier_decisions() {
    let cfg = RetentionConfig::default();
    let dates = [day(2024, 5, 20), day(2024, 5, 19), day(2024, 4, 1), day(2023, 12, 1)];
    let first = run(cfg, &dates);
    let mut longer = dates.to_vec();
    longer.push(day(2023, 11, 30));
    let second = run(cfg, &longer);
    assert_eq!(&second[..4], &first[..]);
}

#[test]
fn default_config_quotas() {
    let cfg = RetentionConfig::default();
    assert_eq!(cfg.daily, Some(10));
    assert_eq!(cfg.weekly, Some(0));
    assert_eq!(cfg.monthly, Some(10));
    assert_eq!(cfg.quarterly, Some(0));
    assert_eq!(cfg.yearly, Some(10));
}

#[test]
fn weekly_tier_takes_first_of_each_iso_week() {
    let cfg = config(Some(0), Some(5), Some(0), Some(0), Some(0));
    // 2024-01-03 and 2024-01-01 share ISO week 1; 2023-12-31 is in week 52.
    let dates = [day(2024, 1, 3), day(2024, 1, 1), day(2023, 12, 31)];
    assert_eq!(run(cfg, &dates), vec![true, false, true]);
}

#[test]
fn monthly_quarterly_and_yearly_tiers() {
    let monthly = config(Some(0), Some(0), Some(1), Some(0), Some(0));
    assert_eq!(run(monthly, &[day(2024, 5, 9), day(2024, 5, 1), day(2024, 4, 30)]), vec![true, false, false]);
    let quarterly = config(Some(0), Some(0), Some(0), Some(3), Some(0));
    assert_eq!(run(quarterly, &[day(2024, 6, 9), day(2024, 4, 1), day(2024, 3, 31)]), vec![true, false, true]);
    let yearly = config(Some(0), Some(0), Some(0), Some(0), Some(2));
    assert_eq!(
        run(yearly, &[day(2024, 6, 9), day(2024, 1, 1), day(2023, 3, 31), day(2022, 3, 31)]),
        vec![true, false, true, false]
    );
}

#[test]
fn retention_from_config() {
    let mut r: Retention = config(Some(1), Some(0), Some(0), Some(0), Some(0)).into();
    assert!(r.retain(day(2024, 1, 1)));
    assert!(!r.retain(day(2023, 1, 1)));
}

#[test]
fn calendar_date_rules() {
    assert!(CalendarDate::new(2023, 2, 29).is_none());
    assert!(CalendarDate::new(2024, 2, 29).is_some());
    assert!(CalendarDate::new(1900, 2, 29).is_none());
    assert!(CalendarDate::new(2000, 2, 29).is_some());
    assert!(CalendarDate::new(2024, 13, 1).is_none());
    assert!(CalendarDate::new(2024, 4, 31).is_none());
    assert_eq!(day(2024, 3, 1).ordinal(), 61);
    assert_eq!(day(2023, 3, 1).ordinal(), 60);
    assert_eq!(day(2024, 12, 31).ordinal(), 366);
    assert_eq!(day(2024, 5, 1).quarter(), 2);
    assert_eq!(day(2024, 12, 1).quarter(), 4);
}

#[test]
fn iso_week_numbers() {
    assert_eq!(day(2024, 12, 30).iso_week(), 1);
    assert_eq!(day(2021, 1, 1).iso_week(), 53);
    assert_eq!(day(2024, 6, 15).iso_week(), 24);
}

#[test]
fn retain_all_matches_single_calls() {
    let cfg = RetentionConfig::default();
    let dates = vec![day(2024, 5, 20), day(2024, 5, 20), day(2024, 4, 1), day(2023, 12, 1)];
    let mut r = Retention::new(cfg);
    assert_eq!(r.retain_all(&dates), run(cfg, &dates));
    assert_eq!(r.retain_all(&vec![day(2023, 12, 1)]), vec![false]);
}

#[test]
fn retention_keeps_its_config() {
    let cfg = config(Some(3), None, Some(0), Some(1), None);
    let mut r = Retention::new(cfg);
    r.retain(day(2024, 1, 1));
    assert_eq!(r.config.daily, Some(3));
    assert_eq!(r.config.quarterly, Some(1));
    assert_eq!(r.daily, vec![(2024, 1)]);
    assert_eq!(r.yearly, vec![2024]);
}
