use chrono::{DateTime, Utc};
use org_stats::instant::{Timestamp, MAX_SECONDS, MIN_SECONDS};
use org_stats::record::RepoRecord;
use org_stats::stats::SumStats;

fn instant(secs: i64) -> Timestamp {
    Timestamp::new(secs, 0).unwrap()
}

fn record(stars: u32, forks: u32, watchers: u32, updated: i64, pushed: i64, issues: u32, size: u32) -> RepoRecord {
    RepoRecord {
        name: "r".to_string(),
        stars,
        forks,
        watchers,
        license_name: None,
        updated_at: instant(updated),
        pushed_at: instant(pushed),
        open_issues: issues,
        size,
        created_year: 2019,
        archived: false,
    }
}

#[test]
fn new_statistics_are_zero_and_earliest() {
    let s = SumStats::new();
    assert_eq!(s.stars, 0);
    assert_eq!(s.forks, 0);
    assert_eq!(s.followers, 0);
    assert_eq!(s.open_issues_count, 0);
    assert_eq!(s.size, 0);
    assert_eq!(s.updated_at, Timestamp::min());
    assert_eq!(s.pushed_at, Timestamp::min());
}

#[test]
fn update_adds_counters_and_raises_instants() {
    let mut s = SumStats::new();
    s.update(10, 2, 3, instant(100), instant(50), 4, 5);
    assert_eq!(s.stars, 10);
    assert_eq!(s.forks, 2);
    assert_eq!(s.followers, 3);
    assert_eq!(s.updated_at, instant(100));
    assert_eq!(s.pushed_at, instant(50));
    assert_eq!(s.open_issues_count, 4);
    assert_eq!(s.size, 5);
    s.update(1, 20, 30, instant(90), instant(60), 40, 50);
    assert_eq!(s.stars, 11);
    assert_eq!(s.forks, 22);
    assert_eq!(s.followers, 33);
    assert_eq!(s.updated_at, instant(100));
    assert_eq!(s.pushed_at, instant(60));
    assert_eq!(s.open_issues_count, 44);
    assert_eq!(s.size, 55);
}

#[test]
fn first_update_raises_both_instants_even_to_the_earliest_dates() {
    let mut s = SumStats::new();
    s.update(0, 0, 0, instant(MIN_SECONDS + 1), instant(MIN_SECONDS), 0, 0);
    assert_eq!(s.updated_at, instant(MIN_SECONDS + 1));
    assert_eq!(s.pushed_at, instant(MIN_SECONDS));
}

#[test]
fn sums_do_not_wrap_at_32_bits() {
    let mut s = SumStats::new();
    s.update(u32::MAX, u32::MAX, u32::MAX, instant(0), instant(0), u32::MAX, u32::MAX);
    s.update(u32::MAX, 1, 1, instant(0), instant(0), 1, 1);
    assert_eq!(s.stars, 2 * (u32::MAX as u128));
    assert_eq!(s.forks, u32::MAX as u128 + 1);
    assert_eq!(s.size, 4_294_967_296u128);
}

#[test]
fn summarize_folds_every_record_once() {
    let records = vec![
        record(1, 10, 100, 5, 7, 1000, 10000),
        record(2, 20, 200, 9, 3, 2000, 20000),
        record(3, 30, 300, 1, 8, 3000, 30000),
    ];
    let s = SumStats::summarize(&records);
    assert_eq!(s.stars, 6);
    assert_eq!(s.forks, 60);
    assert_eq!(s.followers, 600);
    assert_eq!(s.open_issues_count, 6000);
    assert_eq!(s.size, 60000);
    assert_eq!(s.updated_at, instant(9));
    assert_eq!(s.pushed_at, instant(8));
}

#[test]
fn summarize_does_not_depend_on_the_order() {
    let records = vec![
        record(1, 10, 100, 5, 7, 1000, 10000),
        record(2, 20, 200, 9, 3, 2000, 20000),
        record(3, 30, 300, 1, 8, 3000, 30000),
    ];
    let mut reversed = records.clone();
    reversed.reverse();
    assert_eq!(SumStats::summarize(&records), SumStats::summarize(&reversed));
}

#[test]
fn summarize_of_nothing_is_new() {
    assert_eq!(SumStats::summarize(&Vec::new()), SumStats::new());
}

#[test]
fn instants_order_by_seconds_then_nanoseconds() {
    let a = Timestamp::new(-5, 999_999_999).unwrap();
    let b = Timestamp::new(-4, 0).unwrap();
    let c = Timestamp::new(-4, 1).unwrap();
    assert!(a.le(&b) && b.le(&c) && a.le(&c) && a.le(&a));
    assert!(!b.le(&a) && !c.le(&b));
    assert_eq!(a.max(b), b);
    assert_eq!(c.max(b), c);
    assert_eq!(b.max(b), b);
}

#[test]
fn range_of_instants_is_that_of_chrono() {
    assert_eq!(DateTime::<Utc>::MIN_UTC.timestamp(), MIN_SECONDS);
    assert_eq!(DateTime::<Utc>::MIN_UTC.timestamp_subsec_nanos(), 0);
    assert_eq!(DateTime::<Utc>::MAX_UTC.timestamp(), MAX_SECONDS);
    assert_eq!(Timestamp::min(), Timestamp { secs: MIN_SECONDS, nanos: 0 });
    let probes: Vec<(i64, u32)> = vec![
        (MIN_SECONDS, 0),
        (MIN_SECONDS - 1, 0),
        (MIN_SECONDS - 1, 999_999_999),
        (MAX_SECONDS, 0),
        (MAX_SECONDS, 999_999_999),
        (MAX_SECONDS, 1_999_999_999),
        (MAX_SECONDS, 2_000_000_000),
        (MAX_SECONDS + 1, 0),
        (0, 0),
        (0, 999_999_999),
        (0, 1_000_000_000),
        (59, 1_000_000_000),
        (59, 1_999_999_999),
        (59, 2_000_000_000),
        (-1, 1_500_000_000),
        (-2, 1_500_000_000),
        (-61, 1_000_000_000),
        (-60, 1_000_000_000),
        (119, 1_000_000_000),
        (120, 1_000_000_000),
        (i64::MIN, 0),
        (i64::MAX, 0),
        (1_431_648_000, u32::MAX),
    ];
    for (secs, nanos) in probes {
        assert_eq!(
            Timestamp::new(secs, nanos).is_some(),
            DateTime::<Utc>::from_timestamp(secs, nanos).is_some(),
            "{} {}",
            secs,
            nanos
        );
    }
}

#[test]
fn text_of_an_instant_is_what_chrono_prints() {
    assert_eq!(instant(1_431_648_000).text(), "2015-05-15 00:00:00 UTC");
    assert_eq!(instant(0).text(), "1970-01-01 00:00:00 UTC");
    assert_eq!(Timestamp::new(1, 500_000_000).unwrap().text(), "1970-01-01 00:00:01.500 UTC");
    assert_eq!(Timestamp::min().text(), DateTime::<Utc>::MIN_UTC.to_string());
    assert_eq!(instant(MAX_SECONDS).text(), "+262142-12-31 23:59:59 UTC");
    assert_eq!(Timestamp::new(-1, 1_500_000_000).unwrap().text(), "1969-12-31 23:59:60.500 UTC");
}
