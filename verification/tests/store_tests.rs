use simplesolat::dates::Date;
use simplesolat::dates::TimeOfDay;
use simplesolat::store::PrayerTimeStore;
use simplesolat::store::UpsertPrayerTime;

fn time(hour: u8, minute: u8, second: u8) -> TimeOfDay {
    TimeOfDay { hour, minute, second }
}

fn record(zone: &str, date: Date, minute: u8) -> UpsertPrayerTime {
    UpsertPrayerTime {
        zone_code: zone.to_string(),
        date,
        imsak: time(5, minute, 0),
        fajr: time(5, minute, 10),
        syuruk: time(7, minute, 0),
        dhuhr: time(13, minute, 0),
        asr: time(16, minute, 0),
        maghrib: time(19, minute, 0),
        isha: time(20, minute, 0),
    }
}

#[test]
fn empty_store_has_no_latest_date() {
    let store = PrayerTimeStore::new();
    assert_eq!(store.len(), 0);
    assert!(store.select_last_prayer_time_for_zone("SGR01").is_none());
}

#[test]
fn insert_then_query() {
    let mut store = PrayerTimeStore::new();
    let d1 = Date::from_ymd(2025, 11, 1).unwrap();
    let d2 = Date::from_ymd(2025, 11, 2).unwrap();
    store.upsert_prayer_times(&vec![record("SGR01", d1, 0), record("SGR01", d2, 0)]);
    assert_eq!(store.len(), 2);
    assert!(store.contains_key("SGR01", d1));
    assert!(store.contains_key("SGR01", d2));
    assert!(!store.contains_key("WLY01", d1));
    assert_eq!(store.select_last_prayer_time_for_zone("SGR01"), Some(d2));
    assert!(store.select_last_prayer_time_for_zone("WLY01").is_none());
}

#[test]
fn insert_ignore_keeps_existing_row() {
    let mut store = PrayerTimeStore::new();
    let d1 = Date::from_ymd(2025, 11, 1).unwrap();
    let d2 = Date::from_ymd(2025, 11, 2).unwrap();
    store.upsert_prayer_times(&vec![record("SGR01", d1, 0)]);
    assert_eq!(store.len(), 1);

    // One already-present key with different values, one new key: exactly
    // one new row, and the pre-existing row's values are unchanged.
    store.upsert_prayer_times(&vec![record("SGR01", d1, 30), record("SGR01", d2, 30)]);
    assert_eq!(store.len(), 2);

    let rows = store.select_prayer_times_for_zone("SGR01", d1, d1);
    assert_eq!(rows.len(), 1);
    assert_eq!(rows[0].imsak, time(5, 0, 0));
}

#[test]
fn insert_ignore_is_idempotent() {
    let mut store = PrayerTimeStore::new();
    let d1 = Date::from_ymd(2025, 11, 1).unwrap();
    let d2 = Date::from_ymd(2025, 11, 2).unwrap();
    let batch = vec![record("SGR01", d1, 0), record("SGR01", d2, 0)];
    store.upsert_prayer_times(&batch);
    assert_eq!(store.len(), 2);
    store.upsert_prayer_times(&batch);
    assert_eq!(store.len(), 2);
}

#[test]
fn insert_ignore_drops_duplicate_within_batch() {
    let mut store = PrayerTimeStore::new();
    let d1 = Date::from_ymd(2025, 11, 1).unwrap();
    store.upsert_prayer_times(&vec![record("SGR01", d1, 0), record("SGR01", d1, 30)]);
    assert_eq!(store.len(), 1);
    let rows = store.select_prayer_times_for_zone("SGR01", d1, d1);
    assert_eq!(rows[0].imsak, time(5, 0, 0));
}

#[test]
fn same_date_in_two_zones_is_two_rows() {
    let mut store = PrayerTimeStore::new();
    let d1 = Date::from_ymd(2025, 11, 1).unwrap();
    store.upsert_prayer_times(&vec![record("SGR01", d1, 0), record("WLY01", d1, 0)]);
    assert_eq!(store.len(), 2);
    assert_eq!(store.select_last_prayer_time_for_zone("SGR01"), Some(d1));
    assert_eq!(store.select_last_prayer_time_for_zone("WLY01"), Some(d1));
}

#[test]
fn range_select_is_inclusive_and_ordered() {
    let mut store = PrayerTimeStore::new();
    let d1 = Date::from_ymd(2025, 11, 1).unwrap();
    let d2 = Date::from_ymd(2025, 11, 2).unwrap();
    let d3 = Date::from_ymd(2025, 11, 3).unwrap();
    store.upsert_prayer_times(&vec![
        record("SGR01", d1, 0),
        record("WLY01", d1, 0),
        record("SGR01", d2, 0),
        record("SGR01", d3, 0),
    ]);
    let rows = store.select_prayer_times_for_zone("SGR01", d1, d2);
    assert_eq!(rows.len(), 2);
    assert_eq!(rows[0].date, d1);
    assert_eq!(rows[1].date, d2);
    let all = store.select_prayer_times_for_zone("SGR01", d1, d3);
    assert_eq!(all.len(), 3);
    let none = store.select_prayer_times_for_zone("SGR01", d3.next_day(), d3.next_day());
    assert_eq!(none.len(), 0);
}
