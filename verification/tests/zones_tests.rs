use simplesolat::zones::UpsertZone;
use simplesolat::zones::ZoneStore;

fn zone(code: &str, state: &str, location: &str) -> UpsertZone {
    UpsertZone {
        zone_code: code.to_string(),
        state: state.to_string(),
        location: location.to_string(),
    }
}

#[test]
fn upsert_inserts_new_zones_in_order() {
    let mut store = ZoneStore::new();
    store.upsert_zone(zone("SGR01", "Selangor", "Gombak"));
    store.upsert_zone(zone("WLY01", "Wilayah Persekutuan", "Kuala Lumpur"));
    assert_eq!(store.len(), 2);
    let zones = store.select_zones();
    assert_eq!(zones[0].zone_code, "SGR01");
    assert_eq!(zones[1].zone_code, "WLY01");
}

#[test]
fn upsert_overwrites_descriptive_fields_by_code() {
    let mut store = ZoneStore::new();
    store.upsert_zone(zone("SGR01", "Selangor", "Gombak"));
    store.upsert_zone(zone("WLY01", "Wilayah Persekutuan", "Kuala Lumpur"));
    store.upsert_zone(zone("SGR01", "Selangor", "Hulu Selangor"));
    assert_eq!(store.len(), 2);
    let zones = store.select_zones();
    assert_eq!(zones[0].zone_code, "SGR01");
    assert_eq!(zones[0].location, "Hulu Selangor");
    assert_eq!(zones[1].zone_code, "WLY01");
}

#[test]
fn catalog_is_kept_sorted_by_code() {
    let mut store = ZoneStore::new();
    store.upsert_zone(zone("WLY01", "Wilayah Persekutuan", "Kuala Lumpur"));
    store.upsert_zone(zone("JHR01", "Johor", "Pulau Aur"));
    store.upsert_zone(zone("SGR01", "Selangor", "Gombak"));
    store.upsert_zone(zone("JHR02", "Johor", "Johor Bahru"));
    let zones = store.select_zones();
    assert_eq!(zones.len(), 4);
    assert_eq!(zones[0].zone_code, "JHR01");
    assert_eq!(zones[1].zone_code, "JHR02");
    assert_eq!(zones[2].zone_code, "SGR01");
    assert_eq!(zones[3].zone_code, "WLY01");
}

#[test]
fn catalog_load_is_idempotent() {
    let batch = vec![
        zone("SGR01", "Selangor", "Gombak"),
        zone("WLY01", "Wilayah Persekutuan", "Kuala Lumpur"),
    ];
    let mut store = ZoneStore::new();
    store.upsert_zones_from_data(&batch);
    assert_eq!(store.len(), 2);
    store.upsert_zones_from_data(&batch);
    assert_eq!(store.len(), 2);
    let zones = store.select_zones();
    assert_eq!(zones[0].location, "Gombak");
}
