use simplesolat::jakim::PrayerTime;
use simplesolat::jakim::SourceError;
use simplesolat::jakim::validate_jakim_response;

fn entry() -> PrayerTime {
    PrayerTime {
        hijri: "1447-06-17".to_string(),
        date: "08-Dec-2025".to_string(),
        day: "Monday".to_string(),
        imsak: "05:45:00".to_string(),
        fajr: "05:55:00".to_string(),
        syuruk: "07:05:00".to_string(),
        dhuhr: "13:05:00".to_string(),
        asr: "16:25:00".to_string(),
        maghrib: "19:05:00".to_string(),
        isha: "20:15:00".to_string(),
    }
}

#[test]
fn ok_sentinel_passes_entries_through() {
    let entries = vec![entry(), entry()];
    let accepted = validate_jakim_response("OK!", entries).unwrap();
    assert_eq!(accepted.len(), 2);
    assert_eq!(accepted[0].date, "08-Dec-2025");
}

#[test]
fn other_status_is_rejected() {
    let result = validate_jakim_response("ERROR", vec![entry()]);
    match result {
        Err(SourceError::BadStatus(status)) => assert_eq!(status, "ERROR"),
        _ => panic!("a non-OK status marker must be rejected"),
    }
}

#[test]
fn near_miss_sentinels_are_rejected() {
    assert!(validate_jakim_response("OK", vec![]).is_err());
    assert!(validate_jakim_response("ok!", vec![]).is_err());
    assert!(validate_jakim_response("", vec![]).is_err());
    assert!(validate_jakim_response("OK! ", vec![]).is_err());
}
