//! Response values for the read path: stored records rendered with each
//! time of day as an absolute Unix timestamp in the service's fixed civil
//! timezone, and the catalog rendered as plain zone listings.

use vstd::prelude::*;

use crate::dates::Date;
use crate::dates::TimeOfDay;
use crate::store::PrayerTimeStore;
use crate::store::UpsertPrayerTime;
use crate::store::in_range_pred;
use crate::zones::UpsertZone;
use crate::zones::ZoneStore;
use crate::zones::zones_wf;

verus! {

/// An error surfaced to the caller of the read path, as a plain message.
pub struct AppError {
    message: String,
}

impl AppError {
    pub fn new(message: String) -> (r: AppError)
        ensures
            r.spec_message() == message@,
    {
        AppError { message }
    }

    /// The message's characters.
    pub closed spec fn spec_message(&self) -> Seq<char> {
        self.message@
    }

    pub fn message(&self) -> (r: &str)
        ensures
            r@ == self.spec_message(),
    {
        self.message.as_str()
    }
}

/// The Unix timestamp denoted by a wall-clock datetime of the
/// Asia/Kuala_Lumpur civil timezone. The timezone's offset tables are fixed
/// at build time, so the result is a function of the six fields alone.
pub uninterp spec fn kl_timestamp(
    year: int,
    month: int,
    day: int,
    hour: int,
    minute: int,
    second: int,
) -> int;

/// Whether the Asia/Kuala_Lumpur timezone gives a wall-clock datetime a
/// single Unix timestamp at all: a datetime skipped or repeated at one of
/// the timezone's offset transitions has none. Like the timestamp itself,
/// this depends on the six fields alone.
pub uninterp spec fn kl_timestamp_valid(
    year: int,
    month: int,
    day: int,
    hour: int,
    minute: int,
    second: int,
) -> bool;

/// The Unix timestamp of a date and time of day read as Kuala Lumpur
/// wall-clock time.
pub open spec fn kl_ts_of(d: Date, t: TimeOfDay) -> int {
    kl_timestamp(
        d.year as int,
        d.month as int,
        d.day as int,
        t.hour as int,
        t.minute as int,
        t.second as int,
    )
}

/// Whether a date and time of day read as Kuala Lumpur wall-clock time has
/// a single Unix timestamp.
pub open spec fn kl_valid_of(d: Date, t: TimeOfDay) -> bool {
    kl_timestamp_valid(
        d.year as int,
        d.month as int,
        d.day as int,
        t.hour as int,
        t.minute as int,
        t.second as int,
    )
}

/// The seconds since the Unix epoch of a Kuala Lumpur wall-clock datetime
/// within the timezone's fixed +08:00 span: the fields read as UTC, less
/// eight hours.
pub open spec fn kl_epoch_seconds(d: Date, t: TimeOfDay) -> int {
    crate::dates::epoch_days(d) * 86400 + t.hour * 3600 + t.minute * 60 + t.second - 28800
}

/// Relies on chrono (NaiveDate::from_ymd_opt, NaiveTime::from_hms_opt,
/// NaiveDateTime::and_local_timezone, DateTime::timestamp) with chrono-tz's
/// Asia/Kuala_Lumpur table: combining a calendar date with a wall-clock
/// time in that timezone and converting to a Unix timestamp depends on the
/// six fields alone, and so does whether the conversion yields a value at
/// all (it yields none for a datetime the timezone's offset transitions
/// skip or repeat). The table compiled in fixes the offset at +08:00 with
/// no daylight saving from January 1, 1982 — its last transition — onward,
/// so every well-formed datetime from 1982 on has exactly the timestamp of
/// its fields read as UTC, less eight hours.
#[verifier::external_body]
fn datetime_to_timestamp(date: Date, time: TimeOfDay) -> (r: Option<i64>)
    ensures
        (r is Some) == kl_timestamp_valid(
            date.year as int,
            date.month as int,
            date.day as int,
            time.hour as int,
            time.minute as int,
            time.second as int,
        ),
        r matches Some(ts) ==> ts as int == kl_timestamp(
            date.year as int,
            date.month as int,
            date.day as int,
            time.hour as int,
            time.minute as int,
            time.second as int,
        ),
        date.wf() && time.wf() && 1982 <= date.year ==> r is Some && r->0 as int
            == kl_epoch_seconds(date, time),
{
    let nd = chrono::NaiveDate::from_ymd_opt(date.year, date.month as u32, date.day as u32)?;
    let nt = chrono::NaiveTime::from_hms_opt(time.hour as u32, time.minute as u32, time.second as u32)?;
    let ndt = chrono::NaiveDateTime::new(nd, nt);
    match ndt.and_local_timezone(chrono_tz::Asia::Kuala_Lumpur).single() {
        Some(dt) => Some(dt.timestamp()),
        None => None,
    }
}

/// One rendered day: the record's date and zone, and each time of day as an
/// absolute Unix timestamp.
pub struct WaktuSolat {
    pub date: Date,
    pub zone: String,
    pub imsak: i64,
    pub fajr: i64,
    pub syuruk: i64,
    pub dhuhr: i64,
    pub asr: i64,
    pub maghrib: i64,
    pub isha: i64,
}

/// `w` renders the stored record `r` exactly.
pub open spec fn waktu_matches_record(w: WaktuSolat, r: UpsertPrayerTime) -> bool {
    &&& w.date == r.date
    &&& w.zone@ == r.zone_code@
    &&& w.imsak as int == kl_ts_of(r.date, r.imsak)
    &&& w.fajr as int == kl_ts_of(r.date, r.fajr)
    &&& w.syuruk as int == kl_ts_of(r.date, r.syuruk)
    &&& w.dhuhr as int == kl_ts_of(r.date, r.dhuhr)
    &&& w.asr as int == kl_ts_of(r.date, r.asr)
    &&& w.maghrib as int == kl_ts_of(r.date, r.maghrib)
    &&& w.isha as int == kl_ts_of(r.date, r.isha)
}

/// Every one of the record's seven wall-clock times has a single Unix
/// timestamp in the Kuala Lumpur timezone.
pub open spec fn record_renderable(r: UpsertPrayerTime) -> bool {
    &&& kl_valid_of(r.date, r.imsak)
    &&& kl_valid_of(r.date, r.fajr)
    &&& kl_valid_of(r.date, r.syuruk)
    &&& kl_valid_of(r.date, r.dhuhr)
    &&& kl_valid_of(r.date, r.asr)
    &&& kl_valid_of(r.date, r.maghrib)
    &&& kl_valid_of(r.date, r.isha)
}

impl WaktuSolat {
    /// Renders one stored record. It yields a value exactly when the
    /// timezone gives each of the record's seven wall-clock times a single
    /// timestamp — which it does for every well-formed record from 1982 on.
    pub fn from_record(r: &UpsertPrayerTime) -> (w: Option<WaktuSolat>)
        ensures
            (w is Some) == record_renderable(*r),
            w matches Some(v) ==> waktu_matches_record(v, *r),
            r.wf() && 1982 <= r.date.year ==> w is Some,
    {
        let imsak = match datetime_to_timestamp(r.date, r.imsak) {
            Some(t) => t,
            None => {
                return None;
            },
        };
        let fajr = match datetime_to_timestamp(r.date, r.fajr) {
            Some(t) => t,
            None => {
                return None;
            },
        };
        let syuruk = match datetime_to_timestamp(r.date, r.syuruk) {
            Some(t) => t,
            None => {
                return None;
            },
        };
        let dhuhr = match datetime_to_timestamp(r.date, r.dhuhr) {
            Some(t) => t,
            None => {
                return None;
            },
        };
        let asr = match datetime_to_timestamp(r.date, r.asr) {
            Some(t) => t,
            None => {
                return None;
            },
        };
        let maghrib = match datetime_to_timestamp(r.date, r.maghrib) {
            Some(t) => t,
            None => {
                return None;
            },
        };
        let isha = match datetime_to_timestamp(r.date, r.isha) {
            Some(t) => t,
            None => {
                return None;
            },
        };
        Some(
            WaktuSolat {
                date: r.date,
                zone: r.zone_code.clone(),
                imsak,
                fajr,
                syuruk,
                dhuhr,
                asr,
                maghrib,
                isha,
            },
        )
    }
}

/// The read path's answer for one zone and date range.
pub struct WaktuSolatResponse {
    pub data: Vec<WaktuSolat>,
}

/// Renders every stored record of one zone whose date falls in the
/// inclusive range [from, to], in store order. It yields an answer — empty
/// for a zone or range with no data — exactly when every selected record is
/// renderable; only a record whose wall-clock times the timezone skips or
/// repeats (possible before 1982 alone) has no rendering.
pub fn get_prayer_times(store: &PrayerTimeStore, zone_code: &str, from: Date, to: Date) -> (r:
    Option<WaktuSolatResponse>)
    ensures
        ({
            let sel = store@.filter(in_range_pred(zone_code@, from, to));
            &&& (r is Some) == (forall|i: int|
                0 <= i < sel.len() ==> record_renderable(#[trigger] sel[i]))
            &&& r matches Some(resp) ==> {
                &&& resp.data@.len() == sel.len()
                &&& forall|i: int|
                    0 <= i < sel.len() ==> waktu_matches_record(#[trigger] resp.data@[i], sel[i])
            }
        }),
{
    let selected = store.select_prayer_times_for_zone(zone_code, from, to);
    let n = selected.len();
    let mut data: Vec<WaktuSolat> = Vec::new();
    let mut i: usize = 0;
    while i < n
        invariant
            n == selected@.len(),
            i <= n,
            data@.len() == i,
            selected@ == store@.filter(in_range_pred(zone_code@, from, to)),
            forall|k: int| 0 <= k < i ==> record_renderable(#[trigger] selected@[k]),
            forall|k: int|
                0 <= k < i ==> waktu_matches_record(#[trigger] data@[k], selected@[k]),
        decreases n - i,
    {
        match WaktuSolat::from_record(&selected[i]) {
            Some(w) => {
                data.push(w);
            },
            None => {
                return None;
            },
        }
        i = i + 1;
    }
    Some(WaktuSolatResponse { data })
}

/// One catalog entry as the read path lists it.
pub struct Zone {
    pub zone: String,
    pub state: String,
    pub location: String,
}

/// `z` lists the catalog entry `u` exactly.
pub open spec fn zone_matches_entry(z: Zone, u: UpsertZone) -> bool {
    &&& z.zone@ == u.zone_code@
    &&& z.state@ == u.state@
    &&& z.location@ == u.location@
}

impl Zone {
    /// Lists one catalog entry.
    pub fn from_upsert(u: &UpsertZone) -> (z: Zone)
        ensures
            zone_matches_entry(z, *u),
    {
        Zone {
            zone: u.zone_code.clone(),
            state: u.state.clone(),
            location: u.location.clone(),
        }
    }
}

/// The read path's answer for the whole catalog.
pub struct ZonesResponse {
    pub data: Vec<Zone>,
}

/// Lists every catalog entry, in ascending order of zone code.
pub fn get_zones(store: &ZoneStore) -> (r: ZonesResponse)
    requires
        zones_wf(store@),
    ensures
        r.data@.len() == store@.len(),
        forall|i: int|
            0 <= i < store@.len() ==> zone_matches_entry(#[trigger] r.data@[i], store@[i]),
        forall|i: int, j: int|
            0 <= i < j < r.data@.len() ==> crate::text::seq_char_lt(
                (#[trigger] r.data@[i]).zone@,
                (#[trigger] r.data@[j]).zone@,
            ),
{
    let entries = store.select_zones();
    let n = entries.len();
    let mut data: Vec<Zone> = Vec::new();
    let mut i: usize = 0;
    while i < n
        invariant
            n == entries@.len(),
            i <= n,
            data@.len() == i,
            entries@ == store@,
            forall|k: int| 0 <= k < i ==> zone_matches_entry(#[trigger] data@[k], entries@[k]),
        decreases n - i,
    {
        data.push(Zone::from_upsert(&entries[i]));
        i = i + 1;
    }
    ZonesResponse { data }
}

} // verus!
