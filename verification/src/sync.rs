//! The synchronization orchestrator's per-zone core: computing the minimal
//! fetch window from the latest stored date, transforming raw upstream
//! entries into canonical records, and writing them through the store.
//!
//! The networked fetch itself sits outside the library; a caller first asks
//! [`plan_zone_sync`] what to fetch, performs the fetch, and hands the raw
//! entries to [`apply_zone_sync`].

use vstd::prelude::*;

use crate::dates::Date;
use crate::dates::date_le;
use crate::dates::date_lt;
use crate::dates::spec_next_day;
use crate::jakim::PrayerTime;
use crate::parse::ParseError;
use crate::parse::parse_date_text;
use crate::parse::parse_time_text;
use crate::parse::spec_parse_date;
use crate::parse::spec_parse_time;
use crate::store::PrayerTimeStore;
use crate::store::UpsertPrayerTime;
use crate::store::has_key;
use crate::store::has_zone;
use crate::store::lemma_insert_ignore_has_key;
use crate::store::lemma_latest_date_props;
use crate::store::spec_insert_ignore;
use crate::store::spec_latest_date;
use crate::store::store_wf;

verus! {

/// What one run should do for one zone and one requested window: nothing,
/// or fetch exactly the given effective window from the upstream source.
#[derive(Clone, Copy, PartialEq, Eq, Structural, Debug)]
pub enum SyncPlan {
    Skip,
    Fetch { date_start: Date, date_end: Date },
}

/// The resume-window rule. For a requested window [ds, de]:
/// an inverted window is skipped; with no stored history the whole window
/// is fetched; a latest stored date at or past `de` means the zone is
/// already covered; a latest stored date before `ds` is not backfilled
/// further than requested; otherwise the fetch resumes the day after the
/// latest stored date.
pub open spec fn spec_plan_zone_sync(
    s: Seq<UpsertPrayerTime>,
    zone: Seq<char>,
    ds: Date,
    de: Date,
) -> SyncPlan {
    if date_lt(de, ds) {
        SyncPlan::Skip
    } else {
        match spec_latest_date(s, zone) {
            None => SyncPlan::Fetch { date_start: ds, date_end: de },
            Some(d) => if date_le(de, d) {
                SyncPlan::Skip
            } else if date_lt(d, ds) {
                SyncPlan::Fetch { date_start: ds, date_end: de }
            } else {
                SyncPlan::Fetch { date_start: spec_next_day(d), date_end: de }
            },
        }
    }
}

/// Computes the minimal fetch window for one zone: what of the requested
/// [date_start, date_end] window is still missing from the store.
pub fn plan_zone_sync(
    store: &PrayerTimeStore,
    zone_code: &str,
    date_start: Date,
    date_end: Date,
) -> (p: SyncPlan)
    requires
        store_wf(store@),
        date_start.wf(),
        date_end.wf(),
    ensures
        p == spec_plan_zone_sync(store@, zone_code@, date_start, date_end),
        // cold start: a zone with no stored records fetches the requested
        // window exactly
        date_le(date_start, date_end) && !has_zone(store@, zone_code@) ==> p == (SyncPlan::Fetch {
            date_start,
            date_end,
        }),
        // already covered: a latest stored date at or past the window's end
        // means no fetch at all
        forall|d: Date|
            spec_latest_date(store@, zone_code@) == Some(d) && date_le(date_end, d)
                ==> p == SyncPlan::Skip,
        // strict resumption: a latest stored date inside the window resumes
        // the day after it
        forall|d: Date|
            #![auto]
            spec_latest_date(store@, zone_code@) == Some(d) && date_le(date_start, d) && date_lt(
                d,
                date_end,
            ) ==> p == (SyncPlan::Fetch { date_start: spec_next_day(d), date_end }),
        // history before the window is not backfilled further than requested
        forall|d: Date|
            spec_latest_date(store@, zone_code@) == Some(d) && date_lt(d, date_start) && date_le(
                date_start,
                date_end,
            ) ==> p == (SyncPlan::Fetch { date_start, date_end }),
        // a planned fetch window is a well-formed window inside the request
        (p matches SyncPlan::Fetch { date_start: a, date_end: b } ==> a.wf() && b.wf() && date_le(
            a,
            b,
        ) && b == date_end && date_le(date_start, a)),
{
    if date_end.lt(date_start) {
        return SyncPlan::Skip;
    }
    proof {
        lemma_latest_date_props(store@, zone_code@);
    }
    match store.select_last_prayer_time_for_zone(zone_code) {
        None => SyncPlan::Fetch { date_start, date_end },
        Some(d) => {
            if date_end.le(d) {
                SyncPlan::Skip
            } else if d.lt(date_start) {
                SyncPlan::Fetch { date_start, date_end }
            } else {
                proof {
                    let i = choose|i: int|
                        0 <= i < store@.len() && (#[trigger] store@[i]).zone_code@ == zone_code@
                            && store@[i].date == d;
                    assert(store@[i].wf());
                    crate::dates::lemma_wf_date_le_max(date_end);
                }
                SyncPlan::Fetch { date_start: d.next_day(), date_end }
            }
        },
    }
}

/// Every textual field of the raw entry denotes a genuine value.
pub open spec fn entry_ok(e: PrayerTime) -> bool {
    &&& spec_parse_date(e.date@) is Some
    &&& spec_parse_time(e.imsak@) is Some
    &&& spec_parse_time(e.fajr@) is Some
    &&& spec_parse_time(e.syuruk@) is Some
    &&& spec_parse_time(e.dhuhr@) is Some
    &&& spec_parse_time(e.asr@) is Some
    &&& spec_parse_time(e.maghrib@) is Some
    &&& spec_parse_time(e.isha@) is Some
}

/// The error a malformed raw entry is charged with: its date text is read
/// first, its time texts after.
pub open spec fn entry_error(e: PrayerTime) -> ParseError {
    if spec_parse_date(e.date@) is None {
        ParseError::InvalidDate
    } else {
        ParseError::InvalidTime
    }
}

/// The canonical record `r` is exactly the transform of the raw entry `e`
/// for the zone `zone`.
pub open spec fn record_matches_entry(r: UpsertPrayerTime, zone: Seq<char>, e: PrayerTime) -> bool {
    &&& r.zone_code@ == zone
    &&& Some(r.date) == spec_parse_date(e.date@)
    &&& Some(r.imsak) == spec_parse_time(e.imsak@)
    &&& Some(r.fajr) == spec_parse_time(e.fajr@)
    &&& Some(r.syuruk) == spec_parse_time(e.syuruk@)
    &&& Some(r.dhuhr) == spec_parse_time(e.dhuhr@)
    &&& Some(r.asr) == spec_parse_time(e.asr@)
    &&& Some(r.maghrib) == spec_parse_time(e.maghrib@)
    &&& Some(r.isha) == spec_parse_time(e.isha@)
}

/// Some raw entry is malformed, the first such entry is charged with the
/// error `e`, and every entry before it is well formed.
pub open spec fn first_entry_error(entries: Seq<PrayerTime>, e: ParseError) -> bool {
    exists|j: int|
        #![auto]
        {
            &&& 0 <= j < entries.len()
            &&& !entry_ok(entries[j])
            &&& e == entry_error(entries[j])
            &&& forall|k: int| 0 <= k < j ==> entry_ok(entries[k])
        }
}

/// Transforms raw upstream entries into canonical records for one zone.
/// The first malformed entry fails the whole batch.
pub fn transform_prayer_times(zone_code: &str, entries: &Vec<PrayerTime>) -> (r: Result<
    Vec<UpsertPrayerTime>,
    ParseError,
>)
    ensures
        match r {
            Ok(v) => {
                &&& forall|i: int| 0 <= i < entries@.len() ==> entry_ok(#[trigger] entries@[i])
                &&& v@.len() == entries@.len()
                &&& forall|i: int|
                    0 <= i < v@.len() ==> record_matches_entry(
                        #[trigger] v@[i],
                        zone_code@,
                        entries@[i],
                    )
                &&& forall|i: int| 0 <= i < v@.len() ==> (#[trigger] v@[i]).wf()
            },
            Err(e) => first_entry_error(entries@, e),
        },
{
    let n = entries.len();
    let mut out: Vec<UpsertPrayerTime> = Vec::new();
    let mut i: usize = 0;
    while i < n
        invariant
            n == entries@.len(),
            i <= n,
            out@.len() == i,
            forall|k: int| 0 <= k < i ==> entry_ok(#[trigger] entries@[k]),
            forall|k: int|
                0 <= k < i ==> record_matches_entry(#[trigger] out@[k], zone_code@, entries@[k]),
            forall|k: int| 0 <= k < i ==> (#[trigger] out@[k]).wf(),
        decreases n - i,
    {
        let e = &entries[i];
        let date = match parse_date_text(e.date.as_str()) {
            Ok(d) => d,
            Err(err) => {
                return Err(err);
            },
        };
        let imsak = match parse_time_text(e.imsak.as_str()) {
            Ok(t) => t,
            Err(err) => {
                return Err(err);
            },
        };
        let fajr = match parse_time_text(e.fajr.as_str()) {
            Ok(t) => t,
            Err(err) => {
                return Err(err);
            },
        };
        let syuruk = match parse_time_text(e.syuruk.as_str()) {
            Ok(t) => t,
            Err(err) => {
                return Err(err);
            },
        };
        let dhuhr = match parse_time_text(e.dhuhr.as_str()) {
            Ok(t) => t,
            Err(err) => {
                return Err(err);
            },
        };
        let asr = match parse_time_text(e.asr.as_str()) {
            Ok(t) => t,
            Err(err) => {
                return Err(err);
            },
        };
        let maghrib = match parse_time_text(e.maghrib.as_str()) {
            Ok(t) => t,
            Err(err) => {
                return Err(err);
            },
        };
        let isha = match parse_time_text(e.isha.as_str()) {
            Ok(t) => t,
            Err(err) => {
                return Err(err);
            },
        };
        out.push(
            UpsertPrayerTime {
                zone_code: zone_code.to_owned(),
                date,
                imsak,
                fajr,
                syuruk,
                dhuhr,
                asr,
                maghrib,
                isha,
            },
        );
        i = i + 1;
    }
    Ok(out)
}

/// The write-through step of one zone's sync: transforms the fetched raw
/// entries and bulk-inserts them, ignoring (zone, date) keys that are
/// already stored. Returns how many new rows were inserted; a malformed
/// entry fails the step and leaves the store untouched.
pub fn apply_zone_sync(
    store: &mut PrayerTimeStore,
    zone_code: &str,
    entries: &Vec<PrayerTime>,
) -> (r: Result<usize, ParseError>)
    requires
        store_wf(old(store)@),
    ensures
        store_wf(final(store)@),
        old(store)@.is_prefix_of(final(store)@),
        match r {
            Ok(n) => {
                &&& forall|i: int| 0 <= i < entries@.len() ==> entry_ok(#[trigger] entries@[i])
                &&& exists|b: Seq<UpsertPrayerTime>|
                    #![auto]
                    {
                        &&& b.len() == entries@.len()
                        &&& forall|i: int|
                            0 <= i < b.len() ==> record_matches_entry(
                                b[i],
                                zone_code@,
                                entries@[i],
                            )
                        &&& final(store)@ == spec_insert_ignore(old(store)@, b)
                    }
                &&& n == final(store)@.len() - old(store)@.len()
            },
            Err(e) => {
                &&& final(store)@ == old(store)@
                &&& first_entry_error(entries@, e)
            },
        },
{
    let len_before = store.len();
    match transform_prayer_times(zone_code, entries) {
        Ok(batch) => {
            store.upsert_prayer_times(&batch);
            let len_after = store.len();
            Ok(len_after - len_before)
        },
        Err(e) => {
            proof {
                assert(old(store)@.is_prefix_of(final(store)@)) by {
                    assert(old(store)@ =~= final(store)@.take(old(store)@.len() as int));
                }
            }
            Err(e)
        },
    }
}

/// Relies on chrono (Utc::now, DateTime::with_timezone, DateTime::date_naive
/// and the Datelike accessors) with chrono-tz's Asia/Kuala_Lumpur table: the
/// current civil date in the service's fixed operating timezone. chrono only
/// produces genuine calendar dates, so the month is in 1..=12 and the day in
/// 1..=31; nothing more can be said of a clock reading.
#[verifier::external_body]
fn today_kuala_lumpur_ymd() -> (r: (i32, u32, u32))
    ensures
        1 <= r.1 <= 12,
        1 <= r.2 <= 31,
{
    let today = chrono::Utc::now().with_timezone(&chrono_tz::Asia::Kuala_Lumpur).date_naive();
    (
        chrono::Datelike::year(&today),
        chrono::Datelike::month(&today),
        chrono::Datelike::day(&today),
    )
}

/// Which years a top-level sync run covers, given the current year in the
/// operating timezone: that year and the next one, as the year-boundary
/// lookahead — and nothing when the pair would leave the four-digit range
/// the library represents.
pub fn target_years(year: i32) -> (r: Option<(i32, i32)>)
    ensures
        r == (if 1 <= year <= 9998 {
            Some((year, (year + 1) as i32))
        } else {
            None::<(i32, i32)>
        }),
{
    if 1 <= year && year <= 9998 {
        Some((year, year + 1))
    } else {
        None
    }
}

/// The two calendar years a top-level sync run covers: [`target_years`] of
/// the current year in the operating timezone.
pub fn sync_target_years() -> (r: Option<(i32, i32)>)
    ensures
        r matches Some(y) ==> y.1 == y.0 + 1 && 1 <= y.0 && y.1 <= 9999,
{
    let (year, _month, _day) = today_kuala_lumpur_ymd();
    target_years(year)
}

/// The whole of one zone's sync for one requested window, over a
/// deterministic upstream source: `upstream(a, b)` stands for the canonical
/// records that fetching and transforming the window [a, b] yields.
pub open spec fn spec_zone_sync(
    s: Seq<UpsertPrayerTime>,
    zone: Seq<char>,
    ds: Date,
    de: Date,
    upstream: spec_fn(Date, Date) -> Seq<UpsertPrayerTime>,
) -> Seq<UpsertPrayerTime> {
    match spec_plan_zone_sync(s, zone, ds, de) {
        SyncPlan::Skip => s,
        SyncPlan::Fetch { date_start: a, date_end: b } => spec_insert_ignore(s, upstream(a, b)),
    }
}

/// Idempotency of the per-zone sync: when the upstream source answers every
/// window ending at `de` with a batch that carries the zone's record for
/// `de` itself, running the sync a second time right after a first run
/// changes nothing.
pub proof fn lemma_zone_sync_idempotent(
    s: Seq<UpsertPrayerTime>,
    zone: Seq<char>,
    ds: Date,
    de: Date,
    upstream: spec_fn(Date, Date) -> Seq<UpsertPrayerTime>,
)
    requires
        forall|a: Date| has_key(#[trigger] upstream(a, de), zone, de),
    ensures
        spec_zone_sync(spec_zone_sync(s, zone, ds, de, upstream), zone, ds, de, upstream)
            == spec_zone_sync(s, zone, ds, de, upstream),
{
    let s1 = spec_zone_sync(s, zone, ds, de, upstream);
    match spec_plan_zone_sync(s, zone, ds, de) {
        SyncPlan::Skip => {
        },
        SyncPlan::Fetch { date_start: a, date_end: b } => {
            let batch = upstream(a, de);
            lemma_insert_ignore_has_key(s, batch, zone, de);
            assert(has_key(s1, zone, de));
            lemma_latest_date_props(s1, zone);
            match spec_latest_date(s1, zone) {
                None => {
                    let i = choose|i: int|
                        0 <= i < s1.len() && (#[trigger] s1[i]).zone_code@ == zone && s1[i].date
                            == de;
                    assert(has_zone(s1, zone));
                },
                Some(m) => {
                    let i = choose|i: int|
                        0 <= i < s1.len() && (#[trigger] s1[i]).zone_code@ == zone && s1[i].date
                            == de;
                    assert(date_le(de, m));
                },
            }
        },
    }
}

} // verus!
