//! The canonical record store: one row per (zone, date), written through an
//! idempotent bulk insert that silently ignores keys that are already present.

use vstd::prelude::*;

use crate::dates::Date;
use crate::dates::TimeOfDay;
use crate::dates::date_le;
use crate::dates::date_lt;
use crate::text::str_eq;

verus! {

/// One canonical prayer-time row: a zone, a calendar date, and the seven
/// daily times. At most one row per (zone, date) pair ever exists in a store.
pub struct UpsertPrayerTime {
    pub zone_code: String,
    pub date: Date,
    pub imsak: TimeOfDay,
    pub fajr: TimeOfDay,
    pub syuruk: TimeOfDay,
    pub dhuhr: TimeOfDay,
    pub asr: TimeOfDay,
    pub maghrib: TimeOfDay,
    pub isha: TimeOfDay,
}

impl UpsertPrayerTime {
    /// The date is a genuine calendar date and every time is a genuine
    /// wall-clock time.
    pub open spec fn wf(self) -> bool {
        &&& self.date.wf()
        &&& self.imsak.wf()
        &&& self.fajr.wf()
        &&& self.syuruk.wf()
        &&& self.dhuhr.wf()
        &&& self.asr.wf()
        &&& self.maghrib.wf()
        &&& self.isha.wf()
    }
}

impl Clone for UpsertPrayerTime {
    fn clone(&self) -> (r: Self)
        ensures
            r == *self,
    {
        UpsertPrayerTime {
            zone_code: self.zone_code.clone(),
            date: self.date,
            imsak: self.imsak,
            fajr: self.fajr,
            syuruk: self.syuruk,
            dhuhr: self.dhuhr,
            asr: self.asr,
            maghrib: self.maghrib,
            isha: self.isha,
        }
    }
}

/// Some row of `s` carries the key (`zone`, `date`).
pub open spec fn has_key(s: Seq<UpsertPrayerTime>, zone: Seq<char>, date: Date) -> bool {
    exists|i: int|
        0 <= i < s.len() && (#[trigger] s[i]).zone_code@ == zone && s[i].date == date
}

/// Some row of `s` belongs to `zone`.
pub open spec fn has_zone(s: Seq<UpsertPrayerTime>, zone: Seq<char>) -> bool {
    exists|i: int| 0 <= i < s.len() && (#[trigger] s[i]).zone_code@ == zone
}

/// Every row is well formed and no two rows share a (zone, date) key.
pub open spec fn store_wf(s: Seq<UpsertPrayerTime>) -> bool {
    &&& forall|i: int| 0 <= i < s.len() ==> (#[trigger] s[i]).wf()
    &&& forall|i: int, j: int|
        0 <= i < j < s.len() ==> !((#[trigger] s[i]).zone_code@ == (#[trigger] s[j]).zone_code@
            && s[i].date == s[j].date)
}

/// The rows that a bulk insert with insert-ignore semantics leaves behind:
/// each batch row whose key is not yet present is appended, in batch order;
/// the rest are dropped.
pub open spec fn spec_insert_ignore(
    s: Seq<UpsertPrayerTime>,
    b: Seq<UpsertPrayerTime>,
) -> Seq<UpsertPrayerTime>
    decreases b.len(),
{
    if b.len() == 0 {
        s
    } else if has_key(s, b[0].zone_code@, b[0].date) {
        spec_insert_ignore(s, b.drop_first())
    } else {
        spec_insert_ignore(s.push(b[0]), b.drop_first())
    }
}

/// The most recent date among the rows of `zone`, or `None` when the zone
/// has no rows.
pub open spec fn spec_latest_date(s: Seq<UpsertPrayerTime>, zone: Seq<char>) -> Option<Date>
    decreases s.len(),
{
    if s.len() == 0 {
        None
    } else {
        let prev = spec_latest_date(s.drop_last(), zone);
        if s.last().zone_code@ == zone {
            match prev {
                None => Some(s.last().date),
                Some(d) => if date_lt(d, s.last().date) {
                    Some(s.last().date)
                } else {
                    Some(d)
                },
            }
        } else {
            prev
        }
    }
}

/// Membership in one zone's inclusive date range.
pub open spec fn in_range_pred(zone: Seq<char>, from: Date, to: Date) -> spec_fn(
    UpsertPrayerTime,
) -> bool {
    |rec: UpsertPrayerTime|
        rec.zone_code@ == zone && date_le(from, rec.date) && date_le(rec.date, to)
}

/// The canonical record store.
pub struct PrayerTimeStore {
    records: Vec<UpsertPrayerTime>,
}

impl View for PrayerTimeStore {
    type V = Seq<UpsertPrayerTime>;

    closed spec fn view(&self) -> Seq<UpsertPrayerTime> {
        self.records@
    }
}

impl PrayerTimeStore {
    pub fn new() -> (r: PrayerTimeStore)
        ensures
            r@ == Seq::<UpsertPrayerTime>::empty(),
            store_wf(r@),
    {
        PrayerTimeStore { records: Vec::new() }
    }

    pub fn len(&self) -> (r: usize)
        ensures
            r == self@.len(),
    {
        self.records.len()
    }

    /// Whether a row with the key (`zone_code`, `date`) is already stored.
    pub fn contains_key(&self, zone_code: &str, date: Date) -> (r: bool)
        ensures
            r == has_key(self@, zone_code@, date),
    {
        let n = self.records.len();
        let mut i: usize = 0;
        while i < n
            invariant
                n == self@.len(),
                i <= n,
                forall|j: int|
                    0 <= j < i ==> !((#[trigger] self@[j]).zone_code@ == zone_code@
                        && self@[j].date == date),
            decreases n - i,
        {
            let rec = &self.records[i];
            if str_eq(rec.zone_code.as_str(), zone_code) && rec.date == date {
                return true;
            }
            i = i + 1;
        }
        false
    }

    /// The most recent stored date for a zone, or `None` when the zone has
    /// no stored rows yet.
    pub fn select_last_prayer_time_for_zone(&self, zone_code: &str) -> (r: Option<Date>)
        ensures
            r == spec_latest_date(self@, zone_code@),
    {
        let n = self.records.len();
        let mut best: Option<Date> = None;
        let mut i: usize = 0;
        while i < n
            invariant
                n == self@.len(),
                i <= n,
                best == spec_latest_date(self@.take(i as int), zone_code@),
            decreases n - i,
        {
            let rec = &self.records[i];
            proof {
                assert(self@.take(i + 1).drop_last() =~= self@.take(i as int));
                assert(self@.take(i + 1).last() == self@[i as int]);
            }
            if str_eq(rec.zone_code.as_str(), zone_code) {
                best = match best {
                    None => Some(rec.date),
                    Some(d) => if d.lt(rec.date) {
                        Some(rec.date)
                    } else {
                        Some(d)
                    },
                };
            }
            i = i + 1;
        }
        proof {
            assert(self@.take(n as int) =~= self@);
        }
        best
    }

    /// The zone's rows whose date falls in the inclusive range [from, to],
    /// in store order.
    pub fn select_prayer_times_for_zone(&self, zone_code: &str, from: Date, to: Date) -> (r: Vec<
        UpsertPrayerTime,
    >)
        ensures
            r@ == self@.filter(in_range_pred(zone_code@, from, to)),
    {
        let ghost pred = in_range_pred(zone_code@, from, to);
        proof {
            reveal(Seq::filter);
            assert(self@.take(0).filter(pred) =~= Seq::<UpsertPrayerTime>::empty());
        }
        let n = self.records.len();
        let mut out: Vec<UpsertPrayerTime> = Vec::new();
        let mut i: usize = 0;
        while i < n
            invariant
                n == self@.len(),
                i <= n,
                out@ == self@.take(i as int).filter(pred),
                pred == in_range_pred(zone_code@, from, to),
            decreases n - i,
        {
            let rec = &self.records[i];
            proof {
                reveal(Seq::filter);
                assert(self@.take(i + 1).drop_last() =~= self@.take(i as int));
                assert(self@.take(i + 1).last() == self@[i as int]);
            }
            if str_eq(rec.zone_code.as_str(), zone_code) && from.le(rec.date) && rec.date.le(to) {
                out.push(rec.clone());
            }
            i = i + 1;
        }
        proof {
            assert(self@.take(n as int) =~= self@);
        }
        out
    }

    /// Bulk insert with insert-ignore semantics: batch rows whose (zone, date)
    /// key is already present — in the store or earlier in the batch — are
    /// silently dropped; the rest are appended in batch order. Rows that were
    /// already stored are never modified.
    pub fn upsert_prayer_times(&mut self, batch: &Vec<UpsertPrayerTime>)
        requires
            store_wf(old(self)@),
            forall|i: int| 0 <= i < batch@.len() ==> (#[trigger] batch@[i]).wf(),
        ensures
            final(self)@ == spec_insert_ignore(old(self)@, batch@),
            store_wf(final(self)@),
            // rows that were already stored are left untouched
            old(self)@.is_prefix_of(final(self)@),
            // afterwards the stored keys are exactly the old keys and the
            // batch's keys
            forall|zone: Seq<char>, date: Date|
                has_key(final(self)@, zone, date) == (has_key(old(self)@, zone, date) || has_key(
                    batch@,
                    zone,
                    date,
                )),
    {
        let ghost orig = self.records@;
        proof {
            assert(batch@.skip(0) =~= batch@);
        }
        let n = batch.len();
        let mut i: usize = 0;
        while i < n
            invariant
                n == batch@.len(),
                i <= n,
                store_wf(self.records@),
                forall|j: int| 0 <= j < batch@.len() ==> (#[trigger] batch@[j]).wf(),
                spec_insert_ignore(orig, batch@) == spec_insert_ignore(
                    self.records@,
                    batch@.skip(i as int),
                ),
                orig.is_prefix_of(self.records@),
            decreases n - i,
        {
            let rec = &batch[i];
            proof {
                assert(batch@.skip(i as int).drop_first() =~= batch@.skip(i + 1));
                assert(batch@.skip(i as int)[0] == batch@[i as int]);
            }
            if !self.contains_key(rec.zone_code.as_str(), rec.date) {
                let ghost before = self.records@;
                self.records.push(rec.clone());
                proof {
                    lemma_push_fresh_key_wf(before, batch@[i as int]);
                    assert(before.is_prefix_of(self.records@)) by {
                        assert(before =~= self.records@.take(before.len() as int));
                    }
                }
            }
            i = i + 1;
        }
        proof {
            assert(batch@.skip(n as int) =~= Seq::<UpsertPrayerTime>::empty());
            assert forall|zone: Seq<char>, date: Date|
                has_key(self.records@, zone, date) == (has_key(orig, zone, date) || has_key(
                    batch@,
                    zone,
                    date,
                )) by {
                lemma_insert_ignore_has_key(orig, batch@, zone, date);
            }
        }
    }
}

/// What the latest stored date means: `None` exactly when the zone has no
/// rows; otherwise the date of one of the zone's rows, and no row of the
/// zone is more recent.
pub proof fn lemma_latest_date_props(s: Seq<UpsertPrayerTime>, zone: Seq<char>)
    ensures
        match spec_latest_date(s, zone) {
            None => !has_zone(s, zone),
            Some(d) => {
                &&& has_key(s, zone, d)
                &&& forall|i: int|
                    0 <= i < s.len() && (#[trigger] s[i]).zone_code@ == zone ==> date_le(
                        s[i].date,
                        d,
                    )
            },
        },
    decreases s.len(),
{
    if s.len() > 0 {
        let prefix = s.drop_last();
        lemma_latest_date_props(prefix, zone);
        assert(forall|i: int| 0 <= i < prefix.len() ==> prefix[i] == s[i]);
        match spec_latest_date(s, zone) {
            None => {
                assert(!has_zone(s, zone)) by {
                    assert(forall|i: int|
                        0 <= i < s.len() ==> (#[trigger] s[i]).zone_code@ != zone) by {
                        assert(s.last().zone_code@ != zone);
                    }
                }
            },
            Some(d) => {
                if s.last().zone_code@ == zone && s.last().date == d {
                    assert(has_key(s, zone, d)) by {
                        assert((s[s.len() - 1]).zone_code@ == zone && s[s.len() - 1].date == d);
                    }
                } else {
                    assert(has_key(prefix, zone, d));
                    let i = choose|i: int|
                        0 <= i < prefix.len() && (#[trigger] prefix[i]).zone_code@ == zone
                            && prefix[i].date == d;
                    assert((s[i]).zone_code@ == zone && s[i].date == d);
                }
            },
        }
    }
}

/// A stored key stays stored, and a batch key becomes stored: insert-ignore
/// leaves behind exactly the union of the old keys and the batch's keys.
pub proof fn lemma_insert_ignore_has_key(
    s: Seq<UpsertPrayerTime>,
    b: Seq<UpsertPrayerTime>,
    zone: Seq<char>,
    date: Date,
)
    ensures
        has_key(spec_insert_ignore(s, b), zone, date) == (has_key(s, zone, date) || has_key(
            b,
            zone,
            date,
        )),
    decreases b.len(),
{
    if b.len() == 0 {
    } else {
        let rest = b.drop_first();
        assert(forall|i: int| 0 <= i < rest.len() ==> rest[i] == b[i + 1]);
        if has_key(s, b[0].zone_code@, b[0].date) {
            lemma_insert_ignore_has_key(s, rest, zone, date);
            if b[0].zone_code@ == zone && b[0].date == date {
                assert(has_key(b, zone, date));
                assert(has_key(s, zone, date));
            }
            assert(has_key(b, zone, date) == (b[0].zone_code@ == zone && b[0].date == date
                || has_key(rest, zone, date))) by {
                lemma_has_key_cons(b, zone, date);
            }
        } else {
            let s2 = s.push(b[0]);
            lemma_insert_ignore_has_key(s2, rest, zone, date);
            assert(has_key(s2, zone, date) == (has_key(s, zone, date) || (b[0].zone_code@ == zone
                && b[0].date == date))) by {
                lemma_has_key_push(s, b[0], zone, date);
            }
            lemma_has_key_cons(b, zone, date);
        }
    }
}

/// A nonempty batch holds a key exactly when its head carries it or its
/// tail holds it.
proof fn lemma_has_key_cons(b: Seq<UpsertPrayerTime>, zone: Seq<char>, date: Date)
    requires
        b.len() > 0,
    ensures
        has_key(b, zone, date) == (b[0].zone_code@ == zone && b[0].date == date || has_key(
            b.drop_first(),
            zone,
            date,
        )),
{
    let rest = b.drop_first();
    assert(forall|i: int| 0 <= i < rest.len() ==> rest[i] == b[i + 1]);
    if has_key(b, zone, date) {
        let i = choose|i: int|
            0 <= i < b.len() && (#[trigger] b[i]).zone_code@ == zone && b[i].date == date;
        if i > 0 {
            assert((rest[i - 1]).zone_code@ == zone && rest[i - 1].date == date);
        }
    }
    if has_key(rest, zone, date) {
        let i = choose|i: int|
            0 <= i < rest.len() && (#[trigger] rest[i]).zone_code@ == zone && rest[i].date == date;
        assert((b[i + 1]).zone_code@ == zone && b[i + 1].date == date);
    }
}

/// Appending one row adds exactly that row's key.
proof fn lemma_has_key_push(s: Seq<UpsertPrayerTime>, r: UpsertPrayerTime, zone: Seq<char>, date: Date)
    ensures
        has_key(s.push(r), zone, date) == (has_key(s, zone, date) || (r.zone_code@ == zone
            && r.date == date)),
{
    let s2 = s.push(r);
    if has_key(s2, zone, date) {
        let i = choose|i: int|
            0 <= i < s2.len() && (#[trigger] s2[i]).zone_code@ == zone && s2[i].date == date;
        if i < s.len() {
            assert((s[i]).zone_code@ == zone && s[i].date == date);
        }
    }
    if has_key(s, zone, date) {
        let i = choose|i: int|
            0 <= i < s.len() && (#[trigger] s[i]).zone_code@ == zone && s[i].date == date;
        assert((s2[i]).zone_code@ == zone && s2[i].date == date);
    }
    if r.zone_code@ == zone && r.date == date {
        assert((s2[s.len() as int]).zone_code@ == zone && s2[s.len() as int].date == date);
    }
}

/// A batch whose every key is already present is absorbed: insert-ignore
/// leaves the store exactly as it was.
pub proof fn lemma_insert_ignore_absorbed(s: Seq<UpsertPrayerTime>, b: Seq<UpsertPrayerTime>)
    requires
        forall|i: int|
            0 <= i < b.len() ==> has_key(s, (#[trigger] b[i]).zone_code@, b[i].date),
    ensures
        spec_insert_ignore(s, b) == s,
    decreases b.len(),
{
    if b.len() > 0 {
        let rest = b.drop_first();
        assert(forall|i: int| 0 <= i < rest.len() ==> rest[i] == b[i + 1]);
        assert(has_key(s, b[0].zone_code@, b[0].date));
        lemma_insert_ignore_absorbed(s, rest);
    }
}

/// Inserting the same batch a second time changes nothing: the bulk insert
/// is idempotent.
pub proof fn lemma_insert_ignore_idempotent(s: Seq<UpsertPrayerTime>, b: Seq<UpsertPrayerTime>)
    ensures
        spec_insert_ignore(spec_insert_ignore(s, b), b) == spec_insert_ignore(s, b),
{
    let t = spec_insert_ignore(s, b);
    assert forall|i: int| 0 <= i < b.len() implies has_key(
        t,
        (#[trigger] b[i]).zone_code@,
        b[i].date,
    ) by {
        lemma_insert_ignore_has_key(s, b, b[i].zone_code@, b[i].date);
        assert(has_key(b, b[i].zone_code@, b[i].date));
    }
    lemma_insert_ignore_absorbed(t, b);
}

/// Appending a well-formed row whose key is fresh keeps a store well formed.
proof fn lemma_push_fresh_key_wf(s: Seq<UpsertPrayerTime>, r: UpsertPrayerTime)
    requires
        store_wf(s),
        r.wf(),
        !has_key(s, r.zone_code@, r.date),
    ensures
        store_wf(s.push(r)),
{
    let s2 = s.push(r);
    assert forall|i: int, j: int| 0 <= i < j < s2.len() implies !((#[trigger] s2[i]).zone_code@
        == (#[trigger] s2[j]).zone_code@ && s2[i].date == s2[j].date) by {
        if j == s.len() {
            assert(s2[i] == s[i]);
            assert(s2[j] == r);
        }
    }
}

} // verus!
