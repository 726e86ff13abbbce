//! The zone catalog: one entry per zone code, kept in ascending order of
//! zone code, loaded by an idempotent upsert that overwrites the descriptive
//! fields of an already-known zone.

use vstd::prelude::*;

use crate::text::lemma_seq_char_lt_total;
use crate::text::lemma_seq_char_lt_trans;
use crate::text::seq_char_lt;
use crate::text::str_eq;
use crate::text::str_lt;

verus! {

/// One catalog entry: a zone code with its descriptive state and location.
pub struct UpsertZone {
    pub zone_code: String,
    pub state: String,
    pub location: String,
}

impl Clone for UpsertZone {
    fn clone(&self) -> (r: Self)
        ensures
            r == *self,
    {
        UpsertZone {
            zone_code: self.zone_code.clone(),
            state: self.state.clone(),
            location: self.location.clone(),
        }
    }
}

/// Some entry of `s` carries the zone code `code`.
pub open spec fn zone_has_code(s: Seq<UpsertZone>, code: Seq<char>) -> bool {
    exists|i: int| 0 <= i < s.len() && (#[trigger] s[i]).zone_code@ == code
}

/// The catalog is strictly sorted by zone code — in particular, no two
/// entries share a code.
pub open spec fn zones_wf(s: Seq<UpsertZone>) -> bool {
    forall|i: int, j: int|
        0 <= i < j < s.len() ==> seq_char_lt(
            (#[trigger] s[i]).zone_code@,
            (#[trigger] s[j]).zone_code@,
        )
}

/// The catalog an upsert leaves behind: a known zone code is overwritten in
/// place, a new one is inserted at its sorted position.
pub open spec fn spec_upsert_zone(s: Seq<UpsertZone>, z: UpsertZone) -> Seq<UpsertZone>
    decreases s.len(),
{
    if s.len() == 0 {
        seq![z]
    } else if seq_char_lt(s[0].zone_code@, z.zone_code@) {
        seq![s[0]] + spec_upsert_zone(s.drop_first(), z)
    } else if s[0].zone_code@ == z.zone_code@ {
        seq![z] + s.drop_first()
    } else {
        seq![z] + s
    }
}

/// The catalog that upserting a whole batch, first to last, leaves behind.
pub open spec fn spec_upsert_zones(s: Seq<UpsertZone>, b: Seq<UpsertZone>) -> Seq<UpsertZone>
    decreases b.len(),
{
    if b.len() == 0 {
        s
    } else {
        spec_upsert_zones(spec_upsert_zone(s, b[0]), b.drop_first())
    }
}

/// The zone catalog store.
pub struct ZoneStore {
    zones: Vec<UpsertZone>,
}

impl View for ZoneStore {
    type V = Seq<UpsertZone>;

    closed spec fn view(&self) -> Seq<UpsertZone> {
        self.zones@
    }
}

impl ZoneStore {
    pub fn new() -> (r: ZoneStore)
        ensures
            r@ == Seq::<UpsertZone>::empty(),
            zones_wf(r@),
    {
        ZoneStore { zones: Vec::new() }
    }

    pub fn len(&self) -> (r: usize)
        ensures
            r == self@.len(),
    {
        self.zones.len()
    }

    /// Inserts a new zone at its sorted position, or overwrites the
    /// descriptive fields of the zone that already carries this code.
    pub fn upsert_zone(&mut self, zone: UpsertZone)
        requires
            zones_wf(old(self)@),
        ensures
            zones_wf(final(self)@),
            final(self)@ == spec_upsert_zone(old(self)@, zone),
    {
        let ghost orig = self.zones@;
        proof {
            assert(orig.take(0) =~= Seq::<UpsertZone>::empty());
            assert(orig.skip(0) =~= orig);
            assert(orig.take(0) + spec_upsert_zone(orig.skip(0), zone) =~= spec_upsert_zone(
                orig,
                zone,
            ));
        }
        let n = self.zones.len();
        let mut i: usize = 0;
        while i < n
            invariant
                n == self.zones@.len(),
                i <= n,
                self.zones@ == orig,
                orig == old(self)@,
                zones_wf(orig),
                forall|j: int|
                    0 <= j < i ==> seq_char_lt((#[trigger] orig[j]).zone_code@, zone.zone_code@),
                spec_upsert_zone(orig, zone) == orig.take(i as int) + spec_upsert_zone(
                    orig.skip(i as int),
                    zone,
                ),
            decreases n - i,
        {
            proof {
                assert(orig.skip(i as int)[0] == orig[i as int]);
                assert(orig.skip(i as int).drop_first() =~= orig.skip(i + 1));
            }
            if str_lt(self.zones[i].zone_code.as_str(), zone.zone_code.as_str()) {
                proof {
                    assert(orig.take(i as int) + (seq![orig[i as int]] + spec_upsert_zone(
                        orig.skip(i + 1),
                        zone,
                    )) =~= orig.take(i + 1) + spec_upsert_zone(orig.skip(i + 1), zone));
                }
                i = i + 1;
            } else if str_eq(self.zones[i].zone_code.as_str(), zone.zone_code.as_str()) {
                self.zones[i] = zone;
                proof {
                    assert(self.zones@ =~= orig.take(i as int) + (seq![zone] + orig.skip(i + 1)));
                    assert forall|p: int, q: int| 0 <= p < q < self.zones@.len() implies seq_char_lt(
                        (#[trigger] self.zones@[p]).zone_code@,
                        (#[trigger] self.zones@[q]).zone_code@,
                    ) by {
                        assert(self.zones@[p].zone_code@ == orig[p].zone_code@);
                        assert(self.zones@[q].zone_code@ == orig[q].zone_code@);
                    }
                }
                return ;
            } else {
                proof {
                    lemma_seq_char_lt_total(orig[i as int].zone_code@, zone.zone_code@);
                    assert(seq_char_lt(zone.zone_code@, orig[i as int].zone_code@));
                }
                self.zones.insert(i, zone);
                proof {
                    assert(self.zones@ =~= orig.take(i as int) + (seq![zone] + orig.skip(i as int)));
                    assert forall|p: int, q: int| 0 <= p < q < self.zones@.len() implies seq_char_lt(
                        (#[trigger] self.zones@[p]).zone_code@,
                        (#[trigger] self.zones@[q]).zone_code@,
                    ) by {
                        if p < i && q == i {
                        } else if p == i && q > i {
                            assert(self.zones@[q] == orig[q - 1]);
                            if q - 1 > i {
                                lemma_seq_char_lt_trans(
                                    zone.zone_code@,
                                    orig[i as int].zone_code@,
                                    orig[q - 1].zone_code@,
                                );
                            }
                        } else if p < i && q > i {
                            assert(self.zones@[q] == orig[q - 1]);
                        } else if p > i && q > i {
                            assert(self.zones@[p] == orig[p - 1]);
                            assert(self.zones@[q] == orig[q - 1]);
                        }
                    }
                }
                return ;
            }
        }
        proof {
            assert(orig.skip(n as int) =~= Seq::<UpsertZone>::empty());
        }
        self.zones.push(zone);
        proof {
            assert(self.zones@ =~= orig.take(n as int) + seq![zone]);
            assert forall|p: int, q: int| 0 <= p < q < self.zones@.len() implies seq_char_lt(
                (#[trigger] self.zones@[p]).zone_code@,
                (#[trigger] self.zones@[q]).zone_code@,
            ) by {
                if q == n {
                    assert(self.zones@[p] == orig[p]);
                }
            }
        }
    }

    /// Upserts a whole catalog batch, in batch order.
    pub fn upsert_zones_from_data(&mut self, batch: &Vec<UpsertZone>)
        requires
            zones_wf(old(self)@),
        ensures
            zones_wf(final(self)@),
            final(self)@ == spec_upsert_zones(old(self)@, batch@),
    {
        let ghost orig = self.zones@;
        proof {
            assert(batch@.skip(0) =~= batch@);
        }
        let n = batch.len();
        let mut i: usize = 0;
        while i < n
            invariant
                n == batch@.len(),
                i <= n,
                zones_wf(self@),
                spec_upsert_zones(orig, batch@) == spec_upsert_zones(self@, batch@.skip(i as int)),
            decreases n - i,
        {
            proof {
                assert(batch@.skip(i as int).drop_first() =~= batch@.skip(i + 1));
                assert(batch@.skip(i as int)[0] == batch@[i as int]);
            }
            self.upsert_zone(batch[i].clone());
            i = i + 1;
        }
        proof {
            assert(batch@.skip(n as int) =~= Seq::<UpsertZone>::empty());
        }
    }

    /// All catalog entries, in ascending order of zone code.
    pub fn select_zones(&self) -> (r: Vec<UpsertZone>)
        requires
            zones_wf(self@),
        ensures
            r@ == self@,
            forall|i: int, j: int|
                0 <= i < j < r@.len() ==> seq_char_lt(
                    (#[trigger] r@[i]).zone_code@,
                    (#[trigger] r@[j]).zone_code@,
                ),
    {
        let n = self.zones.len();
        let mut out: Vec<UpsertZone> = Vec::new();
        let mut i: usize = 0;
        while i < n
            invariant
                n == self.zones@.len(),
                i <= n,
                out@ =~= self.zones@.take(i as int),
            decreases n - i,
        {
            out.push(self.zones[i].clone());
            i = i + 1;
        }
        proof {
            assert(self.zones@.take(n as int) =~= self.zones@);
        }
        out
    }
}

} // verus!
