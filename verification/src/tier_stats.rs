//! Per-tier contract counters, kept sorted by tier.

use vstd::prelude::*;

verus! {

/// Contract counters for one tier.
#[derive(Clone, Copy, Debug, PartialEq, Eq, Structural)]
pub struct TierRecord {
    pub tier: u32,
    pub completed: u32,
    pub failed: u32,
    pub attempted: u32,
    pub abandoned: u32,
}

/// Which counter of a tier to count.
#[derive(Clone, Copy, Debug, PartialEq, Eq, Structural)]
pub enum TierCounter {
    Completed,
    Failed,
    Attempted,
    Abandoned,
}

pub open spec fn tiers_sorted(s: Seq<TierRecord>) -> bool {
    forall|i: int, j: int| 0 <= i < j < s.len() ==> (#[trigger] s[i]).tier < (#[trigger] s[j]).tier
}

pub open spec fn records_to_map(s: Seq<TierRecord>) -> Map<u32, TierRecord> {
    Map::new(
        |t: u32| exists|i: int| 0 <= i < s.len() && s[i].tier == t,
        |t: u32| s[choose|i: int| 0 <= i < s.len() && s[i].tier == t],
    )
}

/// The record of a tier, all zero when the tier has none.
pub open spec fn record_of(m: Map<u32, TierRecord>, t: u32) -> TierRecord {
    if m.contains_key(t) {
        m[t]
    } else {
        TierRecord { tier: t, completed: 0, failed: 0, attempted: 0, abandoned: 0 }
    }
}

pub open spec fn counter_of(r: TierRecord, c: TierCounter) -> u32 {
    match c {
        TierCounter::Completed => r.completed,
        TierCounter::Failed => r.failed,
        TierCounter::Attempted => r.attempted,
        TierCounter::Abandoned => r.abandoned,
    }
}

pub open spec fn bumped(r: TierRecord, c: TierCounter) -> TierRecord {
    match c {
        TierCounter::Completed => TierRecord { completed: (r.completed + 1) as u32, ..r },
        TierCounter::Failed => TierRecord { failed: (r.failed + 1) as u32, ..r },
        TierCounter::Attempted => TierRecord { attempted: (r.attempted + 1) as u32, ..r },
        TierCounter::Abandoned => TierRecord { abandoned: (r.abandoned + 1) as u32, ..r },
    }
}

proof fn lemma_record_lookup(s: Seq<TierRecord>, i: int)
    requires
        tiers_sorted(s),
        0 <= i < s.len(),
    ensures
        records_to_map(s).contains_key(s[i].tier),
        records_to_map(s)[s[i].tier] == s[i],
{
    let t = s[i].tier;
    assert(exists|k: int| 0 <= k < s.len() && s[k].tier == t);
    let k = choose|k: int| 0 <= k < s.len() && s[k].tier == t;
    if k != i {
        if k < i {
            assert(s[k].tier < s[i].tier);
        } else {
            assert(s[i].tier < s[k].tier);
        }
    }
}

/// Per-tier counters as records sorted by tier; every record's key is its tier.
pub struct TierStats {
    records: Vec<TierRecord>,
}

impl View for TierStats {
    type V = Map<u32, TierRecord>;

    closed spec fn view(&self) -> Map<u32, TierRecord> {
        records_to_map(self.records@)
    }
}

impl TierStats {
    /// The records in tier order.
    pub closed spec fn listing(&self) -> Seq<TierRecord> {
        self.records@
    }

    pub closed spec fn wf(&self) -> bool {
        tiers_sorted(self.records@)
    }

    /// The listing is sorted by tier and describes exactly the counters.
    pub proof fn lemma_listing(&self)
        requires
            self.wf(),
        ensures
            tiers_sorted(self.listing()),
            records_to_map(self.listing()) == self@,
    {
    }

    pub fn new() -> (r: Self)
        ensures
            r.wf(),
            r@ == Map::<u32, TierRecord>::empty(),
    {
        let r = TierStats { records: Vec::new() };
        assert(r@ =~= Map::<u32, TierRecord>::empty());
        r
    }

    fn search(&self, t: u32) -> (r: Result<usize, usize>)
        requires
            self.wf(),
        ensures
            r matches Ok(i) ==> i < self.records@.len() && self.records@[i as int].tier == t,
            r matches Err(p) ==> p <= self.records@.len() && (forall|j: int|
                0 <= j < p ==> self.records@[j].tier < t) && (forall|j: int|
                p <= j < self.records@.len() ==> t < self.records@[j].tier),
    {
        let mut i: usize = 0;
        while i < self.records.len()
            invariant
                self.wf(),
                i <= self.records@.len(),
                forall|j: int| 0 <= j < i ==> self.records@[j].tier < t,
            decreases self.records.len() - i,
        {
            let k = self.records[i].tier;
            if k == t {
                return Ok(i);
            }
            if k > t {
                assert forall|j: int| i <= j < self.records@.len() implies t
                    < self.records@[j].tier by {
                    if j > i {
                        assert(self.records@[i as int].tier < self.records@[j].tier);
                    }
                }
                return Err(i);
            }
            i = i + 1;
        }
        Err(i)
    }

    /// The record of tier `t` (all zero when absent).
    pub fn get(&self, t: u32) -> (r: TierRecord)
        requires
            self.wf(),
        ensures
            r == record_of(self@, t),
    {
        match self.search(t) {
            Ok(i) => {
                proof {
                    lemma_record_lookup(self.records@, i as int);
                }
                self.records[i]
            },
            Err(_) => {
                proof {
                    if self@.contains_key(t) {
                        let k = choose|k: int| 0 <= k < self.records@.len() && self.records@[k].tier == t;
                    }
                }
                TierRecord { tier: t, completed: 0, failed: 0, attempted: 0, abandoned: 0 }
            },
        }
    }

    /// Counts one more contract of tier `t` under counter `c`.
    pub fn bump(&mut self, t: u32, c: TierCounter)
        requires
            old(self).wf(),
            counter_of(record_of(old(self)@, t), c) < u32::MAX,
        ensures
            final(self).wf(),
            final(self)@ == old(self)@.insert(t, bumped(record_of(old(self)@, t), c)),
    {
        let ghost old_s = self.records@;
        let cur = self.get(t);
        let next = match c {
            TierCounter::Completed => TierRecord { completed: cur.completed + 1, ..cur },
            TierCounter::Failed => TierRecord { failed: cur.failed + 1, ..cur },
            TierCounter::Attempted => TierRecord { attempted: cur.attempted + 1, ..cur },
            TierCounter::Abandoned => TierRecord { abandoned: cur.abandoned + 1, ..cur },
        };
        match self.search(t) {
            Ok(i) => {
                self.records.set(i, next);
                proof {
                    lemma_record_lookup(old_s, i as int);
                    let s = self.records@;
                    assert(tiers_sorted(s)) by {
                        assert forall|a: int, b: int| 0 <= a < b < s.len() implies (
                        #[trigger] s[a]).tier < (#[trigger] s[b]).tier by {
                            assert(old_s[a].tier < old_s[b].tier);
                        }
                    }
                    lemma_set_record(old_s, i as int, next);
                }
            },
            Err(p) => {
                self.records.insert(p, next);
                proof {
                    let s = self.records@;
                    assert(s =~= old_s.insert(p as int, next));
                    assert(tiers_sorted(s)) by {
                        assert forall|a: int, b: int| 0 <= a < b < s.len() implies (
                        #[trigger] s[a]).tier < (#[trigger] s[b]).tier by {
                            if b < p {
                                assert(old_s[a].tier < old_s[b].tier);
                            } else if b == p {
                            } else if a < p {
                                assert(s[b] == old_s[b - 1]);
                            } else if a == p {
                                assert(s[b] == old_s[b - 1]);
                            } else {
                                assert(old_s[a - 1].tier < old_s[b - 1].tier);
                            }
                        }
                    }
                    lemma_insert_record(old_s, p as int, next);
                }
            },
        }
    }

    /// The records in tier order.
    pub fn records(&self) -> (r: &Vec<TierRecord>)
        ensures
            r@ == self.listing(),
    {
        &self.records
    }
}

proof fn lemma_set_record(s: Seq<TierRecord>, i: int, v: TierRecord)
    requires
        tiers_sorted(s),
        0 <= i < s.len(),
        v.tier == s[i].tier,
    ensures
        records_to_map(s.update(i, v)) == records_to_map(s).insert(s[i].tier, v),
{
    let t = s[i].tier;
    let s2 = s.update(i, v);
    let m1 = records_to_map(s2);
    let m2 = records_to_map(s).insert(t, v);
    assert(tiers_sorted(s2)) by {
        assert forall|a: int, b: int| 0 <= a < b < s2.len() implies (#[trigger] s2[a]).tier < (
        #[trigger] s2[b]).tier by {
            assert(s[a].tier < s[b].tier);
        }
    }
    assert forall|u: u32| m1.contains_key(u) <==> m2.contains_key(u) by {
        if u == t {
            assert(s2[i].tier == t);
            assert(s[i].tier == t);
        }
        if m2.contains_key(u) && u != t {
            let k = choose|k: int| 0 <= k < s.len() && s[k].tier == u;
            assert(s2[k].tier == u);
        }
        if m1.contains_key(u) {
            let k = choose|k: int| 0 <= k < s2.len() && s2[k].tier == u;
            if u != t {
                assert(s[k].tier == u);
            }
        }
    }
    assert forall|u: u32| m1.contains_key(u) implies m1[u] == m2[u] by {
        let k = choose|k: int| 0 <= k < s2.len() && s2[k].tier == u;
        lemma_record_lookup(s2, k);
        if u != t {
            lemma_record_lookup(s, k);
        } else {
            lemma_record_lookup(s2, i);
        }
    }
    assert(m1 =~= m2);
}

proof fn lemma_insert_record(s: Seq<TierRecord>, p: int, v: TierRecord)
    requires
        tiers_sorted(s.insert(p, v)),
        0 <= p <= s.len(),
    ensures
        records_to_map(s.insert(p, v)) == records_to_map(s).insert(v.tier, v),
{
    let t = v.tier;
    let s2 = s.insert(p, v);
    let m1 = records_to_map(s2);
    let m2 = records_to_map(s).insert(t, v);
    assert(tiers_sorted(s)) by {
        assert forall|a: int, b: int| 0 <= a < b < s.len() implies (#[trigger] s[a]).tier < (
        #[trigger] s[b]).tier by {
            let a2 = if a < p {
                a
            } else {
                a + 1
            };
            let b2 = if b < p {
                b
            } else {
                b + 1
            };
            assert(s[a] == s2[a2]);
            assert(s[b] == s2[b2]);
        }
    }
    assert forall|u: u32| m1.contains_key(u) <==> m2.contains_key(u) by {
        if m2.contains_key(u) && u != t {
            let k = choose|k: int| 0 <= k < s.len() && s[k].tier == u;
            let k2 = if k < p {
                k
            } else {
                k + 1
            };
            assert(s2[k2].tier == u);
        }
        if u == t {
            assert(s2[p].tier == t);
        }
        if m1.contains_key(u) && u != t {
            let k = choose|k: int| 0 <= k < s2.len() && s2[k].tier == u;
            if k < p {
                assert(s[k].tier == u);
            } else if k > p {
                assert(s[k - 1].tier == u);
            }
        }
    }
    assert forall|u: u32| m1.contains_key(u) implies m1[u] == m2[u] by {
        let k = choose|k: int| 0 <= k < s2.len() && s2[k].tier == u;
        lemma_record_lookup(s2, k);
        if u != t {
            let k0 = if k < p {
                k
            } else {
                k - 1
            };
            assert(s[k0] == s2[k]);
            lemma_record_lookup(s, k0);
        } else {
            lemma_record_lookup(s2, p);
        }
    }
    assert(m1 =~= m2);
}

} // verus!
