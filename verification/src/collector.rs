//! The reference-count tracker: for each live allocation a global total
//! count, and for each active call frame a delta accumulated since that
//! frame was entered. At frame exit the delta decides which allocations
//! became unreachable and must be reclaimed.
use vstd::prelude::*;

verus! {

/// A hash table from allocation base address to a signed count. The table
/// itself comes from an outside crate; its contents are named by
/// [`addr_map_contents`] and every operation the tracker uses is stated over
/// that name.
#[verifier::external_body]
pub struct AddrMap {
    map: fxhash::FxHashMap<usize, i64>,
}

/// The key-to-count mapping an [`AddrMap`] holds.
pub uninterp spec fn addr_map_contents(m: AddrMap) -> Map<usize, i64>;

impl AddrMap {
    /// Relies on `fxhash::FxHashMap` (a `std::collections::HashMap` with the
    /// crate's hasher): a freshly built table is empty.
    #[verifier::external_body]
    pub fn new() -> (r: AddrMap)
        ensures
            addr_map_contents(r).dom() == Set::<usize>::empty(),
    {
        AddrMap { map: fxhash::FxHashMap::with_capacity_and_hasher(20, fxhash::FxBuildHasher::default()) }
    }

    /// Relies on `HashMap::get`: returns the value stored under the key, if
    /// any.
    #[verifier::external_body]
    pub fn get(&self, k: usize) -> (r: Option<i64>)
        ensures
            r == if addr_map_contents(*self).dom().contains(k) {
                Some(addr_map_contents(*self)[k])
            } else {
                None::<i64>
            },
    {
        self.map.get(&k).copied()
    }

    /// Relies on `HashMap::insert`: stores the value under the key,
    /// replacing any previous one.
    #[verifier::external_body]
    pub fn insert(&mut self, k: usize, v: i64)
        ensures
            addr_map_contents(*final(self)) == addr_map_contents(*old(self)).insert(k, v),
    {
        self.map.insert(k, v);
    }

    /// Relies on `HashMap::remove`: deletes the key's entry if present.
    #[verifier::external_body]
    pub fn remove(&mut self, k: usize)
        ensures
            addr_map_contents(*final(self)) == addr_map_contents(*old(self)).remove(k),
    {
        self.map.remove(&k);
    }

    /// Relies on `HashMap::iter`: hands out every entry exactly once. The
    /// order is whatever order the table walks its buckets in; nothing is
    /// stated of it.
    #[verifier::external_body]
    pub fn entries(&self) -> (r: Vec<(usize, i64)>)
        ensures
            forall|i: int| 0 <= i < r@.len() ==> {
                &&& addr_map_contents(*self).dom().contains((#[trigger] r@[i]).0)
                &&& addr_map_contents(*self)[r@[i].0] == r@[i].1
            },
            forall|k: usize|
                addr_map_contents(*self).dom().contains(k) ==> exists|i: int|
                    0 <= i < r@.len() && (#[trigger] r@[i]).0 == k,
            forall|i: int, j: int| 0 <= i < j < r@.len() ==> r@[i].0 != r@[j].0,
    {
        self.map.iter().map(|p| (*p.0, *p.1)).collect()
    }

    /// Relies on `HashMap::clone`: the copy holds the same entries.
    #[verifier::external_body]
    pub fn duplicate(&self) -> (r: AddrMap)
        ensures
            addr_map_contents(r) == addr_map_contents(*self),
    {
        AddrMap { map: self.map.clone() }
    }
}

/// The mathematical state of a [`Collector`]: the global count per live
/// base address, and one delta map per active frame, innermost last.
#[verifier::ext_equal]
pub ghost struct CollectorModel {
    /// Global count for each counted base address
    pub total: Map<usize, i64>,
    /// Per-frame deltas; the last entry belongs to the innermost frame
    pub deltas: Seq<Map<usize, i64>>,
}

/// Scoped reference counting over allocation base addresses. One instance
/// belongs to one interpreter run.
pub struct Collector {
    total: AddrMap,
    diff: Vec<AddrMap>,
}

impl View for Collector {
    type V = CollectorModel;

    closed spec fn view(&self) -> CollectorModel {
        CollectorModel {
            total: addr_map_contents(self.total),
            deltas: self.diff@.map_values(|m: AddrMap| addr_map_contents(m)),
        }
    }
}

impl CollectorModel {
    /// The global count of an address; zero when the address is not counted.
    pub open spec fn total_of(self, a: usize) -> i64 {
        if self.total.dom().contains(a) {
            self.total[a]
        } else {
            0
        }
    }

    /// The innermost frame's delta for an address; zero when absent.
    pub open spec fn delta_of(self, a: usize) -> i64 {
        if self.deltas.len() > 0 && self.deltas.last().dom().contains(a) {
            self.deltas.last()[a]
        } else {
            0
        }
    }

    /// Every stored count is strictly positive: the maps never hold
    /// exhausted or negative entries.
    pub open spec fn wf(self) -> bool {
        &&& forall|a: usize| self.total.dom().contains(a) ==> self.total[a] >= 1
        &&& forall|i: int, a: usize|
            0 <= i < self.deltas.len() && (#[trigger] self.deltas[i].dom().contains(a))
                ==> self.deltas[i][a] >= 1
    }
}

impl Default for Collector {
    /// A fresh tracker: no counts, no frames.
    fn default() -> (r: Self)
        ensures
            r@.total == Map::<usize, i64>::empty(),
            r@.deltas == Seq::<Map<usize, i64>>::empty(),
            r@.wf(),
    {
        Collector { total: AddrMap::new(), diff: Vec::new() }
    }
}

impl Collector {
    /// To call as soon as a function call enters a new frame: opens an empty
    /// delta map for it.
    pub fn enter(&mut self)
        ensures
            final(self)@.total == old(self)@.total,
            final(self)@.deltas == old(self)@.deltas.push(Map::<usize, i64>::empty()),
            old(self)@.wf() ==> final(self)@.wf(),
    {
        let top = AddrMap::new();
        proof {
            assert(addr_map_contents(top) =~= Map::<usize, i64>::empty());
        }
        self.diff.push(top);
        proof {
            assert(self@.deltas =~= old(self)@.deltas.push(Map::<usize, i64>::empty()));
        }
    }

    /// How many frames the tracker currently follows.
    pub fn depth(&self) -> (r: usize)
        ensures
            r == self@.deltas.len(),
    {
        self.diff.len()
    }

    /// The global count of an address, zero when it is not counted.
    pub fn count_of(&self, address: usize) -> (r: i64)
        ensures
            r == self@.total_of(address),
    {
        match self.total.get(address) {
            Some(c) => c,
            None => 0,
        }
    }

    /// The innermost frame's delta for an address, zero when absent.
    pub fn delta_of(&self, address: usize) -> (r: i64)
        requires
            self@.deltas.len() > 0,
        ensures
            r == self@.delta_of(address),
    {
        let top = &self.diff[self.diff.len() - 1];
        match top.get(address) {
            Some(c) => c,
            None => 0,
        }
    }

    /// Count one more holder of the address: the global count and the
    /// innermost frame's delta each grow by one.
    pub fn increment(&mut self, address: usize)
        requires
            old(self)@.deltas.len() > 0,
            old(self)@.total_of(address) < i64::MAX,
            old(self)@.delta_of(address) < i64::MAX,
            old(self)@.wf(),
        ensures
            final(self)@.wf(),
            final(self)@.deltas.len() == old(self)@.deltas.len(),
            final(self)@.total == old(self)@.total.insert(
                address,
                (old(self)@.total_of(address) + 1) as i64,
            ),
            final(self)@.deltas.last() == old(self)@.deltas.last().insert(
                address,
                (old(self)@.delta_of(address) + 1) as i64,
            ),
            forall|i: int| 0 <= i < old(self)@.deltas.len() - 1
                ==> final(self)@.deltas[i] == old(self)@.deltas[i],
    {
        let a = address;
        let mut top = self.diff.pop().unwrap();
        let old_delta = match top.get(a) {
            Some(c) => c,
            None => 0,
        };
        top.insert(a, 1 + old_delta);
        self.diff.push(top);
        let old_total = match self.total.get(a) {
            Some(c) => c,
            None => 0,
        };
        self.total.insert(a, 1 + old_total);
        proof {
            assert(self@.deltas =~= old(self)@.deltas.drop_last().push(addr_map_contents(top)));
        }
    }

    /// Count one holder of the address gone. Returns true exactly when the
    /// global count reached zero, which removes the address from the table
    /// altogether; the caller must then treat the allocation as dead.
    pub fn decrement(&mut self, address: usize) -> (zero: bool)
        requires
            old(self)@.deltas.len() > 0,
            old(self)@.delta_of(address) >= 1,
            old(self)@.wf(),
        ensures
            final(self)@.wf(),
            final(self)@.deltas.len() == old(self)@.deltas.len(),
            zero == (old(self)@.total_of(address) <= 1),
            final(self)@.total == if old(self)@.total_of(address) <= 1 {
                old(self)@.total.remove(address)
            } else {
                old(self)@.total.insert(address, (old(self)@.total_of(address) - 1) as i64)
            },
            final(self)@.deltas.last() == if old(self)@.total_of(address) <= 1
                || old(self)@.delta_of(address) <= 1 {
                old(self)@.deltas.last().remove(address)
            } else {
                old(self)@.deltas.last().insert(
                    address,
                    (old(self)@.delta_of(address) - 1) as i64,
                )
            },
            forall|i: int| 0 <= i < old(self)@.deltas.len() - 1
                ==> final(self)@.deltas[i] == old(self)@.deltas[i],
    {
        let a = address;
        let mut top = self.diff.pop().unwrap();
        let top_old = match top.get(a) {
            Some(c) => c,
            None => 0,
        };
        let top_new = top_old - 1;
        let tot_old = match self.total.get(a) {
            Some(c) => c,
            None => 0,
        };
        let zero = tot_old <= 1;
        if zero {
            self.total.remove(a);
            top.remove(a);
        } else {
            if top_new <= 0 {
                top.remove(a);
            } else {
                top.insert(a, top_new);
            }
            self.total.insert(a, tot_old - 1);
        }
        self.diff.push(top);
        proof {
            assert(self@.deltas =~= old(self)@.deltas.drop_last().push(addr_map_contents(top)));
            assert forall|i: int, a: usize|
                0 <= i < self@.deltas.len() && #[trigger] self@.deltas[i].dom().contains(a)
                    implies self@.deltas[i][a] >= 1 by {
                if i < self@.deltas.len() - 1 {
                    assert(self@.deltas[i] == old(self)@.deltas[i]);
                }
            }
            assert forall|a: usize| #[trigger] self@.total.dom().contains(a)
                    implies self@.total[a] >= 1 by {
                if a != address {
                    assert(self@.total[a] == old(self)@.total[a]);
                }
            }
        }
        zero
    }

    /// An exact copy of the tracker, for the speculative checkpoint.
    pub fn duplicate(&self) -> (r: Collector)
        ensures
            r@ == self@,
    {
        let total = self.total.duplicate();
        let mut diff: Vec<AddrMap> = Vec::new();
        let mut i: usize = 0;
        while i < self.diff.len()
            invariant
                0 <= i <= self.diff@.len(),
                diff@.len() == i,
                forall|j: int| 0 <= j < i ==> addr_map_contents(#[trigger] diff@[j])
                    == addr_map_contents(self.diff@[j]),
            decreases self.diff@.len() - i,
        {
            diff.push(self.diff[i].duplicate());
            i += 1;
        }
        let r = Collector { total, diff };
        proof {
            assert(r@.deltas =~= self@.deltas);
            assert(r@ =~= self@);
        }
        r
    }

    /// To call right before a function exits: drops the innermost frame's
    /// delta map and subtracts it from the global counts. Returns every
    /// address whose count thereby reached zero, in no particular order;
    /// those allocations are unreachable unless the caller immediately
    /// re-counts one of them as a returned value.
    pub fn exeunt(&mut self) -> (garbage: Vec<usize>)
        requires
            old(self)@.deltas.len() > 0,
            old(self)@.wf(),
        ensures
            final(self)@.wf(),
            final(self)@.deltas == old(self)@.deltas.drop_last(),
            // every counted address keeps its count less the frame's delta,
            // and drops out of the table when that difference is no longer positive
            forall|a: usize| #[trigger] final(self)@.total.dom().contains(a) <==> (
                old(self)@.total.dom().contains(a)
                    && old(self)@.total_of(a) - old(self)@.delta_of(a) > 0
            ),
            forall|a: usize| final(self)@.total.dom().contains(a)
                ==> #[trigger] final(self)@.total[a]
                    == old(self)@.total_of(a) - old(self)@.delta_of(a),
            // the result lists exactly the addresses whose count reached zero
            forall|a: usize| #[trigger] garbage@.contains(a) <==> (
                old(self)@.total.dom().contains(a)
                    && old(self)@.total_of(a) - old(self)@.delta_of(a) == 0
            ),
            forall|a: usize| old(self)@.total.dom().contains(a)
                && old(self)@.total_of(a) - #[trigger] old(self)@.delta_of(a) == 0
                    ==> garbage@.contains(a),
            forall|i: int, j: int| 0 <= i < j < garbage@.len() ==> garbage@[i] != garbage@[j],
    {
        let ghost pre = self@;
        let top = self.diff.pop().unwrap();
        proof {
            assert(self@.deltas =~= pre.deltas.drop_last());
            assert(addr_map_contents(top) == pre.deltas.last());
        }
        let ghost top_map = addr_map_contents(top);
        let pairs = top.entries();
        let mut garbo: Vec<usize> = Vec::new();
        let mut idx: usize = 0;
        while idx < pairs.len()
            invariant
                0 <= idx <= pairs@.len(),
                // facts about the popped frame's entries
                forall|i: int| 0 <= i < pairs@.len() ==> {
                    &&& top_map.dom().contains((#[trigger] pairs@[i]).0)
                    &&& top_map[pairs@[i].0] == pairs@[i].1
                },
                forall|k: usize| top_map.dom().contains(k) ==> exists|i: int|
                    0 <= i < pairs@.len() && (#[trigger] pairs@[i]).0 == k,
                forall|i: int, j: int| 0 <= i < j < pairs@.len() ==> pairs@[i].0 != pairs@[j].0,
                forall|k: usize| #[trigger] top_map.dom().contains(k) ==> top_map[k] >= 1,
                // the pre-state
                pre.wf(),
                pre.deltas.len() > 0,
                pre.deltas.last() == top_map,
                self@.deltas == pre.deltas.drop_last(),
                // entries not yet visited are untouched; visited ones are settled
                forall|a: usize| #[trigger] self@.total.dom().contains(a) <==> (
                    pre.total.dom().contains(a)
                        && (visited(pairs@, idx as int, a)
                            ==> pre.total_of(a) - top_map[a] > 0)
                ),
                forall|a: usize| self@.total.dom().contains(a)
                    ==> #[trigger] self@.total[a] == if visited(pairs@, idx as int, a) {
                        pre.total_of(a) - top_map[a]
                    } else {
                        pre.total_of(a) as int
                    },
                forall|a: usize| #[trigger] garbo@.contains(a) <==> (
                    pre.total.dom().contains(a)
                        && visited(pairs@, idx as int, a)
                        && pre.total_of(a) - top_map[a] == 0
                ),
                forall|i: int, j: int| 0 <= i < j < garbo@.len() ==> garbo@[i] != garbo@[j],
            decreases pairs@.len() - idx,
        {
            let (key, val) = pairs[idx];
            proof {
                assert(top_map.dom().contains(key) && top_map[key] == val && val >= 1);
                assert(!visited(pairs@, idx as int, key));
            }
            let t = match self.total.get(key) {
                Some(c) => c,
                None => 0,
            };
            proof {
                if self@.total.dom().contains(key) {
                    assert(pre.total.dom().contains(key));
                    assert(t == pre.total_of(key));
                    assert(t >= 1);
                } else {
                    assert(t == 0);
                }
            }
            let ghost garbo_pre = garbo@;
            if t != 0 {
                let t_new = t - val;
                if t_new == 0 {
                    garbo.push(key);
                    self.total.remove(key);
                    proof {
                        assert(garbo@ == garbo_pre.push(key));
                        assert(garbo@[garbo@.len() - 1] == key);
                        assert(garbo@.contains(key));
                        assert forall|a: usize| #[trigger] garbo@.contains(a) && a != key
                                implies garbo_pre.contains(a) by {
                            let i = choose|i: int| 0 <= i < garbo@.len() && garbo@[i] == a;
                            assert(garbo@[i] == a);
                            if i == garbo_pre.len() {
                                assert(garbo@[i] == key);
                            }
                            assert(i < garbo_pre.len());
                            assert(garbo_pre[i] == a);
                        }
                        assert forall|a: usize| garbo_pre.contains(a)
                                implies #[trigger] garbo@.contains(a) by {
                            let i = choose|i: int| 0 <= i < garbo_pre.len() && garbo_pre[i] == a;
                            assert(garbo@[i] == a);
                        }
                        assert(!garbo_pre.contains(key));
                        assert forall|i: int, j: int| 0 <= i < j < garbo@.len()
                                implies garbo@[i] != garbo@[j] by {
                            if j == garbo@.len() - 1 {
                                assert(garbo@[i] == garbo_pre[i]);
                                assert(garbo@[j] == key);
                                if garbo_pre[i] == key {
                                    assert(garbo_pre.contains(key));
                                }
                            } else {
                                assert(garbo@[i] == garbo_pre[i]);
                                assert(garbo@[j] == garbo_pre[j]);
                            }
                        }
                    }
                } else if t_new > 0 {
                    self.total.insert(key, t_new);
                } else {
                    // the frame counted more holders than exist globally:
                    // the address is already past zero, so it is gone
                    self.total.remove(key);
                }
            }
            idx += 1;
            proof {
                assert(0 <= idx - 1 < idx && pairs@[idx - 1].0 == key);
                assert forall|a: usize| #[trigger] visited(pairs@, idx as int, a)
                        <==> (visited(pairs@, idx as int - 1, a) || a == key) by {
                    if visited(pairs@, idx as int, a) && !visited(pairs@, idx as int - 1, a) {
                        let i = choose|i: int|
                            0 <= i < idx && (#[trigger] pairs@[i]).0 == a;
                        assert(i == idx - 1);
                    }
                    if a == key {
                        assert(0 <= idx - 1 < idx && pairs@[idx - 1].0 == a);
                    }
                    if visited(pairs@, idx as int - 1, a) {
                        let i = choose|i: int|
                            0 <= i < idx - 1 && (#[trigger] pairs@[i]).0 == a;
                        assert(0 <= i < idx && pairs@[i].0 == a);
                    }
                }
            }
        }
        proof {
            assert forall|a: usize| top_map.dom().contains(a)
                    implies #[trigger] visited(pairs@, pairs@.len() as int, a) by {
                let i = choose|i: int|
                    0 <= i < pairs@.len() && (#[trigger] pairs@[i]).0 == a;
            }
            assert forall|a: usize| !top_map.dom().contains(a)
                    implies pre.delta_of(a) == 0 by {}
            assert forall|a: usize| (pre.total.dom().contains(a)
                    && pre.total_of(a) - #[trigger] pre.delta_of(a) == 0)
                    implies garbo@.contains(a) by {
                assert(pre.total_of(a) >= 1);
                assert(top_map.dom().contains(a));
                assert(visited(pairs@, pairs@.len() as int, a));
                assert(pre.total_of(a) - top_map[a] == 0);
            }
            assert forall|a: usize| #[trigger] garbo@.contains(a)
                    implies pre.total.dom().contains(a)
                        && pre.total_of(a) - pre.delta_of(a) == 0 by {
                assert(visited(pairs@, pairs@.len() as int, a));
                let i = choose|i: int|
                    0 <= i < pairs@.len() && (#[trigger] pairs@[i]).0 == a;
                assert(top_map.dom().contains(a));
                assert(pre.delta_of(a) == top_map[a]);
            }
        }
        garbo
    }
}

/// Whether an address appears among the first `n` of the popped frame's
/// entries, and so has already been settled by the exit walk.
pub open spec fn visited(pairs: Seq<(usize, i64)>, n: int, a: usize) -> bool {
    exists|i: int| 0 <= i < n && (#[trigger] pairs[i]).0 == a
}

} // verus!
