//! The tier manager: which expert's tensor resides in which tier.
//!
//! The manager owns the cache entries. Each resides in one tier at a time.
//! A new entry is placed in the fastest tier whose bound can hold it; the
//! entries it pushes out move one tier down, the least recently used first,
//! and are never dropped: the network tier takes what finds no room above.

use vstd::prelude::*;
use crate::assemble::{assemble, assembly_gives};
use crate::error::AuriaError;
use crate::ids::{ExpertId, ShardId};
use crate::placement::{
    count, distinct, entry_of, evict_from, has_room, is_oldest, lemma_evict_from,
    lemma_oldest_exists, lemma_oldest_unique, lemma_place, lemma_push, lemma_remove,
    lemma_settle, lemma_settle_from_anywhere, lemma_touched, lemma_used_prefix, lemma_used_push,
    lemma_used_remove, lemma_used_step, oldest, place_of, promotion, resident, settle,
    settle_all, slower, touched, used, within, Capacities, Placed,
};
use crate::router::Topology;
use crate::store::ShardStore;
use crate::tensor::{Tensor, TensorView};
use crate::types::{
    EntryView, ExpertCacheEntry, ExpertView, ShardView, StorageStats, StorageTier,
};

verus! {

/// A cache entry as it resides in `tier`.
pub open spec fn placed_entry(entry: EntryView, tier: StorageTier) -> Placed {
    Placed {
        expert_id: entry.expert_id,
        tensor: entry.tensor,
        last_used: entry.last_used_timestamp,
        tier,
    }
}

/// A cache entry and the tier it resides in.
struct Resident {
    entry: ExpertCacheEntry,
    tier: StorageTier,
}

impl Resident {
    spec fn placed(self) -> Placed {
        placed_entry(self.entry@, self.tier)
    }
}

/// The placed entries of a list of residents, in order.
spec fn placed_all(residents: Seq<Resident>) -> Seq<Placed> {
    Seq::new(residents.len(), |i: int| residents[i].placed())
}

/// The tier manager.
pub struct TierManager {
    residents: Vec<Resident>,
    caps: Capacities,
}

impl View for TierManager {
    type V = Seq<Placed>;

    closed spec fn view(&self) -> Seq<Placed> {
        placed_all(self.residents@)
    }
}

impl StorageTier {
    /// The next slower tier; the network tier is the last.
    pub fn next_slower(&self) -> (next: StorageTier)
        ensures
            next == slower(*self),
    {
        match self {
            StorageTier::Vram => StorageTier::Ram,
            StorageTier::Ram => StorageTier::Disk,
            StorageTier::Disk => StorageTier::Network,
            StorageTier::Network => StorageTier::Network,
        }
    }
}

impl Capacities {
    /// The bound of a tier in bytes; zero for the network tier, which has
    /// none.
    pub fn bound(&self, tier: StorageTier) -> (bytes: u64)
        ensures
            bytes == self.of(tier),
    {
        match tier {
            StorageTier::Vram => self.vram,
            StorageTier::Ram => self.ram,
            StorageTier::Disk => self.disk,
            StorageTier::Network => 0,
        }
    }
}

impl TierManager {
    /// The bounds of the fast tiers.
    pub closed spec fn capacities(&self) -> Capacities {
        self.caps
    }

    /// What holds of every manager: no expert has two entries, and each
    /// fast tier is within its bound.
    pub closed spec fn wf(&self) -> bool {
        &&& distinct(self@)
        &&& within(self@, self.caps)
    }

    /// At any moment an expert resides in one tier only, and each fast tier
    /// is within its bound.
    pub proof fn lemma_invariant(&self)
        requires
            self.wf(),
        ensures
            distinct(self@),
            within(self@, self.capacities()),
    {
    }

    /// A manager without entries, for tiers of the given bounds.
    pub fn new(caps: Capacities) -> (manager: Self)
        ensures
            manager.wf(),
            manager@ == Seq::<Placed>::empty(),
            manager.capacities() == caps,
    {
        let manager = TierManager { residents: Vec::new(), caps };
        assert(manager@ =~= Seq::<Placed>::empty());
        manager
    }

    /// The bounds of the fast tiers.
    pub fn bounds(&self) -> (caps: Capacities)
        ensures
            caps == self.capacities(),
    {
        self.caps
    }

    /// The place of the entry of the expert `id`, if it has one.
    fn find(&self, id: &ExpertId) -> (at: Option<usize>)
        requires
            self.wf(),
        ensures
            at is Some <==> resident(self@, *id),
            at is Some ==> at->Some_0 < self.residents.len() && at->Some_0 == place_of(self@, *id)
                && self@[at->Some_0 as int].expert_id == *id,
    {
        let mut i: usize = 0;
        while i < self.residents.len()
            invariant
                self.wf(),
                i <= self.residents.len(),
                forall|k: int| 0 <= k < i ==> (#[trigger] self@[k]).expert_id != *id,
            decreases self.residents.len() - i,
        {
            if self.residents[i].entry.expert_id == *id {
                proof {
                    assert(self@[i as int].expert_id == *id);
                    lemma_place(self@, i as int);
                }
                return Some(i);
            }
            assert(self@[i as int].expert_id != *id);
            i += 1;
        }
        None
    }

    /// The tier in which the expert `id` resides, if it has an entry.
    pub fn tier_of(&self, id: &ExpertId) -> (tier: Option<StorageTier>)
        requires
            self.wf(),
        ensures
            tier is Some <==> resident(self@, *id),
            tier is Some ==> tier->Some_0 == entry_of(self@, *id).tier,
    {
        match self.find(id) {
            Some(i) => Some(self.residents[i].tier),
            None => None,
        }
    }

    /// The number of entries in `tier`.
    pub fn count_in(&self, tier: StorageTier) -> (n: usize)
        requires
            self.wf(),
        ensures
            n == count(self@, tier),
    {
        let mut n: usize = 0;
        let mut i: usize = 0;
        assert(self@.take(0) =~= Seq::<Placed>::empty());
        while i < self.residents.len()
            invariant
                i <= self.residents.len(),
                n == count(self@.take(i as int), tier),
                n <= i,
            decreases self.residents.len() - i,
        {
            proof {
                lemma_used_step(self@, i as int, tier);
            }
            if self.residents[i].tier == tier {
                n += 1;
            }
            i += 1;
        }
        assert(self@.take(i as int) =~= self@);
        n
    }

    /// How many entries reside in each of the three fast tiers at this
    /// moment.
    pub fn stats(&self) -> (stats: StorageStats)
        requires
            self.wf(),
        ensures
            stats.vram_count == count(self@, StorageTier::Vram),
            stats.ram_count == count(self@, StorageTier::Ram),
            stats.disk_count == count(self@, StorageTier::Disk),
    {
        StorageStats {
            vram_count: self.count_in(StorageTier::Vram),
            ram_count: self.count_in(StorageTier::Ram),
            disk_count: self.count_in(StorageTier::Disk) as u64,
        }
    }

    /// The bytes that the entries of a fast tier take.
    pub fn used_in(&self, tier: StorageTier) -> (bytes: u64)
        requires
            self.wf(),
            tier != StorageTier::Network,
        ensures
            bytes == used(self@, tier),
            bytes <= self.capacities().of(tier),
    {
        let mut bytes: u64 = 0;
        let mut i: usize = 0;
        assert(self@.take(0) =~= Seq::<Placed>::empty());
        while i < self.residents.len()
            invariant
                self.wf(),
                tier != StorageTier::Network,
                i <= self.residents.len(),
                bytes == used(self@.take(i as int), tier),
            decreases self.residents.len() - i,
        {
            proof {
                lemma_used_step(self@, i as int, tier);
                lemma_used_prefix(self@, i as int + 1, tier);
            }
            if self.residents[i].tier == tier {
                bytes += self.residents[i].entry.tensor.data.len() as u64;
            }
            i += 1;
        }
        assert(self@.take(i as int) =~= self@);
        bytes
    }

    /// The place of the least recently used entry of `tier`, if the tier
    /// holds any.
    fn oldest_in(&self, tier: StorageTier) -> (at: Option<usize>)
        requires
            self.wf(),
        ensures
            at is Some ==> at->Some_0 < self.residents.len() && at->Some_0 == oldest(self@, tier)
                && is_oldest(self@, tier, at->Some_0 as int),
            at is None ==> forall|k: int| 0 <= k < self@.len() ==> (#[trigger] self@[k]).tier != tier,
            at is None ==> !is_oldest(self@, tier, oldest(self@, tier)),
    {
        let mut best: Option<usize> = None;
        let mut i: usize = 0;
        while i < self.residents.len()
            invariant
                i <= self.residents.len(),
                self@.len() == self.residents.len(),
                best is None ==> forall|k: int| 0 <= k < i ==> (#[trigger] self@[k]).tier != tier,
                best is Some ==> best->Some_0 < i && self@[best->Some_0 as int].tier == tier,
                best is Some ==> forall|k: int|
                    0 <= k < i && (#[trigger] self@[k]).tier == tier ==> self@[best->Some_0 as int].last_used
                        < self@[k].last_used || (self@[best->Some_0 as int].last_used
                        == self@[k].last_used && best->Some_0 <= k),
            decreases self.residents.len() - i,
        {
            assert(self@[i as int] == self.residents[i as int].placed());
            if self.residents[i].tier == tier {
                match best {
                    Some(b) => {
                        assert(self@[b as int] == self.residents[b as int].placed());
                        if self.residents[i].entry.last_used_timestamp
                            < self.residents[b].entry.last_used_timestamp {
                            best = Some(i);
                        }
                    },
                    None => {
                        best = Some(i);
                    },
                }
            }
            i += 1;
        }
        proof {
            match best {
                Some(b) => {
                    assert(is_oldest(self@, tier, b as int));
                    lemma_oldest_exists(self@, tier, b as int);
                    lemma_oldest_unique(self@, tier, b as int, oldest(self@, tier));
                },
                None => {},
            }
        }
        best
    }
}

/// What a request for the tensor of the expert `id` at the time `now` does
/// to the list `s`, giving the list `after` and the result `r`.
///
/// Where the expert has an entry, the result is the entry's tensor and the
/// entry is used. Otherwise the expert is looked up in the topology
/// (`ExpertNotFound` where it is not there), its tensor is put together from
/// the store, and an entry with that tensor and the time `now` is placed,
/// starting at the fastest tier. Where putting together fails, the failure
/// is the result and the list stays as it was.
pub open spec fn loading_gives(
    s: Seq<Placed>,
    caps: Capacities,
    id: ExpertId,
    topology: Map<ExpertId, ExpertView>,
    table: Map<(ShardId, u32), ShardView>,
    now: u64,
    after: Seq<Placed>,
    r: Result<TensorView, AuriaError>,
) -> bool {
    if resident(s, id) {
        &&& r == Ok::<TensorView, AuriaError>(entry_of(s, id).tensor)
        &&& after == touched(s, caps, id, now)
    } else if !topology.contains_key(id) {
        &&& r == Err::<TensorView, AuriaError>(AuriaError::ExpertNotFound(id))
        &&& after == s
    } else {
        &&& assembly_gives(table, topology[id], r)
        &&& r is Err ==> after == s
        &&& r is Ok ==> after == settle(
            s,
            caps,
            Placed { expert_id: id, tensor: r->Ok_0, last_used: now, tier: StorageTier::Vram },
            StorageTier::Vram,
        )
    }
}

impl TierManager {
    /// Takes the least recently used entries of a fast tier out, one after
    /// the other, until the tier takes no more than `room` bytes or is
    /// empty, and returns them in that order.
    fn evict(&mut self, tier: StorageTier, room: u64) -> (out: Vec<Resident>)
        requires
            old(self).wf(),
            tier != StorageTier::Network,
        ensures
            final(self).wf(),
            final(self).caps == old(self).caps,
            final(self)@ == evict_from(old(self)@, tier, room as nat).0,
            placed_all(out@) == evict_from(old(self)@, tier, room as nat).1,
    {
        let mut out: Vec<Resident> = Vec::new();
        let mut done = false;
        let ghost target = evict_from(self@, tier, room as nat);
        assert(placed_all(out@) =~= Seq::<Placed>::empty());
        assert(Seq::<Placed>::empty() + target.1 =~= target.1);
        while !done
            invariant
                self.wf(),
                self.caps == old(self).caps,
                tier != StorageTier::Network,
                target.0 == evict_from(self@, tier, room as nat).0,
                target.1 == placed_all(out@) + evict_from(self@, tier, room as nat).1,
                done ==> evict_from(self@, tier, room as nat) == (self@, Seq::<Placed>::empty()),
            decreases
                    self.residents.len() + if done {
                        0int
                    } else {
                        1int
                    },
        {
            if self.used_in(tier) <= room {
                done = true;
            } else {
                match self.oldest_in(tier) {
                    None => {
                        done = true;
                    },
                    Some(i) => {
                        let ghost before = self@;
                        let ghost taken = placed_all(out@);
                        let x = self.residents.remove(i);
                        proof {
                            assert(self@ =~= before.remove(i as int));
                            assert(x.placed() == before[i as int]);
                            lemma_remove(before, i as int);
                            lemma_used_remove(before, i as int, StorageTier::Vram);
                            lemma_used_remove(before, i as int, StorageTier::Ram);
                            lemma_used_remove(before, i as int, StorageTier::Disk);
                        }
                        out.push(x);
                        proof {
                            let rest = evict_from(self@, tier, room as nat);
                            assert(placed_all(out@) =~= taken.push(before[i as int]));
                            assert(taken + (seq![before[i as int]] + rest.1) =~= taken.push(
                                before[i as int],
                            ) + rest.1);
                        }
                    },
                }
            }
        }
        assert(placed_all(out@) + Seq::<Placed>::empty() =~= placed_all(out@));
        out
    }

    /// Places an entry of an expert that has none, starting at `tier`.
    fn settle_entry(&mut self, entry: ExpertCacheEntry, tier: StorageTier)
        requires
            old(self).wf(),
            !resident(old(self)@, entry.expert_id),
        ensures
            final(self).wf(),
            final(self).caps == old(self).caps,
            final(self)@ == settle(
                old(self)@,
                old(self).caps,
                placed_entry(entry@, tier),
                tier,
            ),
        decreases 3 - tier.rank(),
    {
        let ghost s0 = self@;
        let ghost caps = self.caps;
        let ghost e = placed_entry(entry@, tier);
        proof {
            lemma_settle(s0, caps, e, tier);
        }
        if tier == StorageTier::Network {
            self.residents.push(Resident { entry, tier: StorageTier::Network });
            assert(self@ =~= s0.push(e.moved_to(StorageTier::Network)));
            return ;
        }
        let len: usize = entry.tensor.data.len();
        assert(len <= u64::MAX) by {
            assert(usize::MAX <= u64::MAX);
        }
        let size: u64 = len as u64;
        let bound: u64 = self.caps.bound(tier);
        let next = tier.next_slower();
        if size > bound {
            proof {
                lemma_settle_from_anywhere(s0, caps, placed_entry(entry@, next), tier, next);
                assert(placed_entry(entry@, next).moved_to(tier) == e);
            }
            self.settle_entry(entry, next);
            return ;
        }
        let mut out = self.evict(tier, bound - size);
        let ghost kept = self@;
        let ghost out0 = placed_all(out@);
        proof {
            lemma_evict_from(s0, tier, (bound - size) as nat);
            lemma_push(kept, e.moved_to(tier));
            lemma_used_push(kept, e.moved_to(tier), StorageTier::Vram);
            lemma_used_push(kept, e.moved_to(tier), StorageTier::Ram);
            lemma_used_push(kept, e.moved_to(tier), StorageTier::Disk);
        }
        self.residents.push(Resident { entry, tier });
        let ghost mid = self@;
        assert(mid =~= kept.push(e.moved_to(tier)));
        let ghost target = settle_all(mid, caps, out0, next);
        assert(target == settle(s0, caps, e, tier));
        assert forall|id: ExpertId| !(resident(mid, id) && resident(out0, id)) by {
            if resident(out0, id) {
                assert(resident(s0, id));
            }
        }
        while out.len() > 0
            invariant
                self.wf(),
                self.caps == caps,
                next == slower(tier),
                tier != StorageTier::Network,
                distinct(placed_all(out@)),
                forall|id: ExpertId| !(resident(self@, id) && resident(placed_all(out@), id)),
                settle_all(self@, caps, placed_all(out@), next) == target,
            decreases out.len(),
        {
            let ghost before = self@;
            let ghost queue = placed_all(out@);
            let x = out.remove(0);
            proof {
                assert(placed_all(out@) =~= queue.drop_first());
                assert(x.placed() == queue[0]);
                assert(resident(queue, queue[0].expert_id));
                lemma_settle(before, caps, queue[0], next);
                lemma_settle_from_anywhere(before, caps, placed_entry(x.entry@, next), x.tier, next);
                assert(placed_entry(x.entry@, next).moved_to(x.tier) == queue[0]);
                assert(forall|k: int|
                    0 <= k < queue.drop_first().len() ==> queue.drop_first()[k] == queue[k + 1]);
                assert(distinct(queue.drop_first())) by {
                    assert forall|a: int, b: int|
                        0 <= a < b < queue.drop_first().len() implies (
                    #[trigger] queue.drop_first()[a]).expert_id != (
                    #[trigger] queue.drop_first()[b]).expert_id by {
                        assert(queue[a + 1].expert_id != queue[b + 1].expert_id);
                    }
                }
                assert forall|id: ExpertId|
                    resident(queue.drop_first(), id) implies resident(queue, id) && id
                    != queue[0].expert_id by {
                    let k = place_of(queue.drop_first(), id);
                    assert(queue[k + 1].expert_id == id);
                    assert(queue[0].expert_id != queue[k + 1].expert_id);
                }
            }
            self.settle_entry(x.entry, next);
        }
        assert(placed_all(out@) =~= Seq::<Placed>::empty());
    }

    /// Places an entry for an expert, starting at `tier`: in the first tier
    /// from there on whose bound can hold it, after that tier's least
    /// recently used entries have moved down to make room. Nothing is done
    /// where the expert has an entry already; the result says whether the
    /// entry was placed.
    pub fn place(&mut self, entry: ExpertCacheEntry, tier: StorageTier) -> (placed: bool)
        requires
            old(self).wf(),
        ensures
            final(self).wf(),
            final(self).capacities() == old(self).capacities(),
            placed == !resident(old(self)@, entry.expert_id),
            placed ==> final(self)@ == settle(
                old(self)@,
                old(self).capacities(),
                placed_entry(entry@, tier),
                tier,
            ),
            !placed ==> final(self)@ == old(self)@,
    {
        match self.find(&entry.expert_id) {
            Some(_) => false,
            None => {
                self.settle_entry(entry, tier);
                true
            },
        }
    }

    /// Whether a fast tier has room left for `size` more bytes.
    fn room_in(&self, tier: StorageTier, size: u64) -> (fits: bool)
        requires
            self.wf(),
            tier != StorageTier::Network,
        ensures
            fits == has_room(self@, self.caps, tier, size as nat),
    {
        let taken = self.used_in(tier);
        size <= self.caps.bound(tier) - taken
    }

    /// The tensor of the expert `id` where it has an entry. The entry is
    /// then used: its time of last use becomes `now`, and it moves to the
    /// fastest tier faster than its own that has room left for it, if there
    /// is one.
    pub fn lookup(&mut self, id: &ExpertId, now: u64) -> (hit: Option<Tensor>)
        requires
            old(self).wf(),
        ensures
            final(self).wf(),
            final(self).capacities() == old(self).capacities(),
            hit is Some <==> resident(old(self)@, *id),
            hit is Some ==> hit->Some_0@ == entry_of(old(self)@, *id).tensor && final(self)@
                == touched(old(self)@, old(self).capacities(), *id, now),
            hit is None ==> final(self)@ == old(self)@,
    {
        let i = match self.find(id) {
            Some(i) => i,
            None => {
                return None;
            },
        };
        let ghost s0 = self@;
        proof {
            lemma_touched(s0, self.caps, *id, now);
            lemma_place(s0, i as int);
        }
        let len: usize = self.residents[i].entry.tensor.data.len();
        assert(len <= u64::MAX) by {
            assert(usize::MAX <= u64::MAX);
        }
        let size: u64 = len as u64;
        let rank = self.residents[i].tier.index();
        let target = if rank > 0 && self.room_in(StorageTier::Vram, size) {
            StorageTier::Vram
        } else if rank > 1 && self.room_in(StorageTier::Ram, size) {
            StorageTier::Ram
        } else if rank > 2 && self.room_in(StorageTier::Disk, size) {
            StorageTier::Disk
        } else {
            self.residents[i].tier
        };
        assert(target == promotion(s0, self.caps, i as int));
        let tensor = self.residents[i].entry.tensor.clone();
        let old_entry = self.residents.remove(i);
        let entry = ExpertCacheEntry {
            expert_id: old_entry.entry.expert_id,
            tensor: old_entry.entry.tensor,
            last_used_timestamp: now,
        };
        self.residents.insert(i, Resident { entry, tier: target });
        assert(self@ =~= touched(s0, self.caps, *id, now));
        Some(tensor)
    }

    /// The tensor of the expert `id`, from the cache where it resides
    /// there, and otherwise put together from the store and placed in the
    /// cache. After a success the expert has an entry, so that the next
    /// request for it is served from the cache.
    pub fn get_or_load(
        &mut self,
        id: &ExpertId,
        topology: &Topology,
        store: &ShardStore,
        now: u64,
    ) -> (r: Result<Tensor, AuriaError>)
        requires
            old(self).wf(),
            topology.wf(),
            store.wf(),
        ensures
            final(self).wf(),
            final(self).capacities() == old(self).capacities(),
            loading_gives(
                old(self)@,
                old(self).capacities(),
                *id,
                topology@,
                store@,
                now,
                final(self)@,
                match r {
                    Ok(tensor) => Ok(tensor@),
                    Err(e) => Err(e),
                },
            ),
            r is Ok ==> resident(final(self)@, *id) && entry_of(final(self)@, *id).tensor
                == r->Ok_0@ && entry_of(final(self)@, *id).last_used == now,
            r is Err ==> final(self)@ == old(self)@,
    {
        let ghost s0 = self@;
        proof {
            if resident(s0, *id) {
                lemma_touched(s0, self.caps, *id, now);
            }
        }
        match self.lookup(id, now) {
            Some(tensor) => {
                return Ok(tensor);
            },
            None => {},
        }
        let expert = match topology.get(id) {
            Some(expert) => expert,
            None => {
                return Err(AuriaError::ExpertNotFound(*id));
            },
        };
        let tensor = match assemble(expert, store) {
            Ok(tensor) => tensor,
            Err(e) => {
                return Err(e);
            },
        };
        let copy = tensor.clone();
        let entry = ExpertCacheEntry { expert_id: *id, tensor, last_used_timestamp: now };
        proof {
            lemma_settle(s0, self.caps, placed_entry(entry@, StorageTier::Vram), StorageTier::Vram);
        }
        self.settle_entry(entry, StorageTier::Vram);
        Ok(copy)
    }
}

} // verus!
