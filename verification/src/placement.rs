//! Where the tensors of experts reside: the model of the tiered cache.
//!
//! The state of the cache is a list of placed entries, each an expert's
//! tensor with the time of its last use and the one tier it resides in. The
//! three fast tiers are bounded in bytes; the network tier takes whatever
//! finds no room above it. This module defines, on that list, what admission
//! and eviction do, and proves what they keep.

use vstd::prelude::*;
use crate::ids::ExpertId;
use crate::tensor::TensorView;
use crate::types::StorageTier;

verus! {

/// An entry of the cache with the tier it resides in.
pub ghost struct Placed {
    pub expert_id: ExpertId,
    pub tensor: TensorView,
    pub last_used: u64,
    pub tier: StorageTier,
}

impl Placed {
    /// The number of bytes that the entry takes in its tier.
    pub open spec fn size(self) -> nat {
        self.tensor.data.len()
    }

    /// The same entry in another tier.
    pub open spec fn moved_to(self, tier: StorageTier) -> Placed {
        Placed { tier, ..self }
    }
}

/// The bounds of the three fast tiers, in bytes.
#[derive(Debug, Clone, Copy)]
pub struct Capacities {
    pub vram: u64,
    pub ram: u64,
    pub disk: u64,
}

impl Capacities {
    /// The bound of a fast tier. The network tier has none; for it this is
    /// zero and never consulted.
    pub open spec fn of(self, tier: StorageTier) -> nat {
        match tier {
            StorageTier::Vram => self.vram as nat,
            StorageTier::Ram => self.ram as nat,
            StorageTier::Disk => self.disk as nat,
            StorageTier::Network => 0,
        }
    }
}

/// The next slower tier; the network tier is the last.
pub open spec fn slower(tier: StorageTier) -> StorageTier {
    match tier {
        StorageTier::Vram => StorageTier::Ram,
        StorageTier::Ram => StorageTier::Disk,
        StorageTier::Disk => StorageTier::Network,
        StorageTier::Network => StorageTier::Network,
    }
}

/// The bytes that the entries of `tier` take.
pub open spec fn used(s: Seq<Placed>, tier: StorageTier) -> nat
    decreases s.len(),
{
    if s.len() == 0 {
        0
    } else {
        used(s.drop_last(), tier) + if s.last().tier == tier {
            s.last().size()
        } else {
            0
        }
    }
}

/// The number of entries in `tier`.
pub open spec fn count(s: Seq<Placed>, tier: StorageTier) -> nat
    decreases s.len(),
{
    if s.len() == 0 {
        0
    } else {
        count(s.drop_last(), tier) + if s.last().tier == tier {
            1nat
        } else {
            0nat
        }
    }
}

/// Whether no expert has two entries.
pub open spec fn distinct(s: Seq<Placed>) -> bool {
    forall|i: int, j: int|
        0 <= i < j < s.len() ==> (#[trigger] s[i]).expert_id != (#[trigger] s[j]).expert_id
}

/// Whether the expert `id` has an entry.
pub open spec fn resident(s: Seq<Placed>, id: ExpertId) -> bool {
    exists|i: int| 0 <= i < s.len() && (#[trigger] s[i]).expert_id == id
}

/// The place of the entry of the expert `id`, where it has one.
pub open spec fn place_of(s: Seq<Placed>, id: ExpertId) -> int {
    choose|i: int| 0 <= i < s.len() && (#[trigger] s[i]).expert_id == id
}

/// Whether each fast tier is within its bound.
pub open spec fn within(s: Seq<Placed>, caps: Capacities) -> bool {
    &&& used(s, StorageTier::Vram) <= caps.vram
    &&& used(s, StorageTier::Ram) <= caps.ram
    &&& used(s, StorageTier::Disk) <= caps.disk
}

/// Whether the entry at `i` is the least recently used of its tier: no
/// entry of the tier was last used earlier, and of those last used at the
/// same time it comes first in the list.
pub open spec fn is_oldest(s: Seq<Placed>, tier: StorageTier, i: int) -> bool {
    &&& 0 <= i < s.len()
    &&& s[i].tier == tier
    &&& forall|j: int|
        0 <= j < s.len() && (#[trigger] s[j]).tier == tier ==> s[i].last_used < s[j].last_used || (
        s[i].last_used == s[j].last_used && i <= j)
}

/// The place of the least recently used entry of `tier`.
pub open spec fn oldest(s: Seq<Placed>, tier: StorageTier) -> int {
    choose|i: int| is_oldest(s, tier, i)
}

/// A tier has at most one least recently used entry.
pub proof fn lemma_oldest_unique(s: Seq<Placed>, tier: StorageTier, i: int, j: int)
    requires
        is_oldest(s, tier, i),
        is_oldest(s, tier, j),
    ensures
        i == j,
{
}

/// A tier that holds an entry has a least recently used one.
pub proof fn lemma_oldest_exists(s: Seq<Placed>, tier: StorageTier, k: int)
    requires
        0 <= k < s.len(),
        s[k].tier == tier,
    ensures
        is_oldest(s, tier, oldest(s, tier)),
    decreases s.len(),
{
    let front = s.drop_last();
    let n = s.len() - 1;
    let witness: int = if exists|m: int| 0 <= m < n && front[m].tier == tier {
        let m = choose|m: int| 0 <= m < n && front[m].tier == tier;
        lemma_oldest_exists(front, tier, m);
        let o = oldest(front, tier);
        assert(forall|j: int| 0 <= j < n ==> front[j] == s[j]);
        if s[n].tier == tier && s[n].last_used < s[o].last_used {
            n
        } else {
            o
        }
    } else {
        assert(forall|j: int| 0 <= j < n ==> front[j] == s[j]);
        n
    };
    assert(is_oldest(s, tier, witness)) by {
        assert(forall|j: int| 0 <= j < n ==> front[j] == s[j]);
        assert forall|j: int| 0 <= j < s.len() && (#[trigger] s[j]).tier == tier implies s[witness].last_used
            < s[j].last_used || (s[witness].last_used == s[j].last_used && witness <= j) by {
            if j < n {
                assert(front[j].tier == tier);
            }
        }
    }
}

/// What an appended entry adds to the bytes of a tier.
pub proof fn lemma_used_push(s: Seq<Placed>, x: Placed, tier: StorageTier)
    ensures
        used(s.push(x), tier) == used(s, tier) + if x.tier == tier {
            x.size()
        } else {
            0
        },
        count(s.push(x), tier) == count(s, tier) + if x.tier == tier {
            1nat
        } else {
            0nat
        },
{
    assert(s.push(x).drop_last() =~= s);
}

/// What a removed entry takes from the bytes of a tier.
pub proof fn lemma_used_remove(s: Seq<Placed>, i: int, tier: StorageTier)
    requires
        0 <= i < s.len(),
    ensures
        used(s.remove(i), tier) + (if s[i].tier == tier {
            s[i].size()
        } else {
            0
        }) == used(s, tier),
        count(s.remove(i), tier) + (if s[i].tier == tier {
            1nat
        } else {
            0nat
        }) == count(s, tier),
    decreases s.len(),
{
    if i == s.len() - 1 {
        assert(s.remove(i) =~= s.drop_last());
    } else {
        lemma_used_remove(s.drop_last(), i, tier);
        assert(s.remove(i).drop_last() =~= s.drop_last().remove(i));
        assert(s.remove(i).last() == s.last());
    }
}

/// A tier without entries takes no bytes.
pub proof fn lemma_empty_tier(s: Seq<Placed>, tier: StorageTier)
    requires
        forall|k: int| 0 <= k < s.len() ==> (#[trigger] s[k]).tier != tier,
    ensures
        used(s, tier) == 0,
        count(s, tier) == 0,
    decreases s.len(),
{
    if s.len() > 0 {
        assert(forall|k: int| 0 <= k < s.len() - 1 ==> s.drop_last()[k] == s[k]);
        lemma_empty_tier(s.drop_last(), tier);
    }
}

/// The entry of the expert `id`, where it has one.
pub open spec fn entry_of(s: Seq<Placed>, id: ExpertId) -> Placed {
    s[place_of(s, id)]
}

/// In a list without repeated experts, the entry at a place is the entry
/// of its expert.
pub proof fn lemma_place(s: Seq<Placed>, i: int)
    requires
        distinct(s),
        0 <= i < s.len(),
    ensures
        resident(s, s[i].expert_id),
        place_of(s, s[i].expert_id) == i,
        entry_of(s, s[i].expert_id) == s[i],
{
    let id = s[i].expert_id;
    let j = choose|j: int| 0 <= j < s.len() && (#[trigger] s[j]).expert_id == id;
    if j < i {
        assert(s[j].expert_id != s[i].expert_id);
    } else if i < j {
        assert(s[i].expert_id != s[j].expert_id);
    }
}

/// The entry of a resident expert is in the list, under the expert's name.
pub proof fn lemma_entry(s: Seq<Placed>, id: ExpertId)
    requires
        resident(s, id),
    ensures
        0 <= place_of(s, id) < s.len(),
        entry_of(s, id).expert_id == id,
{
}

/// What appending the entry of a new expert does to the list.
pub proof fn lemma_push(s: Seq<Placed>, x: Placed)
    requires
        distinct(s),
        !resident(s, x.expert_id),
    ensures
        distinct(s.push(x)),
        forall|id: ExpertId|
            resident(s.push(x), id) <==> (resident(s, id) || id == x.expert_id),
        entry_of(s.push(x), x.expert_id) == x,
        forall|id: ExpertId| resident(s, id) ==> entry_of(s.push(x), id) == entry_of(s, id),
{
    let r = s.push(x);
    let n = s.len() as int;
    assert(forall|k: int| 0 <= k < n ==> r[k] == s[k]);
    assert(r[n] == x);
    assert(distinct(r)) by {
        assert forall|i: int, j: int| 0 <= i < j < r.len() implies (#[trigger] r[i]).expert_id != (
        #[trigger] r[j]).expert_id by {
            if j == n {
                assert(s[i].expert_id != x.expert_id);
            } else {
                assert(s[i].expert_id != s[j].expert_id);
            }
        }
    }
    assert forall|id: ExpertId| resident(r, id) <==> (resident(s, id) || id == x.expert_id) by {
        if resident(r, id) {
            let k = place_of(r, id);
            if k < n {
                assert(s[k].expert_id == id);
            }
        }
        if resident(s, id) {
            let k = place_of(s, id);
            assert(r[k].expert_id == id);
        }
        if id == x.expert_id {
            assert(r[n].expert_id == id);
        }
    }
    lemma_place(r, n);
    assert forall|id: ExpertId| resident(s, id) implies entry_of(r, id) == entry_of(s, id) by {
        let k = place_of(s, id);
        lemma_place(r, k);
    }
}

/// What taking an entry out does to the list.
pub proof fn lemma_remove(s: Seq<Placed>, i: int)
    requires
        distinct(s),
        0 <= i < s.len(),
    ensures
        distinct(s.remove(i)),
        !resident(s.remove(i), s[i].expert_id),
        forall|id: ExpertId|
            resident(s, id) <==> (resident(s.remove(i), id) || id == s[i].expert_id),
        forall|id: ExpertId|
            resident(s.remove(i), id) ==> entry_of(s.remove(i), id) == entry_of(s, id),
{
    let r = s.remove(i);
    assert(forall|k: int| 0 <= k < i ==> r[k] == s[k]);
    assert(forall|k: int| i <= k < r.len() ==> r[k] == s[k + 1]);
    assert(distinct(r)) by {
        assert forall|a: int, b: int| 0 <= a < b < r.len() implies (#[trigger] r[a]).expert_id != (
        #[trigger] r[b]).expert_id by {
            let a2 = if a < i { a } else { a + 1 };
            let b2 = if b < i { b } else { b + 1 };
            assert(r[a] == s[a2] && r[b] == s[b2]);
            assert(s[a2].expert_id != s[b2].expert_id);
        }
    }
    assert(!resident(r, s[i].expert_id)) by {
        if resident(r, s[i].expert_id) {
            let k = place_of(r, s[i].expert_id);
            let k2 = if k < i { k } else { k + 1 };
            assert(r[k] == s[k2]);
            if k2 < i {
                assert(s[k2].expert_id != s[i].expert_id);
            } else {
                assert(s[i].expert_id != s[k2].expert_id);
            }
        }
    }
    assert forall|id: ExpertId|
        resident(s, id) <==> (resident(r, id) || id == s[i].expert_id) by {
        if resident(r, id) {
            let k = place_of(r, id);
            let k2 = if k < i { k } else { k + 1 };
            assert(r[k] == s[k2]);
            assert(s[k2].expert_id == id);
        }
        if resident(s, id) && id != s[i].expert_id {
            let k = place_of(s, id);
            let k2 = if k < i { k } else { k - 1 };
            assert(r[k2] == s[k]);
            assert(r[k2].expert_id == id);
        }
    }
    assert forall|id: ExpertId| resident(r, id) implies entry_of(r, id) == entry_of(s, id) by {
        let k = place_of(r, id);
        let k2 = if k < i { k } else { k + 1 };
        assert(r[k] == s[k2]);
        lemma_place(s, k2);
    }
}

/// Whether the list `xs` holds an entry of the expert `id`.
pub open spec fn listed(xs: Seq<Placed>, id: ExpertId) -> bool {
    resident(xs, id)
}

/// Taking the least recently used entries of `tier` out of the list, one
/// after the other, until the tier takes no more than `room` bytes or is
/// empty. The result is the list that is left and the entries taken out, the
/// least recently used first.
pub open spec fn evict_from(s: Seq<Placed>, tier: StorageTier, room: nat) -> (
    Seq<Placed>,
    Seq<Placed>,
)
    decreases s.len(),
{
    let i = oldest(s, tier);
    if used(s, tier) <= room || !is_oldest(s, tier, i) {
        (s, Seq::<Placed>::empty())
    } else {
        let rest = evict_from(s.remove(i), tier, room);
        (rest.0, seq![s[i]] + rest.1)
    }
}

/// What eviction keeps: every entry is either left in the list or among
/// those taken out, unchanged; only entries of the tier are taken out; the
/// other tiers take the bytes they took; and the tier is left within `room`.
#[verifier::rlimit(60)]
#[verifier::spinoff_prover]
pub proof fn lemma_evict_from(s: Seq<Placed>, tier: StorageTier, room: nat)
    requires
        distinct(s),
    ensures
        ({
            let (kept, out) = evict_from(s, tier, room);
            &&& distinct(kept)
            &&& distinct(out)
            &&& used(kept, tier) <= room
            &&& forall|other: StorageTier| other != tier ==> used(kept, other) == used(s, other)
            &&& forall|id: ExpertId| resident(s, id) <==> (resident(kept, id) || listed(out, id))
            &&& forall|id: ExpertId| !(resident(kept, id) && listed(out, id))
            &&& forall|id: ExpertId| resident(kept, id) ==> entry_of(kept, id) == entry_of(s, id)
            &&& forall|k: int|
                0 <= k < out.len() ==> (#[trigger] out[k]).tier == tier && out[k] == entry_of(
                    s,
                    out[k].expert_id,
                )
            &&& out.len() > 0 ==> used(s, tier) > room && out[0] == s[oldest(s, tier)]
            &&& out.len() == 0 ==> kept == s
        }),
    decreases s.len(),
{
    let i = oldest(s, tier);
    let (kept, out) = evict_from(s, tier, room);
    if used(s, tier) <= room {
        assert(forall|id: ExpertId| !listed(out, id));
    } else if !is_oldest(s, tier, i) {
        assert(forall|id: ExpertId| !listed(out, id));
        assert(used(s, tier) == 0) by {
            if exists|k: int| 0 <= k < s.len() && (#[trigger] s[k]).tier == tier {
                let k = choose|k: int| 0 <= k < s.len() && (#[trigger] s[k]).tier == tier;
                lemma_oldest_exists(s, tier, k);
            }
            lemma_empty_tier(s, tier);
        }
    } else {
        let t = s.remove(i);
        let rest = evict_from(t, tier, room);
        lemma_remove(s, i);
        lemma_evict_from(t, tier, room);
        lemma_place(s, i);
        assert(out == seq![s[i]] + rest.1);
        assert(out[0] == s[i]);
        assert(forall|k: int| 1 <= k < out.len() ==> out[k] == rest.1[k - 1]);
        assert forall|other: StorageTier| other != tier implies used(kept, other) == used(
            s,
            other,
        ) by {
            lemma_used_remove(s, i, other);
        }
        assert forall|id: ExpertId| listed(out, id) <==> (id == s[i].expert_id || listed(
            rest.1,
            id,
        )) by {
            if listed(out, id) {
                let k = place_of(out, id);
                if k >= 1 {
                    assert(rest.1[k - 1].expert_id == id);
                }
            }
            if listed(rest.1, id) {
                let k = place_of(rest.1, id);
                assert(out[k + 1].expert_id == id);
            }
            if id == s[i].expert_id {
                assert(out[0].expert_id == id);
            }
        }
        assert(distinct(out)) by {
            assert forall|a: int, b: int| 0 <= a < b < out.len() implies (
            #[trigger] out[a]).expert_id != (#[trigger] out[b]).expert_id by {
                if a == 0 {
                    assert(rest.1[b - 1].expert_id == out[b].expert_id);
                    assert(listed(rest.1, out[b].expert_id));
                    assert(resident(t, out[b].expert_id));
                } else {
                    assert(rest.1[a - 1].expert_id != rest.1[b - 1].expert_id);
                }
            }
        }
        assert forall|k: int| 0 <= k < out.len() implies (#[trigger] out[k]).tier == tier && out[k]
            == entry_of(s, out[k].expert_id) by {
            if k >= 1 {
                assert(out[k] == rest.1[k - 1]);
                assert(listed(rest.1, out[k].expert_id));
                assert(resident(t, out[k].expert_id));
            }
        }
    }
}

/// The tier in which an entry of `size` bytes lands when it is admitted at
/// `tier`: the first tier from there on whose bound can hold it at all, and
/// the network tier where none can.
pub open spec fn landing(caps: Capacities, size: nat, tier: StorageTier) -> StorageTier
    decreases 3 - tier.rank(),
{
    if tier == StorageTier::Network {
        StorageTier::Network
    } else if size > caps.of(tier) {
        landing(caps, size, slower(tier))
    } else {
        tier
    }
}

/// Admitting the entry `e` at `tier`. Where the tier's bound cannot hold the
/// entry at all, it is admitted one tier down instead; the network tier
/// takes anything. Otherwise the tier's least recently used entries are
/// taken out until the entry fits, the entry is put in, and each entry that
/// was taken out is admitted one tier down in its turn, the least recently
/// used first.
pub open spec fn settle(s: Seq<Placed>, caps: Capacities, e: Placed, tier: StorageTier) -> Seq<
    Placed,
>
    decreases 3 - tier.rank(), 0nat, 0nat,
{
    if tier == StorageTier::Network {
        s.push(e.moved_to(StorageTier::Network))
    } else if e.size() > caps.of(tier) {
        settle(s, caps, e, slower(tier))
    } else {
        let (kept, out) = evict_from(s, tier, (caps.of(tier) - e.size()) as nat);
        settle_all(kept.push(e.moved_to(tier)), caps, out, slower(tier))
    }
}

/// Admitting the entries `xs` at `tier`, one after the other.
pub open spec fn settle_all(
    s: Seq<Placed>,
    caps: Capacities,
    xs: Seq<Placed>,
    tier: StorageTier,
) -> Seq<Placed>
    decreases 3 - tier.rank(), 1nat, xs.len(),
{
    if xs.len() == 0 {
        s
    } else {
        settle_all(settle(s, caps, xs[0], tier), caps, xs.drop_first(), tier)
    }
}

/// Whether `r` still holds every entry of `s`, with the same tensor and the
/// same time of last use, in the same tier or a slower one, and in the same
/// tier where that tier is faster than `tier`.
pub open spec fn carried(s: Seq<Placed>, r: Seq<Placed>, tier: StorageTier) -> bool {
    forall|id: ExpertId| #[trigger]
        resident(s, id) ==> {
            &&& resident(r, id)
            &&& entry_of(r, id).tensor == entry_of(s, id).tensor
            &&& entry_of(r, id).last_used == entry_of(s, id).last_used
            &&& entry_of(r, id).tier.rank() >= entry_of(s, id).tier.rank()
            &&& entry_of(s, id).tier.rank() < tier.rank() ==> entry_of(r, id).tier == entry_of(
                s,
                id,
            ).tier
        }
}

/// An entry lands in the tier it is admitted at or in a slower one, and in
/// a fast tier only where the tier's bound can hold it.
pub proof fn lemma_landing(caps: Capacities, size: nat, tier: StorageTier)
    ensures
        landing(caps, size, tier).rank() >= tier.rank(),
        landing(caps, size, tier) != StorageTier::Network ==> size <= caps.of(
            landing(caps, size, tier),
        ),
    decreases 3 - tier.rank(),
{
    if tier != StorageTier::Network && size > caps.of(tier) {
        lemma_landing(caps, size, slower(tier));
    }
}

/// What admission keeps. No expert comes to have two entries and every fast
/// tier stays within its bound. The experts with an entry are those that had
/// one and the one admitted. Every entry that was there is still there,
/// demoted at most, and untouched where it was in a tier faster than the
/// one admitted at. The admitted entry is in the tier where it lands.
pub proof fn lemma_settle(s: Seq<Placed>, caps: Capacities, e: Placed, tier: StorageTier)
    requires
        distinct(s),
        within(s, caps),
        !resident(s, e.expert_id),
    ensures
        ({
            let r = settle(s, caps, e, tier);
            &&& distinct(r)
            &&& within(r, caps)
            &&& forall|id: ExpertId| resident(r, id) <==> (resident(s, id) || id == e.expert_id)
            &&& carried(s, r, tier)
            &&& entry_of(r, e.expert_id) == e.moved_to(landing(caps, e.size(), tier))
        }),
    decreases 3 - tier.rank(), 0nat, 0nat,
{
    let r = settle(s, caps, e, tier);
    if tier == StorageTier::Network {
        let x = e.moved_to(StorageTier::Network);
        lemma_push(s, x);
        lemma_used_push(s, x, StorageTier::Vram);
        lemma_used_push(s, x, StorageTier::Ram);
        lemma_used_push(s, x, StorageTier::Disk);
    } else if e.size() > caps.of(tier) {
        lemma_settle(s, caps, e, slower(tier));
    } else {
        let room = (caps.of(tier) - e.size()) as nat;
        let (kept, out) = evict_from(s, tier, room);
        let x = e.moved_to(tier);
        let mid = kept.push(x);
        lemma_evict_from(s, tier, room);
        assert(!resident(kept, x.expert_id));
        lemma_push(kept, x);
        lemma_used_push(kept, x, StorageTier::Vram);
        lemma_used_push(kept, x, StorageTier::Ram);
        lemma_used_push(kept, x, StorageTier::Disk);
        assert(within(mid, caps));
        assert forall|id: ExpertId| !(resident(mid, id) && listed(out, id)) by {
            if listed(out, id) {
                assert(resident(s, id));
            }
        }
        lemma_settle_all(mid, caps, out, slower(tier));
        assert forall|id: ExpertId| resident(r, id) <==> (resident(s, id) || id == e.expert_id) by {
        }
        assert(carried(s, r, tier)) by {
            assert forall|id: ExpertId| #[trigger] resident(s, id) implies {
                &&& resident(r, id)
                &&& entry_of(r, id).tensor == entry_of(s, id).tensor
                &&& entry_of(r, id).last_used == entry_of(s, id).last_used
                &&& entry_of(r, id).tier.rank() >= entry_of(s, id).tier.rank()
                &&& entry_of(s, id).tier.rank() < tier.rank() ==> entry_of(r, id).tier == entry_of(
                    s,
                    id,
                ).tier
            } by {
                if resident(kept, id) {
                    assert(resident(mid, id));
                    assert(entry_of(mid, id) == entry_of(s, id));
                } else {
                    assert(listed(out, id));
                    let k = place_of(out, id);
                    assert(out[k] == entry_of(s, out[k].expert_id));
                    assert(out[k].tier == tier);
                }
            }
        }
        assert(resident(mid, e.expert_id));
        assert(entry_of(mid, e.expert_id) == x);
        lemma_entry(r, e.expert_id);
    }
}

/// What admitting a list of entries keeps: as for one entry, for each of
/// the list.
pub proof fn lemma_settle_all(s: Seq<Placed>, caps: Capacities, xs: Seq<Placed>, tier: StorageTier)
    requires
        distinct(s),
        within(s, caps),
        distinct(xs),
        forall|id: ExpertId| !(resident(s, id) && listed(xs, id)),
    ensures
        ({
            let r = settle_all(s, caps, xs, tier);
            &&& distinct(r)
            &&& within(r, caps)
            &&& forall|id: ExpertId| resident(r, id) <==> (resident(s, id) || listed(xs, id))
            &&& carried(s, r, tier)
            &&& forall|k: int|
                0 <= k < xs.len() ==> {
                    let now = entry_of(r, (#[trigger] xs[k]).expert_id);
                    &&& now.tensor == xs[k].tensor
                    &&& now.last_used == xs[k].last_used
                    &&& now.tier.rank() >= tier.rank()
                }
        }),
    decreases 3 - tier.rank(), 1nat, xs.len(),
{
    let r = settle_all(s, caps, xs, tier);
    if xs.len() == 0 {
        assert(forall|id: ExpertId| !listed(xs, id));
    } else {
        let first = xs[0];
        let rest = xs.drop_first();
        let mid = settle(s, caps, first, tier);
        assert(listed(xs, first.expert_id));
        lemma_settle(s, caps, first, tier);
        lemma_landing(caps, first.size(), tier);
        assert(forall|k: int| 0 <= k < rest.len() ==> rest[k] == xs[k + 1]);
        assert(distinct(rest)) by {
            assert forall|a: int, b: int| 0 <= a < b < rest.len() implies (
            #[trigger] rest[a]).expert_id != (#[trigger] rest[b]).expert_id by {
                assert(xs[a + 1].expert_id != xs[b + 1].expert_id);
            }
        }
        assert forall|id: ExpertId| listed(xs, id) <==> (id == first.expert_id || listed(
            rest,
            id,
        )) by {
            if listed(xs, id) {
                let k = place_of(xs, id);
                if k >= 1 {
                    assert(rest[k - 1].expert_id == id);
                }
            }
            if listed(rest, id) {
                let k = place_of(rest, id);
                assert(xs[k + 1].expert_id == id);
            }
        }
        assert forall|id: ExpertId| !(resident(mid, id) && listed(rest, id)) by {
            if listed(rest, id) {
                let k = place_of(rest, id);
                assert(xs[0].expert_id != xs[k + 1].expert_id);
            }
        }
        lemma_settle_all(mid, caps, rest, tier);
        assert(resident(mid, first.expert_id));
        assert forall|k: int| 0 <= k < xs.len() implies {
            let now = entry_of(r, (#[trigger] xs[k]).expert_id);
            &&& now.tensor == xs[k].tensor
            &&& now.last_used == xs[k].last_used
            &&& now.tier.rank() >= tier.rank()
        } by {
            if k >= 1 {
                assert(xs[k] == rest[k - 1]);
            }
        }
    }
}

/// The bytes of a tier are at least those of the tier within a prefix of
/// the list.
pub proof fn lemma_used_prefix(s: Seq<Placed>, i: int, tier: StorageTier)
    requires
        0 <= i <= s.len(),
    ensures
        used(s.take(i), tier) <= used(s, tier),
        count(s.take(i), tier) <= count(s, tier),
        count(s, tier) <= s.len(),
    decreases s.len(),
{
    if i == s.len() {
        assert(s.take(i) =~= s);
        if s.len() > 0 {
            lemma_used_prefix(s.drop_last(), i - 1, tier);
        }
    } else {
        lemma_used_prefix(s.drop_last(), i, tier);
        assert(s.drop_last().take(i) =~= s.take(i));
    }
}

/// The bytes and the number of entries of a tier within a prefix that is
/// one entry longer.
pub proof fn lemma_used_step(s: Seq<Placed>, i: int, tier: StorageTier)
    requires
        0 <= i < s.len(),
    ensures
        used(s.take(i + 1), tier) == used(s.take(i), tier) + if s[i].tier == tier {
            s[i].size()
        } else {
            0
        },
        count(s.take(i + 1), tier) == count(s.take(i), tier) + if s[i].tier == tier {
            1nat
        } else {
            0nat
        },
{
    assert(s.take(i + 1) =~= s.take(i).push(s[i]));
    lemma_used_push(s.take(i), s[i], tier);
}

/// What putting another entry of the same expert in the place of an entry
/// does to the bytes of a tier.
pub proof fn lemma_used_update(s: Seq<Placed>, i: int, x: Placed, tier: StorageTier)
    requires
        0 <= i < s.len(),
    ensures
        used(s.update(i, x), tier) + (if s[i].tier == tier {
            s[i].size()
        } else {
            0
        }) == used(s, tier) + (if x.tier == tier {
            x.size()
        } else {
            0
        }),
    decreases s.len(),
{
    if i == s.len() - 1 {
        assert(s.update(i, x).drop_last() =~= s.drop_last());
    } else {
        lemma_used_update(s.drop_last(), i, x, tier);
        assert(s.update(i, x).drop_last() =~= s.drop_last().update(i, x));
    }
}

/// What putting another entry of the same expert in the place of an entry
/// does to the list.
pub proof fn lemma_update(s: Seq<Placed>, i: int, x: Placed)
    requires
        distinct(s),
        0 <= i < s.len(),
        x.expert_id == s[i].expert_id,
    ensures
        distinct(s.update(i, x)),
        forall|id: ExpertId| resident(s.update(i, x), id) <==> resident(s, id),
        entry_of(s.update(i, x), x.expert_id) == x,
        forall|id: ExpertId|
            resident(s, id) && id != x.expert_id ==> entry_of(s.update(i, x), id) == entry_of(s, id),
{
    let r = s.update(i, x);
    assert(forall|k: int| 0 <= k < s.len() ==> (#[trigger] r[k]).expert_id == s[k].expert_id);
    assert(distinct(r)) by {
        assert forall|a: int, b: int| 0 <= a < b < r.len() implies (#[trigger] r[a]).expert_id != (
        #[trigger] r[b]).expert_id by {
            assert(s[a].expert_id != s[b].expert_id);
        }
    }
    assert forall|id: ExpertId| resident(r, id) <==> resident(s, id) by {
        if resident(r, id) {
            let k = place_of(r, id);
            assert(s[k].expert_id == id);
        }
        if resident(s, id) {
            let k = place_of(s, id);
            assert(r[k].expert_id == id);
        }
    }
    lemma_place(r, i);
    assert forall|id: ExpertId| resident(s, id) && id != x.expert_id implies entry_of(r, id)
        == entry_of(s, id) by {
        let k = place_of(s, id);
        lemma_place(r, k);
    }
}

/// An expert resides in one tier only: two entries of one expert are one
/// entry.
pub proof fn lemma_single_residence(s: Seq<Placed>, i: int, j: int)
    requires
        distinct(s),
        0 <= i < s.len(),
        0 <= j < s.len(),
        s[i].expert_id == s[j].expert_id,
    ensures
        i == j,
        s[i].tier == s[j].tier,
{
    if i < j {
        assert(s[i].expert_id != s[j].expert_id);
    } else if j < i {
        assert(s[j].expert_id != s[i].expert_id);
    }
}

/// Placing an entry in a tier that is too full for it, but whose bound can
/// hold it, takes the tier's least recently used entry out of the tier and
/// keeps it, with its tensor and its time of last use, in a slower tier.
pub proof fn lemma_full_tier_demotes_oldest(
    s: Seq<Placed>,
    caps: Capacities,
    e: Placed,
    tier: StorageTier,
)
    requires
        distinct(s),
        within(s, caps),
        !resident(s, e.expert_id),
        tier != StorageTier::Network,
        e.size() <= caps.of(tier),
        used(s, tier) + e.size() > caps.of(tier),
    ensures
        ({
            let victim = s[oldest(s, tier)];
            let r = settle(s, caps, e, tier);
            &&& is_oldest(s, tier, oldest(s, tier))
            &&& resident(r, victim.expert_id)
            &&& entry_of(r, victim.expert_id).tier.rank() > tier.rank()
            &&& entry_of(r, victim.expert_id).tensor == victim.tensor
            &&& entry_of(r, victim.expert_id).last_used == victim.last_used
            &&& entry_of(r, e.expert_id) == e.moved_to(tier)
        }),
{
    let room = (caps.of(tier) - e.size()) as nat;
    let (kept, out) = evict_from(s, tier, room);
    let x = e.moved_to(tier);
    let mid = kept.push(x);
    if forall|k: int| 0 <= k < s.len() ==> (#[trigger] s[k]).tier != tier {
        lemma_empty_tier(s, tier);
    }
    let k = choose|k: int| 0 <= k < s.len() && (#[trigger] s[k]).tier == tier;
    lemma_oldest_exists(s, tier, k);
    lemma_evict_from(s, tier, room);
    assert(out.len() > 0);
    lemma_place(s, oldest(s, tier));
    lemma_push(kept, x);
    lemma_used_push(kept, x, StorageTier::Vram);
    lemma_used_push(kept, x, StorageTier::Ram);
    lemma_used_push(kept, x, StorageTier::Disk);
    assert forall|id: ExpertId| !(resident(mid, id) && listed(out, id)) by {
        if listed(out, id) {
            assert(resident(s, id));
        }
    }
    lemma_settle_all(mid, caps, out, slower(tier));
    lemma_settle(s, caps, e, tier);
    assert(out[0] == s[oldest(s, tier)]);
    assert(listed(out, out[0].expert_id));
}

/// Where an entry is placed does not depend on the tier it is said to be
/// in before.
pub proof fn lemma_settle_from_anywhere(
    s: Seq<Placed>,
    caps: Capacities,
    e: Placed,
    from: StorageTier,
    tier: StorageTier,
)
    ensures
        settle(s, caps, e.moved_to(from), tier) == settle(s, caps, e, tier),
    decreases 3 - tier.rank(),
{
    let f = e.moved_to(from);
    assert(f.size() == e.size());
    assert(forall|t: StorageTier| f.moved_to(t) == e.moved_to(t));
    if tier != StorageTier::Network && e.size() > caps.of(tier) {
        lemma_settle_from_anywhere(s, caps, e, from, slower(tier));
    }
}

/// Whether a fast tier has room left for `size` more bytes.
pub open spec fn has_room(s: Seq<Placed>, caps: Capacities, tier: StorageTier, size: nat) -> bool {
    used(s, tier) + size <= caps.of(tier)
}

/// The tier to which the entry at `i` moves when it is used: the fastest
/// tier faster than its own that has room left for it, and its own tier
/// where none has.
pub open spec fn promotion(s: Seq<Placed>, caps: Capacities, i: int) -> StorageTier {
    let e = s[i];
    if e.tier.rank() > 0 && has_room(s, caps, StorageTier::Vram, e.size()) {
        StorageTier::Vram
    } else if e.tier.rank() > 1 && has_room(s, caps, StorageTier::Ram, e.size()) {
        StorageTier::Ram
    } else if e.tier.rank() > 2 && has_room(s, caps, StorageTier::Disk, e.size()) {
        StorageTier::Disk
    } else {
        e.tier
    }
}

/// The list after the entry of the expert `id` was used at the time `now`:
/// the entry has that time of last use and resides where its promotion
/// leads. Nothing else changes.
pub open spec fn touched(s: Seq<Placed>, caps: Capacities, id: ExpertId, now: u64) -> Seq<Placed> {
    let i = place_of(s, id);
    s.update(i, Placed { last_used: now, tier: promotion(s, caps, i), ..s[i] })
}

/// What a use keeps: no expert comes to have two entries, every fast tier
/// stays within its bound, the same experts have entries, and every other
/// entry is as it was. The entry that was used keeps its tensor and does not
/// move to a slower tier.
pub proof fn lemma_touched(s: Seq<Placed>, caps: Capacities, id: ExpertId, now: u64)
    requires
        distinct(s),
        within(s, caps),
        resident(s, id),
    ensures
        ({
            let r = touched(s, caps, id, now);
            &&& distinct(r)
            &&& within(r, caps)
            &&& forall|other: ExpertId| resident(r, other) <==> resident(s, other)
            &&& forall|other: ExpertId|
                resident(s, other) && other != id ==> entry_of(r, other) == entry_of(s, other)
            &&& entry_of(r, id).tensor == entry_of(s, id).tensor
            &&& entry_of(r, id).last_used == now
            &&& entry_of(r, id).tier.rank() <= entry_of(s, id).tier.rank()
        }),
{
    let i = place_of(s, id);
    let x = Placed { last_used: now, tier: promotion(s, caps, i), ..s[i] };
    lemma_update(s, i, x);
    lemma_used_update(s, i, x, StorageTier::Vram);
    lemma_used_update(s, i, x, StorageTier::Ram);
    lemma_used_update(s, i, x, StorageTier::Disk);
}

} // verus!
