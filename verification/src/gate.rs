//! The license gate in front of the cache.
//!
//! The tensor of an expert is handed out only where the node holds a usable
//! license for every shard of the expert. Licenses are validated again at
//! every request, also where the tensor is in the cache already: whether a
//! license can be used depends on the time.

use vstd::prelude::*;
use crate::error::AuriaError;
use crate::ids::{ExpertId, PublicKey, ShardId};
use crate::license::{granted, usable, Grant, LicenseValidator};
use crate::placement::{Capacities, Placed};
use crate::router::Topology;
use crate::store::ShardStore;
use crate::tensor::{Tensor, TensorView};
use crate::tiers::{loading_gives, TierManager};
use crate::types::{ExpertView, ShardView};

verus! {

/// Whether the signature of the license of the shard at place `i` was found
/// valid: what the list says at that place, and no where the list is too
/// short.
pub open spec fn signature_found_valid(signatures: Seq<bool>, i: int) -> bool {
    0 <= i < signatures.len() && signatures[i]
}

/// Whether the node may use the shard at place `i` of the list at the time
/// `now`.
pub open spec fn licensed_at(
    grants: Seq<Grant>,
    shards: Seq<ShardId>,
    node: PublicKey,
    now: u64,
    signatures: Seq<bool>,
    i: int,
) -> bool {
    usable(granted(grants, shards[i], node), now, signature_found_valid(signatures, i))
}

/// Whether `k` is the first place of the list whose shard the node may not
/// use.
pub open spec fn is_first_unlicensed(
    grants: Seq<Grant>,
    shards: Seq<ShardId>,
    node: PublicKey,
    now: u64,
    signatures: Seq<bool>,
    k: int,
) -> bool {
    &&& 0 <= k < shards.len()
    &&& !licensed_at(grants, shards, node, now, signatures, k)
    &&& forall|i: int| 0 <= i < k ==> #[trigger] licensed_at(grants, shards, node, now, signatures, i)
}

/// Whether the node may use every shard of the list.
pub open spec fn all_licensed(
    grants: Seq<Grant>,
    shards: Seq<ShardId>,
    node: PublicKey,
    now: u64,
    signatures: Seq<bool>,
) -> bool {
    forall|i: int|
        0 <= i < shards.len() ==> #[trigger] licensed_at(grants, shards, node, now, signatures, i)
}

/// Checks that the node may use every shard of the list at the time `now`.
/// `signatures` says for each place whether the signature of the shard's
/// license was found valid. Fails with `LicenseInvalid` for the first shard
/// that the node may not use.
pub fn check_licenses(
    validator: &LicenseValidator,
    shards: &Vec<ShardId>,
    node: &PublicKey,
    now: u64,
    signatures: &Vec<bool>,
) -> (r: Result<(), AuriaError>)
    ensures
        r is Ok <==> all_licensed(validator@, shards@, *node, now, signatures@),
        forall|k: int|
            is_first_unlicensed(validator@, shards@, *node, now, signatures@, k) ==> r == Err::<
                (),
                AuriaError,
            >(AuriaError::LicenseInvalid(shards[k])),
{
    let mut i: usize = 0;
    while i < shards.len()
        invariant
            i <= shards.len(),
            forall|k: int|
                0 <= k < i ==> #[trigger] licensed_at(
                    validator@,
                    shards@,
                    *node,
                    now,
                    signatures@,
                    k,
                ),
        decreases shards.len() - i,
    {
        let valid = i < signatures.len() && signatures[i];
        match validator.validate(&shards[i], node, now, valid) {
            Ok(_) => {},
            Err(e) => {
                proof {
                    assert(!licensed_at(validator@, shards@, *node, now, signatures@, i as int));
                    assert(is_first_unlicensed(
                        validator@,
                        shards@,
                        *node,
                        now,
                        signatures@,
                        i as int,
                    ));
                    assert forall|k: int|
                        is_first_unlicensed(
                            validator@,
                            shards@,
                            *node,
                            now,
                            signatures@,
                            k,
                        ) implies k == i by {
                        if k < i {
                            assert(licensed_at(validator@, shards@, *node, now, signatures@, k));
                        } else if k > i {
                            assert(licensed_at(
                                validator@,
                                shards@,
                                *node,
                                now,
                                signatures@,
                                i as int,
                            ));
                        }
                    }
                }
                return Err(e);
            },
        }
        assert(licensed_at(validator@, shards@, *node, now, signatures@, i as int));
        i += 1;
    }
    proof {
        assert forall|k: int| !is_first_unlicensed(
            validator@,
            shards@,
            *node,
            now,
            signatures@,
            k,
        ) by {
            if 0 <= k < shards.len() {
                assert(licensed_at(validator@, shards@, *node, now, signatures@, k));
            }
        }
    }
    Ok(())
}

/// What a licensed request for the tensor of the expert `id` does to the
/// cache `s`, giving the cache `after` and the result `r`.
///
/// The expert must be in the topology (`ExpertNotFound`), and the node must
/// hold a usable license for each of its shards (`LicenseInvalid` for the
/// first for which it does not). Where either fails the cache stays as it
/// was. Otherwise the request is served as an unlicensed one is.
pub open spec fn licensed_loading_gives(
    s: Seq<Placed>,
    caps: Capacities,
    id: ExpertId,
    topology: Map<ExpertId, ExpertView>,
    table: Map<(ShardId, u32), ShardView>,
    grants: Seq<Grant>,
    node: PublicKey,
    now: u64,
    signatures: Seq<bool>,
    after: Seq<Placed>,
    r: Result<TensorView, AuriaError>,
) -> bool {
    if !topology.contains_key(id) {
        &&& r == Err::<TensorView, AuriaError>(AuriaError::ExpertNotFound(id))
        &&& after == s
    } else if !all_licensed(grants, topology[id].shards, node, now, signatures) {
        &&& after == s
        &&& r is Err
        &&& forall|k: int|
            is_first_unlicensed(grants, topology[id].shards, node, now, signatures, k) ==> r
                == Err::<TensorView, AuriaError>(
                AuriaError::LicenseInvalid(topology[id].shards[k]),
            )
    } else {
        loading_gives(s, caps, id, topology, table, now, after, r)
    }
}

/// The tensor of the expert `id` for a node that holds a usable license for
/// each of the expert's shards. `signatures` says for each shard of the
/// expert, in the order of its list, whether the signature of the shard's
/// license was found valid.
pub fn load_licensed(
    tiers: &mut TierManager,
    validator: &LicenseValidator,
    topology: &Topology,
    store: &ShardStore,
    id: &ExpertId,
    node: &PublicKey,
    now: u64,
    signatures: &Vec<bool>,
) -> (r: Result<Tensor, AuriaError>)
    requires
        old(tiers).wf(),
        topology.wf(),
        store.wf(),
    ensures
        final(tiers).wf(),
        final(tiers).capacities() == old(tiers).capacities(),
        licensed_loading_gives(
            old(tiers)@,
            old(tiers).capacities(),
            *id,
            topology@,
            store@,
            validator@,
            *node,
            now,
            signatures@,
            final(tiers)@,
            match r {
                Ok(tensor) => Ok(tensor@),
                Err(e) => Err(e),
            },
        ),
        r is Err ==> final(tiers)@ == old(tiers)@,
{
    let expert = match topology.get(id) {
        Some(expert) => expert,
        None => {
            return Err(AuriaError::ExpertNotFound(*id));
        },
    };
    match check_licenses(validator, &expert.shards, node, now, signatures) {
        Ok(_) => {},
        Err(e) => {
            return Err(e);
        },
    }
    tiers.get_or_load(id, topology, store, now)
}

/// A request without a usable license for one of the expert's shards fails
/// and leaves the cache as it was, whether or not the tensor is cached.
pub proof fn lemma_unlicensed_is_refused(
    s: Seq<Placed>,
    caps: Capacities,
    id: ExpertId,
    topology: Map<ExpertId, ExpertView>,
    table: Map<(ShardId, u32), ShardView>,
    grants: Seq<Grant>,
    node: PublicKey,
    now: u64,
    signatures: Seq<bool>,
    after: Seq<Placed>,
    r: Result<TensorView, AuriaError>,
    k: int,
)
    requires
        topology.contains_key(id),
        0 <= k < topology[id].shards.len(),
        !licensed_at(grants, topology[id].shards, node, now, signatures, k),
        licensed_loading_gives(s, caps, id, topology, table, grants, node, now, signatures, after, r),
    ensures
        r is Err,
        after == s,
{
}

} // verus!
