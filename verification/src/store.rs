//! The shard store: shards kept by identifier and version.
//!
//! The store knows nothing of tiers. Each version of a shard is an object of
//! its own; storing under a version that is already there replaces what was
//! there. A shard whose tensor is not consistent is never stored.

use vstd::prelude::*;
use crate::error::AuriaError;
use crate::ids::{bytes_equal, ShardId};
use crate::types::{Shard, ShardView};

verus! {

/// Under what a shard is stored: its identifier and its version.
pub open spec fn key_of(shard: ShardView) -> (ShardId, u32) {
    (shard.shard_id, shard.metadata.version)
}

/// Whether no two shards of the list have the same identifier and version.
pub open spec fn distinct_keys(shards: Seq<Shard>) -> bool {
    forall|i: int, j: int|
        0 <= i < j < shards.len() ==> key_of(#[trigger] shards[i]@) != key_of(#[trigger] shards[j]@)
}

/// Whether the list holds a shard under `key`.
pub open spec fn holds_key(shards: Seq<Shard>, key: (ShardId, u32)) -> bool {
    exists|i: int| 0 <= i < shards.len() && key_of(#[trigger] shards[i]@) == key
}

/// The shards of a list, each under its key.
pub open spec fn table_of(shards: Seq<Shard>) -> Map<(ShardId, u32), ShardView> {
    Map::new(
        |key: (ShardId, u32)| holds_key(shards, key),
        |key: (ShardId, u32)|
            shards[choose|i: int| 0 <= i < shards.len() && key_of(#[trigger] shards[i]@) == key]@,
    )
}

/// In a list without repeated keys, each shard is what the table holds
/// under the shard's key.
pub proof fn lemma_table_at(shards: Seq<Shard>, i: int)
    requires
        distinct_keys(shards),
        0 <= i < shards.len(),
    ensures
        table_of(shards).contains_key(key_of(shards[i]@)),
        table_of(shards)[key_of(shards[i]@)] == shards[i]@,
{
    let key = key_of(shards[i]@);
    assert(holds_key(shards, key));
    let j = choose|j: int| 0 <= j < shards.len() && key_of(#[trigger] shards[j]@) == key;
    assert(j == i);
}

/// Appending a shard under a new key inserts it into the table.
pub proof fn lemma_table_push(shards: Seq<Shard>, shard: Shard)
    requires
        distinct_keys(shards),
        !holds_key(shards, key_of(shard@)),
    ensures
        distinct_keys(shards.push(shard)),
        table_of(shards.push(shard)) == table_of(shards).insert(key_of(shard@), shard@),
{
    let after = shards.push(shard);
    let n = shards.len() as int;
    assert(distinct_keys(after)) by {
        assert forall|i: int, j: int| 0 <= i < j < after.len() implies key_of(
            #[trigger] after[i]@,
        ) != key_of(#[trigger] after[j]@) by {
            if j < n {
                assert(after[i] == shards[i] && after[j] == shards[j]);
            } else {
                assert(after[i] == shards[i]);
                assert(after[j] == shard);
            }
        }
    }
    let wanted = table_of(shards).insert(key_of(shard@), shard@);
    assert forall|key: (ShardId, u32)| table_of(after).contains_key(key) <==> wanted.contains_key(
        key,
    ) by {
        if holds_key(after, key) {
            let i = choose|i: int| 0 <= i < after.len() && key_of(#[trigger] after[i]@) == key;
            if i < n {
                assert(after[i] == shards[i]);
                assert(holds_key(shards, key));
            }
        }
        if holds_key(shards, key) {
            let i = choose|i: int| 0 <= i < shards.len() && key_of(#[trigger] shards[i]@) == key;
            assert(after[i] == shards[i]);
            assert(holds_key(after, key));
        }
        if key == key_of(shard@) {
            assert(after[n] == shard);
            assert(holds_key(after, key));
        }
    }
    assert forall|key: (ShardId, u32)| table_of(after).contains_key(key) implies table_of(
        after,
    )[key] == wanted[key] by {
        let i = choose|i: int| 0 <= i < after.len() && key_of(#[trigger] after[i]@) == key;
        lemma_table_at(after, i);
        if i < n {
            assert(after[i] == shards[i]);
            lemma_table_at(shards, i);
        } else {
            assert(after[i] == shard);
        }
    }
    assert(table_of(after) =~= wanted);
}

/// Putting a shard in the place of one with the same key replaces it in the
/// table.
pub proof fn lemma_table_replace(shards: Seq<Shard>, i: int, shard: Shard)
    requires
        distinct_keys(shards),
        0 <= i < shards.len(),
        key_of(shards[i]@) == key_of(shard@),
    ensures
        distinct_keys(shards.update(i, shard)),
        table_of(shards.update(i, shard)) == table_of(shards).insert(key_of(shard@), shard@),
{
    let after = shards.update(i, shard);
    assert forall|k: int| 0 <= k < after.len() implies key_of(#[trigger] after[k]@) == key_of(
        shards[k]@,
    ) by {}
    assert(distinct_keys(after)) by {
        assert forall|a: int, b: int| 0 <= a < b < after.len() implies key_of(
            #[trigger] after[a]@,
        ) != key_of(#[trigger] after[b]@) by {
            assert(key_of(after[a]@) == key_of(shards[a]@));
            assert(key_of(after[b]@) == key_of(shards[b]@));
        }
    }
    let wanted = table_of(shards).insert(key_of(shard@), shard@);
    assert forall|key: (ShardId, u32)| table_of(after).contains_key(key) <==> wanted.contains_key(
        key,
    ) by {
        if holds_key(after, key) {
            let k = choose|k: int| 0 <= k < after.len() && key_of(#[trigger] after[k]@) == key;
            assert(key_of(shards[k]@) == key);
            assert(holds_key(shards, key));
        }
        if holds_key(shards, key) {
            let k = choose|k: int| 0 <= k < shards.len() && key_of(#[trigger] shards[k]@) == key;
            assert(key_of(after[k]@) == key);
            assert(holds_key(after, key));
        }
        if key == key_of(shard@) {
            assert(key_of(after[i]@) == key);
            assert(holds_key(after, key));
        }
    }
    assert forall|key: (ShardId, u32)| table_of(after).contains_key(key) implies table_of(
        after,
    )[key] == wanted[key] by {
        let k = choose|k: int| 0 <= k < after.len() && key_of(#[trigger] after[k]@) == key;
        lemma_table_at(after, k);
        assert(key_of(shards[k]@) == key);
        lemma_table_at(shards, k);
        if k != i {
            assert(after[k] == shards[k]);
        }
    }
    assert(table_of(after) =~= wanted);
}

/// Whether the table holds some version of the shard `id`.
pub open spec fn has_shard(table: Map<(ShardId, u32), ShardView>, id: ShardId) -> bool {
    exists|version: u32| table.contains_key((id, version))
}

/// Whether `version` is the newest version of the shard `id` in the table.
pub open spec fn is_latest(table: Map<(ShardId, u32), ShardView>, id: ShardId, version: u32) -> bool {
    &&& table.contains_key((id, version))
    &&& forall|other: u32| table.contains_key((id, other)) ==> other <= version
}

/// What `put` makes of a table: a consistent shard is stored under its key,
/// an inconsistent one leaves the table as it was.
pub open spec fn table_after_put(
    table: Map<(ShardId, u32), ShardView>,
    shard: ShardView,
) -> Map<(ShardId, u32), ShardView> {
    if shard.tensor.consistent() {
        table.insert(key_of(shard), shard)
    } else {
        table
    }
}

/// What `get` finds in a table: the given version of the shard, or its
/// newest version where none is given; nothing where the table lacks it.
pub open spec fn found_in(
    table: Map<(ShardId, u32), ShardView>,
    id: ShardId,
    version: Option<u32>,
    found: Option<ShardView>,
) -> bool {
    match version {
        Some(v) => found == (if table.contains_key((id, v)) {
            Some(table[(id, v)])
        } else {
            None
        }),
        None => match found {
            Some(shard) => shard.shard_id == id && is_latest(table, id, shard.metadata.version)
                && table[(id, shard.metadata.version)] == shard,
            None => !has_shard(table, id),
        },
    }
}

/// The shards of the runtime, by identifier and version.
pub struct ShardStore {
    shards: Vec<Shard>,
}

impl View for ShardStore {
    type V = Map<(ShardId, u32), ShardView>;

    closed spec fn view(&self) -> Map<(ShardId, u32), ShardView> {
        table_of(self.shards@)
    }
}

impl ShardStore {
    /// What holds of every store: no key is there twice, and every stored
    /// tensor is consistent.
    pub closed spec fn wf(&self) -> bool {
        &&& distinct_keys(self.shards@)
        &&& forall|i: int|
            0 <= i < self.shards.len() ==> (#[trigger] self.shards[i])@.tensor.consistent()
    }

    /// Every shard of a store is stored under its own identifier and
    /// version, and its tensor is consistent.
    pub proof fn lemma_stored(&self, key: (ShardId, u32))
        requires
            self.wf(),
            self@.contains_key(key),
        ensures
            key_of(self@[key]) == key,
            self@[key].tensor.consistent(),
    {
        let i = choose|i: int|
            0 <= i < self.shards.len() && key_of(#[trigger] self.shards@[i]@) == key;
        lemma_table_at(self.shards@, i);
    }

    /// A store that holds nothing.
    pub fn new() -> (store: Self)
        ensures
            store.wf(),
            store@ == Map::<(ShardId, u32), ShardView>::empty(),
    {
        let store = ShardStore { shards: Vec::new() };
        assert(store@ =~= Map::<(ShardId, u32), ShardView>::empty());
        store
    }

    /// The place of the shard stored under `id` and `version`, if there is
    /// one.
    fn position(&self, id: &ShardId, version: u32) -> (at: Option<usize>)
        requires
            self.wf(),
        ensures
            at is Some <==> self@.contains_key((*id, version)),
            at is Some ==> at->Some_0 < self.shards.len() && key_of(
                self.shards[at->Some_0 as int]@,
            ) == (*id, version),
    {
        let mut i: usize = 0;
        while i < self.shards.len()
            invariant
                i <= self.shards.len(),
                forall|k: int| 0 <= k < i ==> key_of(#[trigger] self.shards[k]@) != (*id, version),
            decreases self.shards.len() - i,
        {
            if self.shards[i].shard_id == *id && self.shards[i].metadata.version == version {
                assert(self.shards[i as int].shard_id == *id);
                assert(key_of(self.shards@[i as int]@) == (*id, version));
                return Some(i);
            }
            i += 1;
        }
        None
    }

    /// Stores a shard under its identifier and version and returns the
    /// identifier. What was stored under the same identifier and version is
    /// replaced; other versions stay. A shard whose tensor is not consistent
    /// is refused with a storage error, and the store stays as it was.
    pub fn put(&mut self, shard: Shard) -> (r: Result<ShardId, AuriaError>)
        requires
            old(self).wf(),
        ensures
            final(self).wf(),
            final(self)@ == table_after_put(old(self)@, shard@),
            r is Ok <==> shard@.tensor.consistent(),
            r is Ok ==> r->Ok_0 == shard.shard_id,
            r is Err ==> r->Err_0 is StorageError,
    {
        if !shard.tensor.is_consistent() {
            return Err(
                AuriaError::StorageError(
                    "tensor payload does not match its shape and element type".to_owned(),
                ),
            );
        }
        let id = shard.shard_id;
        match self.position(&id, shard.metadata.version) {
            Some(i) => {
                proof {
                    lemma_table_replace(self.shards@, i as int, shard);
                }
                self.shards.set(i, shard);
            },
            None => {
                proof {
                    lemma_table_push(self.shards@, shard);
                }
                self.shards.push(shard);
            },
        }
        Ok(id)
    }

    /// Stores a shard as `put` does, after checking that its identifier is
    /// the digest of its content. `digest` is the digest of the shard's
    /// content bytes, computed by the caller. A shard whose identifier
    /// differs from it is refused with a security error, and the store
    /// stays as it was.
    pub fn put_addressed(&mut self, shard: Shard, digest: &crate::ids::Hash) -> (r: Result<
        ShardId,
        AuriaError,
    >)
        requires
            old(self).wf(),
        ensures
            final(self).wf(),
            shard.shard_id@ != digest@ ==> r is Err && r->Err_0 is SecurityError && final(self)@
                == old(self)@,
            shard.shard_id@ == digest@ ==> {
                &&& final(self)@ == table_after_put(old(self)@, shard@)
                &&& r is Ok <==> shard@.tensor.consistent()
                &&& r is Ok ==> r->Ok_0 == shard.shard_id
                &&& r is Err ==> r->Err_0 is StorageError
            },
    {
        if !bytes_equal(&shard.shard_id.0, &digest.0) {
            return Err(
                AuriaError::SecurityError(
                    "the identifier of the shard is not the digest of its content".to_owned(),
                ),
            );
        }
        self.put(shard)
    }

    /// Whether some version of the shard `id` is stored.
    pub fn contains(&self, id: &ShardId) -> (there: bool)
        requires
            self.wf(),
        ensures
            there == has_shard(self@, *id),
    {
        let mut i: usize = 0;
        while i < self.shards.len()
            invariant
                self.wf(),
                i <= self.shards.len(),
                forall|k: int| 0 <= k < i ==> (#[trigger] self.shards[k]).shard_id != *id,
            decreases self.shards.len() - i,
        {
            if self.shards[i].shard_id == *id {
                proof {
                    lemma_table_at(self.shards@, i as int);
                    assert(self@.contains_key((*id, self.shards[i as int].metadata.version)));
                }
                return true;
            }
            i += 1;
        }
        assert(!has_shard(self@, *id)) by {
            if has_shard(self@, *id) {
                let v = choose|v: u32| self@.contains_key((*id, v));
                let k = choose|k: int|
                    0 <= k < self.shards.len() && key_of(#[trigger] self.shards@[k]@) == (*id, v);
                assert(self.shards[k].shard_id == *id);
            }
        }
        false
    }

    /// The place of the newest version of the shard `id`, if any version is
    /// stored.
    fn newest(&self, id: &ShardId) -> (at: Option<usize>)
        requires
            self.wf(),
        ensures
            at is Some <==> has_shard(self@, *id),
            at is Some ==> at->Some_0 < self.shards.len() && self.shards[at->Some_0 as int].shard_id
                == *id && is_latest(
                self@,
                *id,
                self.shards[at->Some_0 as int].metadata.version,
            ),
    {
        let mut best: Option<usize> = None;
        let mut i: usize = 0;
        while i < self.shards.len()
            invariant
                i <= self.shards.len(),
                best is None ==> forall|k: int|
                    0 <= k < i ==> (#[trigger] self.shards[k]).shard_id != *id,
                best is Some ==> best->Some_0 < i && self.shards[best->Some_0 as int].shard_id
                    == *id,
                best is Some ==> forall|k: int|
                    0 <= k < i && (#[trigger] self.shards[k]).shard_id == *id
                        ==> self.shards[k].metadata.version
                        <= self.shards[best->Some_0 as int].metadata.version,
            decreases self.shards.len() - i,
        {
            if self.shards[i].shard_id == *id {
                match best {
                    Some(b) => {
                        if self.shards[i].metadata.version > self.shards[b].metadata.version {
                            best = Some(i);
                        }
                    },
                    None => {
                        best = Some(i);
                    },
                }
            }
            i += 1;
        }
        proof {
            match best {
                Some(b) => {
                    lemma_table_at(self.shards@, b as int);
                    let top = self.shards[b as int].metadata.version;
                    assert forall|other: u32| self@.contains_key((*id, other)) implies other
                        <= top by {
                        let k = choose|k: int|
                            0 <= k < self.shards.len() && key_of(#[trigger] self.shards@[k]@) == (
                                *id,
                                other,
                            );
                        assert(self.shards[k].shard_id == *id);
                    }
                    assert(self@.contains_key((*id, top)));
                },
                None => {
                    if has_shard(self@, *id) {
                        let v = choose|v: u32| self@.contains_key((*id, v));
                        let k = choose|k: int|
                            0 <= k < self.shards.len() && key_of(#[trigger] self.shards@[k]@) == (
                                *id,
                                v,
                            );
                        assert(self.shards[k].shard_id == *id);
                    }
                },
            }
        }
        best
    }

    /// The shard stored under `id`: the given version, or the newest where
    /// none is given. Fails with `ShardNotFound` where the store lacks it.
    pub fn get(&self, id: &ShardId, version: Option<u32>) -> (r: Result<Shard, AuriaError>)
        requires
            self.wf(),
        ensures
            found_in(
                self@,
                *id,
                version,
                match r {
                    Ok(shard) => Some(shard@),
                    Err(_) => None,
                },
            ),
            r is Err ==> r->Err_0 == AuriaError::ShardNotFound(*id),
    {
        let at = match version {
            Some(v) => self.position(id, v),
            None => self.newest(id),
        };
        match at {
            Some(i) => {
                proof {
                    lemma_table_at(self.shards@, i as int);
                }
                Ok(self.shards[i].clone())
            },
            None => Err(AuriaError::ShardNotFound(*id)),
        }
    }
}

/// A shard that was stored is found again, equal in every byte: under its
/// own version, and also without a version where the store holds no newer
/// one.
pub proof fn lemma_get_after_put(table: Map<(ShardId, u32), ShardView>, shard: ShardView)
    requires
        shard.tensor.consistent(),
    ensures
        found_in(
            table_after_put(table, shard),
            shard.shard_id,
            Some(shard.metadata.version),
            Some(shard),
        ),
        (forall|other: u32| table.contains_key((shard.shard_id, other)) ==> other
            <= shard.metadata.version) ==> found_in(
            table_after_put(table, shard),
            shard.shard_id,
            None,
            Some(shard),
        ),
{
}

/// A shard whose tensor is not consistent is never stored: the store is
/// after `put` what it was before.
pub proof fn lemma_inconsistent_not_stored(table: Map<(ShardId, u32), ShardView>, shard: ShardView)
    requires
        !shard.tensor.consistent(),
    ensures
        table_after_put(table, shard) == table,
{
}

} // verus!
