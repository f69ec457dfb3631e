//! Putting the shards of an expert together into the expert's tensor.
//!
//! The tensor has the shape that the expert's layout gives and the element
//! type of its shards. Its payload starts as zeros; the payload of the shard
//! at place `i` of the expert's list is then written at byte
//! `offset + i * stride`, in the order of the list, so that of two shards
//! that overlap the later one stays.

use vstd::prelude::*;
use crate::error::AuriaError;
use crate::ids::ShardId;
use crate::store::{has_shard, is_latest, ShardStore};
use crate::tensor::{byte_size, checked_byte_size, copy_of, LayoutView, Tensor, TensorView};
use crate::types::{Expert, ExpertView, Shard, ShardView};

verus! {

/// The newest version of the shard `id` in the table.
pub open spec fn newest(table: Map<(ShardId, u32), ShardView>, id: ShardId) -> ShardView {
    table[(id, choose|version: u32| is_latest(table, id, version))]
}

/// A shard has one newest version.
pub proof fn lemma_newest(table: Map<(ShardId, u32), ShardView>, id: ShardId, version: u32)
    requires
        is_latest(table, id, version),
    ensures
        newest(table, id) == table[(id, version)],
{
    let other = choose|other: u32| is_latest(table, id, other);
    assert(other <= version && version <= other);
}

/// The bytes `buf` with `src` written over them from byte `start` on.
pub open spec fn write_at(buf: Seq<u8>, start: int, src: Seq<u8>) -> Seq<u8> {
    Seq::new(
        buf.len(),
        |k: int|
            if start <= k < start + src.len() {
                src[k - start]
            } else {
                buf[k]
            },
    )
}

/// The byte at which the payload of the shard at place `i` starts.
pub open spec fn start_of(layout: LayoutView, i: int) -> int {
    layout.offset + i * layout.stride
}

/// The bytes `buf` with each of the payloads written at its start, in
/// order.
pub open spec fn laid_out(buf: Seq<u8>, layout: LayoutView, payloads: Seq<Seq<u8>>) -> Seq<u8>
    decreases payloads.len(),
{
    if payloads.len() == 0 {
        buf
    } else {
        write_at(
            laid_out(buf, layout, payloads.drop_last()),
            start_of(layout, payloads.len() - 1),
            payloads.last(),
        )
    }
}

/// The payloads of the newest versions of the shards of a list.
pub open spec fn payloads_of(table: Map<(ShardId, u32), ShardView>, shards: Seq<ShardId>) -> Seq<
    Seq<u8>,
> {
    Seq::new(shards.len(), |i: int| newest(table, shards[i]).tensor.data)
}

/// Whether `k` is the first place of the list whose shard the table lacks.
pub open spec fn is_first_missing(
    table: Map<(ShardId, u32), ShardView>,
    shards: Seq<ShardId>,
    k: int,
) -> bool {
    &&& 0 <= k < shards.len()
    &&& !has_shard(table, shards[k])
    &&& forall|i: int| 0 <= i < k ==> has_shard(table, #[trigger] shards[i])
}

/// Whether the table holds every shard of the list.
pub open spec fn all_present(table: Map<(ShardId, u32), ShardView>, shards: Seq<ShardId>) -> bool {
    forall|i: int| 0 <= i < shards.len() ==> has_shard(table, #[trigger] shards[i])
}

/// Whether the shards of an expert, all present, can be put together: there
/// is at least one, all have the element type of the first, the tensor's
/// size fits the machine, and each payload lies within the tensor.
pub open spec fn well_laid(table: Map<(ShardId, u32), ShardView>, expert: ExpertView) -> bool {
    let dtype = newest(table, expert.shards[0]).tensor.dtype;
    let total = byte_size(expert.tensor_layout.shape, dtype);
    &&& expert.shards.len() > 0
    &&& forall|i: int|
        0 <= i < expert.shards.len() ==> newest(table, #[trigger] expert.shards[i]).tensor.dtype
            == dtype
    &&& total <= usize::MAX
    &&& forall|i: int|
        0 <= i < expert.shards.len() ==> start_of(expert.tensor_layout, i) + newest(
            table,
            #[trigger] expert.shards[i],
        ).tensor.data.len() <= total
}

/// The tensor of an expert whose shards can be put together.
pub open spec fn assembled(table: Map<(ShardId, u32), ShardView>, expert: ExpertView) -> TensorView {
    let dtype = newest(table, expert.shards[0]).tensor.dtype;
    let total = byte_size(expert.tensor_layout.shape, dtype);
    TensorView {
        data: laid_out(
            Seq::new(total, |k: int| 0u8),
            expert.tensor_layout,
            payloads_of(table, expert.shards),
        ),
        shape: expert.tensor_layout.shape,
        dtype,
    }
}

/// What putting together gives: the tensor, or why there is none. A shard
/// that the table lacks is reported first, by the first such place of the
/// list.
pub open spec fn assembly_gives(
    table: Map<(ShardId, u32), ShardView>,
    expert: ExpertView,
    r: Result<TensorView, AuriaError>,
) -> bool {
    &&& forall|k: int|
        is_first_missing(table, expert.shards, k) ==> r == Err::<TensorView, AuriaError>(
            AuriaError::ShardNotFound(expert.shards[k]),
        )
    &&& all_present(table, expert.shards) && !well_laid(table, expert) ==> r is Err && r->Err_0 is StorageError
    &&& all_present(table, expert.shards) && well_laid(table, expert) ==> r == Ok::<
        TensorView,
        AuriaError,
    >(assembled(table, expert))
}

/// Laying out payloads keeps the number of bytes.
pub proof fn lemma_laid_out_len(buf: Seq<u8>, layout: LayoutView, payloads: Seq<Seq<u8>>)
    ensures
        laid_out(buf, layout, payloads).len() == buf.len(),
    decreases payloads.len(),
{
    if payloads.len() > 0 {
        lemma_laid_out_len(buf, layout, payloads.drop_last());
    }
}

/// The tensor of an expert is consistent: its payload has the size that its
/// shape and element type imply.
pub proof fn lemma_assembled_consistent(table: Map<(ShardId, u32), ShardView>, expert: ExpertView)
    ensures
        assembled(table, expert).consistent(),
{
    let dtype = newest(table, expert.shards[0]).tensor.dtype;
    let total = byte_size(expert.tensor_layout.shape, dtype);
    lemma_laid_out_len(
        Seq::new(total, |k: int| 0u8),
        expert.tensor_layout,
        payloads_of(table, expert.shards),
    );
}

/// Whether the payload at place `k` covers the byte `at` of the tensor.
pub open spec fn covers(layout: LayoutView, payloads: Seq<Seq<u8>>, k: int, at: int) -> bool {
    start_of(layout, k) <= at < start_of(layout, k) + payloads[k].len()
}

/// The byte `j` of the shard at place `i` is in the tensor as it is in the
/// shard, at `at`, where the shard lies within the tensor and no later
/// shard covers that byte.
pub proof fn lemma_payload_kept(
    buf: Seq<u8>,
    layout: LayoutView,
    payloads: Seq<Seq<u8>>,
    i: int,
    j: int,
    at: int,
)
    requires
        0 <= i < payloads.len(),
        0 <= j < payloads[i].len(),
        at == start_of(layout, i) + j,
        0 <= start_of(layout, i),
        start_of(layout, i) + payloads[i].len() <= buf.len(),
        forall|k: int| i < k < payloads.len() ==> !#[trigger] covers(layout, payloads, k, at),
    ensures
        laid_out(buf, layout, payloads)[at] == payloads[i][j],
    decreases payloads.len(),
{
    let front = payloads.drop_last();
    let last = payloads.len() - 1;
    lemma_laid_out_len(buf, layout, front);
    if i < last {
        assert(!covers(layout, payloads, last, at));
        assert forall|k: int| i < k < front.len() implies !#[trigger] covers(
            layout,
            front,
            k,
            at,
        ) by {
            assert(!covers(layout, payloads, k, at));
        }
        lemma_payload_kept(buf, layout, front, i, j, at);
    }
}

/// A byte of the tensor that no shard covers is as it was before the
/// shards were written: zero, in the tensor of an expert.
pub proof fn lemma_gap_kept(buf: Seq<u8>, layout: LayoutView, payloads: Seq<Seq<u8>>, at: int)
    requires
        0 <= at < buf.len(),
        forall|k: int| 0 <= k < payloads.len() ==> !#[trigger] covers(layout, payloads, k, at),
    ensures
        laid_out(buf, layout, payloads)[at] == buf[at],
    decreases payloads.len(),
{
    if payloads.len() > 0 {
        let front = payloads.drop_last();
        let last = payloads.len() - 1;
        lemma_laid_out_len(buf, layout, front);
        assert(!covers(layout, payloads, last, at));
        assert forall|k: int| 0 <= k < front.len() implies !#[trigger] covers(
            layout,
            front,
            k,
            at,
        ) by {
            assert(!covers(layout, payloads, k, at));
        }
        lemma_gap_kept(buf, layout, front, at);
    }
}

/// Putting together has one outcome: either the table holds every shard of
/// the list or one place is the first whose shard it lacks.
pub proof fn lemma_first_missing(table: Map<(ShardId, u32), ShardView>, shards: Seq<ShardId>)
    ensures
        all_present(table, shards) || exists|k: int| is_first_missing(table, shards, k),
    decreases shards.len(),
{
    if shards.len() > 0 {
        let front = shards.drop_last();
        lemma_first_missing(table, front);
        assert(forall|i: int| 0 <= i < front.len() ==> front[i] == shards[i]);
        if all_present(table, front) {
            if has_shard(table, shards.last()) {
                assert(all_present(table, shards));
            } else {
                assert(is_first_missing(table, shards, shards.len() - 1));
            }
        } else {
            let k = choose|k: int| is_first_missing(table, front, k);
            assert(is_first_missing(table, shards, k));
        }
    }
}

/// The newest versions of the shards of a list, fetched from the store in
/// order; the first shard that the store lacks ends the fetch.
fn fetch(shards: &Vec<ShardId>, store: &ShardStore) -> (r: Result<Vec<Shard>, AuriaError>)
    requires
        store.wf(),
    ensures
        forall|k: int|
            is_first_missing(store@, shards@, k) ==> r == Err::<Vec<Shard>, AuriaError>(
                AuriaError::ShardNotFound(shards[k]),
            ),
        r is Ok <==> all_present(store@, shards@),
        r is Ok ==> r->Ok_0.len() == shards.len() && forall|i: int|
            0 <= i < shards.len() ==> (#[trigger] r->Ok_0[i])@ == newest(store@, shards[i]),
{
    let mut parts: Vec<Shard> = Vec::new();
    let mut i: usize = 0;
    while i < shards.len()
        invariant
            store.wf(),
            i <= shards.len(),
            parts.len() == i,
            forall|k: int| 0 <= k < i ==> has_shard(store@, #[trigger] shards[k]),
            forall|k: int| 0 <= k < i ==> (#[trigger] parts[k])@ == newest(store@, shards[k]),
        decreases shards.len() - i,
    {
        match store.get(&shards[i], None) {
            Ok(shard) => {
                proof {
                    lemma_newest(store@, shards[i as int], shard@.metadata.version);
                    assert(store@.contains_key((shards[i as int], shard@.metadata.version)));
                }
                parts.push(shard);
            },
            Err(e) => {
                proof {
                    assert(is_first_missing(store@, shards@, i as int));
                    assert forall|k: int| is_first_missing(store@, shards@, k) implies k == i by {
                    }
                    assert(!all_present(store@, shards@));
                }
                return Err(e);
            },
        }
        i += 1;
    }
    Ok(parts)
}

/// Writes `src` over `buf` from byte `start` on.
fn write_payload(buf: &mut Vec<u8>, start: usize, src: &Vec<u8>)
    requires
        start + src.len() <= old(buf).len(),
    ensures
        final(buf)@ == write_at(old(buf)@, start as int, src@),
{
    let ghost base = buf@;
    let mut j: usize = 0;
    while j < src.len()
        invariant
            j <= src.len(),
            start + src.len() <= buf.len(),
            buf.len() == base.len(),
            forall|k: int|
                0 <= k < buf.len() ==> buf[k] == if start <= k < start + j {
                    src[k - start]
                } else {
                    base[k]
                },
        decreases src.len() - j,
    {
        buf.set(start + j, src[j]);
        j += 1;
    }
    assert(buf@ =~= write_at(base, start as int, src@));
}

/// As many zero bytes as asked for.
fn zeros(n: usize) -> (buf: Vec<u8>)
    ensures
        buf@ == Seq::new(n as nat, |k: int| 0u8),
{
    let mut buf: Vec<u8> = Vec::with_capacity(n);
    let mut i: usize = 0;
    while i < n
        invariant
            i <= n,
            buf.len() == i,
            forall|k: int| 0 <= k < i ==> buf[k] == 0u8,
        decreases n - i,
    {
        buf.push(0u8);
        i += 1;
    }
    assert(buf@ =~= Seq::new(n as nat, |k: int| 0u8));
    buf
}

/// Puts the newest versions of the shards of an expert together into the
/// expert's tensor. Fails with `ShardNotFound` for the first shard that the
/// store lacks, and with a storage error where the shards are all there but
/// do not make up a tensor of the layout.
#[verifier::loop_isolation(false)]
pub fn assemble(expert: &Expert, store: &ShardStore) -> (r: Result<Tensor, AuriaError>)
    requires
        store.wf(),
    ensures
        assembly_gives(
            store@,
            expert@,
            match r {
                Ok(tensor) => Ok(tensor@),
                Err(e) => Err(e),
            },
        ),
{
    let parts = match fetch(&expert.shards, store) {
        Ok(parts) => parts,
        Err(e) => {
            return Err(e);
        },
    };
    assert forall|k: int| !is_first_missing(store@, expert@.shards, k) by {
        if is_first_missing(store@, expert@.shards, k) {
            assert(has_shard(store@, expert@.shards[k]));
        }
    }
    if parts.len() == 0 {
        return Err(AuriaError::StorageError("an expert without shards has no tensor".to_owned()));
    }
    let dtype = parts[0].tensor.dtype;
    let mut d: usize = 0;
    while d < parts.len()
        invariant
            d <= parts.len(),
            parts.len() == expert.shards.len(),
            forall|i: int|
                0 <= i < parts.len() ==> (#[trigger] parts[i])@ == newest(
                    store@,
                    expert.shards[i],
                ),
            dtype == parts[0].tensor.dtype,
            forall|i: int| 0 <= i < d ==> (#[trigger] parts[i]).tensor.dtype == dtype,
        decreases parts.len() - d,
    {
        if parts[d].tensor.dtype != dtype {
            proof {
                assert(parts[0]@ == newest(store@, expert.shards[0]));
                assert(parts[d as int]@ == newest(store@, expert.shards[d as int]));
                assert(!well_laid(store@, expert@));
            }
            return Err(
                AuriaError::StorageError("the shards of an expert differ in element type".to_owned()),
            );
        }
        d += 1;
    }
    assert(parts[0]@ == newest(store@, expert.shards[0]));
    let total: usize = match checked_byte_size(&expert.tensor_layout.shape, dtype) {
        Some(size) => {
            if size > usize::MAX as u64 {
                return Err(
                    AuriaError::StorageError("the tensor of the expert is too large".to_owned()),
                );
            }
            size as usize
        },
        None => {
            return Err(
                AuriaError::StorageError("the tensor of the expert is too large".to_owned()),
            );
        },
    };
    let ghost payloads = payloads_of(store@, expert@.shards);
    let ghost blank = Seq::new(total as nat, |k: int| 0u8);
    let mut buf = zeros(total);
    let mut i: usize = 0;
    assert(payloads.take(0) =~= Seq::<Seq<u8>>::empty());
    while i < parts.len()
        invariant
            i <= parts.len(),
            parts.len() == expert.shards.len(),
            forall|k: int|
                0 <= k < parts.len() ==> (#[trigger] parts[k])@ == newest(
                    store@,
                    expert.shards[k],
                ),
            payloads == payloads_of(store@, expert@.shards),
            blank == Seq::new(total as nat, |k: int| 0u8),
            total == byte_size(expert@.tensor_layout.shape, dtype),
            buf.len() == total,
            buf@ == laid_out(blank, expert@.tensor_layout, payloads.take(i as int)),
            forall|k: int|
                0 <= k < i ==> start_of(expert@.tensor_layout, k) + newest(
                    store@,
                    #[trigger] expert.shards[k],
                ).tensor.data.len() <= total,
        decreases parts.len() - i,
    {
        let len: usize = parts[i].tensor.data.len();
        let offset: u128 = expert.tensor_layout.offset as u128;
        let stride: u128 = expert.tensor_layout.stride as u128;
        let place: u128 = i as u128;
        assert(place * stride <= 0xffff_ffff_ffff_ffff * 0xffff_ffff) by (nonlinear_arith)
            requires
                place <= 0xffff_ffff_ffff_ffff,
                stride <= 0xffff_ffff,
        ;
        let start: u128 = offset + place * stride;
        assert(parts[i as int]@ == newest(store@, expert.shards[i as int]));
        assert(start == start_of(expert@.tensor_layout, i as int));
        if start + len as u128 > total as u128 {
            proof {
                assert(!well_laid(store@, expert@));
            }
            return Err(
                AuriaError::StorageError("a shard does not lie within the expert's tensor".to_owned()),
            );
        }
        proof {
            assert(payloads.take(i as int + 1).drop_last() =~= payloads.take(i as int));
            assert(payloads.take(i as int + 1).last() == parts[i as int]@.tensor.data);
        }
        write_payload(&mut buf, start as usize, &parts[i].tensor.data);
        i += 1;
    }
    assert(payloads.take(i as int) =~= payloads);
    assert(well_laid(store@, expert@)) by {
        assert forall|k: int| 0 <= k < expert@.shards.len() implies newest(
            store@,
            #[trigger] expert@.shards[k],
        ).tensor.dtype == dtype by {
            assert(parts[k]@ == newest(store@, expert.shards[k]));
        }
    }
    Ok(Tensor { data: buf, shape: copy_of(&expert.tensor_layout.shape), dtype })
}

} // verus!
