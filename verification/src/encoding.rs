//! Canonical bytes of numbers and of the records that are signed or hashed.

use vstd::prelude::*;
use crate::ids::{ExpertId, RequestId};
use crate::types::{License, ShardView, Shard};

verus! {

/// The four bytes of a 32-bit number, the most significant first.
pub open spec fn be32(x: u32) -> Seq<u8> {
    seq![
        ((x as int / 0x100_0000) % 256) as u8,
        ((x as int / 0x1_0000) % 256) as u8,
        ((x as int / 0x100) % 256) as u8,
        (x as int % 256) as u8,
    ]
}

/// The eight bytes of a 64-bit number, the most significant first.
pub open spec fn be64(x: u64) -> Seq<u8> {
    seq![
        ((x as int / 0x100_0000_0000_0000) % 256) as u8,
        ((x as int / 0x1_0000_0000_0000) % 256) as u8,
        ((x as int / 0x100_0000_0000) % 256) as u8,
        ((x as int / 0x1_0000_0000) % 256) as u8,
        ((x as int / 0x100_0000) % 256) as u8,
        ((x as int / 0x1_0000) % 256) as u8,
        ((x as int / 0x100) % 256) as u8,
        (x as int % 256) as u8,
    ]
}

/// Appends the bytes of `src` to `dst`.
pub fn append_bytes(dst: &mut Vec<u8>, src: &[u8])
    ensures
        final(dst)@ == old(dst)@ + src@,
{
    let ghost base = dst@;
    let mut i: usize = 0;
    while i < src.len()
        invariant
            i <= src.len(),
            dst@ == base + src@.take(i as int),
        decreases src.len() - i,
    {
        dst.push(src[i]);
        assert(base + src@.take(i as int + 1) =~= (base + src@.take(i as int)).push(src@[i as int]));
        i += 1;
    }
    assert(src@.take(i as int) =~= src@);
}

/// Appends the four bytes of `x`, the most significant first.
pub fn append_be32(dst: &mut Vec<u8>, x: u32)
    ensures
        final(dst)@ == old(dst)@ + be32(x),
{
    let ghost base = dst@;
    dst.push(((x / 0x100_0000) % 256) as u8);
    dst.push(((x / 0x1_0000) % 256) as u8);
    dst.push(((x / 0x100) % 256) as u8);
    dst.push((x % 256) as u8);
    assert(dst@ =~= base + be32(x));
}

/// Appends the eight bytes of `x`, the most significant first.
pub fn append_be64(dst: &mut Vec<u8>, x: u64)
    ensures
        final(dst)@ == old(dst)@ + be64(x),
{
    let ghost base = dst@;
    dst.push(((x / 0x100_0000_0000_0000) % 256) as u8);
    dst.push(((x / 0x1_0000_0000_0000) % 256) as u8);
    dst.push(((x / 0x100_0000_0000) % 256) as u8);
    dst.push(((x / 0x1_0000_0000) % 256) as u8);
    dst.push(((x / 0x100_0000) % 256) as u8);
    dst.push(((x / 0x1_0000) % 256) as u8);
    dst.push(((x / 0x100) % 256) as u8);
    dst.push((x % 256) as u8);
    assert(dst@ =~= base + be64(x));
}

/// The bytes over which a license is signed: the shard's identifier, the
/// node's key, and the expiry as eight bytes, the most significant first.
pub open spec fn license_message(license: License) -> Seq<u8> {
    license.shard_id@ + license.node_pubkey@ + be64(license.expiry_timestamp)
}

impl License {
    /// The bytes over which the license is signed.
    pub fn signing_bytes(&self) -> (bytes: Vec<u8>)
        ensures
            bytes@ == license_message(*self),
            bytes@.len() == 72,
    {
        let mut bytes: Vec<u8> = Vec::new();
        append_bytes(&mut bytes, self.shard_id.0.as_slice());
        append_bytes(&mut bytes, self.node_pubkey.0.as_slice());
        append_be64(&mut bytes, self.expiry_timestamp);
        assert(bytes@ =~= license_message(*self));
        bytes
    }
}

/// The bytes of the identifiers of a list, one after the other.
pub open spec fn joined_ids(ids: Seq<ExpertId>) -> Seq<u8>
    decreases ids.len(),
{
    if ids.len() == 0 {
        Seq::<u8>::empty()
    } else {
        joined_ids(ids.drop_last()) + ids.last()@
    }
}

/// The bytes over which a usage receipt is signed: the request's
/// identifier, the number of experts as four bytes, the experts'
/// identifiers in order, the token count as four bytes and the time as
/// eight, numbers with the most significant byte first.
pub open spec fn receipt_message(
    request_id: RequestId,
    expert_ids: Seq<ExpertId>,
    token_count: u32,
    timestamp: u64,
) -> Seq<u8> {
    request_id@ + be32(expert_ids.len() as u32) + joined_ids(expert_ids) + be32(token_count) + be64(
        timestamp,
    )
}

/// The bytes over which a usage receipt is signed, or `None` where the
/// experts are too many to count in 32 bits.
pub fn receipt_signing_bytes(
    request_id: &RequestId,
    expert_ids: &Vec<ExpertId>,
    token_count: u32,
    timestamp: u64,
) -> (bytes: Option<Vec<u8>>)
    ensures
        bytes is Some <==> expert_ids.len() <= u32::MAX,
        bytes is Some ==> bytes->Some_0@ == receipt_message(
            *request_id,
            expert_ids@,
            token_count,
            timestamp,
        ),
{
    if expert_ids.len() > u32::MAX as usize {
        return None;
    }
    let mut bytes: Vec<u8> = Vec::new();
    append_bytes(&mut bytes, request_id.0.as_slice());
    append_be32(&mut bytes, expert_ids.len() as u32);
    let ghost head = bytes@;
    let mut i: usize = 0;
    assert(expert_ids@.take(0) =~= Seq::<ExpertId>::empty());
    assert(head + Seq::<u8>::empty() =~= head);
    while i < expert_ids.len()
        invariant
            i <= expert_ids.len(),
            bytes@ == head + joined_ids(expert_ids@.take(i as int)),
        decreases expert_ids.len() - i,
    {
        let ghost before = bytes@;
        append_bytes(&mut bytes, expert_ids[i].0.as_slice());
        proof {
            let next = expert_ids@.take(i as int + 1);
            assert(next.drop_last() =~= expert_ids@.take(i as int));
            assert(next.last() == expert_ids@[i as int]);
            assert(bytes@ =~= head + joined_ids(next));
        }
        i += 1;
    }
    assert(expert_ids@.take(i as int) =~= expert_ids@);
    append_be32(&mut bytes, token_count);
    append_be64(&mut bytes, timestamp);
    Some(bytes)
}

/// The bytes of a shard whose digest is the shard's identifier: the
/// payload, the owner's key, a byte that says whether a license digest
/// follows (1, then the digest) or not (0), the time of creation as eight
/// bytes and the version as four, numbers with the most significant byte
/// first.
pub open spec fn content_of(shard: ShardView) -> Seq<u8> {
    shard.tensor.data + shard.metadata.owner@ + (match shard.metadata.license_hash {
        Some(digest) => seq![1u8] + digest@,
        None => seq![0u8],
    }) + be64(shard.metadata.created_at) + be32(shard.metadata.version)
}

impl Shard {
    /// The bytes of the shard whose digest is the shard's identifier.
    pub fn content_bytes(&self) -> (bytes: Vec<u8>)
        ensures
            bytes@ == content_of(self@),
    {
        let mut bytes: Vec<u8> = Vec::new();
        append_bytes(&mut bytes, self.tensor.data.as_slice());
        append_bytes(&mut bytes, self.metadata.owner.0.as_slice());
        match &self.metadata.license_hash {
            Some(digest) => {
                bytes.push(1u8);
                append_bytes(&mut bytes, digest.0.as_slice());
                assert(bytes@ =~= self@.tensor.data + self@.metadata.owner@ + (seq![1u8] + digest@));
            },
            None => {
                bytes.push(0u8);
                assert(bytes@ =~= self@.tensor.data + self@.metadata.owner@ + seq![0u8]);
            },
        }
        append_be64(&mut bytes, self.metadata.created_at);
        append_be32(&mut bytes, self.metadata.version);
        bytes
    }
}

} // verus!
