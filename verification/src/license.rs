//! The license validator.
//!
//! A license lets one node use one shard until it expires, and is signed by
//! the issuing authority. Checking the signature itself is done outside
//! this library, over the bytes and with the key that `signing_input`
//! gives; `validate` takes the outcome of that check. Every failure is the
//! same error: a caller cannot tell a missing license from an expired or a
//! badly signed one.

use vstd::prelude::*;
use crate::encoding::license_message;
use crate::error::AuriaError;
use crate::ids::{PublicKey, ShardId, Signature};
use crate::types::{License, LicenseTerms};

verus! {

/// A license with its terms.
#[derive(Debug)]
pub struct Grant {
    pub license: License,
    pub terms: LicenseTerms,
}

/// What is needed to check the signature of a license: the bytes that were
/// signed, the signature, and the key of the authority that signed.
#[derive(Debug)]
pub struct SigningInput {
    pub message: Vec<u8>,
    pub signature: Signature,
    pub authority: PublicKey,
}

/// Whether the grant binds this shard to this node.
pub open spec fn binds(grant: Grant, shard_id: ShardId, node: PublicKey) -> bool {
    grant.license.shard_id == shard_id && grant.license.node_pubkey == node
}

/// The grant that binds the shard to the node: of several, the one that was
/// registered last.
pub open spec fn granted(grants: Seq<Grant>, shard_id: ShardId, node: PublicKey) -> Option<Grant>
    decreases grants.len(),
{
    if grants.len() == 0 {
        None
    } else if binds(grants.last(), shard_id, node) {
        Some(grants.last())
    } else {
        granted(grants.drop_last(), shard_id, node)
    }
}

/// Whether a license can be used at the time `now`: there is one, it has
/// not expired, and its signature is the authority's.
pub open spec fn usable(grant: Option<Grant>, now: u64, signature_valid: bool) -> bool {
    &&& grant is Some
    &&& now < grant->Some_0.license.expiry_timestamp
    &&& signature_valid
}

/// A license that has expired cannot be used, whatever its signature.
pub proof fn lemma_expired_is_refused(grant: Option<Grant>, now: u64, signature_valid: bool)
    requires
        grant is Some ==> grant->Some_0.license.expiry_timestamp <= now,
    ensures
        !usable(grant, now, signature_valid),
{
}

/// The validator: the licenses that were registered, and the key of the
/// authority that issues them.
pub struct LicenseValidator {
    grants: Vec<Grant>,
    authority: PublicKey,
}

impl View for LicenseValidator {
    type V = Seq<Grant>;

    closed spec fn view(&self) -> Seq<Grant> {
        self.grants@
    }
}

impl LicenseValidator {
    /// The key of the issuing authority.
    pub closed spec fn authority_key(&self) -> PublicKey {
        self.authority
    }

    /// A validator without licenses, for the issuing authority of this key.
    pub fn new(authority: PublicKey) -> (validator: Self)
        ensures
            validator@ == Seq::<Grant>::empty(),
            validator.authority_key() == authority,
    {
        LicenseValidator { grants: Vec::new(), authority }
    }

    /// Registers a license with its terms. It takes the place of an earlier
    /// license for the same shard and node.
    pub fn register(&mut self, license: License, terms: LicenseTerms)
        ensures
            final(self)@ == old(self)@.push(Grant { license, terms }),
            final(self).authority_key() == old(self).authority_key(),
    {
        self.grants.push(Grant { license, terms });
    }

    /// The place of the grant that binds the shard to the node.
    fn locate(&self, shard_id: &ShardId, node: &PublicKey) -> (at: Option<usize>)
        ensures
            at is Some <==> granted(self@, *shard_id, *node) is Some,
            at is Some ==> at->Some_0 < self.grants.len() && self.grants[at->Some_0 as int]
                == granted(self@, *shard_id, *node)->Some_0,
    {
        let mut i: usize = self.grants.len();
        assert(self@.take(i as int) =~= self@);
        while i > 0
            invariant
                i <= self.grants.len(),
                granted(self@, *shard_id, *node) == granted(
                    self@.take(i as int),
                    *shard_id,
                    *node,
                ),
            decreases i,
        {
            i -= 1;
            proof {
                let upto = self@.take(i as int + 1);
                assert(upto.last() == self@[i as int]);
                assert(upto.drop_last() =~= self@.take(i as int));
            }
            if self.grants[i].license.shard_id == *shard_id && self.grants[i].license.node_pubkey
                == *node {
                return Some(i);
            }
        }
        None
    }

    /// What is needed to check the signature of the license that binds the
    /// shard to the node, if there is such a license.
    pub fn signing_input(&self, shard_id: &ShardId, node: &PublicKey) -> (input: Option<
        SigningInput,
    >)
        ensures
            input is Some <==> granted(self@, *shard_id, *node) is Some,
            input is Some ==> {
                let license = granted(self@, *shard_id, *node)->Some_0.license;
                &&& input->Some_0.message@ == license_message(license)
                &&& input->Some_0.signature == license.signature
                &&& input->Some_0.authority == self.authority_key()
            },
    {
        match self.locate(shard_id, node) {
            Some(i) => Some(
                SigningInput {
                    message: self.grants[i].license.signing_bytes(),
                    signature: self.grants[i].license.signature,
                    authority: self.authority,
                },
            ),
            None => None,
        }
    }

    /// The terms under which the node may use the shard at the time `now`.
    /// `signature_valid` says whether the signature of the license was found
    /// to be the authority's over the license's bytes. Fails with
    /// `LicenseInvalid` where no license binds the shard to the node, where
    /// the license has expired, and where its signature is not valid, and
    /// does not say which.
    pub fn validate(
        &self,
        shard_id: &ShardId,
        node: &PublicKey,
        now: u64,
        signature_valid: bool,
    ) -> (r: Result<&LicenseTerms, AuriaError>)
        ensures
            r is Ok <==> usable(granted(self@, *shard_id, *node), now, signature_valid),
            r is Ok ==> *r->Ok_0 == granted(self@, *shard_id, *node)->Some_0.terms,
            r is Err ==> r->Err_0 == AuriaError::LicenseInvalid(*shard_id),
            granted(self@, *shard_id, *node) is Some && granted(
                self@,
                *shard_id,
                *node,
            )->Some_0.license.expiry_timestamp <= now ==> r is Err,
    {
        match self.locate(shard_id, node) {
            Some(i) => {
                if now < self.grants[i].license.expiry_timestamp && signature_valid {
                    Ok(&self.grants[i].terms)
                } else {
                    Err(AuriaError::LicenseInvalid(*shard_id))
                }
            },
            None => Err(AuriaError::LicenseInvalid(*shard_id)),
        }
    }
}

} // verus!
