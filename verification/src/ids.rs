//! Fixed-width identifiers, written as lowercase hexadecimal text.
//!
//! Two identifiers are equal when their bytes are. The text form of each is
//! the lowercase hexadecimal text of its bytes; reading accepts digits of
//! either case and nothing but a text of the right length.

use vstd::prelude::*;
use crate::error::AuriaError;
use crate::hexcode::{
    decode_error_text, decode_text, encode_bytes, hex_decoding, hex_encoding, is_hex,
    lemma_hex_round_trip,
};

verus! {

/// Whether two byte arrays hold the same bytes.
pub fn bytes_equal<const N: usize>(a: &[u8; N], b: &[u8; N]) -> (same: bool)
    ensures
        same == (a@ == b@),
        same == (*a == *b),
{
    broadcast use vstd::array::group_array_axioms;

    let mut i: usize = 0;
    while i < N
        invariant
            i <= N,
            forall|k: int| 0 <= k < i ==> a[k] == b[k],
        decreases N - i,
    {
        if a[i] != b[i] {
            assert(a@[i as int] != b@[i as int]);
            return false;
        }
        i += 1;
    }
    assert(a@ =~= b@);
    assert(*a =~= *b);
    true
}

/// Whether `e` is the error of a text that is hexadecimal but stands for the
/// wrong number of bytes.
pub open spec fn is_invalid_length(e: AuriaError) -> bool {
    e matches AuriaError::SerializationError(m) && m@ == "invalid length"@
}

/// Whether `text` is the hexadecimal form of exactly `n` bytes.
pub open spec fn is_hex_of(text: Seq<char>, n: nat) -> bool {
    is_hex(text) && text.len() == 2 * n
}

/// Reads `text` as the hexadecimal form of exactly `N` bytes.
pub fn decode_fixed<const N: usize>(text: &str) -> (r: Result<[u8; N], AuriaError>)
    ensures
        r is Ok <==> is_hex_of(text@, N as nat),
        r is Ok ==> r->Ok_0@ == hex_decoding(text@),
        r is Err ==> r->Err_0 is SerializationError,
        is_hex(text@) && text@.len() != 2 * N ==> is_invalid_length(r->Err_0),
{
    broadcast use vstd::array::group_array_axioms;

    match decode_text(text) {
        Err(e) => Err(AuriaError::SerializationError(decode_error_text(&e))),
        Ok(bytes) => {
            if bytes.len() != N {
                return Err(AuriaError::SerializationError("invalid length".to_owned()));
            }
            let mut out: [u8; N] = [0u8; N];
            let mut i: usize = 0;
            while i < N
                invariant
                    i <= N,
                    bytes.len() == N,
                    forall|k: int| 0 <= k < i ==> out[k] == bytes[k],
                decreases N - i,
            {
                out[i] = bytes[i];
                i += 1;
            }
            assert(out@ =~= bytes@);
            Ok(out)
        },
    }
}

/// Identifier of a shard: 32 bytes.
#[derive(Debug, Clone, Copy, Hash)]
pub struct ShardId(pub [u8; 32]);

impl View for ShardId {
    type V = Seq<u8>;

    open spec fn view(&self) -> Seq<u8> {
        self.0@
    }
}

impl PartialEq for ShardId {
    fn eq(&self, other: &Self) -> (same: bool) {
        bytes_equal(&self.0, &other.0)
    }
}

impl Eq for ShardId {
}

impl vstd::std_specs::cmp::PartialEqSpecImpl for ShardId {
    open spec fn obeys_eq_spec() -> bool {
        true
    }

    open spec fn eq_spec(&self, other: &Self) -> bool {
        self.0 == other.0
    }
}

impl ShardId {
    /// The identifier as 64 lowercase hexadecimal digits.
    pub fn to_hex(&self) -> (text: String)
        ensures
            text@ == hex_encoding(self@),
            is_hex_of(text@, 32),
    {
        proof {
            lemma_hex_round_trip(self@);
        }
        encode_bytes(self.0.as_slice())
    }

    /// Reads an identifier from 64 hexadecimal digits of either case.
    pub fn from_hex(text: &str) -> (r: Result<Self, AuriaError>)
        ensures
            r is Ok <==> is_hex_of(text@, 32),
            r is Ok ==> r->Ok_0@ == hex_decoding(text@),
            r is Err ==> r->Err_0 is SerializationError,
            is_hex(text@) && text@.len() != 64 ==> is_invalid_length(r->Err_0),
    {
        match decode_fixed::<32>(text) {
            Ok(bytes) => Ok(ShardId(bytes)),
            Err(e) => Err(e),
        }
    }
}

/// Identifier of an expert: 32 bytes.
#[derive(Debug, Clone, Copy, Hash)]
pub struct ExpertId(pub [u8; 32]);

impl View for ExpertId {
    type V = Seq<u8>;

    open spec fn view(&self) -> Seq<u8> {
        self.0@
    }
}

impl PartialEq for ExpertId {
    fn eq(&self, other: &Self) -> (same: bool) {
        bytes_equal(&self.0, &other.0)
    }
}

impl Eq for ExpertId {
}

impl vstd::std_specs::cmp::PartialEqSpecImpl for ExpertId {
    open spec fn obeys_eq_spec() -> bool {
        true
    }

    open spec fn eq_spec(&self, other: &Self) -> bool {
        self.0 == other.0
    }
}

impl ExpertId {
    /// The identifier as 64 lowercase hexadecimal digits.
    pub fn to_hex(&self) -> (text: String)
        ensures
            text@ == hex_encoding(self@),
            is_hex_of(text@, 32),
    {
        proof {
            lemma_hex_round_trip(self@);
        }
        encode_bytes(self.0.as_slice())
    }

    /// Reads an identifier from 64 hexadecimal digits of either case.
    pub fn from_hex(text: &str) -> (r: Result<Self, AuriaError>)
        ensures
            r is Ok <==> is_hex_of(text@, 32),
            r is Ok ==> r->Ok_0@ == hex_decoding(text@),
            r is Err ==> r->Err_0 is SerializationError,
            is_hex(text@) && text@.len() != 64 ==> is_invalid_length(r->Err_0),
    {
        match decode_fixed::<32>(text) {
            Ok(bytes) => Ok(ExpertId(bytes)),
            Err(e) => Err(e),
        }
    }
}

/// A public key: 32 bytes.
#[derive(Debug, Clone, Copy, Hash)]
pub struct PublicKey(pub [u8; 32]);

impl View for PublicKey {
    type V = Seq<u8>;

    open spec fn view(&self) -> Seq<u8> {
        self.0@
    }
}

impl PartialEq for PublicKey {
    fn eq(&self, other: &Self) -> (same: bool) {
        bytes_equal(&self.0, &other.0)
    }
}

impl Eq for PublicKey {
}

impl vstd::std_specs::cmp::PartialEqSpecImpl for PublicKey {
    open spec fn obeys_eq_spec() -> bool {
        true
    }

    open spec fn eq_spec(&self, other: &Self) -> bool {
        self.0 == other.0
    }
}

impl PublicKey {
    /// The identifier as 64 lowercase hexadecimal digits.
    pub fn to_hex(&self) -> (text: String)
        ensures
            text@ == hex_encoding(self@),
            is_hex_of(text@, 32),
    {
        proof {
            lemma_hex_round_trip(self@);
        }
        encode_bytes(self.0.as_slice())
    }

    /// Reads an identifier from 64 hexadecimal digits of either case.
    pub fn from_hex(text: &str) -> (r: Result<Self, AuriaError>)
        ensures
            r is Ok <==> is_hex_of(text@, 32),
            r is Ok ==> r->Ok_0@ == hex_decoding(text@),
            r is Err ==> r->Err_0 is SerializationError,
            is_hex(text@) && text@.len() != 64 ==> is_invalid_length(r->Err_0),
    {
        match decode_fixed::<32>(text) {
            Ok(bytes) => Ok(PublicKey(bytes)),
            Err(e) => Err(e),
        }
    }
}

/// A signature: 64 bytes.
#[derive(Debug, Clone, Copy, Hash)]
pub struct Signature(pub [u8; 64]);

impl View for Signature {
    type V = Seq<u8>;

    open spec fn view(&self) -> Seq<u8> {
        self.0@
    }
}

impl PartialEq for Signature {
    fn eq(&self, other: &Self) -> (same: bool) {
        bytes_equal(&self.0, &other.0)
    }
}

impl Eq for Signature {
}

impl vstd::std_specs::cmp::PartialEqSpecImpl for Signature {
    open spec fn obeys_eq_spec() -> bool {
        true
    }

    open spec fn eq_spec(&self, other: &Self) -> bool {
        self.0 == other.0
    }
}

impl Signature {
    /// The identifier as 128 lowercase hexadecimal digits.
    pub fn to_hex(&self) -> (text: String)
        ensures
            text@ == hex_encoding(self@),
            is_hex_of(text@, 64),
    {
        proof {
            lemma_hex_round_trip(self@);
        }
        encode_bytes(self.0.as_slice())
    }

    /// Reads an identifier from 128 hexadecimal digits of either case.
    pub fn from_hex(text: &str) -> (r: Result<Self, AuriaError>)
        ensures
            r is Ok <==> is_hex_of(text@, 64),
            r is Ok ==> r->Ok_0@ == hex_decoding(text@),
            r is Err ==> r->Err_0 is SerializationError,
            is_hex(text@) && text@.len() != 128 ==> is_invalid_length(r->Err_0),
    {
        match decode_fixed::<64>(text) {
            Ok(bytes) => Ok(Signature(bytes)),
            Err(e) => Err(e),
        }
    }
}

/// A digest: 32 bytes.
#[derive(Debug, Clone, Copy, Hash)]
pub struct Hash(pub [u8; 32]);

impl View for Hash {
    type V = Seq<u8>;

    open spec fn view(&self) -> Seq<u8> {
        self.0@
    }
}

impl PartialEq for Hash {
    fn eq(&self, other: &Self) -> (same: bool) {
        bytes_equal(&self.0, &other.0)
    }
}

impl Eq for Hash {
}

impl vstd::std_specs::cmp::PartialEqSpecImpl for Hash {
    open spec fn obeys_eq_spec() -> bool {
        true
    }

    open spec fn eq_spec(&self, other: &Self) -> bool {
        self.0 == other.0
    }
}

impl Hash {
    /// The identifier as 64 lowercase hexadecimal digits.
    pub fn to_hex(&self) -> (text: String)
        ensures
            text@ == hex_encoding(self@),
            is_hex_of(text@, 32),
    {
        proof {
            lemma_hex_round_trip(self@);
        }
        encode_bytes(self.0.as_slice())
    }

    /// Reads an identifier from 64 hexadecimal digits of either case.
    pub fn from_hex(text: &str) -> (r: Result<Self, AuriaError>)
        ensures
            r is Ok <==> is_hex_of(text@, 32),
            r is Ok ==> r->Ok_0@ == hex_decoding(text@),
            r is Err ==> r->Err_0 is SerializationError,
            is_hex(text@) && text@.len() != 64 ==> is_invalid_length(r->Err_0),
    {
        match decode_fixed::<32>(text) {
            Ok(bytes) => Ok(Hash(bytes)),
            Err(e) => Err(e),
        }
    }
}

/// Identifier of a request: 16 bytes.
#[derive(Debug, Clone, Copy, Hash)]
pub struct RequestId(pub [u8; 16]);

impl View for RequestId {
    type V = Seq<u8>;

    open spec fn view(&self) -> Seq<u8> {
        self.0@
    }
}

impl PartialEq for RequestId {
    fn eq(&self, other: &Self) -> (same: bool) {
        bytes_equal(&self.0, &other.0)
    }
}

impl Eq for RequestId {
}

impl vstd::std_specs::cmp::PartialEqSpecImpl for RequestId {
    open spec fn obeys_eq_spec() -> bool {
        true
    }

    open spec fn eq_spec(&self, other: &Self) -> bool {
        self.0 == other.0
    }
}

impl RequestId {
    /// The identifier as 32 lowercase hexadecimal digits.
    pub fn to_hex(&self) -> (text: String)
        ensures
            text@ == hex_encoding(self@),
            is_hex_of(text@, 16),
    {
        proof {
            lemma_hex_round_trip(self@);
        }
        encode_bytes(self.0.as_slice())
    }

    /// Reads an identifier from 32 hexadecimal digits of either case.
    pub fn from_hex(text: &str) -> (r: Result<Self, AuriaError>)
        ensures
            r is Ok <==> is_hex_of(text@, 16),
            r is Ok ==> r->Ok_0@ == hex_decoding(text@),
            r is Err ==> r->Err_0 is SerializationError,
            is_hex(text@) && text@.len() != 32 ==> is_invalid_length(r->Err_0),
    {
        match decode_fixed::<16>(text) {
            Ok(bytes) => Ok(RequestId(bytes)),
            Err(e) => Err(e),
        }
    }
}

/// Reading the text of an identifier gives the identifier back: the text
/// that `to_hex` writes is accepted by `from_hex`, whose result then holds
/// the same bytes.
pub proof fn lemma_identifier_text_round_trip(bytes: Seq<u8>)
    ensures
        is_hex_of(hex_encoding(bytes), bytes.len()),
        hex_decoding(hex_encoding(bytes)) == bytes,
{
    lemma_hex_round_trip(bytes);
}

} // verus!
