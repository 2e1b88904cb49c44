//! SCALE encoding and Keccak hashing, as provided by `parity-scale-codec`
//! and `tiny-keccak`.

use parity_scale_codec::{Decode, Encode};
use tiny_keccak::{Hasher, Keccak};
use vstd::prelude::*;
use vstd::bytes::spec_u64_to_le_bytes;

verus! {

/// The 256-bit Keccak digest of a byte string (the function computed by
/// `tiny_keccak::Keccak::v256`).
pub uninterp spec fn keccak_256_of(input: Seq<u8>) -> Seq<u8>;

/// SCALE encoding of a `u64`: its eight bytes, least significant first.
pub open spec fn scale_u64(v: u64) -> Seq<u8> {
    spec_u64_to_le_bytes(v)
}

/// SCALE encoding of the tuple `(u64, [u8; 32], [u8; 32])`: the fields'
/// encodings one after the other; a byte array is encoded as its bytes.
pub open spec fn scale_u64_hash_hash(a: u64, b: Seq<u8>, c: Seq<u8>) -> Seq<u8> {
    scale_u64(a) + b + c
}

/// SCALE encoding of the pair `(u64, u64)`.
pub open spec fn scale_u64_u64(a: u64, b: u64) -> Seq<u8> {
    scale_u64(a) + scale_u64(b)
}

/// Keccak-256 of `input`, through `tiny_keccak::Keccak::v256`, `update`
/// and `finalize`. Trusted: the 32 bytes written are `keccak_256_of(input)`.
#[verifier::external_body]
pub(crate) fn keccak256(input: &[u8]) -> (out: [u8; 32])
    ensures
        out@ == keccak_256_of(input@),
{
    let mut out = [0u8; 32];
    let mut keccak = Keccak::v256();
    keccak.update(input);
    keccak.finalize(&mut out);
    out
}

/// `Encode::encode` of `parity-scale-codec` on a `u64`. Trusted: the codec
/// writes the integer's little-endian bytes (`impl_endians!` in its source).
#[verifier::external_body]
pub(crate) fn encode_u64(v: u64) -> (r: Vec<u8>)
    ensures
        r@ == scale_u64(v),
{
    v.encode()
}

/// `Encode::encode` of `parity-scale-codec` on a `(u64, [u8; 32], [u8; 32])`.
/// Trusted: a tuple is encoded field after field, a `u64` as its
/// little-endian bytes and a `[u8; 32]` as its bytes with no length prefix.
#[verifier::external_body]
pub(crate) fn encode_u64_hash_hash(a: u64, b: [u8; 32], c: [u8; 32]) -> (r: Vec<u8>)
    ensures
        r@ == scale_u64_hash_hash(a, b@, c@),
{
    (a, b, c).encode()
}

/// `Encode::encode` of `parity-scale-codec` on a `(u64, u64)`.
/// Trusted: the two little-endian encodings one after the other.
#[verifier::external_body]
pub(crate) fn encode_u64_u64(a: u64, b: u64) -> (r: Vec<u8>)
    ensures
        r@ == scale_u64_u64(a, b),
{
    (a, b).encode()
}

/// `Decode::decode` of `parity-scale-codec` for `(u64, [u8; 32], [u8; 32])`
/// from the front of a byte slice. Trusted: it succeeds exactly when at least
/// 72 bytes are there, and then the fields are those whose encoding is the
/// first 72 bytes (bytes after them are left unread).
#[verifier::external_body]
pub(crate) fn decode_u64_hash_hash(bytes: &[u8]) -> (r: Option<(u64, [u8; 32], [u8; 32])>)
    ensures
        r.is_some() <==> bytes@.len() >= 72,
        r matches Some(t) ==> scale_u64_hash_hash(t.0, t.1@, t.2@) == bytes@.subrange(0, 72),
{
    let mut input: &[u8] = bytes;
    <(u64, [u8; 32], [u8; 32])>::decode(&mut input).ok()
}

/// `Decode::decode` of `parity-scale-codec` for `(u64, u64)` from the front of
/// a byte slice. Trusted: it succeeds exactly when at least 16 bytes are
/// there, and then the pair is the one whose encoding is the first 16 bytes.
#[verifier::external_body]
pub(crate) fn decode_u64_u64(bytes: &[u8]) -> (r: Option<(u64, u64)>)
    ensures
        r.is_some() <==> bytes@.len() >= 16,
        r matches Some(t) ==> scale_u64_u64(t.0, t.1) == bytes@.subrange(0, 16),
{
    let mut input: &[u8] = bytes;
    <(u64, u64)>::decode(&mut input).ok()
}

/// A type whose values can be read back from the front of a SCALE encoding.
/// `decode_spec` says which value, if any, the bytes hold.
pub trait ScaleDecode: Sized {
    /// The value encoded at the front of `bytes`, or `None` if there is none.
    spec fn decode_spec(bytes: Seq<u8>) -> Option<Self>;

    /// Decodes a value from the front of `bytes`.
    fn scale_decode(bytes: &[u8]) -> (r: Option<Self>)
        ensures
            r == Self::decode_spec(bytes@),
    ;
}

/// Byte-wise equality of two 32-byte hashes.
pub fn hash_eq(a: &[u8; 32], b: &[u8; 32]) -> (r: bool)
    ensures
        r == (a@ == b@),
{
    let mut i: usize = 0;
    while i < 32
        invariant
            i <= 32,
            forall|j: int| 0 <= j < i ==> a@[j] == b@[j],
        decreases 32 - i,
    {
        if a[i] != b[i] {
            assert(a@[i as int] != b@[i as int]);
            return false;
        }
        i = i + 1;
    }
    assert(a@ =~= b@);
    true
}

} // verus!
