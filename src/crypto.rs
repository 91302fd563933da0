//! Hashing and signing with the enclave key, through alloy and k256.

use vstd::prelude::*;
use alloy::primitives::{keccak256, Signature};
use alloy::signers::k256::ecdsa::SigningKey;
use alloy::signers::utils::public_key_to_address;

verus! {

/// The Keccak-256 digest of `data`.
pub uninterp spec fn keccak_of(data: Seq<u8>) -> Seq<u8>;

/// The order of the secp256k1 group.
pub open spec fn secp256k1_order() -> nat {
    (0xFFFFFFFFFFFFFFFFFFFFFFFFFFFFFFFEnat * 0x10000000000000000nat * 0x10000000000000000nat
        + 0xBAAEDCE6AF48A03BBFD25E8CD0364141nat) as nat
}

/// The big-endian value of `bytes`.
pub open spec fn be_value(bytes: Seq<u8>) -> nat
    decreases bytes.len(),
{
    if bytes.len() == 0 {
        0
    } else {
        (be_value(bytes.drop_last()) * 256 + bytes.last()) as nat
    }
}

/// Whether `secret` encodes a secp256k1 signing key: 24 to 32 bytes, read as a
/// zero-padded big-endian scalar that is non-zero and below the group order.
pub open spec fn valid_secret(secret: Seq<u8>) -> bool {
    &&& 24 <= secret.len() <= 32
    &&& 0 < be_value(secret) < secp256k1_order()
}

/// The 20-byte address of the public key of the secp256k1 secret `secret`.
pub uninterp spec fn address_of(secret: Seq<u8>) -> Seq<u8>;

/// The deterministic (RFC 6979) recoverable signature of `digest` under `secret`,
/// as `r || s || v`.
pub uninterp spec fn signature_of(secret: Seq<u8>, digest: Seq<u8>) -> Seq<u8>;

/// Whether signing `digest` under `secret` succeeds.
pub uninterp spec fn signs(secret: Seq<u8>, digest: Seq<u8>) -> bool;

/// Relies on alloy's `primitives::keccak256`: the 32-byte Keccak-256 digest.
#[verifier::external_body]
pub(crate) fn keccak(data: &Vec<u8>) -> (r: Vec<u8>)
    ensures
        r@ == keccak_of(data@),
        r@.len() == 32,
{
    keccak256(data.as_slice()).to_vec()
}

/// Relies on alloy's `signers::utils::public_key_to_address`, applied to the
/// verifying key of `SigningKey::from_slice(secret)`. `from_slice` (elliptic-curve's
/// `SecretKey::from_slice`) accepts exactly the secrets of `valid_secret`, and the
/// address step cannot fail.
#[verifier::external_body]
pub(crate) fn derive_address(secret: &Vec<u8>) -> (r: Option<Vec<u8>>)
    ensures
        r is Some <==> valid_secret(secret@),
        r matches Some(a) ==> a@ == address_of(secret@) && a@.len() == 20,
{
    match SigningKey::from_slice(secret.as_slice()) {
        Ok(key) => Some(public_key_to_address(key.verifying_key()).to_vec()),
        Err(_) => None,
    }
}

/// Relies on k256's `SigningKey::sign_prehash_recoverable` for the key
/// `SigningKey::from_slice(secret)`, serialised by alloy's `Signature::as_bytes`
/// (65 bytes); `None` when k256 refuses the secret or the digest.
#[verifier::external_body]
pub(crate) fn sign_digest(secret: &Vec<u8>, digest: &Vec<u8>) -> (r: Option<Vec<u8>>)
    ensures
        r is Some <==> signs(secret@, digest@),
        r matches Some(s) ==> s@ == signature_of(secret@, digest@) && s@.len() == 65,
{
    let key = SigningKey::from_slice(secret.as_slice()).ok()?;
    let (sig, recid) = key.sign_prehash_recoverable(digest.as_slice()).ok()?;
    Some(Signature::from((sig, recid)).as_bytes().to_vec())
}

} // verus!
