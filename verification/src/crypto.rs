//! Trusted boundary to the host's cryptographic primitives.
//!
//! Each function here wraps one call into an outside crate.  The verified
//! code of the crate speaks of the named results (`keccak_of`,
//! `secp256k1_scalar_ok`, `secp256k1_pubkey_of`, `secp256k1_sig_of`) and of
//! nothing else about these calls.

use k256::elliptic_curve::sec1::ToSec1Point;
use vstd::prelude::*;

verus! {

/// The Keccak-256 digest of a byte string.
pub uninterp spec fn keccak_of(data: Seq<u8>) -> Seq<u8>;

/// Whether the bytes parse as a usable secp256k1 secret key: exactly 32
/// bytes holding a nonzero scalar below the group order.  Acceptance is a
/// function of the bytes alone.
pub uninterp spec fn secp256k1_scalar_ok(secret: Seq<u8>) -> bool;

/// The uncompressed SEC1 public key derived from a secp256k1 secret scalar.
pub uninterp spec fn secp256k1_pubkey_of(secret: Seq<u8>) -> Seq<u8>;

/// The recoverable ECDSA signature (r, s, odd-y parity) of a 32-byte digest
/// under a secp256k1 secret key.
pub uninterp spec fn secp256k1_sig_of(secret: Seq<u8>, digest: Seq<u8>) -> (Seq<u8>, Seq<u8>, bool);

/// Relies on `alloy_primitives::keccak256`: the digest is a function of the
/// input bytes alone and is always 32 bytes long.
#[verifier::external_body]
pub(crate) fn keccak256(data: &Vec<u8>) -> (r: Vec<u8>)
    ensures
        r@ == keccak_of(data@),
        r@.len() == 32,
{
    alloy_primitives::keccak256(data.as_slice()).to_vec()
}

/// Relies on `k256::ecdsa::SigningKey`: parsing accepts the bytes exactly
/// when they are a valid secret scalar, and the uncompressed SEC1 public
/// key is a function of that scalar alone; it is 65 bytes long and starts
/// with the tag byte 4.
#[verifier::external_body]
pub(crate) fn derive_public_key(secret: &Vec<u8>) -> (r: Option<Vec<u8>>)
    ensures
        match r {
            Some(pk) => secp256k1_scalar_ok(secret@) && pk@ == secp256k1_pubkey_of(secret@)
                && pk@.len() == 65 && pk@[0] == 4u8,
            None => !secp256k1_scalar_ok(secret@),
        },
{
    match k256::ecdsa::SigningKey::from_slice(secret.as_slice()) {
        Ok(sk) => Some(sk.verifying_key().as_affine().to_sec1_point(false).as_bytes().to_vec()),
        Err(_) => None,
    }
}

/// Relies on `k256::ecdsa::SigningKey::sign_prehash_recoverable`: the key
/// parses exactly when the bytes are a valid secret scalar, and RFC 6979
/// deterministic nonces make the signature a function of the secret key and
/// the digest alone; r and s are 32 bytes each.  The digest must be the 32
/// bytes of a hash.
#[verifier::external_body]
pub(crate) fn sign_digest(secret: &Vec<u8>, digest: &Vec<u8>) -> (r: Option<
    (Vec<u8>, Vec<u8>, bool),
>)
    requires
        digest@.len() == 32,
    ensures
        match r {
            Some(sig) => secp256k1_scalar_ok(secret@) && sig.0@ == secp256k1_sig_of(
                secret@,
                digest@,
            ).0 && sig.1@ == secp256k1_sig_of(secret@, digest@).1 && sig.2 == secp256k1_sig_of(
                secret@,
                digest@,
            ).2 && sig.0@.len() == 32 && sig.1@.len() == 32,
            None => !secp256k1_scalar_ok(secret@),
        },
{
    let sk = match k256::ecdsa::SigningKey::from_slice(secret.as_slice()) {
        Ok(k) => k,
        Err(_) => return None,
    };
    let (sig, rid) = sk.sign_prehash_recoverable(digest.as_slice());
    let bytes = sig.to_bytes();
    Some((bytes[..32].to_vec(), bytes[32..].to_vec(), rid.is_y_odd()))
}

/// Relies on `getrandom::getrandom` for host entropy; nothing is assumed of
/// the bytes beyond their count.
#[verifier::external_body]
pub(crate) fn random_bytes(n: usize) -> (r: Option<Vec<u8>>)
    ensures
        match r {
            Some(v) => v@.len() == n,
            None => true,
        },
{
    let mut buf = vec![0u8; n];
    match getrandom::getrandom(&mut buf) {
        Ok(()) => Some(buf),
        Err(_) => None,
    }
}

} // verus!
