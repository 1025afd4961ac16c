//! Trusted boundary to the cryptographic primitives.
//!
//! The consensus core treats keys, signatures and digests as plain byte
//! strings; what the cryptography returns for them is only named here, never
//! restated. Secret and digest are 32 bytes, public keys and signatures 64.

use vstd::prelude::*;

use fuel_crypto::rand::SeedableRng;

verus! {

/// The SHA-256 digest of a byte string, as `fuel_crypto::Hasher::hash`
/// computes it.
pub uninterp spec fn sha256_of(data: Seq<u8>) -> Seq<u8>;

/// The public key that `fuel_crypto::SecretKey::public_key` derives from a
/// secret key.
pub uninterp spec fn public_of(secret: Seq<u8>) -> Seq<u8>;

/// The signature that `fuel_crypto::Signature::sign` produces for a secret
/// key and a digest; deterministic per RFC 6979.
pub uninterp spec fn sign_of(secret: Seq<u8>, digest: Seq<u8>) -> Seq<u8>;

/// Whether `fuel_crypto::Signature::verify` accepts a signature for a public
/// key and a digest.
pub uninterp spec fn verify_ok(signature: Seq<u8>, public: Seq<u8>, digest: Seq<u8>) -> bool;

/// Whether 32 bytes are a valid secret key, as `fuel_crypto::SecretKey::try_from`
/// decides (the bytes encode a nonzero scalar of the secp256k1 field).
pub uninterp spec fn secret_wf(secret: Seq<u8>) -> bool;

/// Relies on `fuel_crypto::Hasher::hash`: the SHA-256 digest of the input.
#[verifier::external_body]
pub(crate) fn sha256(data: &[u8]) -> (r: [u8; 32])
    ensures
        r@ == sha256_of(data@),
{
    *fuel_crypto::Hasher::hash(data)
}

/// Relies on `fuel_crypto::SecretKey::random` seeded from
/// `fuel_crypto::Hasher::hash` of the password: the derived secret key is
/// valid by construction, and `fuel_crypto::SecretKey::public_key` gives its
/// public key.
#[verifier::external_body]
pub(crate) fn derive_keypair(password: &[u8]) -> (r: ([u8; 32], [u8; 64]))
    ensures
        secret_wf(r.0@),
        r.1@ == public_of(r.0@),
{
    let seed = fuel_crypto::Hasher::hash(password);
    let mut rng = fuel_crypto::rand::rngs::StdRng::from_seed(*seed);
    let secret = fuel_crypto::SecretKey::random(&mut rng);
    let public = secret.public_key();
    (*secret, *public)
}

/// Relies on `fuel_crypto::SecretKey::try_from` (accepts exactly the valid
/// secret keys) and `fuel_crypto::Signature::sign` (a signature over the
/// digest that `fuel_crypto::Signature::verify` accepts for the signer's
/// public key).
#[verifier::external_body]
pub(crate) fn sign_digest(secret: &[u8; 32], digest: &[u8; 32]) -> (r: Option<[u8; 64]>)
    ensures
        r is Some <==> secret_wf(secret@),
        r is Some ==> r->Some_0@ == sign_of(secret@, digest@),
        r is Some ==> verify_ok(sign_of(secret@, digest@), public_of(secret@), digest@),
{
    match fuel_crypto::SecretKey::try_from(&secret[..]) {
        Ok(sk) => {
            let msg = fuel_crypto::Message::from_bytes(*digest);
            Some(*fuel_crypto::Signature::sign(&sk, &msg))
        }
        Err(_) => None,
    }
}

/// Relies on `fuel_crypto::SecretKey::try_from` (accepts exactly the valid
/// secret keys) and `fuel_crypto::SecretKey::public_key` (the public key of
/// a valid secret key).
#[verifier::external_body]
pub(crate) fn public_key_of(secret: &[u8; 32]) -> (r: Option<[u8; 64]>)
    ensures
        r is Some <==> secret_wf(secret@),
        r is Some ==> r->Some_0@ == public_of(secret@),
{
    match fuel_crypto::SecretKey::try_from(&secret[..]) {
        Ok(sk) => Some(*sk.public_key()),
        Err(_) => None,
    }
}

/// Relies on `fuel_crypto::Signature::verify`: accepts or rejects a
/// signature over a digest for a public key, rejecting byte strings that are
/// not a valid public key; never panics.
#[verifier::external_body]
pub(crate) fn verify_signature(signature: &[u8; 64], public: &[u8; 64], digest: &[u8; 32]) -> (r:
    bool)
    ensures
        r == verify_ok(signature@, public@, digest@),
{
    let mut pk = fuel_crypto::PublicKey::default();
    pk.as_mut().copy_from_slice(&public[..]);
    let sig = fuel_crypto::Signature::from_bytes(*signature);
    let msg = fuel_crypto::Message::from_bytes(*digest);
    sig.verify(&pk, &msg).is_ok()
}

} // verus!
