//! The key-encapsulation mechanism behind the hybrid scheme.
//!
//! Kyber-768, through the pqcrypto-kyber crate, generates key pairs,
//! encapsulates a fresh shared secret against a public key, and decapsulates
//! a shared secret from a KEM ciphertext and a secret key. All buffers have
//! fixed sizes for this parameter set. The primitives work on raw bytes here;
//! base64 encoding happens elsewhere.

use vstd::prelude::*;
use pqcrypto_traits::kem::{Ciphertext, PublicKey, SecretKey, SharedSecret};

verus! {

/// Size in bytes of a raw Kyber-768 public key.
pub const KEM_PUBLIC_KEY_BYTES: usize = 1184;

/// Size in bytes of a raw Kyber-768 secret key.
pub const KEM_SECRET_KEY_BYTES: usize = 2400;

/// Size in bytes of a raw Kyber-768 KEM ciphertext.
pub const KEM_CIPHERTEXT_BYTES: usize = 1088;

/// Size in bytes of a Kyber-768 shared secret.
pub const KEM_SHARED_SECRET_BYTES: usize = 32;

/// Holds of the two outputs of one run of the KEM key generation: the public
/// key and the secret key belong to the same pair.
pub uninterp spec fn kem_keys_match(pk: Seq<u8>, sk: Seq<u8>) -> bool;

/// The shared secret that KEM decapsulation recovers from the given ciphertext
/// and secret key bytes; decapsulation is deterministic, so this is a function
/// of the two inputs alone.
pub uninterp spec fn kem_decap_spec(ct: Seq<u8>, sk: Seq<u8>) -> Seq<u8>;

/// Relies on `pqcrypto_kyber::kyber768::keypair`: returns a matching pair of
/// a 1184-byte public key and a 2400-byte secret key.
#[verifier::external_body]
pub(crate) fn kem_keypair() -> (r: (Vec<u8>, Vec<u8>))
    ensures
        r.0@.len() == KEM_PUBLIC_KEY_BYTES,
        r.1@.len() == KEM_SECRET_KEY_BYTES,
        kem_keys_match(r.0@, r.1@),
{
    let (pk, sk) = pqcrypto_kyber::kyber768::keypair();
    (pk.as_bytes().to_vec(), sk.as_bytes().to_vec())
}

/// Relies on `pqcrypto_kyber::kyber768::encapsulate` (and `PublicKey::from_bytes`,
/// which accepts exactly 1184 bytes): returns a 1088-byte KEM ciphertext and a
/// fresh 32-byte shared secret such that decapsulating the ciphertext with the
/// secret key matching this public key recovers that same shared secret.
/// Nothing more is promised of the secret: encapsulation draws fresh
/// randomness on every call.
#[verifier::external_body]
pub(crate) fn kem_encapsulate(pk_bytes: &Vec<u8>) -> (r: (Vec<u8>, Vec<u8>))
    requires
        pk_bytes@.len() == KEM_PUBLIC_KEY_BYTES,
    ensures
        r.0@.len() == KEM_CIPHERTEXT_BYTES,
        r.1@.len() == KEM_SHARED_SECRET_BYTES,
        forall|sk: Seq<u8>|
            #[trigger] kem_keys_match(pk_bytes@, sk) ==> kem_decap_spec(r.0@, sk) == r.1@,
{
    let pk = pqcrypto_kyber::kyber768::PublicKey::from_bytes(pk_bytes.as_slice()).unwrap();
    let (ss, ct) = pqcrypto_kyber::kyber768::encapsulate(&pk);
    (ct.as_bytes().to_vec(), ss.as_bytes().to_vec())
}

/// Relies on `pqcrypto_kyber::kyber768::decapsulate` (and the `from_bytes`
/// constructors, which accept exactly the fixed sizes): recovers the 32-byte
/// shared secret determined by the ciphertext and secret key bytes.
#[verifier::external_body]
pub(crate) fn kem_decapsulate(ct_bytes: &Vec<u8>, sk_bytes: &Vec<u8>) -> (r: Vec<u8>)
    requires
        ct_bytes@.len() == KEM_CIPHERTEXT_BYTES,
        sk_bytes@.len() == KEM_SECRET_KEY_BYTES,
    ensures
        r@ == kem_decap_spec(ct_bytes@, sk_bytes@),
        r@.len() == KEM_SHARED_SECRET_BYTES,
{
    let ct = pqcrypto_kyber::kyber768::Ciphertext::from_bytes(ct_bytes.as_slice()).unwrap();
    let sk = pqcrypto_kyber::kyber768::SecretKey::from_bytes(sk_bytes.as_slice()).unwrap();
    let ss = pqcrypto_kyber::kyber768::decapsulate(&ct, &sk);
    ss.as_bytes().to_vec()
}

} // verus!
