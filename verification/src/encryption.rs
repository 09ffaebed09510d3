//! The hybrid encrypt/decrypt engine and key pair management.
//!
//! A sender encapsulates a fresh shared secret against the recipient's
//! public key and XOR-encrypts the message body with the stretched secret;
//! the recipient decapsulates the same secret from the encapsulated key and
//! reverses the XOR. The scheme carries no authentication tag: decrypting
//! with a secret key that does not match the public key used to encrypt
//! raises no distinguishing cryptographic error, it recovers a different
//! shared secret and hence different plaintext bytes, which usually (but not
//! always) fail UTF-8 validation.

use vstd::prelude::*;
use vstd::utf8::{decode_utf8, encode_utf8, encode_utf8_decode_utf8, encode_utf8_valid_utf8,
valid_utf8};

use crate::encoding::{b64_decode, b64_decode_spec, b64_encode, b64_encode_spec, string_from_utf8};
use crate::errors::CryptoError;
use crate::kem::{KEM_CIPHERTEXT_BYTES, KEM_PUBLIC_KEY_BYTES, KEM_SECRET_KEY_BYTES,
KEM_SHARED_SECRET_BYTES, kem_decap_spec, kem_decapsulate, kem_encapsulate, kem_keypair,
kem_keys_match};
use crate::stream::{apply_keystream, lemma_xor_keystream_involutive, xor_keystream};

pub use crate::framing::{extract_original_subject, format_encrypted_body,
format_encrypted_subject, is_encrypted};
pub use crate::wire::{deserialize_encrypted_message, serialize_encrypted_message};

verus! {

/// A key pair of one identity: the raw Kyber-768 keys, base64-encoded for
/// storage and transport.
#[derive(Clone, Debug)]
pub struct KeyPair {
    /// Base64 of the raw 1184-byte public key.
    pub public_key: String,
    /// Base64 of the raw 2400-byte secret key.
    pub secret_key: String,
}

/// One encrypted message: the XOR-encrypted body and the KEM ciphertext that
/// carries the shared secret to the recipient, both base64-encoded.
#[derive(Clone, Debug)]
pub struct EncryptedMessage {
    /// Base64 of the XOR-encrypted message bytes; decoded, exactly as long
    /// as the plaintext.
    pub ciphertext: String,
    /// Base64 of the 1088-byte Kyber-768 KEM ciphertext.
    pub encapsulated_key: String,
}

/// A well-formed key pair: both fields decode from base64 to raw keys of the
/// fixed sizes, and the two raw keys belong to one run of the KEM key
/// generation.
pub open spec fn keypair_wf(kp: KeyPair) -> bool {
    exists|pk: Seq<u8>, sk: Seq<u8>|
        #[trigger] kem_keys_match(pk, sk) && pk.len() == KEM_PUBLIC_KEY_BYTES && sk.len()
            == KEM_SECRET_KEY_BYTES && b64_decode_spec(kp.public_key@) == Some(pk)
            && b64_decode_spec(kp.secret_key@) == Some(sk)
}

/// Holds when `em` is a possible encryption of `message` under the raw public
/// key `pk`: the encapsulated key decodes to a KEM ciphertext that yields, for
/// the secret key matching `pk`, the very shared secret whose keystream was
/// XOR-combined with the UTF-8 bytes of `message` to give the ciphertext.
pub open spec fn encrypts(message: Seq<char>, pk: Seq<u8>, em: EncryptedMessage) -> bool {
    &&& (forall|i: int|
        0 <= i < em.ciphertext@.len() ==> crate::encoding::is_base64_char(
            #[trigger] em.ciphertext@[i],
        ))
    &&& (forall|i: int|
        0 <= i < em.encapsulated_key@.len() ==> crate::encoding::is_base64_char(
            #[trigger] em.encapsulated_key@[i],
        ))
    &&& exists|ss: Seq<u8>, ct: Seq<u8>|
        #![trigger b64_encode_spec(ct), xor_keystream(encode_utf8(message), ss)]
        {
            &&& ss.len() == KEM_SHARED_SECRET_BYTES
            &&& ct.len() == KEM_CIPHERTEXT_BYTES
            &&& em.encapsulated_key@ == b64_encode_spec(ct)
            &&& b64_decode_spec(em.encapsulated_key@) == Some(ct)
            &&& em.ciphertext@ == b64_encode_spec(xor_keystream(encode_utf8(message), ss))
            &&& b64_decode_spec(em.ciphertext@) == Some(xor_keystream(encode_utf8(message), ss))
            &&& forall|sk: Seq<u8>|
                #[trigger] kem_keys_match(pk, sk) ==> kem_decap_spec(ct, sk) == ss
        }
}

/// What decryption returns for the three base64 texts it is given: the
/// encrypted body, the encapsulated key, and the secret key. Each base64 or
/// size check that fails names its error; past the checks, the result is the
/// XOR of the encrypted bytes with the keystream of the decapsulated secret,
/// read as UTF-8.
pub open spec fn decrypt_spec(
    ciphertext_b64: Seq<char>,
    encapsulated_key_b64: Seq<char>,
    secret_key_b64: Seq<char>,
) -> Result<Seq<char>, CryptoError> {
    if b64_decode_spec(secret_key_b64) is None {
        Err(CryptoError::KeyFormatError)
    } else if b64_decode_spec(secret_key_b64).unwrap().len() != KEM_SECRET_KEY_BYTES {
        Err(CryptoError::KeyFormatError)
    } else if b64_decode_spec(encapsulated_key_b64) is None {
        Err(CryptoError::KeyFormatError)
    } else if b64_decode_spec(encapsulated_key_b64).unwrap().len() != KEM_CIPHERTEXT_BYTES {
        Err(CryptoError::CiphertextSizeMismatch)
    } else if b64_decode_spec(ciphertext_b64) is None {
        Err(CryptoError::KeyFormatError)
    } else {
        let sk = b64_decode_spec(secret_key_b64).unwrap();
        let ct = b64_decode_spec(encapsulated_key_b64).unwrap();
        let body = b64_decode_spec(ciphertext_b64).unwrap();
        let plain = xor_keystream(body, kem_decap_spec(ct, sk));
        if valid_utf8(plain) {
            Ok(decode_utf8(plain))
        } else {
            Err(CryptoError::Utf8DecodeError)
        }
    }
}

/// The UTF-8 encoding spends at most four bytes on each character.
proof fn lemma_encode_utf8_len_bound(chars: Seq<char>)
    ensures
        encode_utf8(chars).len() <= 4 * chars.len(),
    decreases chars.len(),
{
    if chars.len() > 0 {
        lemma_encode_utf8_len_bound(chars.drop_first());
    }
}

/// Generates a new key pair for post-quantum encryption and base64-encodes
/// both keys. The KEM primitive treats a failing randomness source as fatal,
/// so every return is a well-formed pair.
pub fn generate_keypair() -> (r: Result<KeyPair, CryptoError>)
    ensures
        r matches Ok(kp) && keypair_wf(kp),
{
    let (pk, sk) = kem_keypair();
    let public_key = b64_encode(&pk);
    let secret_key = b64_encode(&sk);
    let kp = KeyPair { public_key, secret_key };
    assert(keypair_wf(kp)) by {
        assert(kem_keys_match(pk@, sk@) && pk@.len() == KEM_PUBLIC_KEY_BYTES && sk@.len()
            == KEM_SECRET_KEY_BYTES && b64_decode_spec(kp.public_key@) == Some(pk@)
            && b64_decode_spec(kp.secret_key@) == Some(sk@));
    }
    Ok(kp)
}

/// Encrypts a message for the holder of the given base64-encoded public key.
///
/// Succeeds exactly when the key decodes from base64 to the fixed public-key
/// size; every other input is rejected with `KeyFormatError`. On success the
/// result is an encryption of the message under that key, and the decoded
/// ciphertext is exactly as long as the message's UTF-8 bytes. The length
/// bound only keeps the base64 form of the ciphertext within an address
/// space; no real message approaches it.
pub fn encrypt_message(message: &str, public_key_b64: &str) -> (r: Result<
    EncryptedMessage,
    CryptoError,
>)
    requires
        message@.len() <= usize::MAX / 16,
    ensures
        r is Ok <==> (b64_decode_spec(public_key_b64@) matches Some(pk) && pk.len()
            == KEM_PUBLIC_KEY_BYTES),
        r matches Err(e) ==> e == CryptoError::KeyFormatError,
        r matches Ok(em) ==> encrypts(message@, b64_decode_spec(public_key_b64@).unwrap(), em),
        r matches Ok(em) ==> (b64_decode_spec(em.ciphertext@) matches Some(c) && c.len()
            == encode_utf8(message@).len()),
        r matches Ok(em) ==> em.ciphertext@.len() == 4 * ((encode_utf8(message@).len() + 2) / 3),
{
    let pk_bytes = match b64_decode(public_key_b64) {
        Some(b) => b,
        None => {
            return Err(CryptoError::KeyFormatError);
        },
    };
    if pk_bytes.len() != KEM_PUBLIC_KEY_BYTES {
        return Err(CryptoError::KeyFormatError);
    }
    let (kem_ct, shared_secret) = kem_encapsulate(&pk_bytes);
    proof {
        lemma_encode_utf8_len_bound(message@);
    }
    let msg_bytes = message.as_bytes_vec();
    let encrypted = apply_keystream(&msg_bytes, &shared_secret);
    let ciphertext = b64_encode(&encrypted);
    let encapsulated_key = b64_encode(&kem_ct);
    let em = EncryptedMessage { ciphertext, encapsulated_key };
    assert(encrypts(message@, pk_bytes@, em));
    Ok(em)
}

/// Decrypts a message with the recipient's own base64-encoded secret key.
///
/// The result is exactly `decrypt_spec` on the message's two fields and the
/// key: a size mismatch of the encapsulated key is a hard
/// `CiphertextSizeMismatch`, never a substituted plaintext, and bytes that do
/// not form UTF-8 text are a hard `Utf8DecodeError`.
pub fn decrypt_message(encrypted_msg: &EncryptedMessage, secret_key_b64: &str) -> (r: Result<
    String,
    CryptoError,
>)
    ensures
        match r {
            Ok(s) => decrypt_spec(
                encrypted_msg.ciphertext@,
                encrypted_msg.encapsulated_key@,
                secret_key_b64@,
            ) == Ok::<Seq<char>, CryptoError>(s@),
            Err(e) => decrypt_spec(
                encrypted_msg.ciphertext@,
                encrypted_msg.encapsulated_key@,
                secret_key_b64@,
            ) == Err::<Seq<char>, CryptoError>(e),
        },
{
    let sk_bytes = match b64_decode(secret_key_b64) {
        Some(b) => b,
        None => {
            return Err(CryptoError::KeyFormatError);
        },
    };
    if sk_bytes.len() != KEM_SECRET_KEY_BYTES {
        return Err(CryptoError::KeyFormatError);
    }
    let ct_bytes = match b64_decode(encrypted_msg.encapsulated_key.as_str()) {
        Some(b) => b,
        None => {
            return Err(CryptoError::KeyFormatError);
        },
    };
    if ct_bytes.len() != KEM_CIPHERTEXT_BYTES {
        return Err(CryptoError::CiphertextSizeMismatch);
    }
    let body_bytes = match b64_decode(encrypted_msg.ciphertext.as_str()) {
        Some(b) => b,
        None => {
            return Err(CryptoError::KeyFormatError);
        },
    };
    let shared_secret = kem_decapsulate(&ct_bytes, &sk_bytes);
    let plain = apply_keystream(&body_bytes, &shared_secret);
    match string_from_utf8(plain) {
        Some(s) => Ok(s),
        None => Err(CryptoError::Utf8DecodeError),
    }
}

/// Law: decrypting what `encrypts` describes, with the secret key that
/// matches the public key used to encrypt, restores the message exactly.
pub proof fn lemma_encrypt_then_decrypt(
    message: Seq<char>,
    pk: Seq<u8>,
    sk: Seq<u8>,
    sk_b64: Seq<char>,
    em: EncryptedMessage,
)
    requires
        kem_keys_match(pk, sk),
        sk.len() == KEM_SECRET_KEY_BYTES,
        b64_decode_spec(sk_b64) == Some(sk),
        encrypts(message, pk, em),
    ensures
        decrypt_spec(em.ciphertext@, em.encapsulated_key@, sk_b64) == Ok::<
            Seq<char>,
            CryptoError,
        >(message),
{
    let (ss, ct) = choose|ss: Seq<u8>, ct: Seq<u8>|
        #![trigger b64_encode_spec(ct), xor_keystream(encode_utf8(message), ss)]
        {
            &&& ss.len() == KEM_SHARED_SECRET_BYTES
            &&& ct.len() == KEM_CIPHERTEXT_BYTES
            &&& em.encapsulated_key@ == b64_encode_spec(ct)
            &&& b64_decode_spec(em.encapsulated_key@) == Some(ct)
            &&& em.ciphertext@ == b64_encode_spec(xor_keystream(encode_utf8(message), ss))
            &&& b64_decode_spec(em.ciphertext@) == Some(xor_keystream(encode_utf8(message), ss))
            &&& forall|sk2: Seq<u8>|
                #[trigger] kem_keys_match(pk, sk2) ==> kem_decap_spec(ct, sk2) == ss
        };
    assert(kem_decap_spec(ct, sk) == ss);
    lemma_xor_keystream_involutive(encode_utf8(message), ss);
    encode_utf8_valid_utf8(message);
    encode_utf8_decode_utf8(message);
}

} // verus!

