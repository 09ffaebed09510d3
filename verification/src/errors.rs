//! The error taxonomy of the encryption core.
//!
//! Every operation of the core returns a typed result; no failure is masked
//! by substituting a default or a "looks successful" value.

use vstd::prelude::*;

verus! {

/// A failure of the encryption core.
#[derive(Clone, Copy, Debug, PartialEq, Eq, Structural)]
pub enum CryptoError {
    /// Bad base64, or a decoded length that does not match the KEM's fixed
    /// key size.
    KeyFormatError,
    /// The KEM encapsulation primitive failed.
    EncapsulationError,
    /// The KEM decapsulation primitive failed.
    DecapsulationError,
    /// The encapsulated key's decoded length does not equal the KEM's fixed
    /// ciphertext size.
    CiphertextSizeMismatch,
    /// The decrypted bytes are not valid UTF-8 text; the expected outcome of
    /// decrypting with a secret key that does not match the public key.
    Utf8DecodeError,
    /// The JSON wire form of an encrypted message could not be produced or
    /// understood.
    SerializationError,
}

impl CryptoError {
    /// A short human-readable description of the failure.
    pub fn describe(&self) -> (r: &'static str)
        ensures
            r@ == self.describe_spec(),
    {
        match self {
            CryptoError::KeyFormatError => "key is not valid base64 of the expected length",
            CryptoError::EncapsulationError => "key encapsulation failed",
            CryptoError::DecapsulationError => "key decapsulation failed",
            CryptoError::CiphertextSizeMismatch => {
                "encapsulated key does not have the KEM ciphertext size"
            },
            CryptoError::Utf8DecodeError => "decrypted bytes are not valid UTF-8",
            CryptoError::SerializationError => "malformed encrypted-message wire data",
        }
    }

    /// What `describe` returns for each variant.
    pub open spec fn describe_spec(&self) -> Seq<char> {
        match self {
            CryptoError::KeyFormatError => "key is not valid base64 of the expected length"@,
            CryptoError::EncapsulationError => "key encapsulation failed"@,
            CryptoError::DecapsulationError => "key decapsulation failed"@,
            CryptoError::CiphertextSizeMismatch => {
                "encapsulated key does not have the KEM ciphertext size"@
            },
            CryptoError::Utf8DecodeError => "decrypted bytes are not valid UTF-8"@,
            CryptoError::SerializationError => "malformed encrypted-message wire data"@,
        }
    }
}

} // verus!
