//! A hybrid post-quantum encryption core for a secure mail system.
//!
//! One identity sends a message that only a specific other identity can
//! read: a quantum-resistant key-encapsulation mechanism (Kyber-768)
//! establishes a shared secret, and an XOR stream cipher derived from that
//! secret encrypts the message body. Around the core live the message
//! framing helpers (subject-line marker, placeholder body), the JSON wire
//! format for encrypted messages, and the mail-message parsing and
//! filtering rules of the surrounding application.

pub mod encoding;
pub mod encryption;
pub mod errors;
pub mod filters;
pub mod framing;
pub mod gmail;
pub mod kem;
pub mod mailflow;
pub mod models;
pub mod stream;
pub mod strutil;
pub mod wire;

pub use encryption::{decrypt_message, encrypt_message, generate_keypair, EncryptedMessage,
KeyPair};
pub use errors::CryptoError;
pub use filters::apply_filters_to_emails;
pub use framing::{extract_original_subject, format_encrypted_body, format_encrypted_subject,
is_encrypted};
pub use gmail::{extract_email_address, extract_sender_name, parse_gmail_message,
process_send_message_response};
pub use mailflow::{decrypt_stored_email, prepare_outgoing_email, process_gmail_message,
SendPreparation};
pub use wire::{deserialize_encrypted_message, serialize_encrypted_message};
