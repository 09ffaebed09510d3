//! The decision core of the sending and viewing paths.
//!
//! Sending: given the subject, body, the caller's wish to encrypt, and the
//! recipient's public key where one is stored, decide what goes out — the
//! plain message, the framed placeholder with the encrypted payload stored
//! out-of-band, or a report that the recipient still lacks keys. Viewing:
//! given a stored encrypted record and the viewer's secret key, recover the
//! original subject and body. The store lookups themselves are I/O and live
//! outside the library.

use vstd::prelude::*;

use crate::encoding::b64_decode_spec;
use crate::encryption::{EncryptedMessage, decrypt_message, decrypt_spec, encrypt_message,
encrypts};
use crate::errors::CryptoError;
use crate::framing::{extract_original_subject, format_encrypted_body, format_encrypted_subject,
is_encrypted, marker};
use crate::gmail::{GmailMessage, email_address_spec, headers_of, last_header_value,
message_body_of, parse_gmail_message, sender_name_spec};
use crate::kem::{kem_keys_match, KEM_PUBLIC_KEY_BYTES, KEM_SECRET_KEY_BYTES};
use crate::models::Email;
use crate::strutil::{contains_seq, remove_all, trim_spec};
use crate::wire::{deserialize_encrypted_message, parse_wire, serialize_spec,
serialize_encrypted_message};

verus! {

/// What the sending path hands to the transport.
#[derive(Debug)]
pub enum SendPreparation {
    /// Send the message as it is.
    Plain { subject: String, body: String },
    /// Send the framed placeholder; the payload is the wire form of the
    /// encrypted message, to be stored out-of-band.
    Encrypted { subject: String, body: String, payload: String },
    /// The recipient has no stored public key yet: the caller should
    /// generate and store a pair, then send the message plain this time.
    MissingKey,
}

/// Relies on `uuid::Uuid::new_v4` and its hyphenated text form: a fresh
/// random version-4 UUID, 36 characters. The value is random; nothing more
/// is promised of it.
#[verifier::external_body]
fn fresh_uuid_string() -> (r: String)
    ensures
        r@.len() == 36,
{
    uuid::Uuid::new_v4().to_string()
}

/// A copy of a list of label ids.
fn clone_labels(labels: &Option<Vec<String>>) -> (r: Option<Vec<String>>)
    ensures
        match r {
            Some(v) => labels matches Some(l) && v@ == l@,
            None => labels is None,
        },
{
    match labels {
        Some(l) => {
            let n = l.len();
            let mut out: Vec<String> = Vec::new();
            let mut i: usize = 0;
            while i < n
                invariant
                    n == l@.len(),
                    i <= n,
                    out@.len() == i,
                    forall|j: int| 0 <= j < i ==> out@[j] == l@[j],
                decreases n - i,
            {
                out.push(l[i].clone());
                i = i + 1;
            }
            proof {
                assert(out@ =~= l@);
            }
            Some(out)
        },
        None => None,
    }
}

/// Turns a fetched mail message into a stored message record: the parsed
/// display components, a fresh id, the fetch id kept, and the encryption
/// mark read off the subject line.
pub fn process_gmail_message(message: &GmailMessage, _user_email: &str) -> (r: Option<Email>)
    ensures
        r matches Some(e) && {
            &&& e.id@.len() == 36
            &&& e.sender_id@ == email_address_spec(last_header_value(headers_of(*message), "From"@))
            &&& e.sender_email@ == email_address_spec(
                last_header_value(headers_of(*message), "From"@),
            )
            &&& e.sender_name matches Some(n) && n@ == sender_name_spec(
                last_header_value(headers_of(*message), "From"@),
            )
            &&& e.recipient_email@ == email_address_spec(
                last_header_value(headers_of(*message), "To"@),
            )
            &&& e.subject@ == last_header_value(headers_of(*message), "Subject"@)
            &&& e.body@ == message_body_of(*message)
            &&& e.sent_at@ == (match message.internal_date {
                Some(d) => d@,
                None => Seq::<char>::empty(),
            })
            &&& e.read_at is None
            &&& e.gmail_id matches Some(g) && g@ == message.id@
            &&& (match e.label_ids {
                Some(v) => message.label_ids matches Some(l) && v@ == l@,
                None => message.label_ids is None,
            })
            &&& e.is_encrypted == contains_seq(
                last_header_value(headers_of(*message), "Subject"@),
                marker(),
            )
            &&& e.raw_encrypted_content is None
        },
{
    let (subject, sender, sender_name, recipient, body) = parse_gmail_message(message);
    let date = match &message.internal_date {
        Some(d) => d.clone(),
        None => String::new(),
    };
    let encrypted = is_encrypted(subject.as_str());
    let sender_id = sender.clone();
    Some(
        Email {
            id: fresh_uuid_string(),
            sender_id,
            sender_email: sender,
            sender_name: Some(sender_name),
            recipient_email: recipient,
            subject,
            body,
            sent_at: date,
            read_at: None,
            gmail_id: Some(message.id.clone()),
            label_ids: clone_labels(&message.label_ids),
            is_encrypted: encrypted,
            raw_encrypted_content: None,
        },
    )
}

/// Decides what the sending path hands to the transport.
///
/// Without the wish to encrypt, the message goes out plain. With it, a
/// missing recipient key is reported so the caller can create one and send
/// plain this time; a stored key that is not valid base64 of the public-key
/// size is a `KeyFormatError`; otherwise the body is encrypted under the
/// key, the payload is its wire form, and the placeholder goes out under the
/// marked subject.
pub fn prepare_outgoing_email(
    subject: &str,
    body: &str,
    encrypt: Option<bool>,
    recipient_public_key: Option<&String>,
) -> (r: Result<SendPreparation, CryptoError>)
    requires
        body@.len() <= usize::MAX / 16,
    ensures
        encrypt != Some(true) ==> (r matches Ok(p) && p matches SendPreparation::Plain {
            subject: s2,
            body: b2,
        } && s2@ == subject@ && b2@ == body@),
        encrypt == Some(true) && recipient_public_key is None ==> (r matches Ok(p) && p matches
            SendPreparation::MissingKey),
        encrypt == Some(true) ==> (recipient_public_key matches Some(k) ==> match r {
            Ok(p) => p matches SendPreparation::Encrypted { subject: s2, body: b2, payload } && {
                &&& s2@ == marker() + " "@ + subject@
                &&& b2@
                    == "This message is encrypted and can only be read using the Q-Client.\n\nPlease use your quantum-secure email client to view this message."@
                &&& exists|pk: Seq<u8>, em: EncryptedMessage|
                    {
                        &&& b64_decode_spec(k@) == Some(pk)
                        &&& #[trigger] encrypts(body@, pk, em)
                        &&& payload@ == serialize_spec(em.ciphertext@, em.encapsulated_key@)
                    }
            },
            Err(e) => e == CryptoError::KeyFormatError && !(b64_decode_spec(k@) matches Some(pk)
                && pk.len() == KEM_PUBLIC_KEY_BYTES),
        }),
{
    let should_encrypt = match encrypt {
        Some(b) => b,
        None => false,
    };
    if !should_encrypt {
        return Ok(
            SendPreparation::Plain { subject: subject.to_owned(), body: body.to_owned() },
        );
    }
    let key = match recipient_public_key {
        Some(k) => k,
        None => {
            return Ok(SendPreparation::MissingKey);
        },
    };
    let em = match encrypt_message(body, key.as_str()) {
        Ok(em) => em,
        Err(e) => {
            return Err(e);
        },
    };
    let payload = match serialize_encrypted_message(&em) {
        Ok(p) => p,
        Err(e) => {
            return Err(e);
        },
    };
    Ok(
        SendPreparation::Encrypted {
            subject: format_encrypted_subject(subject),
            body: format_encrypted_body(),
            payload,
        },
    )
}

/// Law: the whole sending path composed with the whole viewing path
/// restores the message. For any encryption of a body under a public key,
/// the stored wire payload deserializes to that very encrypted message,
/// decrypting it with the matching secret key yields the body again, and
/// unframing the marked subject yields the subject again — the last for
/// every subject free of the marker and of surrounding whitespace.
pub proof fn lemma_send_then_view(
    subject: Seq<char>,
    body: Seq<char>,
    pk: Seq<u8>,
    sk: Seq<u8>,
    sk_b64: Seq<char>,
    em: EncryptedMessage,
)
    requires
        kem_keys_match(pk, sk),
        sk.len() == KEM_SECRET_KEY_BYTES,
        b64_decode_spec(sk_b64) == Some(sk),
        encrypts(body, pk, em),
        !contains_seq(subject, marker()),
        subject.len() > 0 ==> !crate::strutil::is_whitespace_char(subject[0]),
        subject.len() > 0 ==> !crate::strutil::is_whitespace_char(subject[subject.len() - 1]),
    ensures
        parse_wire(serialize_spec(em.ciphertext@, em.encapsulated_key@)) == Some(
            (em.ciphertext@, em.encapsulated_key@),
        ),
        decrypt_spec(em.ciphertext@, em.encapsulated_key@, sk_b64) == Ok::<Seq<char>, CryptoError>(
            body,
        ),
        trim_spec(remove_all(marker() + " "@ + subject, marker())) == subject,
{
    crate::wire::lemma_wire_round_trip(em.ciphertext@, em.encapsulated_key@);
    crate::encryption::lemma_encrypt_then_decrypt(body, pk, sk, sk_b64, em);
    crate::framing::lemma_subject_round_trip(subject);
}

/// Recovers the display subject and the plaintext body of a stored
/// encrypted message: the wire payload is deserialized, the body decrypted
/// with the viewer's secret key, and the marker stripped off the subject.
pub fn decrypt_stored_email(subject: &str, raw_encrypted_content: &str, secret_key_b64: &str) -> (r:
    Result<(String, String), CryptoError>)
    ensures
        parse_wire(raw_encrypted_content@) is None ==> r == Err::<(String, String), CryptoError>(
            CryptoError::SerializationError,
        ),
        parse_wire(raw_encrypted_content@) matches Some((c, k)) ==> match r {
            Ok(p) => decrypt_spec(c, k, secret_key_b64@) == Ok::<Seq<char>, CryptoError>(p.1@)
                && p.0@ == trim_spec(remove_all(subject@, marker())),
            Err(e) => decrypt_spec(c, k, secret_key_b64@) == Err::<Seq<char>, CryptoError>(e),
        },
{
    let em = match deserialize_encrypted_message(raw_encrypted_content) {
        Ok(em) => em,
        Err(e) => {
            return Err(e);
        },
    };
    let plaintext = match decrypt_message(&em, secret_key_b64) {
        Ok(t) => t,
        Err(e) => {
            return Err(e);
        },
    };
    let display_subject = extract_original_subject(subject);
    Ok((display_subject, plaintext))
}

} // verus!
