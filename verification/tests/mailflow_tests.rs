use quantum_email::encryption::generate_keypair;
use quantum_email::errors::CryptoError;
use quantum_email::gmail::{GmailHeader, GmailMessage, GmailPayload};
use quantum_email::mailflow::{decrypt_stored_email, prepare_outgoing_email,
process_gmail_message, SendPreparation};

#[test]
fn unencrypted_send_goes_out_plain() {
    let r = prepare_outgoing_email("Hi", "Body", None, None).unwrap();
    match r {
        SendPreparation::Plain { subject, body } => {
            assert_eq!(subject, "Hi");
            assert_eq!(body, "Body");
        },
        _ => panic!("expected a plain send"),
    }
    let r = prepare_outgoing_email("Hi", "Body", Some(false), None).unwrap();
    assert!(matches!(r, SendPreparation::Plain { .. }));
}

#[test]
fn encrypting_without_a_stored_key_reports_it() {
    let r = prepare_outgoing_email("Hi", "Body", Some(true), None).unwrap();
    assert!(matches!(r, SendPreparation::MissingKey));
}

#[test]
fn encrypting_with_a_bad_key_is_a_format_error() {
    let key = String::from("not base64!");
    let r = prepare_outgoing_email("Hi", "Body", Some(true), Some(&key));
    assert_eq!(r.unwrap_err(), CryptoError::KeyFormatError);
}

#[test]
fn send_then_view_round_trip() {
    let kp = generate_keypair().unwrap();
    let prepared =
        prepare_outgoing_email("Quarterly report", "the real numbers", Some(true), Some(&kp.public_key))
            .unwrap();
    match prepared {
        SendPreparation::Encrypted { subject, body, payload } => {
            assert_eq!(subject, "[Q-ENCRYPTED] Quarterly report");
            assert!(body.contains("encrypted"));
            let (display_subject, plaintext) =
                decrypt_stored_email(&subject, &payload, &kp.secret_key).unwrap();
            assert_eq!(display_subject, "Quarterly report");
            assert_eq!(plaintext, "the real numbers");
        },
        _ => panic!("expected an encrypted send"),
    }
}

#[test]
fn viewing_with_the_wrong_key_never_restores_the_message() {
    let k1 = generate_keypair().unwrap();
    let k2 = generate_keypair().unwrap();
    let prepared =
        prepare_outgoing_email("S", "top secret", Some(true), Some(&k1.public_key)).unwrap();
    match prepared {
        SendPreparation::Encrypted { subject, payload, .. } => {
            match decrypt_stored_email(&subject, &payload, &k2.secret_key) {
                Ok((_, plaintext)) => assert_ne!(plaintext, "top secret"),
                Err(e) => assert_eq!(e, CryptoError::Utf8DecodeError),
            }
        },
        _ => panic!("expected an encrypted send"),
    }
}

#[test]
fn viewing_malformed_stored_content_is_a_serialization_error() {
    let kp = generate_keypair().unwrap();
    let r = decrypt_stored_email("[Q-ENCRYPTED] S", "not json", &kp.secret_key);
    assert_eq!(r.unwrap_err(), CryptoError::SerializationError);
}

#[test]
fn processed_message_carries_the_parsed_fields() {
    let message = GmailMessage {
        id: "g99".to_string(),
        thread_id: "t".to_string(),
        label_ids: Some(vec!["INBOX".to_string()]),
        snippet: None,
        payload: Some(GmailPayload {
            headers: Some(vec![
                GmailHeader { name: "Subject".to_string(), value: "[Q-ENCRYPTED] Plan".to_string() },
                GmailHeader { name: "From".to_string(), value: "Ann <ann@example.com>".to_string() },
                GmailHeader { name: "To".to_string(), value: "bo@example.com".to_string() },
            ]),
            parts: None,
            body: None,
            mime_type: None,
        }),
        internal_date: Some("1700000000000".to_string()),
    };
    let e = process_gmail_message(&message, "bo@example.com").unwrap();
    assert_eq!(e.id.len(), 36);
    assert_eq!(e.sender_email, "ann@example.com");
    assert_eq!(e.sender_name.as_deref(), Some("Ann"));
    assert_eq!(e.recipient_email, "bo@example.com");
    assert_eq!(e.subject, "[Q-ENCRYPTED] Plan");
    assert!(e.is_encrypted);
    assert_eq!(e.sent_at, "1700000000000");
    assert_eq!(e.gmail_id.as_deref(), Some("g99"));
    assert_eq!(e.label_ids, Some(vec!["INBOX".to_string()]));
    assert!(e.read_at.is_none());
    assert!(e.raw_encrypted_content.is_none());
}

#[test]
fn processed_messages_get_distinct_ids() {
    let message = GmailMessage {
        id: "g1".to_string(),
        thread_id: "t".to_string(),
        label_ids: None,
        snippet: None,
        payload: None,
        internal_date: None,
    };
    let a = process_gmail_message(&message, "x").unwrap();
    let b = process_gmail_message(&message, "x").unwrap();
    assert_ne!(a.id, b.id);
}
