use quantum_email::encryption::EncryptedMessage;
use quantum_email::errors::CryptoError;
use quantum_email::framing::{extract_original_subject, format_encrypted_body,
format_encrypted_subject, is_encrypted};
use quantum_email::wire::{deserialize_encrypted_message, serialize_encrypted_message};

#[test]
fn format_encrypted_subject_prepends_marker() {
    let framed = format_encrypted_subject("Quarterly report");
    assert_eq!(framed, "[Q-ENCRYPTED] Quarterly report");
    assert!(is_encrypted(&framed));
}

#[test]
fn is_encrypted_detects_marker_anywhere() {
    assert!(is_encrypted("[Q-ENCRYPTED] hi"));
    assert!(is_encrypted("Re: [Q-ENCRYPTED] hi"));
    assert!(!is_encrypted("Quarterly report"));
    assert!(!is_encrypted(""));
    assert!(!is_encrypted("[Q-ENCRYPTED"));
}

#[test]
fn extract_original_subject_round_trips() {
    for subject in ["Hello", "Quarterly report", "", "a", "Re: budget (final)"] {
        let framed = format_encrypted_subject(subject);
        assert_eq!(extract_original_subject(&framed), subject);
    }
}

#[test]
fn extract_original_subject_trims_and_removes_all_markers() {
    assert_eq!(extract_original_subject("  [Q-ENCRYPTED] Hi  "), "Hi");
    assert_eq!(
        extract_original_subject("[Q-ENCRYPTED] [Q-ENCRYPTED] twice"),
        "twice"
    );
    assert_eq!(extract_original_subject("no marker here"), "no marker here");
    assert_eq!(extract_original_subject("[Q-ENCRYPTED]"), "");
}

#[test]
fn encrypted_body_is_the_fixed_placeholder() {
    let body = format_encrypted_body();
    assert_eq!(
        body,
        "This message is encrypted and can only be read using the Q-Client.\n\nPlease use your quantum-secure email client to view this message."
    );
}

#[test]
fn serialize_produces_canonical_wire_text() {
    let em = EncryptedMessage {
        ciphertext: String::from("abc+/="),
        encapsulated_key: String::from("ZGVm"),
    };
    let wire = serialize_encrypted_message(&em).unwrap();
    assert_eq!(
        wire,
        "{\"ciphertext\":\"abc+/=\",\"encapsulated_key\":\"ZGVm\"}"
    );
}

#[test]
fn serialize_matches_serde_json() {
    let em = EncryptedMessage {
        ciphertext: String::from("Y2lwaGVy"),
        encapsulated_key: String::from("a2V5"),
    };
    let wire = serialize_encrypted_message(&em).unwrap();
    let value: serde_json::Value = serde_json::from_str(&wire).unwrap();
    assert_eq!(value["ciphertext"].as_str().unwrap(), "Y2lwaGVy");
    assert_eq!(value["encapsulated_key"].as_str().unwrap(), "a2V5");
}

#[test]
fn deserialize_restores_both_fields() {
    let em = EncryptedMessage {
        ciphertext: String::from("Y2lwaGVy"),
        encapsulated_key: String::from("a2V5"),
    };
    let wire = serialize_encrypted_message(&em).unwrap();
    let back = deserialize_encrypted_message(&wire).unwrap();
    assert_eq!(back.ciphertext, "Y2lwaGVy");
    assert_eq!(back.encapsulated_key, "a2V5");
}

#[test]
fn deserialize_accepts_whitespace_and_either_field_order() {
    let wire = " { \"encapsulated_key\" : \"k1\" ,\n\t\"ciphertext\" : \"c1\" } ";
    let back = deserialize_encrypted_message(wire).unwrap();
    assert_eq!(back.ciphertext, "c1");
    assert_eq!(back.encapsulated_key, "k1");
}

#[test]
fn deserialize_rejects_malformed_wire_text() {
    let bad = [
        "",
        "{}",
        "{\"ciphertext\":\"a\"}",
        "{\"encapsulated_key\":\"b\"}",
        "{\"ciphertext\":\"a\",\"ciphertext\":\"b\"}",
        "{\"ciphertext\":\"a\",\"encapsulated_key\":\"b\",\"ciphertext\":\"c\"}",
        "{\"ciphertext\":\"a\",\"encapsulated_key\":\"b\"} trailing",
        "{\"ciphertext\":\"a\",\"other\":\"b\"}",
        "[\"ciphertext\",\"encapsulated_key\"]",
        "{\"ciphertext\":\"a\",\"encapsulated_key\":\"b\"",
        "{\"ciphertext\":\"a\",\"encapsulated_key\":\"b\",}",
        "{\"ciphertext\":0,\"encapsulated_key\":\"b\"}",
        "{\"ciphertext\":\"a\",\"encapsulated_key\":null}",
        "{\"ciphertext\":\"a\\x\",\"encapsulated_key\":\"b\"}",
        "{\"ciphertext\":\"a\\uD83D\",\"encapsulated_key\":\"b\"}",
        "{\"ciphertext\":\"a\",\"n\":01,\"encapsulated_key\":\"b\"}",
        "{\"ciphertext\":\"a\",\"n\":[1,],\"encapsulated_key\":\"b\"}",
        "{\"ciphertext\":\"a\",\"n\":tru,\"encapsulated_key\":\"b\"}",
    ];
    for wire in bad {
        let r = deserialize_encrypted_message(wire);
        assert_eq!(r.unwrap_err(), CryptoError::SerializationError, "input: {wire}");
    }
}

#[test]
fn deserialize_decodes_string_escapes() {
    let wire = "{\"ciphertext\":\"a\\n\\\"b\\\\c\\u0041\\/\",\"encapsulated_key\":\"\\uD83D\\uDE00\"}";
    let back = deserialize_encrypted_message(wire).unwrap();
    assert_eq!(back.ciphertext, "a\n\"b\\cA/");
    assert_eq!(back.encapsulated_key, "\u{1F600}");
}

#[test]
fn deserialize_allows_escaped_field_names_and_extra_members() {
    let wire = "{\"extra\":{\"deep\":[1,-2.5e3,true,null,\"s\"]},\"cipher\\u0074ext\":\"c1\",\"count\":7,\"encapsulated_key\":\"k1\"}";
    let back = deserialize_encrypted_message(wire).unwrap();
    assert_eq!(back.ciphertext, "c1");
    assert_eq!(back.encapsulated_key, "k1");
}

#[test]
fn serialize_escapes_as_json_requires() {
    let tricky = ["plain", "\"", "with \"quote\"", "back\\slash", "line\nbreak\tand tab", "ctl\u{1}\u{1f}", "emoji \u{1F600}"];
    for c in tricky {
        for k in ["x", "\u{0}\u{b}"] {
            let em = EncryptedMessage {
                ciphertext: c.to_string(),
                encapsulated_key: k.to_string(),
            };
            let wire = serialize_encrypted_message(&em).unwrap();
            // Byte for byte what serde_json writes for the same two fields.
            let mut map = serde_json::Map::new();
            map.insert(
                "ciphertext".to_string(),
                serde_json::Value::String(c.to_string()),
            );
            map.insert(
                "encapsulated_key".to_string(),
                serde_json::Value::String(k.to_string()),
            );
            let expected = serde_json::to_string(&serde_json::Value::Object(map)).unwrap();
            assert_eq!(wire, expected);
            // And it reads back to the same fields.
            let back = deserialize_encrypted_message(&wire).unwrap();
            assert_eq!(back.ciphertext, c);
            assert_eq!(back.encapsulated_key, k);
        }
    }
}

#[test]
fn extract_original_subject_trims_unicode_whitespace() {
    assert_eq!(
        extract_original_subject("[Q-ENCRYPTED]\u{00A0}Hi\u{2003}"),
        "Hi"
    );
}
