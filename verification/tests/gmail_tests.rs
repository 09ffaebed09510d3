use quantum_email::gmail::{extract_email_address, extract_sender_name, parse_gmail_message,
process_send_message_response, GmailBody, GmailHeader, GmailMessage, GmailPart, GmailPayload,
SendMessageResponse, TokenCache};

fn header(name: &str, value: &str) -> GmailHeader {
    GmailHeader { name: name.to_string(), value: value.to_string() }
}

fn body_with_data(data: &str) -> GmailBody {
    GmailBody { size: Some(data.len() as i64), data: Some(data.to_string()), attachment_id: None }
}

#[test]
fn extract_email_address_cases() {
    assert_eq!(extract_email_address("Jo Doe <jo@example.com>"), "jo@example.com");
    assert_eq!(extract_email_address("<only@example.com>"), "only@example.com");
    assert_eq!(extract_email_address("plain@example.com"), "plain@example.com");
    assert_eq!(extract_email_address(""), "");
    // Closing bracket before the opening one: the value stays whole.
    assert_eq!(extract_email_address("a > b < c"), "a > b < c");
}

#[test]
fn extract_sender_name_cases() {
    assert_eq!(extract_sender_name("Jo Doe <jo@example.com>"), "Jo Doe");
    assert_eq!(extract_sender_name("\"Jo Doe\" <jo@example.com>"), "Jo Doe");
    assert_eq!(extract_sender_name("<jo@example.com>"), "");
    assert_eq!(extract_sender_name("plain@example.com"), "");
    assert_eq!(extract_sender_name("\"\" <jo@example.com>"), "");
}

#[test]
fn parse_gmail_message_reads_headers_and_body() {
    // "secret body" in base64url (no padding differences here).
    let data = base64::encode_config("secret body", base64::URL_SAFE);
    let message = GmailMessage {
        id: "m1".to_string(),
        thread_id: "t1".to_string(),
        label_ids: Some(vec!["INBOX".to_string()]),
        snippet: None,
        payload: Some(GmailPayload {
            headers: Some(vec![
                header("Subject", "Budget"),
                header("From", "\"Ann B\" <ann@example.com>"),
                header("To", "bo@example.com"),
                header("X-Other", "ignored"),
            ]),
            parts: None,
            body: Some(body_with_data(&data)),
            mime_type: Some("text/plain".to_string()),
        }),
        internal_date: Some("1700000000000".to_string()),
    };
    let (subject, sender, sender_name, recipient, body) = parse_gmail_message(&message);
    assert_eq!(subject, "Budget");
    assert_eq!(sender, "ann@example.com");
    assert_eq!(sender_name, "Ann B");
    assert_eq!(recipient, "bo@example.com");
    assert_eq!(body, "secret body");
}

#[test]
fn parse_gmail_message_finds_nested_plain_text_part() {
    let text = base64::encode_config("nested text here", base64::URL_SAFE);
    let html = base64::encode_config("<p>html</p>", base64::URL_SAFE);
    let message = GmailMessage {
        id: "m2".to_string(),
        thread_id: "t2".to_string(),
        label_ids: None,
        snippet: None,
        payload: Some(GmailPayload {
            headers: Some(vec![header("Subject", "S")]),
            parts: Some(vec![GmailPart {
                part_id: Some("0".to_string()),
                mime_type: Some("multipart/alternative".to_string()),
                filename: None,
                headers: None,
                body: None,
                parts: Some(vec![
                    GmailPart {
                        part_id: Some("0.0".to_string()),
                        mime_type: Some("text/html".to_string()),
                        filename: None,
                        headers: None,
                        body: Some(body_with_data(&html)),
                        parts: None,
                    },
                    GmailPart {
                        part_id: Some("0.1".to_string()),
                        mime_type: Some("text/plain".to_string()),
                        filename: None,
                        headers: None,
                        body: Some(body_with_data(&text)),
                        parts: None,
                    },
                ]),
            }]),
            body: None,
            mime_type: Some("multipart/mixed".to_string()),
        }),
        internal_date: None,
    };
    let (_, _, _, _, body) = parse_gmail_message(&message);
    assert_eq!(body, "nested text here");
}

#[test]
fn parse_gmail_message_without_payload_is_all_empty() {
    let message = GmailMessage {
        id: "m3".to_string(),
        thread_id: "t3".to_string(),
        label_ids: None,
        snippet: None,
        payload: None,
        internal_date: None,
    };
    let (subject, sender, sender_name, recipient, body) = parse_gmail_message(&message);
    assert_eq!(subject, "");
    assert_eq!(sender, "");
    assert_eq!(sender_name, "");
    assert_eq!(recipient, "");
    assert_eq!(body, "");
}

#[test]
fn repeated_headers_keep_the_last_value() {
    let message = GmailMessage {
        id: "m4".to_string(),
        thread_id: "t4".to_string(),
        label_ids: None,
        snippet: None,
        payload: Some(GmailPayload {
            headers: Some(vec![header("Subject", "first"), header("Subject", "second")]),
            parts: None,
            body: None,
            mime_type: None,
        }),
        internal_date: None,
    };
    let (subject, _, _, _, _) = parse_gmail_message(&message);
    assert_eq!(subject, "second");
}

#[test]
fn send_response_components_come_from_the_inputs() {
    let response = SendMessageResponse {
        id: "sent1".to_string(),
        thread_id: "t".to_string(),
        label_ids: None,
    };
    let (subject, from, from_name, to, body) = process_send_message_response(
        &response,
        "Ann <ann@example.com>",
        "bo@example.com",
        "Hi",
        "Body",
    );
    assert_eq!(subject, "Hi");
    assert_eq!(from, "Ann <ann@example.com>");
    assert_eq!(from_name, "Ann");
    assert_eq!(to, "bo@example.com");
    assert_eq!(body, "Body");
}

#[test]
fn token_cache_freshness_keeps_a_minute_of_margin() {
    let cache = TokenCache::new("tok".to_string(), 1_000_000);
    assert_eq!(cache.access_token().as_str(), "tok");
    assert!(cache.is_fresh(900_000));
    assert!(!cache.is_fresh(940_001));
    assert!(!cache.is_fresh(1_000_000));
    assert!(!cache.is_fresh(u64::MAX));
}

#[test]
fn body_decoding_maps_base64url_characters() {
    // "~~~" encodes to "fn5+" in standard base64, "fn5-" in base64url.
    let message = GmailMessage {
        id: "m5".to_string(),
        thread_id: "t5".to_string(),
        label_ids: None,
        snippet: None,
        payload: Some(GmailPayload {
            headers: None,
            parts: None,
            body: Some(body_with_data("fn5-")),
            mime_type: Some("text/plain".to_string()),
        }),
        internal_date: None,
    };
    let (_, _, _, _, body) = parse_gmail_message(&message);
    assert_eq!(body, "~~~");
}
