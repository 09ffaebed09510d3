use quantum_email::filters::apply_filters_to_emails;
use quantum_email::models::{Email, EmailFilter, SortField, SortOrder};

fn email(id: &str, sender: &str, recipient: &str, subject: &str, body: &str, sent_at: &str) -> Email {
    Email {
        id: id.to_string(),
        sender_id: sender.to_string(),
        sender_email: sender.to_string(),
        sender_name: None,
        recipient_email: recipient.to_string(),
        subject: subject.to_string(),
        body: body.to_string(),
        sent_at: sent_at.to_string(),
        read_at: None,
        gmail_id: None,
        label_ids: None,
        is_encrypted: false,
        raw_encrypted_content: None,
    }
}

fn sample() -> Vec<Email> {
    let mut a = email("a", "ann@example.com", "bo@example.com", "Budget", "numbers", "2024-01-03");
    let mut b = email("b", "bo@example.com", "ann@example.com", "Re: Budget", "More NUMBERS", "2024-01-01");
    let c = email("c", "cy@example.com", "ann@example.com", "Picnic", "sunshine", "2024-01-02");
    a.label_ids = Some(vec!["INBOX".to_string(), "WORK".to_string()]);
    a.read_at = Some("2024-01-04".to_string());
    b.label_ids = Some(vec!["INBOX".to_string()]);
    vec![a, b, c]
}

fn ids(emails: &[Email]) -> Vec<&str> {
    emails.iter().map(|e| e.id.as_str()).collect()
}

#[test]
fn no_filter_sorts_by_date_newest_first() {
    let r = apply_filters_to_emails(sample(), &EmailFilter::default());
    assert_eq!(ids(&r), ["a", "c", "b"]);
}

#[test]
fn filter_by_label() {
    let mut f = EmailFilter::default();
    f.label = Some("WORK".to_string());
    let r = apply_filters_to_emails(sample(), &f);
    assert_eq!(ids(&r), ["a"]);
}

#[test]
fn filter_by_read_state() {
    let mut f = EmailFilter::default();
    f.is_read = Some(true);
    let r = apply_filters_to_emails(sample(), &f);
    assert_eq!(ids(&r), ["a"]);
    f.is_read = Some(false);
    let r = apply_filters_to_emails(sample(), &f);
    assert_eq!(ids(&r), ["c", "b"]);
}

#[test]
fn search_is_case_insensitive_across_fields() {
    let mut f = EmailFilter::default();
    f.search = Some("numbers".to_string());
    let r = apply_filters_to_emails(sample(), &f);
    assert_eq!(ids(&r), ["a", "b"]);
    f.search = Some("CY@".to_string());
    let r = apply_filters_to_emails(sample(), &f);
    assert_eq!(ids(&r), ["c"]);
    f.search = Some("nowhere".to_string());
    let r = apply_filters_to_emails(sample(), &f);
    assert!(r.is_empty());
}

#[test]
fn filter_by_sender_and_recipient() {
    let mut f = EmailFilter::default();
    f.sender = Some("ANN@".to_string());
    let r = apply_filters_to_emails(sample(), &f);
    assert_eq!(ids(&r), ["a"]);
    let mut f = EmailFilter::default();
    f.recipient = Some("ann@example.com".to_string());
    let r = apply_filters_to_emails(sample(), &f);
    assert_eq!(ids(&r), ["c", "b"]);
}

#[test]
fn sort_by_subject_both_directions() {
    let mut f = EmailFilter::default();
    f.sort_by = Some(SortField::Subject);
    f.sort_order = Some(SortOrder::Asc);
    let r = apply_filters_to_emails(sample(), &f);
    assert_eq!(ids(&r), ["a", "c", "b"]);
    f.sort_order = Some(SortOrder::Desc);
    let r = apply_filters_to_emails(sample(), &f);
    assert_eq!(ids(&r), ["b", "c", "a"]);
}

#[test]
fn sort_by_sender_defaults_to_descending() {
    let mut f = EmailFilter::default();
    f.sort_by = Some(SortField::Sender);
    let r = apply_filters_to_emails(sample(), &f);
    assert_eq!(ids(&r), ["c", "b", "a"]);
}

#[test]
fn equal_sort_keys_keep_input_order() {
    let x = email("x", "s@example.com", "r@example.com", "Same", "1", "2024");
    let y = email("y", "s@example.com", "r@example.com", "Same", "2", "2024");
    let z = email("z", "s@example.com", "r@example.com", "Same", "3", "2024");
    let mut f = EmailFilter::default();
    f.sort_by = Some(SortField::Subject);
    f.sort_order = Some(SortOrder::Asc);
    let r = apply_filters_to_emails(vec![x, y, z], &f);
    assert_eq!(ids(&r), ["x", "y", "z"]);
}

#[test]
fn offset_and_limit_take_a_window() {
    let mut f = EmailFilter::default();
    f.offset = Some(1);
    f.limit = Some(1);
    let r = apply_filters_to_emails(sample(), &f);
    assert_eq!(ids(&r), ["c"]);
    f.offset = Some(0);
    f.limit = Some(2);
    let r = apply_filters_to_emails(sample(), &f);
    assert_eq!(ids(&r), ["a", "c"]);
    f.offset = Some(10);
    f.limit = None;
    let r = apply_filters_to_emails(sample(), &f);
    assert!(r.is_empty());
    // Offset without a limit must not fail.
    f.offset = Some(1);
    f.limit = None;
    let r = apply_filters_to_emails(sample(), &f);
    assert_eq!(ids(&r), ["c", "b"]);
}
