//! The plain data model of the mail application: messages, previews, send
//! requests, listing filters, labels, and user-facing response shapes.

use vstd::prelude::*;

verus! {

/// A stored mail message.
pub struct Email {
    pub id: String,
    pub sender_id: String,
    pub sender_email: String,
    pub sender_name: Option<String>,
    pub recipient_email: String,
    pub subject: String,
    pub body: String,
    pub sent_at: String,
    pub read_at: Option<String>,
    pub gmail_id: Option<String>,
    pub label_ids: Option<Vec<String>>,
    pub is_encrypted: bool,
    pub raw_encrypted_content: Option<String>,
}

/// The listing view of a stored mail message: everything but the body and
/// the raw encrypted content.
pub struct EmailPreview {
    pub id: String,
    pub sender_email: String,
    pub sender_name: Option<String>,
    pub recipient_email: String,
    pub subject: String,
    pub sent_at: String,
    pub read_at: Option<String>,
    pub gmail_id: Option<String>,
    pub label_ids: Option<Vec<String>>,
    pub is_encrypted: bool,
}

/// What a caller hands in to send a message.
pub struct SendEmailRequest {
    pub recipient_email: String,
    pub subject: String,
    pub body: String,
    pub encrypt: Option<bool>,
}

/// The filter, sort and paging settings of a message listing.
pub struct EmailFilter {
    pub label: Option<String>,
    pub is_read: Option<bool>,
    pub search: Option<String>,
    pub sender: Option<String>,
    pub recipient: Option<String>,
    pub sort_by: Option<SortField>,
    pub sort_order: Option<SortOrder>,
    pub limit: Option<usize>,
    pub offset: Option<usize>,
}

impl core::default::Default for EmailFilter {
    /// The filter that keeps everything: no conditions, the default sort,
    /// the whole listing.
    fn default() -> (r: EmailFilter)
        ensures
            r.label is None,
            r.is_read is None,
            r.search is None,
            r.sender is None,
            r.recipient is None,
            r.sort_by is None,
            r.sort_order is None,
            r.limit is None,
            r.offset is None,
    {
        EmailFilter {
            label: None,
            is_read: None,
            search: None,
            sender: None,
            recipient: None,
            sort_by: None,
            sort_order: None,
            limit: None,
            offset: None,
        }
    }
}

/// The field a message listing is sorted by.
#[derive(Clone, Copy, Debug, PartialEq, Eq, Structural)]
pub enum SortField {
    Date,
    Sender,
    Subject,
}

impl core::default::Default for SortField {
    /// Listings sort by date unless a field is named.
    fn default() -> (r: SortField)
        ensures
            r == SortField::Date,
    {
        SortField::Date
    }
}

/// The direction a message listing is sorted in.
#[derive(Clone, Copy, Debug, PartialEq, Eq, Structural)]
pub enum SortOrder {
    Desc,
    Asc,
}

impl core::default::Default for SortOrder {
    /// Listings sort newest first unless a direction is named.
    fn default() -> (r: SortOrder)
        ensures
            r == SortOrder::Desc,
    {
        SortOrder::Desc
    }
}

/// A mail label, with its visibility settings and message counts.
pub struct GmailLabel {
    pub id: String,
    pub name: String,
    pub type_: String,
    pub message_list_visibility: Option<String>,
    pub label_list_visibility: Option<String>,
    pub color: Option<LabelColor>,
    pub total_messages: Option<i32>,
    pub unread_messages: Option<i32>,
}

/// The display colors of a label.
pub struct LabelColor {
    pub text_color: String,
    pub background_color: String,
}

/// The query of the sign-in callback.
pub struct AuthQuery {
    pub code: String,
}

/// What the identity provider reports of a signed-in user.
pub struct GoogleUserInfo {
    pub email: String,
    pub name: Option<String>,
    pub picture: Option<String>,
    pub refresh_token: Option<String>,
}

/// What the application answers to a who-am-I request.
pub struct UserResponse {
    pub authenticated: bool,
    pub email: Option<String>,
    pub name: Option<String>,
    pub picture: Option<String>,
    pub message: Option<String>,
}

} // verus!
