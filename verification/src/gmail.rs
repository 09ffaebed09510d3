//! The mail-API message shapes and the pure rules that read them: pulling
//! the subject, sender, recipient and body text out of a fetched message.
//!
//! Fetching itself is I/O and lives outside the library; everything here
//! works on plain values already in memory.

use vstd::prelude::*;

use crate::strutil::{find_char, str_eq, trim_spec, trim_str};

verus! {

/// An access-token response of the mail API.
pub struct TokenResponse {
    pub access_token: String,
    pub expires_in: i64,
    pub token_type: String,
    pub refresh_token: Option<String>,
}

/// The mail API's answer to sending a message.
pub struct SendMessageResponse {
    pub id: String,
    pub thread_id: String,
    pub label_ids: Option<Vec<String>>,
}

/// A fetched mail message.
pub struct GmailMessage {
    pub id: String,
    pub thread_id: String,
    pub label_ids: Option<Vec<String>>,
    pub snippet: Option<String>,
    pub payload: Option<GmailPayload>,
    pub internal_date: Option<String>,
}

/// The payload of a mail message: headers, direct body, and nested parts.
pub struct GmailPayload {
    pub headers: Option<Vec<GmailHeader>>,
    pub parts: Option<Vec<GmailPart>>,
    pub body: Option<GmailBody>,
    pub mime_type: Option<String>,
}

/// One message header: a name and a value.
pub struct GmailHeader {
    pub name: String,
    pub value: String,
}

/// One MIME part of a message; parts nest.
pub struct GmailPart {
    pub part_id: Option<String>,
    pub mime_type: Option<String>,
    pub filename: Option<String>,
    pub headers: Option<Vec<GmailHeader>>,
    pub body: Option<GmailBody>,
    pub parts: Option<Vec<GmailPart>>,
}

/// The body of a message or part: its size and base64url-encoded data.
pub struct GmailBody {
    pub size: Option<i64>,
    pub data: Option<String>,
    pub attachment_id: Option<String>,
}

/// One page of a message listing.
pub struct GmailMessageListResponse {
    pub messages: Option<Vec<GmailMessageId>>,
    pub next_page_token: Option<String>,
    pub result_size_estimate: Option<i32>,
}

/// A message's id and thread id, as listed.
pub struct GmailMessageId {
    pub id: String,
    pub thread_id: String,
}

/// The mail API's label listing.
pub struct GmailLabelListResponse {
    pub labels: Vec<crate::models::GmailLabel>,
}

/// A cached access token and the moment, in milliseconds of some fixed
/// clock, at which it expires.
pub struct TokenCache {
    access_token: String,
    expires_at_millis: u64,
}

impl TokenCache {
    /// The cached token, as the contracts see it.
    pub closed spec fn spec_access_token(&self) -> Seq<char> {
        self.access_token@
    }

    /// The expiry moment, as the contracts see it.
    pub closed spec fn spec_expires_at_millis(&self) -> u64 {
        self.expires_at_millis
    }

    /// Caches a token with its expiry moment.
    pub fn new(access_token: String, expires_at_millis: u64) -> (r: TokenCache)
        ensures
            r.spec_access_token() == access_token@,
            r.spec_expires_at_millis() == expires_at_millis,
    {
        TokenCache { access_token, expires_at_millis }
    }

    /// The cached token.
    pub fn access_token(&self) -> (r: &String)
        ensures
            r@ == self.spec_access_token(),
    {
        &self.access_token
    }

    /// Whether the cached token is still good at the given moment: it must
    /// outlive the moment by more than a minute, so that a request started
    /// now does not carry a token that expires under it.
    pub fn is_fresh(&self, now_millis: u64) -> (r: bool)
        ensures
            r == (self.spec_expires_at_millis() > now_millis + 60000),
    {
        if now_millis > u64::MAX - 60000 {
            false
        } else {
            self.expires_at_millis > now_millis + 60000
        }
    }
}

/// Base64url data turned into standard base64: `-` becomes `+` and `_`
/// becomes `/`, character for character.
pub open spec fn url_to_std(s: Seq<char>) -> Seq<char> {
    s.map_values(
        |c: char|
            if c == '-' {
                '+'
            } else if c == '_' {
                '/'
            } else {
                c
            },
    )
}

/// The text carried by a body's data field: the base64url data decoded and
/// read as UTF-8, or `None` where either step fails or no data is there.
pub open spec fn body_data_text(b: Option<GmailBody>) -> Option<Seq<char>> {
    match b {
        Some(body) => match body.data {
            Some(d) => match crate::encoding::b64_decode_spec(url_to_std(d@)) {
                Some(bytes) => if vstd::utf8::valid_utf8(bytes) {
                    Some(vstd::utf8::decode_utf8(bytes))
                } else {
                    None
                },
                None => None,
            },
            None => None,
        },
        None => None,
    }
}

/// The body text found by walking a list of MIME parts in order: the first
/// plain-text part whose data decodes, else the first nonempty text found by
/// descending into a part with nested parts; empty where nothing matches.
pub open spec fn parts_body_text(parts: Seq<GmailPart>) -> Seq<char>
    decreases parts,
{
    if parts.len() == 0 {
        Seq::empty()
    } else {
        let part = parts[0];
        let direct = if part.mime_type matches Some(m) && m@ == "text/plain"@ {
            body_data_text(part.body)
        } else {
            None
        };
        match direct {
            Some(t) => t,
            None => {
                let nested = match part.parts {
                    Some(np) => if np@.len() > 0 {
                        part_nested_text(part)
                    } else {
                        Seq::empty()
                    },
                    None => Seq::empty(),
                };
                if nested.len() > 0 {
                    nested
                } else {
                    parts_body_text(parts.subrange(1, parts.len() as int))
                }
            },
        }
    }
}

/// The body text found by descending into one part: its own data if that
/// decodes, else a walk of its nested parts.
pub open spec fn part_nested_text(part: GmailPart) -> Seq<char>
    decreases part,
{
    match body_data_text(part.body) {
        Some(t) => t,
        None => match part.parts {
            Some(np) => parts_body_text(np@),
            None => Seq::empty(),
        },
    }
}

/// The body text of a whole payload: its own data if that decodes, else a
/// walk of its parts.
pub open spec fn payload_body_text(payload: GmailPayload) -> Seq<char> {
    match body_data_text(payload.body) {
        Some(t) => t,
        None => match payload.parts {
            Some(parts) => parts_body_text(parts@),
            None => Seq::empty(),
        },
    }
}

/// The value of the last header with the given name, or empty where none
/// carries it.
pub open spec fn last_header_value(headers: Seq<GmailHeader>, name: Seq<char>) -> Seq<char>
    decreases headers.len(),
{
    if headers.len() == 0 {
        Seq::empty()
    } else if headers.last().name@ == name {
        headers.last().value@
    } else {
        last_header_value(headers.drop_last(), name)
    }
}

/// The headers of a message, or empty where it carries none.
pub open spec fn headers_of(message: GmailMessage) -> Seq<GmailHeader> {
    match message.payload {
        Some(p) => match p.headers {
            Some(h) => h@,
            None => Seq::empty(),
        },
        None => Seq::empty(),
    }
}

/// The body text of a message, or empty where it carries no payload.
pub open spec fn message_body_of(message: GmailMessage) -> Seq<char> {
    match message.payload {
        Some(p) => payload_body_text(p),
        None => Seq::empty(),
    }
}

/// The position of the first occurrence of `c` in the text, if any.
pub open spec fn find_first(s: Seq<char>, c: char) -> Option<int>
    decreases s.len(),
{
    if s.len() == 0 {
        None
    } else if s[0] == c {
        Some(0int)
    } else {
        match find_first(s.drop_first(), c) {
            Some(i) => Some(i + 1),
            None => None,
        }
    }
}

/// `find_first` finds exactly the first occurrence.
proof fn lemma_find_first_at(s: Seq<char>, c: char, i: int)
    requires
        0 <= i < s.len(),
        s[i] == c,
        forall|j: int| 0 <= j < i ==> s[j] != c,
    ensures
        find_first(s, c) == Some(i),
    decreases i,
{
    if i > 0 {
        lemma_find_first_at(s.drop_first(), c, i - 1);
    }
}

/// Where `c` never occurs, `find_first` reports nothing.
proof fn lemma_find_first_absent(s: Seq<char>, c: char)
    requires
        forall|j: int| 0 <= j < s.len() ==> s[j] != c,
    ensures
        find_first(s, c) is None,
    decreases s.len(),
{
    if s.len() > 0 {
        lemma_find_first_absent(s.drop_first(), c);
    }
}

/// The mailbox address inside the first angle-bracket pair of a header
/// value, or the whole value where no such pair exists.
pub open spec fn email_address_spec(v: Seq<char>) -> Seq<char> {
    match (find_first(v, '<'), find_first(v, '>')) {
        (Some(a), Some(b)) => if a < b {
            v.subrange(a + 1, b)
        } else {
            v
        },
        _ => v,
    }
}

/// The display name before the first angle bracket of a header value,
/// trimmed, with one pair of surrounding double quotes removed; empty where
/// no angle bracket follows a name.
pub open spec fn sender_name_spec(v: Seq<char>) -> Seq<char> {
    match find_first(v, '<') {
        Some(a) => if a > 0 {
            let name = trim_spec(v.subrange(0, a));
            if name.len() >= 2 && name[0] == '"' && name[name.len() - 1] == '"' {
                name.subrange(1, name.len() - 1)
            } else {
                name
            }
        } else {
            Seq::empty()
        },
        None => Seq::empty(),
    }
}

/// Turns base64url data into standard base64: `-` becomes `+` and `_`
/// becomes `/`.
fn map_url_chars(s: &str) -> (r: String)
    ensures
        r@ == url_to_std(s@),
{
    let n = s.unicode_len();
    let mut out = String::new();
    let mut i: usize = 0;
    while i < n
        invariant
            n == s@.len(),
            i <= n,
            out@.len() == i,
            forall|j: int|
                0 <= j < i ==> out@[j] == (if s@[j] == '-' {
                    '+'
                } else if s@[j] == '_' {
                    '/'
                } else {
                    s@[j]
                }),
        decreases n - i,
    {
        let c = s.get_char(i);
        let mapped = if c == '-' {
            '+'
        } else if c == '_' {
            '/'
        } else {
            c
        };
        crate::strutil::string_push_char(&mut out, mapped);
        i = i + 1;
    }
    proof {
        assert(out@ =~= url_to_std(s@));
    }
    out
}

/// The text carried by a body's data field, if its base64url data decodes
/// and reads as UTF-8.
fn body_data_exec(b: &Option<GmailBody>) -> (r: Option<String>)
    ensures
        match r {
            Some(t) => body_data_text(*b) == Some(t@),
            None => body_data_text(*b) is None,
        },
{
    match b {
        Some(body) => match &body.data {
            Some(d) => {
                let std_text = map_url_chars(d.as_str());
                match crate::encoding::b64_decode(std_text.as_str()) {
                    Some(bytes) => crate::encoding::string_from_utf8(bytes),
                    None => None,
                }
            },
            None => None,
        },
        None => None,
    }
}

/// The body text found by walking these MIME parts in order.
fn extract_parts_body(parts: &Vec<GmailPart>) -> (r: String)
    ensures
        r@ == parts_body_text(parts@),
    decreases parts@,
{
    let n = parts.len();
    let mut i: usize = 0;
    proof {
        assert(parts@.subrange(0, n as int) =~= parts@);
    }
    while i < n
        invariant
            n == parts@.len(),
            i <= n,
            parts_body_text(parts@) == parts_body_text(parts@.subrange(i as int, n as int)),
        decreases n - i,
    {
        let ghost tail = parts@.subrange(i as int, n as int);
        proof {
            assert(tail[0] == parts@[i as int]);
        }
        let part = &parts[i];
        let is_plain = match &part.mime_type {
            Some(m) => str_eq(m.as_str(), "text/plain"),
            None => false,
        };
        if is_plain {
            match body_data_exec(&part.body) {
                Some(t) => {
                    return t;
                },
                None => {},
            }
        }
        let nested = match &part.parts {
            Some(np) => {
                if np.len() > 0 {
                    proof {
                        assert(decreases_to!(parts@ => parts@[i as int]));
                    }
                    extract_part_nested(part)
                } else {
                    String::new()
                }
            },
            None => String::new(),
        };
        if !nested.as_str().is_empty() {
            proof {
                assert(parts_body_text(tail) == nested@);
            }
            return nested;
        }
        proof {
            assert(tail.subrange(1, tail.len() as int) =~= parts@.subrange(
                i + 1,
                n as int,
            ));
        }
        i = i + 1;
    }
    proof {
        assert(parts@.subrange(n as int, n as int) =~= Seq::<GmailPart>::empty());
    }
    String::new()
}

/// The body text found by descending into one part.
fn extract_part_nested(part: &GmailPart) -> (r: String)
    ensures
        r@ == part_nested_text(*part),
    decreases *part,
{
    match body_data_exec(&part.body) {
        Some(t) => t,
        None => match &part.parts {
            Some(np) => extract_parts_body(np),
            None => String::new(),
        },
    }
}

/// Recursively extracts the body text of a payload: its own data if that
/// decodes, else the first matching text among its parts.
fn extract_message_body(payload: &GmailPayload) -> (r: String)
    ensures
        r@ == payload_body_text(*payload),
{
    match body_data_exec(&payload.body) {
        Some(t) => t,
        None => match &payload.parts {
            Some(parts) => extract_parts_body(parts),
            None => String::new(),
        },
    }
}

/// Parses a fetched message into its display components: subject, sender
/// address, sender name, recipient address, body. For a repeated header the
/// last value wins; a missing header leaves its component empty.
pub fn parse_gmail_message(message: &GmailMessage) -> (r: (String, String, String, String, String))
    ensures
        r.0@ == last_header_value(headers_of(*message), "Subject"@),
        r.1@ == email_address_spec(last_header_value(headers_of(*message), "From"@)),
        r.2@ == sender_name_spec(last_header_value(headers_of(*message), "From"@)),
        r.3@ == email_address_spec(last_header_value(headers_of(*message), "To"@)),
        r.4@ == message_body_of(*message),
{
    let mut subject = String::new();
    let mut from_value = String::new();
    let mut to_value = String::new();
    let mut body = String::new();
    proof {
        assert(Seq::<GmailHeader>::empty().subrange(0, 0) =~= Seq::<GmailHeader>::empty());
        reveal_strlit("Subject");
        reveal_strlit("From");
        reveal_strlit("To");
        assert("Subject"@.len() == 7 && "From"@.len() == 4 && "To"@.len() == 2);
    }
    match &message.payload {
        Some(payload) => {
            match &payload.headers {
                Some(headers) => {
                    let n = headers.len();
                    let mut i: usize = 0;
                    while i < n
                        invariant
                            n == headers@.len(),
                            i <= n,
                            subject@ == last_header_value(
                                headers@.subrange(0, i as int),
                                "Subject"@,
                            ),
                            from_value@ == last_header_value(
                                headers@.subrange(0, i as int),
                                "From"@,
                            ),
                            to_value@ == last_header_value(headers@.subrange(0, i as int), "To"@),
                        decreases n - i,
                    {
                        let ghost done = headers@.subrange(0, i + 1);
                        proof {
                            reveal_strlit("Subject");
                            reveal_strlit("From");
                            reveal_strlit("To");
                            assert("Subject"@.len() == 7 && "From"@.len() == 4 && "To"@.len()
                                == 2);
                            assert(done.drop_last() =~= headers@.subrange(0, i as int));
                            assert(done.last() == headers@[i as int]);
                        }
                        let header = &headers[i];
                        if str_eq(header.name.as_str(), "Subject") {
                            subject = header.value.clone();
                        } else if str_eq(header.name.as_str(), "From") {
                            from_value = header.value.clone();
                        } else if str_eq(header.name.as_str(), "To") {
                            to_value = header.value.clone();
                        }
                        i = i + 1;
                    }
                    proof {
                        assert(headers@.subrange(0, n as int) =~= headers@);
                    }
                },
                None => {},
            }
            body = extract_message_body(payload);
        },
        None => {},
    }
    let sender = extract_email_address(from_value.as_str());
    let sender_name = extract_sender_name(from_value.as_str());
    let recipient = extract_email_address(to_value.as_str());
    (subject, sender, sender_name, recipient, body)
}

/// Extracts the mailbox address from a header value such as
/// `Jo Doe <jo@example.com>`; a value without an angle-bracket pair is
/// returned whole.
pub fn extract_email_address(header_value: &str) -> (r: String)
    ensures
        r@ == email_address_spec(header_value@),
{
    let a = find_char(header_value, '<');
    let b = find_char(header_value, '>');
    proof {
        match a {
            Some(i) => lemma_find_first_at(header_value@, '<', i as int),
            None => lemma_find_first_absent(header_value@, '<'),
        }
        match b {
            Some(i) => lemma_find_first_at(header_value@, '>', i as int),
            None => lemma_find_first_absent(header_value@, '>'),
        }
    }
    match (a, b) {
        (Some(start), Some(end)) => {
            if start < end {
                let sub = header_value.substring_char(start + 1, end);
                String::from_str(sub)
            } else {
                header_value.to_owned()
            }
        },
        _ => header_value.to_owned(),
    }
}

/// Extracts the display name from a header value such as
/// `"Jo Doe" <jo@example.com>`: the trimmed text before the first angle
/// bracket, unquoted; empty where the value holds no name.
pub fn extract_sender_name(header_value: &str) -> (r: String)
    ensures
        r@ == sender_name_spec(header_value@),
{
    let a = find_char(header_value, '<');
    proof {
        match a {
            Some(i) => lemma_find_first_at(header_value@, '<', i as int),
            None => lemma_find_first_absent(header_value@, '<'),
        }
    }
    match a {
        Some(start) => {
            if start > 0 {
                let before = header_value.substring_char(0, start);
                let name = trim_str(before);
                let n = name.as_str().unicode_len();
                if n >= 2 && name.as_str().get_char(0) == '"' && name.as_str().get_char(n - 1)
                    == '"' {
                    let inner = name.as_str().substring_char(1, n - 1);
                    String::from_str(inner)
                } else {
                    name
                }
            } else {
                String::new()
            }
        },
        None => String::new(),
    }
}

/// Turns a send response and what was sent into the display components of
/// the sent message: subject, sender address, sender name, recipient
/// address, body. The response itself carries none of these fields, so they
/// come from the inputs.
pub fn process_send_message_response(
    _message: &SendMessageResponse,
    from_email: &str,
    to_email: &str,
    subject: &str,
    body: &str,
) -> (r: (String, String, String, String, String))
    ensures
        r.0@ == subject@,
        r.1@ == from_email@,
        r.2@ == sender_name_spec(from_email@),
        r.3@ == to_email@,
        r.4@ == body@,
{
    (
        subject.to_owned(),
        from_email.to_owned(),
        extract_sender_name(from_email),
        to_email.to_owned(),
        body.to_owned(),
    )
}

} // verus!
