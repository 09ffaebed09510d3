//! The JSON wire format of an encrypted message:
//! `{"ciphertext":"<base64>","encapsulated_key":"<base64>"}`.
//!
//! Serialization always succeeds: it produces the canonical object above,
//! escaping the quote, the backslash and control characters as JSON
//! requires. Deserialization accepts any JSON object that carries the two
//! fields as strings, exactly once each, in any order: string escapes
//! (including `\uXXXX` and surrogate pairs) are decoded, whitespace between
//! tokens is allowed, and members under other names are read past and
//! ignored whatever JSON value they hold. Anything else — a missing or
//! repeated field, a non-string value under a field name, malformed JSON,
//! trailing text — is a `SerializationError`.

use vstd::prelude::*;
use vstd::utf8::char_u32_cast;

use crate::encryption::EncryptedMessage;
use crate::errors::CryptoError;
use crate::strutil::{char_from_u32, str_eq, string_push_char};

verus! {

/// JSON insignificant whitespace.
pub open spec fn json_ws(c: char) -> bool {
    c == ' ' || c == '\t' || c == '\n' || c == '\r'
}

/// A character that may stand unescaped in a JSON string: not the quote, not
/// the backslash, not a control character.
pub open spec fn json_safe_char(c: char) -> bool {
    c != '"' && c != '\\' && (c as u32) >= 0x20
}

/// A decimal digit.
pub open spec fn digit_char(c: char) -> bool {
    48 <= (c as u32) && (c as u32) <= 57
}

/// The value of a hexadecimal digit, either case.
pub open spec fn hex_digit_val(c: char) -> Option<int> {
    let u = c as u32;
    if 48 <= u && u <= 57 {
        Some((u - 48) as int)
    } else if 97 <= u && u <= 102 {
        Some((u - 87) as int)
    } else if 65 <= u && u <= 70 {
        Some((u - 55) as int)
    } else {
        None
    }
}

/// The lowercase hexadecimal digit for a value below sixteen.
pub open spec fn hex_char_of(d: int) -> char {
    if d == 0 {
        '0'
    } else if d == 1 {
        '1'
    } else if d == 2 {
        '2'
    } else if d == 3 {
        '3'
    } else if d == 4 {
        '4'
    } else if d == 5 {
        '5'
    } else if d == 6 {
        '6'
    } else if d == 7 {
        '7'
    } else if d == 8 {
        '8'
    } else if d == 9 {
        '9'
    } else if d == 10 {
        'a'
    } else if d == 11 {
        'b'
    } else if d == 12 {
        'c'
    } else if d == 13 {
        'd'
    } else if d == 14 {
        'e'
    } else {
        'f'
    }
}

/// The JSON escape of one character: the quote, the backslash and the named
/// control characters get their two-character escapes, other control
/// characters the `\u00..` form, everything else stands as it is.
pub open spec fn json_escape_char(c: char) -> Seq<char> {
    let u = c as u32;
    if c == '"' {
        seq!['\\', '"']
    } else if c == '\\' {
        seq!['\\', '\\']
    } else if u < 0x20 {
        if u == 0x8 {
            seq!['\\', 'b']
        } else if u == 0x9 {
            seq!['\\', 't']
        } else if u == 0xA {
            seq!['\\', 'n']
        } else if u == 0xC {
            seq!['\\', 'f']
        } else if u == 0xD {
            seq!['\\', 'r']
        } else {
            seq!['\\', 'u', '0', '0', hex_char_of(u as int / 16), hex_char_of(u as int % 16)]
        }
    } else {
        seq![c]
    }
}

/// The JSON escape of a whole text.
pub open spec fn json_escape(s: Seq<char>) -> Seq<char>
    decreases s.len(),
{
    if s.len() == 0 {
        Seq::empty()
    } else {
        json_escape_char(s[0]) + json_escape(s.drop_first())
    }
}

/// The canonical wire text for the given ciphertext and encapsulated key.
pub open spec fn serialize_spec(ciphertext: Seq<char>, encapsulated_key: Seq<char>) -> Seq<char> {
    "{\"ciphertext\":\""@ + json_escape(ciphertext) + "\",\"encapsulated_key\":\""@ + json_escape(
        encapsulated_key,
    ) + "\"}"@
}

/// The first position at or after `i` that does not hold JSON whitespace.
pub open spec fn skip_ws(s: Seq<char>, i: int) -> int
    recommends
        0 <= i <= s.len(),
    decreases s.len() - i,
{
    if 0 <= i < s.len() && json_ws(s[i]) {
        skip_ws(s, i + 1)
    } else {
        i
    }
}

/// The first position at or after `i` that does not hold a decimal digit.
pub open spec fn skip_digits(s: Seq<char>, i: int) -> int
    recommends
        0 <= i <= s.len(),
    decreases s.len() - i,
{
    if 0 <= i < s.len() && digit_char(s[i]) {
        skip_digits(s, i + 1)
    } else {
        i
    }
}

/// The value of the four hexadecimal digits starting at `i`, if they stand
/// there.
pub open spec fn parse_hex4(s: Seq<char>, i: int) -> Option<int> {
    if 0 <= i && i + 4 <= s.len() {
        match (hex_digit_val(s[i]), hex_digit_val(s[i + 1]), hex_digit_val(s[i + 2]), hex_digit_val(
            s[i + 3],
        )) {
            (Some(a), Some(b), Some(c), Some(d)) => Some(a * 4096 + b * 256 + c * 16 + d),
            _ => None,
        }
    } else {
        None
    }
}

/// The character with the given scalar value.
pub open spec fn decoded_scalar(v: int) -> char
    recommends
        0 <= v < 0xD800 || (0xE000 <= v && v <= 0x10FFFF),
{
    (v as u32) as char
}

/// The character a JSON escape sequence denotes, and the position after it;
/// `i` stands just after the backslash. A `\u` escape in the surrogate range
/// must be a high surrogate followed by a `\u` low surrogate, decoded as one
/// supplementary character.
pub open spec fn parse_escape(s: Seq<char>, i: int) -> Option<(char, int)> {
    if !(0 <= i && i < s.len()) {
        None
    } else if s[i] == '"' {
        Some(('"', i + 1))
    } else if s[i] == '\\' {
        Some(('\\', i + 1))
    } else if s[i] == '/' {
        Some(('/', i + 1))
    } else if s[i] == 'b' {
        Some(('\u{8}', i + 1))
    } else if s[i] == 'f' {
        Some(('\u{C}', i + 1))
    } else if s[i] == 'n' {
        Some(('\n', i + 1))
    } else if s[i] == 'r' {
        Some(('\r', i + 1))
    } else if s[i] == 't' {
        Some(('\t', i + 1))
    } else if s[i] == 'u' {
        match parse_hex4(s, i + 1) {
            Some(u) => if u < 0xD800 || u > 0xDFFF {
                Some((decoded_scalar(u), i + 5))
            } else if u <= 0xDBFF {
                if i + 7 <= s.len() && s[i + 5] == '\\' && s[i + 6] == 'u' {
                    match parse_hex4(s, i + 7) {
                        Some(l) => if 0xDC00 <= l && l <= 0xDFFF {
                            Some(
                                (
                                    decoded_scalar(0x10000 + (u - 0xD800) * 0x400 + (l - 0xDC00)),
                                    i + 11,
                                ),
                            )
                        } else {
                            None
                        },
                        None => None,
                    }
                } else {
                    None
                }
            } else {
                None
            },
            None => None,
        }
    } else {
        None
    }
}

/// The decoded content and the position after a JSON string whose content
/// starts at `i`, or `None` where a control character, a bad escape or the
/// end of the text intervenes.
pub open spec fn parse_string_body(s: Seq<char>, i: int) -> Option<(Seq<char>, int)>
    decreases s.len() - i,
{
    if !(0 <= i && i < s.len()) {
        None
    } else if s[i] == '"' {
        Some((Seq::empty(), i + 1))
    } else if s[i] == '\\' {
        match parse_escape(s, i + 1) {
            Some((c, j)) => if i + 1 < j && j <= s.len() {
                match parse_string_body(s, j) {
                    Some((rest, end)) => Some((seq![c] + rest, end)),
                    None => None,
                }
            } else {
                None
            },
            None => None,
        }
    } else if json_safe_char(s[i]) {
        match parse_string_body(s, i + 1) {
            Some((rest, end)) => Some((seq![s[i]] + rest, end)),
            None => None,
        }
    } else {
        None
    }
}

/// The decoded content and the position after a JSON string starting with
/// the quote at `i`.
pub open spec fn parse_string_at(s: Seq<char>, i: int) -> Option<(Seq<char>, int)> {
    if 0 <= i && i < s.len() && s[i] == '"' {
        parse_string_body(s, i + 1)
    } else {
        None
    }
}

/// The position after a JSON number starting at `i`: an optional minus, an
/// integer part without leading zeros, an optional fraction, an optional
/// exponent.
pub open spec fn skip_number(s: Seq<char>, i: int) -> Option<int> {
    let j = if 0 <= i && i < s.len() && s[i] == '-' {
        i + 1
    } else {
        i
    };
    if !(0 <= j && j < s.len() && digit_char(s[j])) {
        None
    } else {
        let j2 = if s[j] == '0' {
            j + 1
        } else {
            skip_digits(s, j)
        };
        let j3 = if 0 <= j2 && j2 < s.len() && s[j2] == '.' {
            if j2 + 1 < s.len() && digit_char(s[j2 + 1]) {
                skip_digits(s, j2 + 1)
            } else {
                -1
            }
        } else {
            j2
        };
        if j3 < 0 {
            None
        } else {
            let j4 = if j3 < s.len() && (s[j3] == 'e' || s[j3] == 'E') {
                let j5 = if j3 + 1 < s.len() && (s[j3 + 1] == '+' || s[j3 + 1] == '-') {
                    j3 + 2
                } else {
                    j3 + 1
                };
                if j5 < s.len() && digit_char(s[j5]) {
                    skip_digits(s, j5)
                } else {
                    -1
                }
            } else {
                j3
            };
            if j4 < 0 {
                None
            } else {
                Some(j4)
            }
        }
    }
}

/// The position after one JSON value starting at `i`: a string, an object,
/// an array, a number, or one of the three literal words.
pub open spec fn skip_value(s: Seq<char>, i: int) -> Option<int>
    decreases s.len() - i, 0int,
{
    if !(0 <= i && i < s.len()) {
        None
    } else if s[i] == '"' {
        match parse_string_at(s, i) {
            Some((_content, j)) => Some(j),
            None => None,
        }
    } else if s[i] == '{' {
        let j = skip_ws(s, i + 1);
        if !(i < j && j <= s.len()) {
            None
        } else if j < s.len() && s[j] == '}' {
            Some(j + 1)
        } else {
            skip_member_list(s, j)
        }
    } else if s[i] == '[' {
        let j = skip_ws(s, i + 1);
        if !(i < j && j <= s.len()) {
            None
        } else if j < s.len() && s[j] == ']' {
            Some(j + 1)
        } else {
            skip_element_list(s, j)
        }
    } else if s[i] == 't' {
        if i + 4 <= s.len() && s[i + 1] == 'r' && s[i + 2] == 'u' && s[i + 3] == 'e' {
            Some(i + 4)
        } else {
            None
        }
    } else if s[i] == 'f' {
        if i + 5 <= s.len() && s[i + 1] == 'a' && s[i + 2] == 'l' && s[i + 3] == 's' && s[i + 4]
            == 'e' {
            Some(i + 5)
        } else {
            None
        }
    } else if s[i] == 'n' {
        if i + 4 <= s.len() && s[i + 1] == 'u' && s[i + 2] == 'l' && s[i + 3] == 'l' {
            Some(i + 4)
        } else {
            None
        }
    } else if s[i] == '-' || digit_char(s[i]) {
        skip_number(s, i)
    } else {
        None
    }
}

/// The position after the members of a JSON object being skipped, starting
/// at a key; a member is required here, so no trailing comma passes.
pub open spec fn skip_member_list(s: Seq<char>, i: int) -> Option<int>
    decreases s.len() - i, 1int,
{
    match parse_string_at(s, i) {
        None => None,
        Some((_key, j1)) => if !(i < j1 && j1 <= s.len()) {
            None
        } else {
            let j2 = skip_ws(s, j1);
            if !(j2 < s.len() && s[j2] == ':') {
                None
            } else {
                let j3 = skip_ws(s, j2 + 1);
                if !(i < j3 && j3 <= s.len()) {
                    None
                } else {
                    match skip_value(s, j3) {
                        None => None,
                        Some(j4) => if !(j3 < j4 && j4 <= s.len()) {
                            None
                        } else {
                            let j5 = skip_ws(s, j4);
                            if j5 < s.len() && s[j5] == ',' {
                                let j6 = skip_ws(s, j5 + 1);
                                if i < j6 && j6 <= s.len() {
                                    skip_member_list(s, j6)
                                } else {
                                    None
                                }
                            } else if j5 < s.len() && s[j5] == '}' {
                                Some(j5 + 1)
                            } else {
                                None
                            }
                        },
                    }
                }
            }
        },
    }
}

/// The position after the elements of a JSON array being skipped, starting
/// at a value; a value is required here, so no trailing comma passes.
pub open spec fn skip_element_list(s: Seq<char>, i: int) -> Option<int>
    decreases s.len() - i, 1int,
{
    match skip_value(s, i) {
        None => None,
        Some(j) => if !(i < j && j <= s.len()) {
            None
        } else {
            let j2 = skip_ws(s, j);
            if j2 < s.len() && s[j2] == ',' {
                let j3 = skip_ws(s, j2 + 1);
                if i < j3 && j3 <= s.len() {
                    skip_element_list(s, j3)
                } else {
                    None
                }
            } else if j2 < s.len() && s[j2] == ']' {
                Some(j2 + 1)
            } else {
                None
            }
        },
    }
}

/// One member's effect: a field name takes a string value and may appear
/// only once; any other member is read past, its value ignored.
pub open spec fn parse_member_value(
    s: Seq<char>,
    i: int,
    key: Seq<char>,
    cv: Option<Seq<char>>,
    kv: Option<Seq<char>>,
) -> Option<(Option<Seq<char>>, Option<Seq<char>>, int)> {
    if key == "ciphertext"@ {
        if cv is Some {
            None
        } else {
            match parse_string_at(s, i) {
                Some((v, j)) => Some((Some(v), kv, j)),
                None => None,
            }
        }
    } else if key == "encapsulated_key"@ {
        if kv is Some {
            None
        } else {
            match parse_string_at(s, i) {
                Some((v, j)) => Some((cv, Some(v), j)),
                None => None,
            }
        }
    } else {
        match skip_value(s, i) {
            Some(j) => Some((cv, kv, j)),
            None => None,
        }
    }
}

/// Walks the members of the wire object from a key at `i`, carrying the
/// field values seen so far; at the closing brace both fields must have
/// appeared.
pub open spec fn parse_members(
    s: Seq<char>,
    i: int,
    cv: Option<Seq<char>>,
    kv: Option<Seq<char>>,
) -> Option<(Seq<char>, Seq<char>, int)>
    decreases s.len() - i,
{
    match parse_string_at(s, i) {
        None => None,
        Some((key, j1)) => if !(i < j1 && j1 <= s.len()) {
            None
        } else {
            let j2 = skip_ws(s, j1);
            if !(j2 < s.len() && s[j2] == ':') {
                None
            } else {
                let j3 = skip_ws(s, j2 + 1);
                if !(i < j3 && j3 <= s.len()) {
                    None
                } else {
                    match parse_member_value(s, j3, key, cv, kv) {
                        None => None,
                        Some((cv2, kv2, j4)) => if !(i < j4 && j4 <= s.len()) {
                            None
                        } else {
                            let j5 = skip_ws(s, j4);
                            if j5 < s.len() && s[j5] == ',' {
                                let j6 = skip_ws(s, j5 + 1);
                                if i < j6 && j6 <= s.len() {
                                    parse_members(s, j6, cv2, kv2)
                                } else {
                                    None
                                }
                            } else if j5 < s.len() && s[j5] == '}' {
                                match (cv2, kv2) {
                                    (Some(c), Some(k)) => Some((c, k, j5 + 1)),
                                    _ => None,
                                }
                            } else {
                                None
                            }
                        },
                    }
                }
            }
        },
    }
}

/// The two fields of the wire form — the ciphertext and the encapsulated
/// key — or `None` where the text is not a JSON object carrying each of the
/// two exactly once as a string, with nothing but whitespace around it.
pub open spec fn parse_wire(s: Seq<char>) -> Option<(Seq<char>, Seq<char>)> {
    let i0 = skip_ws(s, 0);
    if !(i0 < s.len() && s[i0] == '{') {
        None
    } else {
        let i1 = skip_ws(s, i0 + 1);
        if !(i0 < i1 && i1 <= s.len()) {
            None
        } else {
            match parse_members(s, i1, None, None) {
                Some((c, k, j)) => if skip_ws(s, j) == s.len() {
                    Some((c, k))
                } else {
                    None
                },
                None => None,
            }
        }
    }
}


/// The lowercase hexadecimal digit for a value below sixteen.
fn hex_char_exec(d: u32) -> (r: char)
    requires
        d < 16,
    ensures
        r == hex_char_of(d as int),
{
    if d == 0 {
        '0'
    } else if d == 1 {
        '1'
    } else if d == 2 {
        '2'
    } else if d == 3 {
        '3'
    } else if d == 4 {
        '4'
    } else if d == 5 {
        '5'
    } else if d == 6 {
        '6'
    } else if d == 7 {
        '7'
    } else if d == 8 {
        '8'
    } else if d == 9 {
        '9'
    } else if d == 10 {
        'a'
    } else if d == 11 {
        'b'
    } else if d == 12 {
        'c'
    } else if d == 13 {
        'd'
    } else if d == 14 {
        'e'
    } else {
        'f'
    }
}

/// Appends the JSON escape of one character.
fn push_escaped_char(out: &mut String, c: char)
    ensures
        final(out)@ == old(out)@ + json_escape_char(c),
{
    let u = c as u32;
    if c == '"' {
        string_push_char(out, '\\');
        string_push_char(out, '"');
        proof {
            assert(out@ =~= old(out)@ + json_escape_char(c));
        }
    } else if c == '\\' {
        string_push_char(out, '\\');
        string_push_char(out, '\\');
        proof {
            assert(out@ =~= old(out)@ + json_escape_char(c));
        }
    } else if u < 0x20 {
        if u == 0x8 {
            string_push_char(out, '\\');
            string_push_char(out, 'b');
        } else if u == 0x9 {
            string_push_char(out, '\\');
            string_push_char(out, 't');
        } else if u == 0xA {
            string_push_char(out, '\\');
            string_push_char(out, 'n');
        } else if u == 0xC {
            string_push_char(out, '\\');
            string_push_char(out, 'f');
        } else if u == 0xD {
            string_push_char(out, '\\');
            string_push_char(out, 'r');
        } else {
            string_push_char(out, '\\');
            string_push_char(out, 'u');
            string_push_char(out, '0');
            string_push_char(out, '0');
            string_push_char(out, hex_char_exec(u / 16));
            string_push_char(out, hex_char_exec(u % 16));
        }
        proof {
            assert(out@ =~= old(out)@ + json_escape_char(c));
        }
    } else {
        string_push_char(out, c);
        proof {
            assert(out@ =~= old(out)@ + json_escape_char(c));
        }
    }
}

/// Appends the JSON escape of a whole text.
fn append_escaped(out: &mut String, s: &str)
    ensures
        final(out)@ == old(out)@ + json_escape(s@),
{
    let n = s.unicode_len();
    let ghost base = out@;
    proof {
        assert(s@.skip(0) =~= s@);
    }
    let mut i: usize = 0;
    while i < n
        invariant
            n == s@.len(),
            i <= n,
            out@ + json_escape(s@.skip(i as int)) == base + json_escape(s@),
        decreases n - i,
    {
        let ghost t = s@.skip(i as int);
        let c = s.get_char(i);
        proof {
            assert(t[0] == c);
            assert(t.drop_first() =~= s@.skip(i + 1));
            assert(json_escape(t) == json_escape_char(c) + json_escape(s@.skip(i + 1)));
        }
        push_escaped_char(out, c);
        proof {
            assert(out@ + json_escape(s@.skip(i + 1)) =~= base + json_escape(s@));
        }
        i = i + 1;
    }
    proof {
        assert(s@.skip(n as int) =~= Seq::<char>::empty());
        assert(out@ + json_escape(s@.skip(n as int)) =~= out@);
    }
}

/// Serializes an encrypted message for transmission: the canonical JSON
/// object, field text escaped as JSON requires. Serialization itself never
/// fails; the `Result` is the shape of the wire interface.
pub fn serialize_encrypted_message(encrypted_msg: &EncryptedMessage) -> (r: Result<
    String,
    CryptoError,
>)
    ensures
        r matches Ok(s) && s@ == serialize_spec(
            encrypted_msg.ciphertext@,
            encrypted_msg.encapsulated_key@,
        ),
{
    let mut out = String::from_str("{\"ciphertext\":\"");
    append_escaped(&mut out, encrypted_msg.ciphertext.as_str());
    out.append("\",\"encapsulated_key\":\"");
    append_escaped(&mut out, encrypted_msg.encapsulated_key.as_str());
    out.append("\"}");
    Ok(out)
}

/// Whether the character at `i` exists and is JSON whitespace.
fn at_json_ws(s: &str, i: usize, n: usize) -> (r: bool)
    requires
        n == s@.len(),
    ensures
        r == (i < n && json_ws(s@[i as int])),
{
    if i >= n {
        return false;
    }
    let c = s.get_char(i);
    c == ' ' || c == '\t' || c == '\n' || c == '\r'
}

/// Whether the character at `i` exists and is a decimal digit.
fn at_digit(s: &str, i: usize, n: usize) -> (r: bool)
    requires
        n == s@.len(),
    ensures
        r == (i < n && digit_char(s@[i as int])),
{
    if i >= n {
        return false;
    }
    let c = s.get_char(i);
    let u = c as u32;
    48 <= u && u <= 57
}

/// The first position at or after `start` that does not hold JSON
/// whitespace.
fn skip_ws_exec(s: &str, start: usize, n: usize) -> (r: usize)
    requires
        n == s@.len(),
        start <= n,
    ensures
        r == skip_ws(s@, start as int),
        start <= r <= n,
{
    let mut i = start;
    while at_json_ws(s, i, n)
        invariant
            n == s@.len(),
            start <= i <= n,
            skip_ws(s@, start as int) == skip_ws(s@, i as int),
        decreases n - i,
    {
        i = i + 1;
    }
    i
}

/// The first position at or after `start` that does not hold a decimal
/// digit.
fn skip_digits_exec(s: &str, start: usize, n: usize) -> (r: usize)
    requires
        n == s@.len(),
        start <= n,
    ensures
        r == skip_digits(s@, start as int),
        start <= r <= n,
{
    let mut i = start;
    while at_digit(s, i, n)
        invariant
            n == s@.len(),
            start <= i <= n,
            skip_digits(s@, start as int) == skip_digits(s@, i as int),
        decreases n - i,
    {
        i = i + 1;
    }
    i
}

/// The value of one hexadecimal digit, either case.
fn hex_digit_exec(c: char) -> (r: Option<u32>)
    ensures
        match r {
            Some(v) => hex_digit_val(c) == Some(v as int) && v < 16,
            None => hex_digit_val(c) is None,
        },
{
    let u = c as u32;
    if 48 <= u && u <= 57 {
        Some(u - 48)
    } else if 97 <= u && u <= 102 {
        Some(u - 87)
    } else if 65 <= u && u <= 70 {
        Some(u - 55)
    } else {
        None
    }
}

/// The value of the four hexadecimal digits starting at `i`, if they stand
/// there.
fn parse_hex4_exec(s: &str, i: usize, n: usize) -> (r: Option<u32>)
    requires
        n == s@.len(),
        i <= n,
    ensures
        match r {
            Some(v) => parse_hex4(s@, i as int) == Some(v as int) && v <= 0xFFFF,
            None => parse_hex4(s@, i as int) is None,
        },
{
    if n - i < 4 {
        return None;
    }
    let a = match hex_digit_exec(s.get_char(i)) {
        Some(v) => v,
        None => {
            return None;
        },
    };
    let b = match hex_digit_exec(s.get_char(i + 1)) {
        Some(v) => v,
        None => {
            return None;
        },
    };
    let c = match hex_digit_exec(s.get_char(i + 2)) {
        Some(v) => v,
        None => {
            return None;
        },
    };
    let d = match hex_digit_exec(s.get_char(i + 3)) {
        Some(v) => v,
        None => {
            return None;
        },
    };
    Some(a * 4096 + b * 256 + c * 16 + d)
}

/// The character a JSON escape sequence denotes, and the position after it;
/// `start` stands just after the backslash.
fn parse_escape_exec(s: &str, start: usize, n: usize) -> (r: Option<(char, usize)>)
    requires
        n == s@.len(),
        start <= n,
    ensures
        match r {
            Some(p) => parse_escape(s@, start as int) == Some((p.0, p.1 as int)) && start < p.1
                <= n,
            None => parse_escape(s@, start as int) is None,
        },
{
    if start >= n {
        return None;
    }
    let c = s.get_char(start);
    if c == '"' {
        Some(('"', start + 1))
    } else if c == '\\' {
        Some(('\\', start + 1))
    } else if c == '/' {
        Some(('/', start + 1))
    } else if c == 'b' {
        Some(('\u{8}', start + 1))
    } else if c == 'f' {
        Some(('\u{C}', start + 1))
    } else if c == 'n' {
        Some(('\n', start + 1))
    } else if c == 'r' {
        Some(('\r', start + 1))
    } else if c == 't' {
        Some(('\t', start + 1))
    } else if c == 'u' {
        let u = match parse_hex4_exec(s, start + 1, n) {
            Some(v) => v,
            None => {
                return None;
            },
        };
        if u < 0xD800 || u > 0xDFFF {
            Some((char_from_u32(u), start + 5))
        } else if u <= 0xDBFF {
            if n - start >= 7 && s.get_char(start + 5) == '\\' && s.get_char(start + 6) == 'u' {
                let l = match parse_hex4_exec(s, start + 7, n) {
                    Some(v) => v,
                    None => {
                        return None;
                    },
                };
                if 0xDC00 <= l && l <= 0xDFFF {
                    let v = 0x10000 + (u - 0xD800) * 0x400 + (l - 0xDC00);
                    Some((char_from_u32(v), start + 11))
                } else {
                    None
                }
            } else {
                None
            }
        } else {
            None
        }
    } else {
        None
    }
}

/// Whether the character at `j` exists and may stand unescaped inside a JSON
/// string.
fn at_plain_content(s: &str, j: usize, n: usize) -> (r: bool)
    requires
        n == s@.len(),
    ensures
        r == (j < n && s@[j as int] != '"' && s@[j as int] != '\\' && json_safe_char(
            s@[j as int],
        )),
{
    if j >= n {
        return false;
    }
    let c = s.get_char(j);
    c != '"' && c != '\\' && (c as u32) >= 0x20
}

/// The decoded content and the position after a JSON string starting with
/// the quote at `start`.
fn parse_string_exec(s: &str, start: usize, n: usize) -> (r: Option<(String, usize)>)
    requires
        n == s@.len(),
        start <= n,
    ensures
        match r {
            Some(p) => parse_string_at(s@, start as int) == Some((p.0@, p.1 as int)) && start
                < p.1 <= n,
            None => parse_string_at(s@, start as int) is None,
        },
{
    if start >= n || s.get_char(start) != '"' {
        return None;
    }
    match parse_string_tail(s, start + 1, n, String::new()) {
        Some(p) => {
            proof {
                let (rest, end) = parse_string_body(s@, (start + 1) as int)->Some_0;
                assert(Seq::<char>::empty() + rest =~= rest);
            }
            Some(p)
        },
        None => None,
    }
}

/// Continues decoding a JSON string content from `start`, with `prefix`
/// holding what has been decoded so far; the contract carries the
/// continuation equation of `parse_string_body`.
fn parse_string_tail(s: &str, start: usize, n: usize, prefix: String) -> (r: Option<
    (String, usize),
>)
    requires
        n == s@.len(),
        start <= n,
    ensures
        match r {
            Some(p) => (match parse_string_body(s@, start as int) {
                Some((rest, end)) => p.0@ == prefix@ + rest && p.1 == end && start < p.1 <= n,
                None => false,
            }),
            None => parse_string_body(s@, start as int) is None,
        },
    decreases n - start,
{
    let mut out = prefix;
    let mut j = start;
    while at_plain_content(s, j, n)
        invariant
            n == s@.len(),
            start <= j <= n,
            match parse_string_body(s@, j as int) {
                Some((rest, end)) => (match parse_string_body(s@, start as int) {
                    Some((rest0, end0)) => prefix@ + rest0 == out@ + rest && end0 == end,
                    None => false,
                }),
                None => parse_string_body(s@, start as int) is None,
            },
        decreases n - j,
    {
        let c = s.get_char(j);
        string_push_char(&mut out, c);
        proof {
            let ghost stepped = parse_string_body(s@, j + 1);
            match stepped {
                Some((rest, end)) => {
                    assert(parse_string_body(s@, j as int) == Some((seq![c] + rest, end)));
                    assert(out@ + rest =~= (out@.drop_last() + (seq![c] + rest)));
                },
                None => {},
            }
        }
        j = j + 1;
    }
    if j >= n {
        return None;
    }
    let c = s.get_char(j);
    if c == '"' {
        proof {
            assert(out@ + Seq::<char>::empty() =~= out@);
        }
        return Some((out, j + 1));
    }
    if c == '\\' {
        let (d, j2) = match parse_escape_exec(s, j + 1, n) {
            Some(p) => p,
            None => {
                return None;
            },
        };
        string_push_char(&mut out, d);
        match parse_string_tail(s, j2, n, out) {
            Some(p) => Some(p),
            None => None,
        }
    } else {
        None
    }
}


/// The position after a JSON number starting at `start`.
fn skip_number_exec(s: &str, start: usize, n: usize) -> (r: Option<usize>)
    requires
        n == s@.len(),
        start <= n,
    ensures
        match r {
            Some(j) => skip_number(s@, start as int) == Some(j as int) && start < j <= n,
            None => skip_number(s@, start as int) is None,
        },
{
    let j = if start < n && s.get_char(start) == '-' {
        start + 1
    } else {
        start
    };
    if !at_digit(s, j, n) {
        return None;
    }
    proof {
        assert(skip_digits(s@, j as int) == skip_digits(s@, j as int + 1));
    }
    let j2 = if s.get_char(j) == '0' {
        j + 1
    } else {
        skip_digits_exec(s, j + 1, n)
    };
    let j3 = if j2 < n && s.get_char(j2) == '.' {
        if at_digit(s, j2 + 1, n) {
            skip_digits_exec(s, j2 + 1, n)
        } else {
            return None;
        }
    } else {
        j2
    };
    let j4 = if j3 < n && (s.get_char(j3) == 'e' || s.get_char(j3) == 'E') {
        let j5 = if j3 + 1 < n && (s.get_char(j3 + 1) == '+' || s.get_char(j3 + 1) == '-') {
            j3 + 2
        } else {
            j3 + 1
        };
        if j5 < n && at_digit(s, j5, n) {
            skip_digits_exec(s, j5, n)
        } else {
            return None;
        }
    } else {
        j3
    };
    Some(j4)
}

/// The position after one JSON value starting at `start`.
fn skip_value_exec(s: &str, start: usize, n: usize) -> (r: Option<usize>)
    requires
        n == s@.len(),
        start <= n,
    ensures
        match r {
            Some(j) => skip_value(s@, start as int) == Some(j as int) && start < j <= n,
            None => skip_value(s@, start as int) is None,
        },
    decreases n - start, 0int,
{
    if start >= n {
        return None;
    }
    let c = s.get_char(start);
    if c == '"' {
        match parse_string_exec(s, start, n) {
            Some((_content, j)) => Some(j),
            None => None,
        }
    } else if c == '{' {
        let j = skip_ws_exec(s, start + 1, n);
        if j < n && s.get_char(j) == '}' {
            Some(j + 1)
        } else {
            skip_member_list_exec(s, j, n)
        }
    } else if c == '[' {
        let j = skip_ws_exec(s, start + 1, n);
        if j < n && s.get_char(j) == ']' {
            Some(j + 1)
        } else {
            skip_element_list_exec(s, j, n)
        }
    } else if c == 't' {
        if n - start >= 4 && s.get_char(start + 1) == 'r' && s.get_char(start + 2) == 'u'
            && s.get_char(start + 3) == 'e' {
            Some(start + 4)
        } else {
            None
        }
    } else if c == 'f' {
        if n - start >= 5 && s.get_char(start + 1) == 'a' && s.get_char(start + 2) == 'l'
            && s.get_char(start + 3) == 's' && s.get_char(start + 4) == 'e' {
            Some(start + 5)
        } else {
            None
        }
    } else if c == 'n' {
        if n - start >= 4 && s.get_char(start + 1) == 'u' && s.get_char(start + 2) == 'l'
            && s.get_char(start + 3) == 'l' {
            Some(start + 4)
        } else {
            None
        }
    } else {
        let u = c as u32;
        if c == '-' || (48 <= u && u <= 57) {
            skip_number_exec(s, start, n)
        } else {
            None
        }
    }
}

/// The position after the members of a JSON object being skipped.
fn skip_member_list_exec(s: &str, start: usize, n: usize) -> (r: Option<usize>)
    requires
        n == s@.len(),
        start <= n,
    ensures
        match r {
            Some(j) => skip_member_list(s@, start as int) == Some(j as int) && start < j <= n,
            None => skip_member_list(s@, start as int) is None,
        },
    decreases n - start, 1int,
{
    let (_key, j1) = match parse_string_exec(s, start, n) {
        Some(p) => p,
        None => {
            return None;
        },
    };
    let j2 = skip_ws_exec(s, j1, n);
    if j2 >= n || s.get_char(j2) != ':' {
        return None;
    }
    let j3 = skip_ws_exec(s, j2 + 1, n);
    let j4 = match skip_value_exec(s, j3, n) {
        Some(j) => j,
        None => {
            return None;
        },
    };
    let j5 = skip_ws_exec(s, j4, n);
    if j5 < n && s.get_char(j5) == ',' {
        let j6 = skip_ws_exec(s, j5 + 1, n);
        skip_member_list_exec(s, j6, n)
    } else if j5 < n && s.get_char(j5) == '}' {
        Some(j5 + 1)
    } else {
        None
    }
}

/// The position after the elements of a JSON array being skipped.
fn skip_element_list_exec(s: &str, start: usize, n: usize) -> (r: Option<usize>)
    requires
        n == s@.len(),
        start <= n,
    ensures
        match r {
            Some(j) => skip_element_list(s@, start as int) == Some(j as int) && start < j <= n,
            None => skip_element_list(s@, start as int) is None,
        },
    decreases n - start, 1int,
{
    let j = match skip_value_exec(s, start, n) {
        Some(j) => j,
        None => {
            return None;
        },
    };
    let j2 = skip_ws_exec(s, j, n);
    if j2 < n && s.get_char(j2) == ',' {
        let j3 = skip_ws_exec(s, j2 + 1, n);
        skip_element_list_exec(s, j3, n)
    } else if j2 < n && s.get_char(j2) == ']' {
        Some(j2 + 1)
    } else {
        None
    }
}

/// The field texts an optional string holds, as the specification sees them.
pub open spec fn opt_text(o: Option<String>) -> Option<Seq<char>> {
    match o {
        Some(s) => Some(s@),
        None => None,
    }
}

/// Reads one member's value: a field name takes a string value and may
/// appear only once; any other member is read past.
fn consume_member_value(
    s: &str,
    start: usize,
    n: usize,
    key: &String,
    cv: Option<String>,
    kv: Option<String>,
) -> (r: Option<(Option<String>, Option<String>, usize)>)
    requires
        n == s@.len(),
        start <= n,
    ensures
        match r {
            Some(t) => parse_member_value(s@, start as int, key@, opt_text(cv), opt_text(kv))
                == Some((opt_text(t.0), opt_text(t.1), t.2 as int)) && start < t.2 <= n,
            None => parse_member_value(s@, start as int, key@, opt_text(cv), opt_text(kv))
                is None,
        },
{
    proof {
        reveal_strlit("ciphertext");
        reveal_strlit("encapsulated_key");
    }
    if str_eq(key.as_str(), "ciphertext") {
        if cv.is_some() {
            return None;
        }
        match parse_string_exec(s, start, n) {
            Some((v, j)) => Some((Some(v), kv, j)),
            None => None,
        }
    } else if str_eq(key.as_str(), "encapsulated_key") {
        if kv.is_some() {
            return None;
        }
        match parse_string_exec(s, start, n) {
            Some((v, j)) => Some((cv, Some(v), j)),
            None => None,
        }
    } else {
        match skip_value_exec(s, start, n) {
            Some(j) => Some((cv, kv, j)),
            None => None,
        }
    }
}

/// Deserializes an encrypted message from received wire text.
///
/// Succeeds exactly on a JSON object carrying the two fields as strings,
/// once each, in any order — escapes decoded, other members ignored — and
/// fails with `SerializationError` on everything else; no default message is
/// ever substituted.
pub fn deserialize_encrypted_message(data: &str) -> (r: Result<EncryptedMessage, CryptoError>)
    ensures
        match r {
            Ok(em) => parse_wire(data@) == Some((em.ciphertext@, em.encapsulated_key@)),
            Err(e) => parse_wire(data@) is None && e == CryptoError::SerializationError,
        },
{
    let n = data.unicode_len();
    let i0 = skip_ws_exec(data, 0, n);
    if i0 >= n || data.get_char(i0) != '{' {
        return Err(CryptoError::SerializationError);
    }
    let i1 = skip_ws_exec(data, i0 + 1, n);
    let mut cur = i1;
    let mut cv: Option<String> = None;
    let mut kv: Option<String> = None;
    loop
        invariant
            n == data@.len(),
            cur <= n,
            parse_wire(data@) == (match parse_members(data@, cur as int, opt_text(cv), opt_text(kv)) {
                Some((c, k, j)) => if skip_ws(data@, j) == n {
                    Some((c, k))
                } else {
                    None::<(Seq<char>, Seq<char>)>
                },
                None => None::<(Seq<char>, Seq<char>)>,
            }),
        decreases n - cur,
    {
        let (key, j1) = match parse_string_exec(data, cur, n) {
            Some(p) => p,
            None => {
                return Err(CryptoError::SerializationError);
            },
        };
        let j2 = skip_ws_exec(data, j1, n);
        if j2 >= n || data.get_char(j2) != ':' {
            return Err(CryptoError::SerializationError);
        }
        let j3 = skip_ws_exec(data, j2 + 1, n);
        let (cv2, kv2, j4) = match consume_member_value(data, j3, n, &key, cv, kv) {
            Some(t) => t,
            None => {
                return Err(CryptoError::SerializationError);
            },
        };
        let j5 = skip_ws_exec(data, j4, n);
        if j5 < n && data.get_char(j5) == ',' {
            let j6 = skip_ws_exec(data, j5 + 1, n);
            cv = cv2;
            kv = kv2;
            cur = j6;
        } else if j5 < n && data.get_char(j5) == '}' {
            let j7 = skip_ws_exec(data, j5 + 1, n);
            if j7 != n {
                return Err(CryptoError::SerializationError);
            }
            match (cv2, kv2) {
                (Some(c), Some(k)) => {
                    return Ok(EncryptedMessage { ciphertext: c, encapsulated_key: k });
                },
                _ => {
                    return Err(CryptoError::SerializationError);
                },
            }
        } else {
            return Err(CryptoError::SerializationError);
        }
    }
}


/// A hexadecimal digit reads back as its value.
proof fn lemma_hex_digit_inverts(d: int)
    requires
        0 <= d < 16,
    ensures
        hex_digit_val(hex_char_of(d)) == Some(d),
{
}

/// Text free of characters needing escape is its own JSON escape.
proof fn lemma_json_escape_plain(t: Seq<char>)
    requires
        forall|i: int| 0 <= i < t.len() ==> json_safe_char(#[trigger] t[i]),
    ensures
        json_escape(t) == t,
    decreases t.len(),
{
    if t.len() == 0 {
        assert(json_escape(t) =~= t);
    } else {
        assert(json_safe_char(t[0]));
        assert(json_escape_char(t[0]) =~= seq![t[0]]);
        lemma_json_escape_plain(t.drop_first());
        assert(seq![t[0]] + t.drop_first() =~= t);
    }
}

/// A JSON string whose content is the escape of `content`, closed by a
/// quote, decodes back to `content`.
proof fn lemma_parse_escaped(s: Seq<char>, i: int, content: Seq<char>)
    requires
        0 <= i,
        i + json_escape(content).len() + 1 <= s.len(),
        forall|j: int|
            0 <= j < json_escape(content).len() ==> s[i + j] == json_escape(content)[j],
        s[i + json_escape(content).len()] == '"',
    ensures
        parse_string_body(s, i) == Some(
            (content, i + json_escape(content).len() + 1),
        ),
    decreases content.len(),
{
    let esc = json_escape(content);
    if content.len() == 0 {
        assert(esc.len() == 0);
        assert(s[i] == '"');
        assert(content =~= Seq::<char>::empty());
    } else {
        let c0 = content[0];
        let e0 = json_escape_char(c0);
        let rest = content.drop_first();
        let resc = json_escape(rest);
        assert(esc == e0 + resc);
        assert(1 <= e0.len() <= 6);
        assert forall|j: int| 0 <= j < e0.len() implies s[i + j] == e0[j] by {
            assert(esc[j] == e0[j]);
        }
        let i2 = i + e0.len();
        assert forall|j: int| 0 <= j < resc.len() implies s[i2 + j] == resc[j] by {
            assert(esc[e0.len() + j] == resc[j]);
            assert(s[i + (e0.len() + j)] == esc[e0.len() + j]);
        }
        assert(s[i2 + resc.len()] == '"');
        lemma_parse_escaped(s, i2, rest);
        vstd::utf8::char_is_scalar(c0);
        let u = c0 as u32;
        assert(s[i + 0] == e0[0]);
        if c0 == '"' {
            assert(s[i] == '\\' && s[i + 1] == '"');
            assert(parse_escape(s, i + 1) == Some(('"', i + 2)));
        } else if c0 == '\\' {
            assert(s[i] == '\\' && s[i + 1] == '\\');
            assert(parse_escape(s, i + 1) == Some(('\\', i + 2)));
        } else if u < 0x20 {
            if u == 0x8 {
                assert(s[i] == '\\' && s[i + 1] == 'b');
                assert(('\u{8}' as u32) == u);
                char_u32_cast(c0, u);
                char_u32_cast('\u{8}', u);
                assert(parse_escape(s, i + 1) == Some((c0, i + 2)));
            } else if u == 0x9 {
                assert(s[i] == '\\' && s[i + 1] == 't');
                assert(('\t' as u32) == u);
                char_u32_cast(c0, u);
                char_u32_cast('\t', u);
                assert(parse_escape(s, i + 1) == Some((c0, i + 2)));
            } else if u == 0xA {
                assert(s[i] == '\\' && s[i + 1] == 'n');
                assert(('\n' as u32) == u);
                char_u32_cast(c0, u);
                char_u32_cast('\n', u);
                assert(parse_escape(s, i + 1) == Some((c0, i + 2)));
            } else if u == 0xC {
                assert(s[i] == '\\' && s[i + 1] == 'f');
                assert(('\u{C}' as u32) == u);
                char_u32_cast(c0, u);
                char_u32_cast('\u{C}', u);
                assert(parse_escape(s, i + 1) == Some((c0, i + 2)));
            } else if u == 0xD {
                assert(s[i] == '\\' && s[i + 1] == 'r');
                assert(('\r' as u32) == u);
                char_u32_cast(c0, u);
                char_u32_cast('\r', u);
                assert(parse_escape(s, i + 1) == Some((c0, i + 2)));
            } else {
                let hi = u as int / 16;
                let lo = u as int % 16;
                assert(e0 =~= seq!['\\', 'u', '0', '0', hex_char_of(hi), hex_char_of(lo)]);
                assert(s[i] == '\\' && s[i + 1] == 'u');
                assert(s[i + 2] == '0' && s[i + 3] == '0');
                assert(s[i + 4] == hex_char_of(hi) && s[i + 5] == hex_char_of(lo));
                lemma_hex_digit_inverts(hi);
                lemma_hex_digit_inverts(lo);
                assert(hex_digit_val('0') == Some(0int));
                assert(parse_hex4(s, i + 2) == Some(0 * 4096 + 0 * 256 + hi * 16 + lo));
                assert(hi * 16 + lo == u as int);
                assert(u < 0xD800);
                assert(decoded_scalar(u as int) == c0) by {
                    char_u32_cast(c0, u);
                }
                assert(parse_escape(s, i + 1) == Some((c0, i + 6)));
            }
            assert(s[i] == '\\');
        } else {
            // An ordinary character stands as itself.
            assert(e0 =~= seq![c0]);
            assert(s[i] == c0);
            assert(s[i] != '"' && s[i] != '\\' && json_safe_char(s[i]));
        }
        assert(i2 + resc.len() + 1 == i + esc.len() + 1);
        if e0.len() == 1 {
            assert(parse_string_body(s, i) == Some((seq![s[i]] + rest, i2 + resc.len() + 1)));
            assert(seq![s[i]] + rest =~= content);
        } else {
            assert(parse_escape(s, i + 1) == Some((c0, i + e0.len())));
            assert(parse_string_body(s, i) == Some((seq![c0] + rest, i2 + resc.len() + 1)));
            assert(seq![c0] + rest =~= content);
        }
    }
}

/// Law: deserializing a serialized message restores both fields, for every
/// pair of field texts.
#[verifier::rlimit(100)]
#[verifier::spinoff_prover]
pub proof fn lemma_wire_round_trip(c: Seq<char>, k: Seq<char>)
    ensures
        parse_wire(serialize_spec(c, k)) == Some((c, k)),
{
    reveal_strlit("{\"ciphertext\":\"");
    reveal_strlit("\",\"encapsulated_key\":\"");
    reveal_strlit("\"}");
    reveal_strlit("ciphertext");
    reveal_strlit("encapsulated_key");
    let p1 = "{\"ciphertext\":\""@;
    let p2 = "\",\"encapsulated_key\":\""@;
    let p3 = "\"}"@;
    assert(p1.len() == 15);
    assert(p2.len() == 22);
    assert(p3.len() == 2);
    let ec = json_escape(c);
    let ek = json_escape(k);
    let el = ec.len() as int;
    let kl = ek.len() as int;
    let s = serialize_spec(c, k);
    assert(s.len() == 39 + el + kl);
    assert forall|j: int| 0 <= j < 15 implies s[j] == p1[j] by {}
    assert forall|j: int| 0 <= j < el implies s[15 + j] == ec[j] by {}
    assert forall|j: int| 0 <= j < 22 implies s[15 + el + j] == p2[j] by {}
    assert forall|j: int| 0 <= j < kl implies s[37 + el + j] == ek[j] by {}
    assert forall|j: int| 0 <= j < 2 implies s[37 + el + kl + j] == p3[j] by {}

    // The two field names are their own escapes.
    assert forall|j: int| 0 <= j < 10 implies json_safe_char(#[trigger] ("ciphertext"@)[j]) by {}
    lemma_json_escape_plain("ciphertext"@);
    assert forall|j: int|
        0 <= j < 16 implies json_safe_char(#[trigger] ("encapsulated_key"@)[j]) by {}
    lemma_json_escape_plain("encapsulated_key"@);

    // "{", then the first field name.
    assert(skip_ws(s, 0) == 0 && s[0] == '{');
    assert(skip_ws(s, 1) == 1 && s[1] == '"');
    assert forall|j: int|
        0 <= j < 10 implies s[2 + j] == json_escape("ciphertext"@)[j] by {}
    lemma_parse_escaped(s, 2, "ciphertext"@);
    assert(parse_string_at(s, 1) == Some(("ciphertext"@, 13int)));

    // ":", then the first value.
    assert(skip_ws(s, 13) == 13 && s[13] == ':');
    assert(skip_ws(s, 14) == 14 && s[14] == '"');
    assert(s[15 + el] == p2[0] && p2[0] == '"');
    lemma_parse_escaped(s, 15, c);
    assert(parse_string_at(s, 14) == Some((c, 16 + el)));

    // ",", then the second field name.
    assert(skip_ws(s, 16 + el) == 16 + el && s[16 + el] == ',');
    assert(skip_ws(s, 17 + el) == 17 + el && s[17 + el] == '"');
    assert forall|j: int|
        0 <= j < 16 implies s[18 + el + j] == json_escape("encapsulated_key"@)[j] by {
        assert(s[15 + el + (3 + j)] == p2[3 + j]);
    }
    assert(s[18 + el + 16] == p2[19] && p2[19] == '"');
    lemma_parse_escaped(s, 18 + el, "encapsulated_key"@);
    assert(parse_string_at(s, 17 + el) == Some(("encapsulated_key"@, 35 + el)));

    // ":", then the second value.
    assert(skip_ws(s, 35 + el) == 35 + el && s[35 + el] == ':');
    assert(skip_ws(s, 36 + el) == 36 + el && s[36 + el] == '"');
    assert(s[37 + el + kl] == p3[0] && p3[0] == '"');
    lemma_parse_escaped(s, 37 + el, k);
    assert(parse_string_at(s, 36 + el) == Some((k, 38 + el + kl)));

    // "}" and the end of the text.
    assert(skip_ws(s, 38 + el + kl) == 38 + el + kl && s[38 + el + kl] == '}');
    assert(skip_ws(s, 39 + el + kl) == s.len());

    // The member walk reads the first field, then the second.
    assert(("ciphertext"@) != ("encapsulated_key"@));
    assert(parse_member_value(s, 14, "ciphertext"@, None, None) == Some(
        (Some(c), None::<Seq<char>>, 16 + el),
    ));
    assert(parse_member_value(s, 36 + el, "encapsulated_key"@, Some(c), None) == Some(
        (Some(c), Some(k), 38 + el + kl),
    ));
    assert(parse_members(s, 17 + el, Some(c), None) == Some((c, k, 39 + el + kl)));
    assert(parse_members(s, 1, None, None) == Some((c, k, 39 + el + kl)));
    assert(parse_wire(s) == Some((c, k)));
}

} // verus!
