//! Message framing: marking and unmarking a subject line as encrypted, and
//! the fixed placeholder body of the outer transport message.
//!
//! The marker token, followed by a single space, is prepended to the subject
//! of an encrypted message; detection is a pure substring check, and
//! extraction removes every occurrence of the marker and trims surrounding
//! whitespace. These are pure string transforms with no failure modes.

use vstd::prelude::*;

use crate::strutil::{contains_seq, is_whitespace_char, matches_at, remove_all, remove_all_str,
str_contains, trim_spec, trim_str, ws_prefix_len, ws_suffix_len};

verus! {

/// The token that marks a subject line as belonging to an encrypted message.
pub open spec fn marker() -> Seq<char> {
    "[Q-ENCRYPTED]"@
}

/// The marker token as text.
pub fn marker_str() -> (r: &'static str)
    ensures
        r@ == marker(),
{
    "[Q-ENCRYPTED]"
}

/// Checks whether a subject line carries the encryption marker.
pub fn is_encrypted(subject: &str) -> (r: bool)
    ensures
        r == contains_seq(subject@, marker()),
{
    str_contains(subject, marker_str())
}

/// Marks a subject line as encrypted: the marker token, one space, then the
/// original subject.
pub fn format_encrypted_subject(original_subject: &str) -> (r: String)
    ensures
        r@ == marker() + " "@ + original_subject@,
{
    let mut s = String::from_str(marker_str());
    s.append(" ");
    s.append(original_subject);
    s
}

/// Restores the original subject for display: removes every occurrence of
/// the marker and trims surrounding whitespace.
pub fn extract_original_subject(encrypted_subject: &str) -> (r: String)
    ensures
        r@ == trim_spec(remove_all(encrypted_subject@, marker())),
{
    proof {
        reveal_strlit("[Q-ENCRYPTED]");
    }
    let stripped = remove_all_str(encrypted_subject, marker_str());
    trim_str(stripped.as_str())
}

/// The fixed, human-readable body of the outer transport message: the real
/// content is stored out-of-band and needs the proper client to view.
pub fn format_encrypted_body() -> (r: String)
    ensures
        r@
            == "This message is encrypted and can only be read using the Q-Client.\n\nPlease use your quantum-secure email client to view this message."@,
{
    String::from_str(
        "This message is encrypted and can only be read using the Q-Client.\n\nPlease use your quantum-secure email client to view this message.",
    )
}

/// Law: extracting the original subject from a freshly marked one restores
/// it, for every subject that does not itself contain the marker token and
/// that neither begins nor ends with whitespace. (A subject that carries the
/// marker loses it, and surrounding whitespace is trimmed away, so those
/// inputs are left out.)
pub proof fn lemma_subject_round_trip(s: Seq<char>)
    requires
        !contains_seq(s, marker()),
        s.len() > 0 ==> !is_whitespace_char(s[0]),
        s.len() > 0 ==> !is_whitespace_char(s[s.len() - 1]),
    ensures
        trim_spec(remove_all(marker() + " "@ + s, marker())) == s,
{
    reveal_strlit("[Q-ENCRYPTED]");
    reveal_strlit(" ");
    let m = marker();
    assert(m.len() == 13);
    let full = m + " "@ + s;
    let rest = " "@ + s;

    // The marker stands at the front; removal drops it.
    assert(full.subrange(0, 13) =~= m);
    assert(matches_at(full, m, 0));
    assert(full.skip(13) =~= rest);
    assert(remove_all(full, m) == remove_all(rest, m));

    // The remainder starts with the space, which is no marker start.
    assert(rest[0] == ' ');
    assert(m[0] == '[');
    if 13 <= rest.len() && matches_at(rest, m, 0) {
        assert(rest.subrange(0, 13)[0] == rest[0]);
    }
    assert(rest.drop_first() =~= s);
    assert(remove_all(rest, m) == seq![' '] + remove_all(s, m));

    // The subject itself holds no marker, so removal keeps it.
    crate::strutil::lemma_remove_all_absent(s, m);
    assert(remove_all(full, m) =~= " "@ + s);

    // Trimming strips exactly the leading space.
    let sp = " "@ + s;
    assert(sp.drop_first() =~= s);
    if s.len() == 0 {
        assert(is_whitespace_char(sp[0]));
        assert(ws_prefix_len(s) == 0);
        assert(ws_prefix_len(sp) == 1);
        assert(trim_spec(sp) =~= s);
    } else {
        assert(is_whitespace_char(sp[0]));
        assert(!is_whitespace_char(s[0]));
        assert(ws_prefix_len(s) == 0);
        assert(ws_prefix_len(sp) == 1);
        assert(sp[sp.len() - 1] == s[s.len() - 1]);
        assert(!is_whitespace_char(sp[sp.len() - 1]));
        assert(ws_suffix_len(sp) == 0);
        assert(trim_spec(sp) =~= s);
    }
}

} // verus!
