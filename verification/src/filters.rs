//! The message-listing rules: which messages a filter keeps, how the listing
//! is sorted, and which page of it is returned.
//!
//! Text matching is case-insensitive through the lowercase form of each
//! field; sorting is a stable insertion sort by the chosen field; paging
//! takes the window the offset and limit describe.

use vstd::prelude::*;

use crate::models::{Email, EmailFilter, SortField, SortOrder};
use crate::strutil::{contains_seq, lower_of, str_contains, str_eq, to_lowercase};

verus! {

/// The message carries the given label.
pub open spec fn has_label(e: Email, label: Seq<char>) -> bool {
    match e.label_ids {
        Some(ls) => exists|i: int| 0 <= i < ls@.len() && (#[trigger] ls@[i])@ == label,
        None => false,
    }
}

/// The search text occurs, case-insensitively, in the subject, body, sender
/// address or recipient address.
pub open spec fn search_matches(e: Email, q: Seq<char>) -> bool {
    let needle = lower_of(q);
    contains_seq(lower_of(e.subject@), needle) || contains_seq(lower_of(e.body@), needle)
        || contains_seq(lower_of(e.sender_email@), needle) || contains_seq(
        lower_of(e.recipient_email@),
        needle,
    )
}

/// The message passes every condition the filter sets.
pub open spec fn passes_filter(e: Email, f: EmailFilter) -> bool {
    &&& (f.label matches Some(l) ==> has_label(e, l@))
    &&& (f.is_read matches Some(want_read) ==> (e.read_at is Some) == want_read)
    &&& (f.search matches Some(q) ==> search_matches(e, q@))
    &&& (f.sender matches Some(s) ==> contains_seq(lower_of(e.sender_email@), lower_of(s@)))
    &&& (f.recipient matches Some(rc) ==> contains_seq(
        lower_of(e.recipient_email@),
        lower_of(rc@),
    ))
}

/// Three-way lexicographic comparison of two texts by character code: the
/// order `str::cmp` gives, since UTF-8 byte order follows code-point order.
pub open spec fn lex_cmp_chars(a: Seq<char>, b: Seq<char>) -> int
    decreases a.len(),
{
    if a.len() == 0 && b.len() == 0 {
        0
    } else if a.len() == 0 {
        -1
    } else if b.len() == 0 {
        1
    } else if (a[0] as u32) < (b[0] as u32) {
        -1
    } else if (a[0] as u32) > (b[0] as u32) {
        1
    } else {
        lex_cmp_chars(a.drop_first(), b.drop_first())
    }
}

/// The text a message is sorted by under the given field.
pub open spec fn sort_key(e: Email, field: SortField) -> Seq<char> {
    match field {
        SortField::Date => e.sent_at@,
        SortField::Sender => e.sender_email@,
        SortField::Subject => e.subject@,
    }
}

/// `a` may stand at or before `b` in the listing sorted by `field`,
/// ascending or descending.
pub open spec fn email_le(a: Email, b: Email, field: SortField, asc: bool) -> bool {
    if asc {
        lex_cmp_chars(sort_key(a, field), sort_key(b, field)) <= 0
    } else {
        lex_cmp_chars(sort_key(a, field), sort_key(b, field)) >= 0
    }
}

/// `e` placed into a listing, after every message already at or before it:
/// where a stable sort puts a newly arriving message.
pub open spec fn insert_sorted(e: Email, s: Seq<Email>, field: SortField, asc: bool) -> Seq<Email>
    decreases s.len(),
{
    if s.len() == 0 {
        seq![e]
    } else if email_le(s[0], e, field, asc) {
        seq![s[0]] + insert_sorted(e, s.drop_first(), field, asc)
    } else {
        seq![e] + s
    }
}

/// The listing stably sorted by the given field and direction: each message
/// inserted, in input order, after those that sort at or before it.
pub open spec fn sort_emails(s: Seq<Email>, field: SortField, asc: bool) -> Seq<Email>
    decreases s.len(),
{
    if s.len() == 0 {
        s
    } else {
        insert_sorted(s.last(), sort_emails(s.drop_last(), field, asc), field, asc)
    }
}

/// The field the filter sorts by; by date where it names none.
pub open spec fn sort_field_of(f: EmailFilter) -> SortField {
    match f.sort_by {
        Some(field) => field,
        None => SortField::Date,
    }
}

/// Whether the filter sorts ascending: only where it names a sort field and
/// asks for ascending order; descending everywhere else.
pub open spec fn sort_asc_of(f: EmailFilter) -> bool {
    f.sort_by is Some && f.sort_order == Some(SortOrder::Asc)
}

/// The page of the listing that the offset and limit describe.
pub open spec fn page_window(s: Seq<Email>, offset: Option<usize>, limit: Option<usize>) -> Seq<
    Email,
> {
    let off = match offset {
        Some(o) => o as int,
        None => 0,
    };
    let lim = match limit {
        Some(l) => l as int,
        None => usize::MAX as int,
    };
    let start = if off <= s.len() {
        off
    } else {
        s.len() as int
    };
    let end = if start + lim <= s.len() {
        start + lim
    } else {
        s.len() as int
    };
    s.subrange(start, end)
}

/// Everything `apply_filters_to_emails` does: keep what passes the filter,
/// sort stably by the chosen field and direction, and take the page the
/// offset and limit describe.
pub open spec fn apply_filters_spec(emails: Seq<Email>, f: EmailFilter) -> Seq<Email> {
    page_window(
        sort_emails(
            emails.filter(|e: Email| passes_filter(e, f)),
            sort_field_of(f),
            sort_asc_of(f),
        ),
        f.offset,
        f.limit,
    )
}

/// Whether this message carries the given label.
fn has_label_exec(e: &Email, label: &String) -> (r: bool)
    ensures
        r == has_label(*e, label@),
{
    match &e.label_ids {
        Some(ls) => {
            let n = ls.len();
            let mut i: usize = 0;
            while i < n
                invariant
                    e.label_ids == Some(*ls),
                    n == ls@.len(),
                    i <= n,
                    forall|j: int| 0 <= j < i ==> ls@[j]@ != label@,
                decreases n - i,
            {
                if str_eq(ls[i].as_str(), label.as_str()) {
                    proof {
                        let lsv = e.label_ids->Some_0;
                        assert(0 <= i < lsv@.len() && (lsv@[i as int])@ == label@);
                        assert(exists|j: int|
                            0 <= j < lsv@.len() && (#[trigger] lsv@[j])@ == label@);
                    }
                    return true;
                }
                i = i + 1;
            }
            false
        },
        None => false,
    }
}

/// Whether this message passes every condition the filter sets.
fn passes_filter_exec(e: &Email, f: &EmailFilter) -> (r: bool)
    ensures
        r == passes_filter(*e, *f),
{
    match &f.label {
        Some(l) => {
            if !has_label_exec(e, l) {
                return false;
            }
        },
        None => {},
    }
    match &f.is_read {
        Some(want_read) => {
            let is_read = match &e.read_at {
                Some(_) => true,
                None => false,
            };
            if is_read != *want_read {
                return false;
            }
        },
        None => {},
    }
    match &f.search {
        Some(q) => {
            let needle = to_lowercase(q.as_str());
            let in_subject = str_contains(to_lowercase(e.subject.as_str()).as_str(), needle.as_str());
            let in_body = str_contains(to_lowercase(e.body.as_str()).as_str(), needle.as_str());
            let in_sender = str_contains(
                to_lowercase(e.sender_email.as_str()).as_str(),
                needle.as_str(),
            );
            let in_recipient = str_contains(
                to_lowercase(e.recipient_email.as_str()).as_str(),
                needle.as_str(),
            );
            if !(in_subject || in_body || in_sender || in_recipient) {
                return false;
            }
        },
        None => {},
    }
    match &f.sender {
        Some(s) => {
            let needle = to_lowercase(s.as_str());
            if !str_contains(to_lowercase(e.sender_email.as_str()).as_str(), needle.as_str()) {
                return false;
            }
        },
        None => {},
    }
    match &f.recipient {
        Some(rc) => {
            let needle = to_lowercase(rc.as_str());
            if !str_contains(to_lowercase(e.recipient_email.as_str()).as_str(), needle.as_str()) {
                return false;
            }
        },
        None => {},
    }
    true
}

/// Three-way lexicographic comparison of two texts by character code.
fn str_cmp(a: &str, b: &str) -> (r: i8)
    ensures
        r as int == lex_cmp_chars(a@, b@),
        -1 <= r <= 1,
{
    let na = a.unicode_len();
    let nb = b.unicode_len();
    let mut i: usize = 0;
    while i < na && i < nb
        invariant
            na == a@.len(),
            nb == b@.len(),
            i <= na,
            i <= nb,
            forall|j: int| 0 <= j < i ==> a@[j] == b@[j],
        decreases na - i,
    {
        let ca = a.get_char(i);
        let cb = b.get_char(i);
        proof {
            lemma_lex_cmp_skip(a@, b@, i as int);
            assert(a@.skip(i as int)[0] == a@[i as int]);
            assert(b@.skip(i as int)[0] == b@[i as int]);
        }
        if (ca as u32) < (cb as u32) {
            return -1;
        }
        if (ca as u32) > (cb as u32) {
            return 1;
        }
        proof {
            vstd::utf8::char_u32_cast(ca, ca as u32);
            vstd::utf8::char_u32_cast(cb, cb as u32);
        }
        i = i + 1;
    }
    proof {
        lemma_lex_cmp_skip(a@, b@, i as int);
    }
    if na == nb {
        0
    } else if na < nb {
        -1
    } else {
        1
    }
}

/// A comparison may start past any equal prefix.
proof fn lemma_lex_cmp_skip(a: Seq<char>, b: Seq<char>, i: int)
    requires
        0 <= i <= a.len(),
        i <= b.len(),
        forall|j: int| 0 <= j < i ==> a[j] == b[j],
    ensures
        lex_cmp_chars(a, b) == lex_cmp_chars(a.skip(i), b.skip(i)),
    decreases i,
{
    if i > 0 {
        assert((a[0] as u32) == (b[0] as u32));
        lemma_lex_cmp_skip(a.drop_first(), b.drop_first(), i - 1);
        assert(a.drop_first().skip(i - 1) =~= a.skip(i));
        assert(b.drop_first().skip(i - 1) =~= b.skip(i));
    } else {
        assert(a.skip(0) =~= a);
        assert(b.skip(0) =~= b);
    }
}

/// `a` may stand at or before `b` in the listing sorted this way.
fn email_le_exec(a: &Email, b: &Email, field: SortField, asc: bool) -> (r: bool)
    ensures
        r == email_le(*a, *b, field, asc),
{
    let c = match field {
        SortField::Date => str_cmp(a.sent_at.as_str(), b.sent_at.as_str()),
        SortField::Sender => str_cmp(a.sender_email.as_str(), b.sender_email.as_str()),
        SortField::Subject => str_cmp(a.subject.as_str(), b.subject.as_str()),
    };
    if asc {
        c <= 0
    } else {
        c >= 0
    }
}

/// Inserting at the first position whose element may not stand before `e`
/// is what `insert_sorted` describes.
proof fn lemma_insert_sorted_at(e: Email, s: Seq<Email>, field: SortField, asc: bool, p: int)
    requires
        0 <= p <= s.len(),
        forall|j: int| 0 <= j < p ==> email_le(#[trigger] s[j], e, field, asc),
        p < s.len() ==> !email_le(s[p], e, field, asc),
    ensures
        insert_sorted(e, s, field, asc) == s.subrange(0, p) + seq![e] + s.subrange(
            p,
            s.len() as int,
        ),
    decreases p,
{
    if p == 0 {
        if s.len() == 0 {
            assert(insert_sorted(e, s, field, asc) =~= s.subrange(0, 0) + seq![e] + s.subrange(
                0,
                0,
            ));
        } else {
            assert(insert_sorted(e, s, field, asc) =~= s.subrange(0, 0) + seq![e] + s.subrange(
                0,
                s.len() as int,
            ));
        }
    } else {
        lemma_insert_sorted_at(e, s.drop_first(), field, asc, p - 1);
        assert(s.drop_first().subrange(0, p - 1) =~= s.subrange(1, p));
        assert(s.drop_first().subrange(p - 1, s.drop_first().len() as int) =~= s.subrange(
            p,
            s.len() as int,
        ));
        assert(seq![s[0]] + (s.subrange(1, p) + seq![e] + s.subrange(p, s.len() as int))
            =~= s.subrange(0, p) + seq![e] + s.subrange(p, s.len() as int));
    }
}

/// Places a message into a listing, after every message that sorts at or
/// before it.
fn insert_sorted_exec(e: Email, out: &mut Vec<Email>, field: SortField, asc: bool)
    ensures
        final(out)@ == insert_sorted(e, old(out)@, field, asc),
{
    let n = out.len();
    let mut p: usize = 0;
    while p < n && email_le_exec(&out[p], &e, field, asc)
        invariant
            n == out@.len(),
            p <= n,
            forall|j: int| 0 <= j < p ==> email_le(#[trigger] out@[j], e, field, asc),
        decreases n - p,
    {
        p = p + 1;
    }
    proof {
        lemma_insert_sorted_at(e, out@, field, asc, p as int);
    }
    let ghost before = out@;
    out.insert(p, e);
    proof {
        assert(out@ =~= before.subrange(0, p as int) + seq![e] + before.subrange(
            p as int,
            before.len() as int,
        ));
    }
}

/// Filters, sorts and pages a listing of messages: keeps what passes the
/// filter, sorts stably by the chosen field and direction — by date, newest
/// first, where the filter names no field — and returns the page the offset
/// and limit describe.
pub fn apply_filters_to_emails(emails: Vec<Email>, filter: &EmailFilter) -> (r: Vec<Email>)
    ensures
        r@ == apply_filters_spec(emails@, *filter),
{
    let ghost original = emails@;
    let mut remaining = emails;
    let mut kept: Vec<Email> = Vec::new();
    let ghost mut consumed: int = 0;
    proof {
        reveal(Seq::filter);
        assert(original.subrange(0, 0) =~= Seq::<Email>::empty());
        assert(remaining@ =~= original.subrange(0, original.len() as int));
    }
    while remaining.len() > 0
        invariant
            0 <= consumed <= original.len(),
            remaining@ == original.subrange(consumed, original.len() as int),
            kept@ == original.subrange(0, consumed).filter(
                |e: Email| passes_filter(e, *filter),
            ),
        decreases remaining@.len(),
    {
        let e = remaining.remove(0);
        proof {
            reveal(Seq::filter);
            let done = original.subrange(0, consumed + 1);
            assert(done.drop_last() =~= original.subrange(0, consumed));
            assert(done.last() == original[consumed]);
            assert(e == original[consumed]);
        }
        if passes_filter_exec(&e, filter) {
            kept.push(e);
        }
        proof {
            consumed = consumed + 1;
            assert(remaining@ =~= original.subrange(consumed, original.len() as int));
        }
    }
    proof {
        assert(original.subrange(0, original.len() as int) =~= original);
    }
    let field = match &filter.sort_by {
        Some(f) => *f,
        None => SortField::Date,
    };
    let asc = match &filter.sort_by {
        Some(_) => match &filter.sort_order {
            Some(SortOrder::Asc) => true,
            _ => false,
        },
        None => false,
    };
    let ghost kept_view = kept@;
    let mut sorted: Vec<Email> = Vec::new();
    let mut rest = kept;
    let ghost mut taken: int = 0;
    proof {
        assert(kept_view.subrange(0, 0) =~= Seq::<Email>::empty());
        assert(rest@ =~= kept_view.subrange(0, kept_view.len() as int).subrange(
            0,
            kept_view.len() as int,
        ));
        assert(rest@ =~= kept_view.subrange(taken, kept_view.len() as int));
    }
    while rest.len() > 0
        invariant
            0 <= taken <= kept_view.len(),
            rest@ == kept_view.subrange(taken, kept_view.len() as int),
            sorted@ == sort_emails(kept_view.subrange(0, taken), field, asc),
        decreases rest@.len(),
    {
        let e = rest.remove(0);
        proof {
            let done = kept_view.subrange(0, taken + 1);
            assert(done.drop_last() =~= kept_view.subrange(0, taken));
            assert(done.last() == kept_view[taken]);
            assert(e == kept_view[taken]);
        }
        insert_sorted_exec(e, &mut sorted, field, asc);
        proof {
            taken = taken + 1;
            assert(rest@ =~= kept_view.subrange(taken, kept_view.len() as int));
        }
    }
    proof {
        assert(kept_view.subrange(0, kept_view.len() as int) =~= kept_view);
    }
    // Paging: the window the offset and limit describe.
    let len = sorted.len();
    let offset = match &filter.offset {
        Some(o) => *o,
        None => 0,
    };
    let start = if offset <= len {
        offset
    } else {
        len
    };
    let end = match &filter.limit {
        Some(l) => {
            if *l <= len - start {
                start + *l
            } else {
                len
            }
        },
        None => len,
    };
    let ghost sorted_view = sorted@;
    // Drop the tail beyond `end`, then the head before `start`.
    sorted.truncate(end);
    proof {
        assert(sorted@ =~= sorted_view.subrange(0, end as int));
    }
    let mut k: usize = 0;
    while k < start
        invariant
            start <= end <= sorted_view.len(),
            k <= start,
            sorted@ == sorted_view.subrange(k as int, end as int),
        decreases start - k,
    {
        let _ = sorted.remove(0);
        proof {
            assert(sorted@ =~= sorted_view.subrange(k + 1, end as int));
        }
        k = k + 1;
    }
    proof {
        assert(sorted@ =~= apply_filters_spec(original, *filter));
    }
    sorted
}

} // verus!
