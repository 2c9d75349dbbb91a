//! Decisions of the native desktop shell: the chat view's message text,
//! unsubscribe links, operator search, secret checks and manual account
//! setup.
use vstd::prelude::*;
use crate::json::{JsonNumber, JsonValue};
use crate::mail::merged_by_path;
use crate::model::{MailFolder, MailMessage, OfflineSyncLimit};
use crate::security::{blank, is_blank, text_is, valid_id_chars, all_id_chars};
use crate::text::{
    chars_of, contains, contains_seq, ends_with, extend, has_prefix, has_suffix, is_ws, char_is_ws,
    lines_of, lines, seq_eq, split_char, split_on, starts_with, strip_end, strip_start,
    string_from_chars, to_lowercase, trim, trimmed, unicode_lower, utf8_len, utf8_length,
};
use crate::time::{naive_date_secs, parse_naive_date};

verus! {

// ------------------------------------------------------------------ lines

/// `str::lines`: the pieces between line feeds, a final line feed ending the
/// last line, and a carriage return dropped before each line feed.
pub open spec fn std_lines(s: Seq<char>) -> Seq<Seq<char>> {
    let ls = lines_of(s);
    Seq::new(ls.len(), |i: int| {
        let l = ls[i];
        if (i < ls.len() - 1 || (s.len() > 0 && s.last() == '\n')) && l.len() > 0 && l.last() == '\r' {
            l.drop_last()
        } else {
            l
        }
    })
}

fn std_lines_of(s: &[char]) -> (r: Vec<Vec<char>>)
    ensures
        r@.map_values(|p: Vec<char>| p@) == std_lines(s@),
{
    let ls = lines(s);
    let ghost lv = ls@.map_values(|p: Vec<char>| p@);
    let ends_nl = s.len() > 0 && s[s.len() - 1] == '\n';
    let mut out: Vec<Vec<char>> = Vec::new();
    for i in 0..ls.len()
        invariant
            lv == ls@.map_values(|p: Vec<char>| p@),
            lv == lines_of(s@),
            ends_nl == (s@.len() > 0 && s@.last() == '\n'),
            out@.len() == i,
            forall|j: int| 0 <= j < i ==> (#[trigger] out@[j])@ == std_lines(s@)[j],
    {
        let l = &ls[i];
        assert(lv[i as int] == l@);
        if (i + 1 < ls.len() || ends_nl) && l.len() > 0 && l[l.len() - 1] == '\r' {
            let t = crate::text::slice_range(l.as_slice(), 0, l.len() - 1);
            assert(t@ =~= l@.drop_last());
            out.push(t);
        } else {
            out.push(crate::text::to_vec(l.as_slice()));
        }
    }
    assert(out@.map_values(|p: Vec<char>| p@) =~= std_lines(s@));
    out
}

/// The lines joined by line feeds.
pub open spec fn join_lines(ls: Seq<Seq<char>>) -> Seq<char>
    decreases ls.len(),
{
    if ls.len() == 0 {
        Seq::empty()
    } else if ls.len() == 1 {
        ls[0]
    } else {
        join_lines(ls.drop_last()) + seq!['\n'] + ls.last()
    }
}

// ------------------------------------------------------------------ chat bubbles

/// A line that ends the message proper: a quote, an "On ... wrote:"
/// attribution, a signature separator or a "Sent from my" footer.
pub open spec fn ends_message(line: Seq<char>) -> bool {
    let t = trim(line);
    ||| (t.len() > 0 && t[0] == '>')
    ||| (starts_with(t, "On "@) && ends_with(t, "wrote:"@))
    ||| t == "-- "@ || t == "--"@
    ||| starts_with(t, "Sent from my"@)
}

/// The lines before the first that ends the message.
pub open spec fn kept_lines(ls: Seq<Seq<char>>) -> Seq<Seq<char>>
    decreases ls.len(),
{
    if ls.len() == 0 || ends_message(ls[0]) {
        Seq::empty()
    } else {
        seq![ls[0]] + kept_lines(ls.drop_first())
    }
}

/// The text shown in a chat bubble: the body (else the preview) without
/// quoted replies and signatures, trimmed; the whole text trimmed when
/// nothing is left.
pub open spec fn bubble_text(text: Seq<char>) -> Seq<char> {
    let clean = trim(join_lines(kept_lines(std_lines(text))));
    if clean.len() == 0 { trim(text) } else { clean }
}

fn line_ends_message(line: &[char]) -> (r: bool)
    ensures
        r == ends_message(line@),
{
    let t = trimmed(line);
    let gt = t.len() > 0 && t[0] == '>';
    let on = has_prefix(t.as_slice(), chars_of("On ").as_slice()) && has_suffix(t.as_slice(), chars_of("wrote:").as_slice());
    let sig = seq_eq(t.as_slice(), chars_of("-- ").as_slice()) || seq_eq(t.as_slice(), chars_of("--").as_slice());
    let sent = has_prefix(t.as_slice(), chars_of("Sent from my").as_slice());
    gt || on || sig || sent
}

pub fn ag_chat_bubble_text(message: &MailMessage) -> (r: String)
    ensures
        r@ == bubble_text(match message.body_text {
            Some(b) => b@,
            None => message.preview@,
        }),
{
    let text = match &message.body_text {
        Some(b) => chars_of(b.as_str()),
        None => chars_of(message.preview.as_str()),
    };
    let ls = std_lines_of(text.as_slice());
    let ghost lv = ls@.map_values(|p: Vec<char>| p@);
    let mut joined: Vec<char> = Vec::new();
    let mut i: usize = 0;
    assert(lv.skip(0) =~= lv);
    assert(lv.take(0) =~= Seq::<Seq<char>>::empty());
    while i < ls.len() && !line_ends_message(ls[i].as_slice())
        invariant
            i <= ls.len(),
            lv == ls@.map_values(|p: Vec<char>| p@),
            kept_lines(lv) == lv.take(i as int) + kept_lines(lv.skip(i as int)),
            joined@ == join_lines(lv.take(i as int)),
        decreases ls.len() - i,
    {
        assert(lv[i as int] == ls@[i as int]@);
        assert(lv.skip(i as int)[0] == lv[i as int]);
        assert(lv.skip(i as int).drop_first() =~= lv.skip(i + 1));
        assert(lv.take(i + 1) =~= lv.take(i as int).push(lv[i as int]));
        assert(lv.take(i as int) + kept_lines(lv.skip(i as int)) =~= lv.take(i + 1) + kept_lines(lv.skip(i + 1)));
        if i > 0 {
            joined.push('\n');
        }
        extend(&mut joined, ls[i].as_slice());
        assert(lv.take(i + 1).drop_last() =~= lv.take(i as int));
        i = i + 1;
    }
    proof {
        if i < ls.len() {
            assert(lv.skip(i as int)[0] == lv[i as int]);
            assert(lv[i as int] == ls@[i as int]@);
        } else {
            assert(lv.skip(i as int) =~= Seq::<Seq<char>>::empty());
        }
        assert(kept_lines(lv) =~= lv.take(i as int));
    }
    let clean = trimmed(joined.as_slice());
    if clean.len() == 0 {
        let t = trimmed(text.as_slice());
        string_from_chars(t.as_slice())
    } else {
        string_from_chars(clean.as_slice())
    }
}

// ------------------------------------------------------------------ unsubscribe links

/// One comma-separated part of a `List-Unsubscribe` header without its
/// spaces and angle brackets.
pub open spec fn unsubscribe_candidate(part: Seq<char>) -> Seq<char> {
    strip_end(strip_start(trim(part), '<'), '>')
}

pub open spec fn web_link(t: Seq<char>) -> bool {
    starts_with(t, "https://"@) || starts_with(t, "http://"@)
}

/// The first HTTP(S) link among the parts.
pub open spec fn first_web_link(parts: Seq<Seq<char>>) -> Option<Seq<char>>
    decreases parts.len(),
{
    if parts.len() == 0 {
        None
    } else if web_link(unsubscribe_candidate(parts[0])) {
        Some(unsubscribe_candidate(parts[0]))
    } else {
        first_web_link(parts.drop_first())
    }
}

fn strip_leading(s: &[char], c: char) -> (r: Vec<char>)
    ensures
        r@ == strip_start(s@, c),
{
    let mut a: usize = 0;
    assert(s@.skip(0) =~= s@);
    while a < s.len() && s[a] == c
        invariant
            a <= s.len(),
            strip_start(s@, c) == strip_start(s@.skip(a as int), c),
        decreases s.len() - a,
    {
        assert(s@.skip(a as int).drop_first() =~= s@.skip(a + 1));
        a = a + 1;
    }
    let r = crate::text::slice_range(s, a, s.len());
    assert(r@ =~= s@.skip(a as int));
    r
}

fn strip_trailing(s: &[char], c: char) -> (r: Vec<char>)
    ensures
        r@ == strip_end(s@, c),
{
    let mut b: usize = s.len();
    assert(s@.take(s.len() as int) =~= s@);
    while b > 0 && s[b - 1] == c
        invariant
            b <= s.len(),
            strip_end(s@, c) == strip_end(s@.take(b as int), c),
        decreases b,
    {
        assert(s@.take(b as int).drop_last() =~= s@.take(b - 1));
        b = b - 1;
    }
    let r = crate::text::slice_range(s, 0, b);
    assert(r@ =~= s@.take(b as int));
    r
}

/// The first HTTP(S) unsubscribe link of a `List-Unsubscribe` header, such
/// as `<https://example.com/unsub>, <mailto:unsub@example.com>`.
pub fn extract_unsubscribe_url(header: &str) -> (r: Option<String>)
    ensures
        crate::mail::opt_text(r) == first_web_link(split_char(header@, ',')),
{
    let h = chars_of(header);
    let parts = split_on(h.as_slice(), ',');
    let ghost pv = parts@.map_values(|p: Vec<char>| p@);
    let mut i: usize = 0;
    assert(pv.skip(0) =~= pv);
    while i < parts.len()
        invariant
            i <= parts.len(),
            pv == parts@.map_values(|p: Vec<char>| p@),
            pv == split_char(header@, ','),
            first_web_link(pv) == first_web_link(pv.skip(i as int)),
        decreases parts.len() - i,
    {
        assert(pv.skip(i as int).drop_first() =~= pv.skip(i + 1));
        assert(pv.skip(i as int)[0] == parts@[i as int]@);
        let t = trimmed(parts[i].as_slice());
        let a = strip_leading(t.as_slice(), '<');
        let b = strip_trailing(a.as_slice(), '>');
        if has_prefix(b.as_slice(), chars_of("https://").as_slice()) || has_prefix(b.as_slice(), chars_of("http://").as_slice()) {
            return Some(string_from_chars(b.as_slice()));
        }
        i = i + 1;
    }
    None
}

// ------------------------------------------------------------------ folders and secrets

/// Merges freshly listed folders into the shown ones, as `merge_folders`.
pub fn merge_folder_lists(target: &mut Vec<MailFolder>, remote: Vec<MailFolder>)
    ensures
        merged_by_path(final(target)@, old(target)@ + remote@),
{
    crate::mail::merge_folders(target, remote);
}

/// The first problem the native shell finds with a secret: the checks of
/// the desktop shell, with only account passwords and OAuth tokens allowed.
pub open spec fn native_secret_problem(namespace: Seq<char>, id: Seq<char>, value: Seq<char>) -> Option<Seq<char>> {
    if blank(namespace) || blank(id) {
        Some("secret namespace and id are required"@)
    } else if blank(value) {
        Some("secret value cannot be empty"@)
    } else if utf8_len(value) > 16384 {
        Some("secret value is too long"@)
    } else if utf8_len(id) > 128 || !valid_id_chars(id) {
        Some("secret id contains invalid characters"@)
    } else if namespace == "account_password"@ || namespace == "oauth_refresh_token"@ || namespace == "oauth_access_token"@ {
        None
    } else {
        Some("namespace is not allowed"@)
    }
}

fn fail(msg: &str) -> (r: Result<(), String>)
    ensures
        r matches Err(e) && e@ == msg@,
{
    Err(msg.to_owned())
}

pub fn validate_secret_key(key: &crate::security::SecretKey, value: &str) -> (r: Result<(), String>)
    ensures
        crate::security::check_result(native_secret_problem(key.namespace@, key.id@, value@), r),
{
    if is_blank(key.namespace.as_str()) || is_blank(key.id.as_str()) {
        return fail("secret namespace and id are required");
    }
    if is_blank(value) {
        return fail("secret value cannot be empty");
    }
    let v = chars_of(value);
    if utf8_length(v.as_slice()) > 16384 {
        return fail("secret value is too long");
    }
    let id = chars_of(key.id.as_str());
    if utf8_length(id.as_slice()) > 128 || !all_id_chars(id.as_slice()) {
        return fail("secret id contains invalid characters");
    }
    let ns = key.namespace.as_str();
    if text_is(ns, "account_password") || text_is(ns, "oauth_refresh_token") || text_is(ns, "oauth_access_token") {
        Ok(())
    } else {
        fail("namespace is not allowed")
    }
}

// ------------------------------------------------------------------ manual setup

/// The fields of the manual account setup form.
#[derive(Debug, Clone)]
pub struct GenericSetupDraft {
    pub email: String,
    pub password: String,
    pub display_name: String,
    pub imap_server: String,
    pub imap_port: u16,
    pub smtp_server: String,
    pub smtp_port: u16,
}

impl Default for GenericSetupDraft {
    fn default() -> (r: Self)
        ensures
            r.email@.len() == 0 && r.password@.len() == 0 && r.display_name@.len() == 0,
            r.imap_server@.len() == 0 && r.smtp_server@.len() == 0,
            r.imap_port == 993 && r.smtp_port == 465,
    {
        GenericSetupDraft {
            email: String::new(),
            password: String::new(),
            display_name: String::new(),
            imap_server: String::new(),
            imap_port: 993,
            smtp_server: String::new(),
            smtp_port: 465,
        }
    }
}

/// The manual setup form can be saved: it has an email address and an IMAP
/// server.
pub fn generic_setup_complete(draft: &GenericSetupDraft) -> (r: bool)
    ensures
        r == !(blank(draft.email@) || blank(draft.imap_server@)),
{
    !(is_blank(draft.email.as_str()) || is_blank(draft.imap_server.as_str()))
}

// ------------------------------------------------------------------ operator search

/// The state of splitting at whitespace: the words so far and the word
/// being read.
pub open spec fn ws_split(s: Seq<char>) -> (Seq<Seq<char>>, Seq<char>)
    decreases s.len(),
{
    if s.len() == 0 {
        (Seq::empty(), Seq::empty())
    } else {
        let (done, cur) = ws_split(s.drop_last());
        if is_ws(s.last()) {
            if cur.len() > 0 { (done.push(cur), Seq::empty()) } else { (done, Seq::empty()) }
        } else {
            (done, cur.push(s.last()))
        }
    }
}

/// `str::split_whitespace`: the non-empty runs between whitespace.
pub open spec fn words(s: Seq<char>) -> Seq<Seq<char>> {
    let (done, cur) = ws_split(s);
    if cur.len() > 0 { done.push(cur) } else { done }
}

fn split_whitespace(s: &[char]) -> (r: Vec<Vec<char>>)
    ensures
        r@.map_values(|p: Vec<char>| p@) == words(s@),
{
    let mut done: Vec<Vec<char>> = Vec::new();
    let mut cur: Vec<char> = Vec::new();
    assert(s@.take(0) =~= Seq::<char>::empty());
    for i in 0..s.len()
        invariant
            (done@.map_values(|p: Vec<char>| p@), cur@) == ws_split(s@.take(i as int)),
    {
        assert(s@.take(i + 1).drop_last() =~= s@.take(i as int));
        let ghost d0 = done@.map_values(|p: Vec<char>| p@);
        if char_is_ws(s[i]) {
            if cur.len() > 0 {
                let w = cur;
                done.push(w);
                cur = Vec::new();
                assert(done@.map_values(|p: Vec<char>| p@) =~= d0.push(w@));
            } else {
                cur = Vec::new();
            }
            assert(cur@ =~= Seq::<char>::empty());
        } else {
            cur.push(s[i]);
        }
    }
    assert(s@.take(s.len() as int) =~= s@);
    if cur.len() > 0 {
        let ghost d0 = done@.map_values(|p: Vec<char>| p@);
        let w = cur;
        done.push(w);
        assert(done@.map_values(|p: Vec<char>| p@) =~= d0.push(w@));
    }
    done
}

/// What one search token asks of a message.
pub enum SearchFilter {
    From(Seq<char>),
    To(Seq<char>),
    Subject(Seq<char>),
    HasAttachment,
    Unread,
    Pinned,
    Label(Seq<char>),
    /// Received no later than the end of the day, when the date reads.
    Before(Option<i64>),
    /// Received no earlier than the start of the day, when the date reads.
    After(Option<i64>),
    /// The subject or preview contains the (lowered) token.
    Text(Seq<char>),
}

pub open spec fn end_of_day(d: Option<i64>) -> Option<i64> {
    match d {
        Some(t) => Some((t + 86399) as i64),
        None => None,
    }
}

/// The filter of a token: `from:`, `to:`, `subject:`, `label:`, `before:`
/// and `after:` (dates as `YYYY-MM-DD`) with a value, `has:attachment`,
/// `is:unread`, `is:pinned`, or plain text; in any case.
pub open spec fn token_filter(token: Seq<char>) -> SearchFilter {
    let l = unicode_lower(token);
    if starts_with(l, "from:"@) {
        SearchFilter::From(l.skip(5))
    } else if starts_with(l, "to:"@) {
        SearchFilter::To(l.skip(3))
    } else if starts_with(l, "subject:"@) {
        SearchFilter::Subject(l.skip(8))
    } else if l == "has:attachment"@ {
        SearchFilter::HasAttachment
    } else if l == "is:unread"@ {
        SearchFilter::Unread
    } else if l == "is:pinned"@ {
        SearchFilter::Pinned
    } else if starts_with(l, "label:"@) {
        SearchFilter::Label(l.skip(6))
    } else if starts_with(l, "before:"@) {
        SearchFilter::Before(end_of_day(naive_date_secs(l.skip(7), "%Y-%m-%d"@)))
    } else if starts_with(l, "after:"@) {
        SearchFilter::After(naive_date_secs(l.skip(6), "%Y-%m-%d"@))
    } else {
        SearchFilter::Text(l)
    }
}

pub open spec fn lowered_contains(t: Seq<char>, v: Seq<char>) -> bool {
    contains(unicode_lower(t), v)
}

/// A message passes a filter.
pub open spec fn passes(m: MailMessage, f: SearchFilter) -> bool {
    match f {
        SearchFilter::From(v) => exists|i: int| 0 <= i < m.from@.len() && (lowered_contains((#[trigger] m.from@[i]).address@, v)
            || lowered_contains(match m.from@[i].name { Some(n) => n@, None => ""@ }, v)),
        SearchFilter::To(v) => exists|i: int| 0 <= i < m.to@.len() && lowered_contains((#[trigger] m.to@[i]).address@, v),
        SearchFilter::Subject(v) => lowered_contains(m.subject@, v),
        SearchFilter::HasAttachment => m.attachments@.len() > 0,
        SearchFilter::Unread => !m.flags.seen,
        SearchFilter::Pinned => m.pinned,
        SearchFilter::Label(v) => exists|i: int| 0 <= i < m.labels@.len() && lowered_contains((#[trigger] m.labels@[i])@, v),
        SearchFilter::Before(Some(c)) => m.received_at <= c,
        SearchFilter::After(Some(c)) => m.received_at >= c,
        SearchFilter::Before(None) | SearchFilter::After(None) => true,
        SearchFilter::Text(v) => lowered_contains(m.subject@, v) || lowered_contains(m.preview@, v),
    }
}

/// A message passes every token of the query.
pub open spec fn matches_query(m: MailMessage, query: Seq<char>) -> bool {
    forall|i: int| 0 <= i < words(query).len() ==> passes(m, token_filter(#[trigger] words(query)[i]))
}

/// The token `has:attachment`, in any case.
pub open spec fn asks_attachment(t: Seq<char>) -> bool {
    unicode_lower(t) == "has:attachment"@
}

proof fn lemma_attachment_token(t: Seq<char>)
    requires
        asks_attachment(t),
    ensures
        token_filter(t) == SearchFilter::HasAttachment,
{
    reveal_strlit("has:attachment");
    reveal_strlit("from:");
    reveal_strlit("to:");
    reveal_strlit("subject:");
    let l = unicode_lower(t);
    crate::ical_round_trip::lemma_char_differs(l, "from:"@, 0);
    crate::ical_round_trip::lemma_char_differs(l, "to:"@, 0);
    crate::ical_round_trip::lemma_char_differs(l, "subject:"@, 0);
}

/// The messages of `ms` that a search for `q` returns, in their order.
pub open spec fn search_result(ms: Seq<MailMessage>, q: Seq<char>) -> Seq<MailMessage> {
    ms.filter(|m: MailMessage| matches_query(m, q))
}

/// A search with the token `has:attachment` returns only messages that have
/// an attachment, and returns every message with an attachment that passes
/// the query's other tokens.
pub proof fn lemma_search_has_attachment(ms: Seq<MailMessage>, q: Seq<char>)
    requires
        exists|i: int| 0 <= i < words(q).len() && asks_attachment(#[trigger] words(q)[i]),
    ensures
        forall|k: int| 0 <= k < search_result(ms, q).len() ==> (#[trigger] search_result(ms, q)[k]).attachments@.len() > 0,
        forall|k: int| 0 <= k < ms.len() && (#[trigger] ms[k]).attachments@.len() > 0
            && (forall|i: int| 0 <= i < words(q).len() && !asks_attachment(#[trigger] words(q)[i])
                ==> passes(ms[k], token_filter(words(q)[i])))
            ==> search_result(ms, q).contains(ms[k]),
{
    broadcast use vstd::seq_lib::group_filter_ensures;
    let f = |m: MailMessage| matches_query(m, q);
    let i = choose|i: int| 0 <= i < words(q).len() && asks_attachment(#[trigger] words(q)[i]);
    lemma_attachment_token(words(q)[i]);
    assert forall|k: int| 0 <= k < ms.filter(f).len() implies (#[trigger] ms.filter(f)[k]).attachments@.len() > 0 by {
        assert(f(ms.filter(f)[k]));
        assert(passes(ms.filter(f)[k], token_filter(words(q)[i])));
    }
    assert forall|k: int| 0 <= k < ms.len() && (#[trigger] ms[k]).attachments@.len() > 0
        && (forall|j: int| 0 <= j < words(q).len() && !asks_attachment(#[trigger] words(q)[j])
            ==> passes(ms[k], token_filter(words(q)[j])))
        implies ms.filter(f).contains(ms[k]) by {
        assert forall|j: int| 0 <= j < words(q).len() implies passes(ms[k], token_filter(#[trigger] words(q)[j])) by {
            if asks_attachment(words(q)[j]) {
                lemma_attachment_token(words(q)[j]);
            }
        }
        assert(f(ms[k]));
    }
}

/// The token `is:unread`, in any case.
pub open spec fn asks_unread(t: Seq<char>) -> bool {
    unicode_lower(t) == "is:unread"@
}

/// The token `is:pinned`, in any case.
pub open spec fn asks_pinned(t: Seq<char>) -> bool {
    unicode_lower(t) == "is:pinned"@
}

proof fn lemma_flag_tokens(t: Seq<char>)
    ensures
        asks_unread(t) ==> token_filter(t) == SearchFilter::Unread,
        asks_pinned(t) ==> token_filter(t) == SearchFilter::Pinned,
{
    reveal_strlit("is:unread");
    reveal_strlit("is:pinned");
    reveal_strlit("has:attachment");
    reveal_strlit("from:");
    reveal_strlit("to:");
    reveal_strlit("subject:");
    let l = unicode_lower(t);
    if asks_unread(t) || asks_pinned(t) {
        crate::ical_round_trip::lemma_char_differs(l, "from:"@, 0);
        crate::ical_round_trip::lemma_char_differs(l, "to:"@, 0);
        crate::ical_round_trip::lemma_char_differs(l, "subject:"@, 0);
        assert(l != "has:attachment"@) by { assert(l[0] != "has:attachment"@[0]); }
        if asks_pinned(t) {
            assert(l != "is:unread"@) by { assert(l[3] != "is:unread"@[3]); }
        }
    }
}

/// A search with the token `is:unread` returns only unread messages, and
/// every unread message that passes the query's other tokens; likewise
/// `is:pinned` for pinned messages.
pub proof fn lemma_search_flags(ms: Seq<MailMessage>, q: Seq<char>)
    ensures
        (exists|i: int| 0 <= i < words(q).len() && asks_unread(#[trigger] words(q)[i])) ==> forall|k: int|
            0 <= k < search_result(ms, q).len() ==> !(#[trigger] search_result(ms, q)[k]).flags.seen,
        (exists|i: int| 0 <= i < words(q).len() && asks_pinned(#[trigger] words(q)[i])) ==> forall|k: int|
            0 <= k < search_result(ms, q).len() ==> (#[trigger] search_result(ms, q)[k]).pinned,
        forall|k: int| 0 <= k < ms.len() && !(#[trigger] ms[k]).flags.seen
            && (forall|i: int| 0 <= i < words(q).len() && !asks_unread(#[trigger] words(q)[i])
                ==> passes(ms[k], token_filter(words(q)[i])))
            ==> search_result(ms, q).contains(ms[k]),
        forall|k: int| 0 <= k < ms.len() && (#[trigger] ms[k]).pinned
            && (forall|i: int| 0 <= i < words(q).len() && !asks_pinned(#[trigger] words(q)[i])
                ==> passes(ms[k], token_filter(words(q)[i])))
            ==> search_result(ms, q).contains(ms[k]),
{
    broadcast use vstd::seq_lib::group_filter_ensures;
    let f = |m: MailMessage| matches_query(m, q);
    if exists|i: int| 0 <= i < words(q).len() && asks_unread(#[trigger] words(q)[i]) {
        let i = choose|i: int| 0 <= i < words(q).len() && asks_unread(#[trigger] words(q)[i]);
        lemma_flag_tokens(words(q)[i]);
        assert forall|k: int| 0 <= k < ms.filter(f).len() implies !(#[trigger] ms.filter(f)[k]).flags.seen by {
            assert(f(ms.filter(f)[k]));
            assert(passes(ms.filter(f)[k], token_filter(words(q)[i])));
        }
    }
    if exists|i: int| 0 <= i < words(q).len() && asks_pinned(#[trigger] words(q)[i]) {
        let i = choose|i: int| 0 <= i < words(q).len() && asks_pinned(#[trigger] words(q)[i]);
        lemma_flag_tokens(words(q)[i]);
        assert forall|k: int| 0 <= k < ms.filter(f).len() implies (#[trigger] ms.filter(f)[k]).pinned by {
            assert(f(ms.filter(f)[k]));
            assert(passes(ms.filter(f)[k], token_filter(words(q)[i])));
        }
    }
    assert forall|k: int| 0 <= k < ms.len() && !(#[trigger] ms[k]).flags.seen
        && (forall|j: int| 0 <= j < words(q).len() && !asks_unread(#[trigger] words(q)[j])
            ==> passes(ms[k], token_filter(words(q)[j])))
        implies ms.filter(f).contains(ms[k]) by {
        assert forall|j: int| 0 <= j < words(q).len() implies passes(ms[k], token_filter(#[trigger] words(q)[j])) by {
            lemma_flag_tokens(words(q)[j]);
        }
        assert(f(ms[k]));
    }
    assert forall|k: int| 0 <= k < ms.len() && (#[trigger] ms[k]).pinned
        && (forall|j: int| 0 <= j < words(q).len() && !asks_pinned(#[trigger] words(q)[j])
            ==> passes(ms[k], token_filter(words(q)[j])))
        implies ms.filter(f).contains(ms[k]) by {
        assert forall|j: int| 0 <= j < words(q).len() implies passes(ms[k], token_filter(#[trigger] words(q)[j])) by {
            lemma_flag_tokens(words(q)[j]);
        }
        assert(f(ms[k]));
    }
}

/// A filter as the code holds it.
enum Filter {
    From(Vec<char>),
    To(Vec<char>),
    Subject(Vec<char>),
    HasAttachment,
    Unread,
    Pinned,
    Label(Vec<char>),
    Before(Option<i64>),
    After(Option<i64>),
    Text(Vec<char>),
}

spec fn filter_view(f: Filter) -> SearchFilter {
    match f {
        Filter::From(v) => SearchFilter::From(v@),
        Filter::To(v) => SearchFilter::To(v@),
        Filter::Subject(v) => SearchFilter::Subject(v@),
        Filter::HasAttachment => SearchFilter::HasAttachment,
        Filter::Unread => SearchFilter::Unread,
        Filter::Pinned => SearchFilter::Pinned,
        Filter::Label(v) => SearchFilter::Label(v@),
        Filter::Before(c) => SearchFilter::Before(c),
        Filter::After(c) => SearchFilter::After(c),
        Filter::Text(v) => SearchFilter::Text(v@),
    }
}

fn rest_after(l: &[char], n: usize) -> (r: Vec<char>)
    requires
        n <= l@.len(),
    ensures
        r@ == l@.skip(n as int),
{
    let r = crate::text::slice_range(l, n, l.len());
    assert(r@ =~= l@.skip(n as int));
    r
}

fn prefixed(l: &[char], p: &str) -> (r: bool)
    ensures
        r == starts_with(l@, p@),
{
    has_prefix(l, chars_of(p).as_slice())
}

fn filter_of(token: &[char]) -> (r: Filter)
    ensures
        filter_view(r) == token_filter(token@),
{
    let t = string_from_chars(token);
    let lowered = to_lowercase(t.as_str());
    let l = chars_of(lowered.as_str());
    let l = l.as_slice();
    proof {
        reveal_strlit("from:");
        reveal_strlit("to:");
        reveal_strlit("subject:");
        reveal_strlit("label:");
        reveal_strlit("before:");
        reveal_strlit("after:");
    }
    if prefixed(l, "from:") {
        Filter::From(rest_after(l, 5))
    } else if prefixed(l, "to:") {
        Filter::To(rest_after(l, 3))
    } else if prefixed(l, "subject:") {
        Filter::Subject(rest_after(l, 8))
    } else if seq_eq(l, chars_of("has:attachment").as_slice()) {
        Filter::HasAttachment
    } else if seq_eq(l, chars_of("is:unread").as_slice()) {
        Filter::Unread
    } else if seq_eq(l, chars_of("is:pinned").as_slice()) {
        Filter::Pinned
    } else if prefixed(l, "label:") {
        Filter::Label(rest_after(l, 6))
    } else if prefixed(l, "before:") {
        let v = string_from_chars(rest_after(l, 7).as_slice());
        Filter::Before(match parse_naive_date(v.as_str(), "%Y-%m-%d") {
            Some(d) => Some(d + 86399),
            None => None,
        })
    } else if prefixed(l, "after:") {
        let v = string_from_chars(rest_after(l, 6).as_slice());
        Filter::After(parse_naive_date(v.as_str(), "%Y-%m-%d"))
    } else {
        Filter::Text(crate::text::to_vec(l))
    }
}

fn lowered_has(t: &str, v: &Vec<char>) -> (r: bool)
    ensures
        r == lowered_contains(t@, v@),
{
    let l = to_lowercase(t);
    let c = chars_of(l.as_str());
    contains_seq(c.as_slice(), v.as_slice())
}

fn message_passes(m: &MailMessage, f: &Filter) -> (r: bool)
    ensures
        r == passes(*m, filter_view(*f)),
{
    match f {
        Filter::From(v) => {
            for i in 0..m.from.len()
                invariant
                    filter_view(*f) == SearchFilter::From(v@),
                    forall|j: int| 0 <= j < i ==> !(lowered_contains((#[trigger] m.from@[j]).address@, v@)
                        || lowered_contains(match m.from@[j].name { Some(n) => n@, None => ""@ }, v@)),
            {
                let a = &m.from[i];
                let name: &str = match &a.name {
                    Some(n) => n.as_str(),
                    None => "",
                };
                if lowered_has(a.address.as_str(), v) || lowered_has(name, v) {
                    assert(lowered_contains(m.from@[i as int].address@, v@)
                        || lowered_contains(match m.from@[i as int].name { Some(n) => n@, None => ""@ }, v@));
                    assert(passes(*m, filter_view(*f)));
                    return true;
                }
            }
            false
        },
        Filter::To(v) => {
            for i in 0..m.to.len()
                invariant
                    filter_view(*f) == SearchFilter::To(v@),
                    forall|j: int| 0 <= j < i ==> !lowered_contains((#[trigger] m.to@[j]).address@, v@),
            {
                if lowered_has(m.to[i].address.as_str(), v) {
                    assert(lowered_contains(m.to@[i as int].address@, v@));
                    assert(passes(*m, filter_view(*f)));
                    return true;
                }
            }
            false
        },
        Filter::Subject(v) => lowered_has(m.subject.as_str(), v),
        Filter::HasAttachment => m.attachments.len() > 0,
        Filter::Unread => !m.flags.seen,
        Filter::Pinned => m.pinned,
        Filter::Label(v) => {
            for i in 0..m.labels.len()
                invariant
                    filter_view(*f) == SearchFilter::Label(v@),
                    forall|j: int| 0 <= j < i ==> !lowered_contains((#[trigger] m.labels@[j])@, v@),
            {
                if lowered_has(m.labels[i].as_str(), v) {
                    assert(lowered_contains(m.labels@[i as int]@, v@));
                    assert(passes(*m, filter_view(*f)));
                    return true;
                }
            }
            false
        },
        Filter::Before(Some(c)) => m.received_at <= *c,
        Filter::After(Some(c)) => m.received_at >= *c,
        Filter::Before(None) => true,
        Filter::After(None) => true,
        Filter::Text(v) => lowered_has(m.subject.as_str(), v) || lowered_has(m.preview.as_str(), v),
    }
}

/// The messages that pass every operator and word of the query, in their
/// order.
pub fn search_with_operators(messages: Vec<MailMessage>, query: &str) -> (r: Vec<MailMessage>)
    ensures
        r@ == messages@.filter(|m: MailMessage| matches_query(m, query@)),
        r@ == search_result(messages@, query@),
{
    let q = chars_of(query);
    let tokens = split_whitespace(q.as_slice());
    let ghost tv = tokens@.map_values(|p: Vec<char>| p@);
    let mut filters: Vec<Filter> = Vec::new();
    for i in 0..tokens.len()
        invariant
            tv == tokens@.map_values(|p: Vec<char>| p@),
            filters@.len() == i,
            forall|j: int| 0 <= j < i ==> filter_view(#[trigger] filters@[j]) == token_filter(tv[j]),
    {
        assert(tv[i as int] == tokens@[i as int]@);
        filters.push(filter_of(tokens[i].as_slice()));
    }
    let mut rest = messages;
    let ghost all = rest@;
    let ghost mut k: int = 0;
    let mut out: Vec<MailMessage> = Vec::new();
    assert(all.skip(0) =~= all);
    proof {
        reveal(Seq::filter);
    }
    assert(all.take(0).filter(|m: MailMessage| matches_query(m, query@)) =~= Seq::<MailMessage>::empty());
    while rest.len() > 0
        invariant
            0 <= k <= all.len(),
            rest@ == all.skip(k),
            out@ == all.take(k).filter(|m: MailMessage| matches_query(m, query@)),
            tv == words(query@),
            filters@.len() == tv.len(),
            forall|j: int| 0 <= j < tv.len() ==> filter_view(#[trigger] filters@[j]) == token_filter(tv[j]),
        decreases rest@.len(),
    {
        let m = rest.remove(0);
        proof {
            assert(all.skip(k)[0] == all[k]);
            assert(rest@ =~= all.skip(k + 1));
            assert(all.take(k + 1).drop_last() =~= all.take(k));
        }
        let mut keep = true;
        let mut j: usize = 0;
        while j < filters.len() && keep
            invariant
                j <= filters.len(),
                filters@.len() == tv.len(),
                forall|x: int| 0 <= x < tv.len() ==> filter_view(#[trigger] filters@[x]) == token_filter(tv[x]),
                keep == forall|x: int| 0 <= x < j ==> passes(m, token_filter(#[trigger] tv[x])),
            decreases filters.len() - j,
        {
            keep = message_passes(&m, &filters[j]);
            if keep {
                assert(forall|x: int| 0 <= x < j + 1 ==> passes(m, token_filter(#[trigger] tv[x])));
            }
            j = j + 1;
        }
        assert(keep == matches_query(m, query@));
        proof {
            k = k + 1;
        }
        if keep {
            out.push(m);
        }
        proof {
            reveal(Seq::filter);
        }
        assert(out@ =~= all.take(k).filter(|m: MailMessage| matches_query(m, query@)));
    }
    assert(all.take(k) =~= all);
    out
}

}
