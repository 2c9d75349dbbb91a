//! Messages fetched from Gmail and IMAP servers, built from what the server
//! sent back: the raw message, read through `mime`, and the server's own
//! flags, labels and dates.
use vstd::prelude::*;
use base64::Engine;
use crate::mail::{addresses_view, opt_text, thread_id_from_headers, EmailError};
use crate::mime::{
    attachment_parts, contents_view, copy_bytes, fresh, header_first, kept_contents, message_id_of, parse_error_text,
    parse_mime, parsed_mime, preview_of, preview_text, read_from, read_parts, thread_of, MimePart,
};
use crate::model::{MailFlags, MailMessage};
use crate::ids::new_id;
use crate::model::OfflineSyncLimit;
use crate::numbers::{decimal, decimal_text, parse_i64, parse_i64_spec};
use crate::text::{chars_of, push_str, seq_eq, string_from_chars};
use crate::time::{chrono_time, format_secs, format_time, formattable, now_utc, utc_from_millis};
use vstd::relations::{sorted_by, total_ordering};

verus! {

#[verifier::external_type_specification]
#[verifier::external_body]
pub struct ExDecodeError(base64::DecodeError);

/// The messages a fetch brought, and the bytes of their attachments as
/// (attachment id, message id, bytes).
#[derive(Debug)]
pub struct FetchResult {
    pub messages: Vec<MailMessage>,
    pub attachment_content: Vec<(u128, u128, Vec<u8>)>,
}

// ------------------------------------------------------------------ Gmail

/// One message as the Gmail API returns it in `raw` format.
#[derive(Debug, Clone)]
pub struct GmailRawMessage {
    pub id: String,
    pub thread_id: Option<String>,
    pub label_ids: Option<Vec<String>>,
    pub snippet: Option<String>,
    pub internal_date: Option<String>,
    pub raw: Option<String>,
}

/// What decoding a text as URL-safe base64 without padding yields.
pub uninterp spec fn base64_url_unpadded(text: Seq<char>) -> Option<Seq<u8>>;

/// What decoding a text as URL-safe base64 with padding yields.
pub uninterp spec fn base64_url_padded(text: Seq<char>) -> Option<Seq<u8>>;

/// `URL_SAFE_NO_PAD.decode` of the text's bytes.
#[verifier::external_body]
fn decode_url_unpadded(text: &str) -> (r: Result<Vec<u8>, base64::DecodeError>)
    ensures
        match r {
            Ok(bytes) => base64_url_unpadded(text@) == Some(bytes@),
            Err(_) => base64_url_unpadded(text@).is_none(),
        },
{
    base64::engine::general_purpose::URL_SAFE_NO_PAD.decode(text.as_bytes())
}

/// `URL_SAFE.decode` of the text's bytes.
#[verifier::external_body]
fn decode_url_padded(text: &str) -> (r: Result<Vec<u8>, base64::DecodeError>)
    ensures
        match r {
            Ok(bytes) => base64_url_padded(text@) == Some(bytes@),
            Err(_) => base64_url_padded(text@).is_none(),
        },
{
    base64::engine::general_purpose::URL_SAFE.decode(text.as_bytes())
}

/// The text of a base64 error, as its `Display` renders it.
#[verifier::external_body]
fn decode_error_text(e: &base64::DecodeError) -> String {
    e.to_string()
}

/// The bytes of a Gmail `raw` payload: URL-safe base64, unpadded or padded.
pub open spec fn gmail_bytes(raw: Seq<char>) -> Option<Seq<u8>> {
    match base64_url_unpadded(raw) {
        Some(b) => Some(b),
        None => base64_url_padded(raw),
    }
}

/// The bytes of a Gmail `raw` payload; a data error when it is neither form
/// of URL-safe base64.
pub fn decode_gmail_raw(raw: &str) -> (r: Result<Vec<u8>, EmailError>)
    ensures
        match r {
            Ok(bytes) => gmail_bytes(raw@) == Some(bytes@),
            Err(e) => gmail_bytes(raw@).is_none() && e is Data,
        },
{
    match decode_url_unpadded(raw) {
        Ok(bytes) => Ok(bytes),
        Err(_) => match decode_url_padded(raw) {
            Ok(bytes) => Ok(bytes),
            Err(e) => {
                let mut text = chars_of("invalid Gmail raw payload: ");
                let detail = decode_error_text(&e);
                let d = chars_of(detail.as_str());
                text.extend_from_slice(d.as_slice());
                Err(EmailError::Data(string_from_chars(text.as_slice())))
            },
        },
    }
}

/// The instant of Gmail's `internalDate` (milliseconds since the epoch), in
/// whole seconds, when it is a number chrono can hold.
pub open spec fn gmail_internal_secs(raw: Seq<char>) -> Option<i64> {
    match parse_i64_spec(raw) {
        Some(ms) => if chrono_time((ms / 1000) as i64) { Some((ms / 1000) as i64) } else { None },
        None => None,
    }
}

/// Gmail's `internalDate` as an instant in whole seconds.
pub fn parse_gmail_internal_date(raw: &str) -> (r: Option<i64>)
    ensures
        r == gmail_internal_secs(raw@),
{
    match parse_i64(chars_of(raw).as_slice()) {
        Some(ms) => utc_from_millis(ms),
        None => None,
    }
}

/// Some label in `labels` is `l`.
pub open spec fn has_label(labels: Seq<String>, l: Seq<char>) -> bool {
    exists|i: int| 0 <= i < labels.len() && (#[trigger] labels[i])@ == l
}

fn label_present(labels: &Vec<String>, l: &str) -> (r: bool)
    ensures
        r == has_label(labels@, l@),
{
    let want = chars_of(l);
    for i in 0..labels.len()
        invariant
            want@ == l@,
            forall|j: int| 0 <= j < i ==> (#[trigger] labels@[j])@ != l@,
    {
        if seq_eq(chars_of(labels[i].as_str()).as_slice(), want.as_slice()) {
            return true;
        }
    }
    false
}

/// The flags Gmail's labels give a message: seen unless `UNREAD`, answered
/// with `ANSWERED`, flagged with `STARRED`, deleted with `TRASH`, a draft
/// with `DRAFT`.
pub open spec fn gmail_flags(labels: Seq<String>) -> MailFlags {
    MailFlags {
        seen: !has_label(labels, "UNREAD"@),
        answered: has_label(labels, "ANSWERED"@),
        flagged: has_label(labels, "STARRED"@),
        deleted: has_label(labels, "TRASH"@),
        draft: has_label(labels, "DRAFT"@),
        forwarded: false,
    }
}

/// The parts of a Gmail message, when its `raw` payload decodes and parses.
pub open spec fn gmail_parts(p: GmailRawMessage) -> Option<Seq<MimePart>> {
    match p.raw {
        Some(raw) => match gmail_bytes(raw@) {
            Some(bytes) => parsed_mime(bytes),
            None => None,
        },
        None => None,
    }
}

pub open spec fn gmail_labels(p: GmailRawMessage) -> Seq<String> {
    match p.label_ids {
        Some(ls) => ls@,
        None => Seq::empty(),
    }
}

/// `m` is the Gmail message `p` of the folder `folder_path`, read from
/// `parts`: Gmail's id, thread, snippet, labels and internal date win over
/// what the raw message says.
pub open spec fn gmail_read(m: MailMessage, parts: Seq<MimePart>, p: GmailRawMessage, account_id: u128, folder_path: Seq<char>) -> bool {
    &&& read_from(m, parts)
    &&& fresh(m)
    &&& m.account_id == account_id
    &&& m.remote_id@ == p.id@
    &&& m.folder_path@ == folder_path
    &&& m.thread_id@ == match p.thread_id {
        Some(t) => t@,
        None => thread_of(m.headers@, message_id_of(parts[0].headers@, p.id@)),
    }
    &&& m.preview@ == match p.snippet {
        Some(s) => s@,
        None => preview_of(opt_text(m.body_text)),
    }
    &&& m.labels@ == gmail_labels(p)
    &&& m.flags == gmail_flags(gmail_labels(p))
    &&& m.received_at == match (match p.internal_date {
        Some(d) => gmail_internal_secs(d@),
        None => None,
    }) {
        Some(t) => t,
        None => match m.sent_at {
            Some(t) => t,
            None => m.created_at,
        },
    }
}

/// The message of a Gmail `raw` reply, with the bytes of its attachments;
/// `None` when the reply carries no raw message. A payload that is not
/// base64 is a data error; bytes that `mailparse` refuses, a parse error.
pub fn gmail_message(account_id: u128, folder_path: &str, p: GmailRawMessage) -> (r: Result<Option<(MailMessage, Vec<(u128, Vec<u8>)>)>, EmailError>)
    ensures
        match r {
            Ok(None) => p.raw.is_none(),
            Ok(Some((m, contents))) => gmail_parts(p) matches Some(parts)
                && gmail_read(m, parts, p, account_id, folder_path@)
                && contents_view(contents@) == kept_contents(m.attachments@, attachment_parts(parts)),
            Err(e) => p.raw.is_some() && gmail_parts(p).is_none()
                && (e is Data <==> gmail_bytes(p.raw->0@).is_none())
                && (e is Parse <==> gmail_bytes(p.raw->0@).is_some()),
        },
{
    let ghost pv = p;
    let raw = match &p.raw {
        Some(raw) => raw,
        None => return Ok(None),
    };
    let decoded = match decode_gmail_raw(raw.as_str()) {
        Ok(bytes) => bytes,
        Err(e) => return Err(e),
    };
    let parts = match parse_mime(decoded.as_slice()) {
        Ok(parts) => parts,
        Err(e) => return Err(EmailError::Parse(parse_error_text(&e))),
    };
    let now = now_utc();
    let read = read_parts(&parts);
    let labels: Vec<String> = match p.label_ids {
        Some(ls) => ls,
        None => Vec::new(),
    };
    proof {
        reveal_strlit("UNREAD");
        reveal_strlit("ANSWERED");
        reveal_strlit("STARRED");
        reveal_strlit("TRASH");
        reveal_strlit("DRAFT");
    }
    let flags = MailFlags {
        seen: !label_present(&labels, "UNREAD"),
        answered: label_present(&labels, "ANSWERED"),
        flagged: label_present(&labels, "STARRED"),
        deleted: label_present(&labels, "TRASH"),
        draft: label_present(&labels, "DRAFT"),
        forwarded: false,
    };
    let preview = match p.snippet {
        Some(s) => s,
        None => preview_text(&read.body_text),
    };
    let thread_id = match p.thread_id {
        Some(t) => t,
        None => {
            let message_id = match &read.message_id {
                Some(v) => v.clone(),
                None => p.id.clone(),
            };
            thread_id_from_headers(&read.headers, message_id.as_str())
        },
    };
    let internal = match &p.internal_date {
        Some(d) => parse_gmail_internal_date(d.as_str()),
        None => None,
    };
    let received_at = match internal {
        Some(t) => t,
        None => match read.sent_at {
            Some(t) => t,
            None => now,
        },
    };
    let message = MailMessage {
        id: new_id(),
        account_id,
        remote_id: p.id,
        thread_id,
        folder_path: folder_path.to_owned(),
        from: read.from,
        to: read.to,
        cc: read.cc,
        bcc: read.bcc,
        reply_to: read.reply_to,
        subject: read.subject,
        preview,
        body_text: read.body_text,
        body_html: read.body_html,
        flags,
        labels,
        headers: read.headers,
        attachments: read.attachments,
        sent_at: read.sent_at,
        received_at,
        created_at: now,
        updated_at: now,
        snoozed_until: None,
        pinned: false,
        send_at: None,
    };
    Ok(Some((message, read.contents)))
}


/// The search a Gmail folder is listed with: its label, and with a sync
/// window of some days, the date that window starts on.
pub open spec fn gmail_query_text(folder_path: Seq<char>, window: Option<OfflineSyncLimit>, now: i64) -> Seq<char> {
    match window {
        Some(OfflineSyncLimit::Days(days)) => "label:"@ + folder_path + " after:"@ + format_secs((now - days * 86400) as i64, "%Y/%m/%d"@),
        _ => "label:"@ + folder_path,
    }
}

/// The Gmail search for the messages of a folder at the instant `now`.
pub fn gmail_query(folder_path: &str, window: Option<OfflineSyncLimit>, now: i64) -> (r: String)
    requires
        window matches Some(OfflineSyncLimit::Days(days)) ==> formattable((now - days * 86400) as i64) && now - days * 86400 >= i64::MIN,
    ensures
        r@ == gmail_query_text(folder_path@, window, now),
{
    let mut q = chars_of("label:");
    push_str(&mut q, folder_path);
    match window {
        Some(OfflineSyncLimit::Days(days)) => {
            let after = now - (days as i64) * 86400;
            push_str(&mut q, " after:");
            let date = format_time(after, "%Y/%m/%d");
            push_str(&mut q, date.as_str());
        },
        _ => {},
    }
    string_from_chars(q.as_slice())
}

/// The messages of the Gmail replies that carry a raw message, in order,
/// with the bytes of their attachments. The first reply that does not
/// decode or parse fails the whole fetch.
#[verifier::loop_isolation(false)]
pub fn gmail_fetch_result(account_id: u128, folder_path: &str, replies: Vec<GmailRawMessage>) -> (r: Result<FetchResult, EmailError>)
    ensures
        match r {
            Ok(res) => forall|i: int| 0 <= i < replies@.len() ==> (#[trigger] replies@[i]).raw.is_none() || gmail_parts(replies@[i]).is_some(),
            Err(_) => exists|i: int| 0 <= i < replies@.len() && (#[trigger] replies@[i]).raw.is_some() && gmail_parts(replies@[i]).is_none(),
        },
        r matches Ok(res) ==> fetched_from(res, with_raw(replies@), account_id, folder_path@),
{
    let mut res = FetchResult { messages: Vec::new(), attachment_content: Vec::new() };
    let ghost kept: Seq<GmailRawMessage> = Seq::empty();
    assert(fetch_view(res.attachment_content@) =~= all_contents(res.messages@, replies_parts(kept)));
    assert(with_raw(replies@.take(0)) =~= kept);
    let mut n: usize = 0;
    let total: usize = replies.len();
    let ghost all = replies@;
    let mut rest = replies;
    while rest.len() > 0
        invariant
            n + rest@.len() == all.len(),
            all.len() <= usize::MAX,
            rest@ == all.skip(n as int),
            forall|i: int| 0 <= i < n ==> (#[trigger] all[i]).raw.is_none() || gmail_parts(all[i]).is_some(),
            kept == with_raw(all.take(n as int)),
            fetched_from(res, kept, account_id, folder_path@),
        decreases rest@.len(),
    {
        let ghost old_rest = rest@;
        let p = rest.remove(0);
        proof {
            assert(rest@ =~= all.skip(n + 1));
            assert(p == all[n as int]);
            assert(all.take(n + 1).drop_last() =~= all.take(n as int));
            assert(all.take(n + 1).last() == p);
        }
        match gmail_message(account_id, folder_path, p) {
            Ok(Some((m, contents))) => {
                add_fetched(&mut res, m, contents, Ghost(kept), Ghost(all[n as int]), account_id, Ghost(folder_path@));
                proof {
                    kept = kept.push(all[n as int]);
                    assert(kept == with_raw(all.take(n + 1)));
                }
            },
            Ok(None) => {
                proof {
                    assert(kept == with_raw(all.take(n + 1)));
                }
            },
            Err(e) => {
                assert(all[n as int].raw.is_some() && gmail_parts(all[n as int]).is_none());
                assert(exists|i: int| 0 <= i < all.len() && (#[trigger] all[i]).raw.is_some() && gmail_parts(all[i]).is_none());
                return Err(e);
            },
        }
        n = n + 1;
    }
    proof {
        assert(all.take(n as int) =~= all);
    }
    Ok(res)
}

/// The bytes kept for the attachments of message `m` read from `parts`,
/// each with `m`'s id.
pub open spec fn message_contents(m: MailMessage, parts: Seq<MimePart>) -> Seq<(u128, u128, Seq<u8>)> {
    tagged(kept_contents(m.attachments@, attachment_parts(parts)), m.id)
}

/// Attachment bytes by attachment id, each tagged with the message `id`.
pub open spec fn tagged(c: Seq<(u128, Seq<u8>)>, id: u128) -> Seq<(u128, u128, Seq<u8>)> {
    c.map_values(|x: (u128, Seq<u8>)| (x.0, id, x.1))
}

/// The contents of all messages, in order.
pub open spec fn all_contents(ms: Seq<MailMessage>, ps: Seq<Seq<MimePart>>) -> Seq<(u128, u128, Seq<u8>)>
    decreases ms.len(),
{
    if ms.len() == 0 || ps.len() == 0 {
        Seq::empty()
    } else {
        all_contents(ms.drop_last(), ps.drop_last()) + message_contents(ms.last(), ps.last())
    }
}

pub open spec fn fetch_view(c: Seq<(u128, u128, Vec<u8>)>) -> Seq<(u128, u128, Seq<u8>)> {
    c.map_values(|x: (u128, u128, Vec<u8>)| (x.0, x.1, x.2@))
}

/// The parts of each Gmail reply.
pub open spec fn replies_parts(ps: Seq<GmailRawMessage>) -> Seq<Seq<MimePart>> {
    ps.map_values(|p: GmailRawMessage| gmail_parts(p)->0)
}

/// The Gmail replies that carry a raw message, in order.
pub open spec fn with_raw(ps: Seq<GmailRawMessage>) -> Seq<GmailRawMessage>
    decreases ps.len(),
{
    if ps.len() == 0 {
        Seq::empty()
    } else if ps.last().raw.is_some() {
        with_raw(ps.drop_last()).push(ps.last())
    } else {
        with_raw(ps.drop_last())
    }
}

/// `res` holds, in order, one message read from each of the Gmail replies
/// `ps`, and the bytes of their attachments.
pub open spec fn fetched_from(res: FetchResult, ps: Seq<GmailRawMessage>, account_id: u128, folder_path: Seq<char>) -> bool {
    &&& res.messages@.len() == ps.len()
    &&& forall|i: int| 0 <= i < ps.len() ==> gmail_parts(#[trigger] ps[i]).is_some()
        && gmail_read(res.messages@[i], gmail_parts(ps[i])->0, ps[i], account_id, folder_path)
    &&& fetch_view(res.attachment_content@) == all_contents(res.messages@, replies_parts(ps))
}

fn add_fetched(res: &mut FetchResult, m: MailMessage, contents: Vec<(u128, Vec<u8>)>, Ghost(kept): Ghost<Seq<GmailRawMessage>>, Ghost(p): Ghost<GmailRawMessage>, account_id: u128, Ghost(folder_path): Ghost<Seq<char>>)
    requires
        fetched_from(*old(res), kept, account_id, folder_path),
        gmail_parts(p) matches Some(parts) && gmail_read(m, parts, p, account_id, folder_path)
            && contents_view(contents@) == kept_contents(m.attachments@, attachment_parts(parts)),
    ensures
        fetched_from(*final(res), kept.push(p), account_id, folder_path),
{
    let ghost old_res = *res;
    let id = m.id;
    let ghost cv = contents_view(contents@);
    let ghost base = res.attachment_content@;
    for k in 0..contents.len()
        invariant
            cv == contents_view(contents@),
            fetch_view(res.attachment_content@) == fetch_view(base) + tagged(cv.take(k as int), id),
            res.messages@ == old_res.messages@,
    {
        let aid = contents[k].0;
        let bytes = copy_bytes(&contents[k].1);
        let ghost old_ac = res.attachment_content@;
        res.attachment_content.push((aid, id, bytes));
        proof {
            assert(cv[k as int] == (aid, bytes@));
            assert(cv.take(k + 1) =~= cv.take(k as int).push((aid, bytes@)));
            assert(fetch_view(res.attachment_content@) =~= fetch_view(old_ac).push((aid, id, bytes@)));
            assert(tagged(cv.take(k + 1), id) =~= tagged(cv.take(k as int), id).push((aid, id, bytes@)));
            assert(fetch_view(res.attachment_content@) =~= fetch_view(base) + tagged(cv.take(k + 1), id));
        }
    }
    res.messages.push(m);
    proof {
        let nk = kept.push(p);
        assert(cv.take(cv.len() as int) =~= cv);
        assert(res.messages@.drop_last() =~= old_res.messages@);
        assert(replies_parts(nk).drop_last() =~= replies_parts(kept));
        assert(fetch_view(res.attachment_content@) == all_contents(res.messages@, replies_parts(nk)));
        assert forall|i: int| 0 <= i < nk.len() implies gmail_parts(#[trigger] nk[i]).is_some()
            && gmail_read(res.messages@[i], gmail_parts(nk[i])->0, nk[i], account_id, folder_path) by {
            if i < kept.len() {
                assert(nk[i] == kept[i]);
                assert(res.messages@[i] == old_res.messages@[i]);
            }
        }
    }
}


// ------------------------------------------------------------------ IMAP

/// A flag an IMAP server sets on a message.
#[derive(Debug, Clone, PartialEq, Eq)]
pub enum ImapFlag {
    Seen,
    Answered,
    Flagged,
    Deleted,
    Draft,
    Recent,
    MayCreate,
    Custom(String),
}

/// One message as an IMAP `UID FETCH` of `(UID FLAGS INTERNALDATE RFC822)`
/// returns it: its UID, sequence number, flags, arrival instant and bytes.
#[derive(Debug, Clone)]
pub struct ImapFetch {
    pub uid: Option<u32>,
    pub message: u32,
    pub flags: Vec<ImapFlag>,
    pub internal_date: Option<i64>,
    pub body: Option<Vec<u8>>,
}

/// The flags an IMAP server's flags give a message.
pub open spec fn imap_flags(fs: Seq<ImapFlag>) -> MailFlags {
    MailFlags {
        seen: exists|i: int| 0 <= i < fs.len() && #[trigger] fs[i] == ImapFlag::Seen,
        answered: exists|i: int| 0 <= i < fs.len() && #[trigger] fs[i] == ImapFlag::Answered,
        flagged: exists|i: int| 0 <= i < fs.len() && #[trigger] fs[i] == ImapFlag::Flagged,
        deleted: exists|i: int| 0 <= i < fs.len() && #[trigger] fs[i] == ImapFlag::Deleted,
        draft: exists|i: int| 0 <= i < fs.len() && #[trigger] fs[i] == ImapFlag::Draft,
        forwarded: false,
    }
}

fn flags_of(fs: &Vec<ImapFlag>) -> (r: MailFlags)
    ensures
        r == imap_flags(fs@),
{
    let mut r = MailFlags { seen: false, answered: false, flagged: false, deleted: false, draft: false, forwarded: false };
    for i in 0..fs.len()
        invariant
            r == imap_flags(fs@.take(i as int)),
    {
        let ghost before = fs@.take(i as int);
        let ghost after = fs@.take(i + 1);
        assert(after =~= before.push(fs@[i as int]));
        match &fs[i] {
            ImapFlag::Seen => r.seen = true,
            ImapFlag::Answered => r.answered = true,
            ImapFlag::Flagged => r.flagged = true,
            ImapFlag::Deleted => r.deleted = true,
            ImapFlag::Draft => r.draft = true,
            _ => {},
        }
        proof {
            assert(after[i as int] == fs@[i as int]);
            assert forall|j: int| 0 <= j < i implies before[j] == #[trigger] after[j] by {}
        }
        assert(r == imap_flags(after));
    }
    assert(fs@.take(fs@.len() as int) =~= fs@);
    r
}

/// The remote id of an IMAP message: its UID, else its sequence number.
pub open spec fn imap_remote_id(f: ImapFetch) -> Seq<char> {
    match f.uid {
        Some(u) => decimal(u as nat),
        None => decimal(f.message as nat),
    }
}

/// `m` is the IMAP message `f` of the folder `folder_path`, read from
/// `parts`: named by its UID (else its sequence number), threaded by its
/// headers, previewed from its text, flagged as the server says, received
/// when the server got it (else when it was sent, else when it was read).
pub open spec fn imap_read(m: MailMessage, parts: Seq<MimePart>, f: ImapFetch, account_id: u128, folder_path: Seq<char>) -> bool {
    &&& read_from(m, parts)
    &&& fresh(m)
    &&& m.account_id == account_id
    &&& m.remote_id@ == imap_remote_id(f)
    &&& m.folder_path@ == folder_path
    &&& m.thread_id@ == thread_of(m.headers@, message_id_of(parts[0].headers@, imap_remote_id(f)))
    &&& m.preview@ == preview_of(opt_text(m.body_text))
    &&& m.flags == imap_flags(f.flags@)
    &&& m.labels@.len() == 0
    &&& m.received_at == match f.internal_date {
        Some(t) => t,
        None => match m.sent_at {
            Some(t) => t,
            None => m.created_at,
        },
    }
}

/// The message of an IMAP fetch, with the bytes of its attachments; `None`
/// when the server sent no body. Bytes that `mailparse` refuses are a parse
/// error.
pub fn imap_message(account_id: u128, folder_path: &str, f: &ImapFetch) -> (r: Result<Option<(MailMessage, Vec<(u128, Vec<u8>)>)>, EmailError>)
    ensures
        match r {
            Ok(None) => f.body.is_none(),
            Ok(Some((m, contents))) => f.body matches Some(b) && parsed_mime(b@) matches Some(parts)
                && imap_read(m, parts, *f, account_id, folder_path@)
                && contents_view(contents@) == kept_contents(m.attachments@, attachment_parts(parts)),
            Err(e) => f.body matches Some(b) && parsed_mime(b@).is_none() && e is Parse,
        },
{
    let body = match &f.body {
        Some(b) => b,
        None => return Ok(None),
    };
    let parts = match parse_mime(body.as_slice()) {
        Ok(parts) => parts,
        Err(e) => return Err(EmailError::Parse(parse_error_text(&e))),
    };
    let now = now_utc();
    let read = read_parts(&parts);
    let remote = match f.uid {
        Some(u) => decimal_text(u as u64),
        None => decimal_text(f.message as u64),
    };
    let remote_id = string_from_chars(remote.as_slice());
    let message_id = match &read.message_id {
        Some(v) => v.clone(),
        None => remote_id.clone(),
    };
    let preview = preview_text(&read.body_text);
    let thread_id = thread_id_from_headers(&read.headers, message_id.as_str());
    let received_at = match f.internal_date {
        Some(t) => t,
        None => match read.sent_at {
            Some(t) => t,
            None => now,
        },
    };
    let message = MailMessage {
        id: new_id(),
        account_id,
        remote_id,
        thread_id,
        folder_path: folder_path.to_owned(),
        from: read.from,
        to: read.to,
        cc: read.cc,
        bcc: read.bcc,
        reply_to: read.reply_to,
        subject: read.subject,
        preview,
        body_text: read.body_text,
        body_html: read.body_html,
        flags: flags_of(&f.flags),
        labels: Vec::new(),
        headers: read.headers,
        attachments: read.attachments,
        sent_at: read.sent_at,
        received_at,
        created_at: now,
        updated_at: now,
        snoozed_until: None,
        pinned: false,
        send_at: None,
    };
    Ok(Some((message, read.contents)))
}


/// The IMAP search for the messages of a sync window of `days` days ending
/// at `now`: `SINCE` the day the window starts, as `01-Jan-2024`.
pub open spec fn imap_since_text(days: u32, now: i64) -> Seq<char> {
    "SINCE "@ + format_secs((now - days * 86400) as i64, "%d-%b-%Y"@)
}

pub fn imap_since_query(days: u32, now: i64) -> (r: String)
    requires
        now - days * 86400 >= i64::MIN,
        formattable((now - days * 86400) as i64),
    ensures
        r@ == imap_since_text(days, now),
{
    let after = now - (days as i64) * 86400;
    let mut q = chars_of("SINCE ");
    let date = format_time(after, "%d-%b-%Y");
    push_str(&mut q, date.as_str());
    string_from_chars(q.as_slice())
}

/// The order of UIDs, smallest first.
pub open spec fn uid_order() -> spec_fn(u32, u32) -> bool {
    |a: u32, b: u32| a <= b
}

/// The UIDs in ascending order.
pub open spec fn ascending(uids: Seq<u32>) -> Seq<u32> {
    uids.sort_by(uid_order())
}

/// The UIDs to fetch: all of them in ascending order, or when there are more
/// than `limit`, the `limit` highest, highest first.
pub open spec fn newest_uids(uids: Seq<u32>, limit: nat) -> Seq<u32> {
    let s = ascending(uids);
    if s.len() > limit { s.reverse().take(limit as int) } else { s }
}

/// Numbers as decimal text separated by commas.
pub open spec fn joined_decimals(ns: Seq<u32>) -> Seq<char>
    decreases ns.len(),
{
    if ns.len() == 0 {
        Seq::empty()
    } else if ns.len() == 1 {
        decimal(ns[0] as nat)
    } else {
        joined_decimals(ns.drop_last()) + ","@ + decimal(ns.last() as nat)
    }
}

proof fn lemma_uid_order()
    ensures
        total_ordering(uid_order()),
{
}

fn sort_uids(uids: &Vec<u32>) -> (r: Vec<u32>)
    ensures
        r@ == ascending(uids@),
{
    let mut out: Vec<u32> = Vec::new();
    assert(uids@.take(0) =~= out@);
    for n in 0..uids.len()
        invariant
            forall|a: int, b: int| 0 <= a < b < out@.len() ==> out@[a] <= out@[b],
            out@.to_multiset() == uids@.take(n as int).to_multiset(),
    {
        let x = uids[n];
        let mut i: usize = 0;
        while i < out.len() && out[i] <= x
            invariant
                i <= out@.len(),
                forall|j: int| 0 <= j < i ==> out@[j] <= x,
            decreases out.len() - i,
        {
            i = i + 1;
        }
        let ghost before = out@;
        out.insert(i, x);
        proof {
            vstd::seq_lib::to_multiset_insert(before, i as int, x);
            assert(uids@.take(n + 1) =~= uids@.take(n as int).push(x));
            vstd::seq_lib::to_multiset_build(uids@.take(n as int), x);
            assert forall|a: int, b: int| 0 <= a < b < out@.len() implies out@[a] <= out@[b] by {
                if b < i {
                    assert(out@[a] == before[a] && out@[b] == before[b]);
                } else if b == i {
                    assert(out@[a] == before[a]);
                } else if a < i {
                    assert(out@[a] == before[a] && out@[b] == before[b - 1]);
                } else if a == i {
                    assert(out@[b] == before[b - 1]);
                    assert(before[i as int] > x);
                    assert(before[i as int] <= before[b - 1] || b - 1 == i);
                } else {
                    assert(out@[a] == before[a - 1] && out@[b] == before[b - 1]);
                }
            }
        }
    }
    proof {
        assert(uids@.take(uids@.len() as int) =~= uids@);
        lemma_uid_order();
        assert(sorted_by(out@, uid_order()));
        uids@.lemma_sort_by_ensures(uid_order());
        vstd::seq_lib::lemma_sorted_unique(out@, ascending(uids@), uid_order());
    }
    out
}

fn join_decimals(ns: &Vec<u32>) -> (r: Vec<char>)
    ensures
        r@ == joined_decimals(ns@),
{
    let mut out: Vec<char> = Vec::new();
    proof {
        reveal_strlit(",");
    }
    for i in 0..ns.len()
        invariant
            out@ == joined_decimals(ns@.take(i as int)),
    {
        let ghost before = ns@.take(i as int);
        assert(ns@.take(i + 1).drop_last() =~= before);
        let ghost pre = out@;
        if i > 0 {
            out.push(',');
            proof {
                reveal_strlit(",");
            }
            assert(out@ =~= pre + ","@);
        }
        let d = decimal_text(ns[i] as u64);
        let ghost mid = out@;
        out.extend_from_slice(d.as_slice());
        proof {
            assert(out@ =~= mid + d@) by {
                assert forall|j: int| 0 <= j < out@.len() implies out@[j] == (mid + d@)[j] by {
                    if j >= mid.len() {
                        assert(cloned::<char>(d@[j - mid.len()], out@[j]));
                    }
                }
            }
            if i > 0 {
                assert(out@ =~= joined_decimals(before) + ","@ + decimal(ns@[i as int] as nat));
            }
        }
    }
    assert(ns@.take(ns@.len() as int) =~= ns@);
    out
}

/// The UID set to fetch, as IMAP writes it: the newest UIDs found, at most
/// `limit`, separated by commas; `None` when the search found none.
pub fn imap_uid_sequence(uids: &Vec<u32>, limit: usize) -> (r: Option<String>)
    ensures
        match r {
            Some(t) => uids@.len() > 0 && t@ == joined_decimals(newest_uids(uids@, limit as nat)),
            None => uids@.len() == 0,
        },
{
    if uids.len() == 0 {
        return None;
    }
    let sorted = sort_uids(uids);
    let picked: Vec<u32> = if sorted.len() > limit {
        let mut p: Vec<u32> = Vec::new();
        let n = sorted.len();
        for k in 0..limit
            invariant
                n == sorted@.len(),
                n > limit,
                p@ == sorted@.reverse().take(k as int),
        {
            p.push(sorted[n - 1 - k]);
            assert(p@ =~= sorted@.reverse().take(k + 1));
        }
        p
    } else {
        sorted
    };
    proof {
        reveal_strlit(",");
    }
    Some(string_from_chars(join_decimals(&picked).as_slice()))
}

/// The message range to fetch when there is no sync window, as IMAP writes
/// it: the last `limit` of the `exists` messages of the mailbox (`limit`
/// taken as a 32-bit count); `None` when the mailbox is empty.
pub open spec fn imap_range_text(exists: u32, limit: usize) -> Option<Seq<char>> {
    let l = (limit as int % 0x1_0000_0000) as u32;
    if exists == 0 {
        None
    } else {
        let start: nat = if exists > l { (exists - l + 1) as nat } else { 1 };
        Some(decimal(start) + ":"@ + decimal(exists as nat))
    }
}

pub fn imap_range_sequence(exists: u32, limit: usize) -> (r: Option<String>)
    requires
        !(exists == u32::MAX && limit as int % 0x1_0000_0000 == 0),
    ensures
        opt_text(r) == imap_range_text(exists, limit),
{
    if exists == 0 {
        return None;
    }
    let l = limit as u32;
    assert(l == (limit as int % 0x1_0000_0000) as u32) by (bit_vector)
        requires l == limit as u32;
    let start: u32 = if exists > l { exists - l + 1 } else { 1 };
    let mut t = decimal_text(start as u64);
    t.push(':');
    let e = decimal_text(exists as u64);
    let ghost mid = t@;
    t.extend_from_slice(e.as_slice());
    proof {
        reveal_strlit(":");
        assert(t@ =~= mid + e@) by {
            assert forall|j: int| 0 <= j < t@.len() implies t@[j] == (mid + e@)[j] by {
                if j >= mid.len() {
                    assert(cloned::<char>(e@[j - mid.len()], t@[j]));
                }
            }
        }
    }
    Some(string_from_chars(t.as_slice()))
}

}
