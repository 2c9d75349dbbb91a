//! Messages read from their raw RFC 822 bytes. `mailparse` splits a message
//! into its parts; what a message is made of (headers, bodies, attachments)
//! is read from those parts here.
use vstd::prelude::*;
use crate::mail::{disposition_filename, header_filename, header_get, header_lookup, opt_text};
use crate::mail::{address_list, addresses_view, parse_address_list, thread_id_from_headers, EmailError};
use crate::model::{MailAddress, MailAttachment, MailFlags, MailMessage};
use crate::ids::new_id;
use crate::time::{chrono_time, now_utc, utc_from_secs};
use crate::text::{ascii_lower, chars_of, contains, contains_seq, eq_ignore_ascii_case, eq_ignore_case, lower, seq_eq, string_from_chars};
use crate::mail::{text_less, text_lt, lemma_text_lt_total, lemma_text_lt_transitive, lemma_text_lt_irreflexive};

verus! {

#[verifier::external_type_specification]
#[verifier::external_body]
pub struct ExMailParseError(mailparse::MailParseError);

/// One part of a parsed message. A message is the list of its parts in the
/// depth-first pre-order that `ParsedMail::parts` walks, the message itself
/// first.
#[derive(Debug)]
pub struct MimePart {
    /// Header names as written, with their decoded values, in order.
    pub headers: Vec<(String, String)>,
    /// The part's MIME type, such as `text/plain`.
    pub mimetype: String,
    /// The parameters of its `Content-Type`, by name.
    pub params: Vec<(String, String)>,
    /// The body decoded to text, when it decodes.
    pub body: Option<String>,
    /// The body bytes with the transfer encoding undone; empty when that fails.
    pub body_raw: Vec<u8>,
    /// Whether the part has no subparts of its own.
    pub leaf: bool,
}

/// The parts that `mailparse::parse_mail` finds in a raw message; `None`
/// when it refuses the bytes.
pub uninterp spec fn parsed_mime(raw: Seq<u8>) -> Option<Seq<MimePart>>;

/// `mailparse::parse_mail`, with each part that `ParsedMail::parts` yields
/// converted field by field. The parts are the named result; the first is
/// the message itself, so there is at least one.
#[verifier::external_body]
pub(crate) fn parse_mime(raw: &[u8]) -> (r: Result<Vec<MimePart>, mailparse::MailParseError>)
    ensures
        match r {
            Ok(parts) => parsed_mime(raw@) == Some(parts@) && parts@.len() > 0,
            Err(_) => parsed_mime(raw@).is_none(),
        },
{
    let parsed = mailparse::parse_mail(raw)?;
    Ok(parsed.parts().map(|p| MimePart {
        headers: p.headers.iter().map(|h| (h.get_key(), h.get_value())).collect(),
        mimetype: p.ctype.mimetype.clone(),
        params: p.ctype.params.clone().into_iter().collect(),
        body: p.get_body().ok(),
        body_raw: p.get_body_raw().unwrap_or_default(),
        leaf: p.subparts.is_empty(),
    }).collect())
}

/// The text of a `mailparse` error, as its `Display` renders it.
#[verifier::external_body]
pub(crate) fn parse_error_text(e: &mailparse::MailParseError) -> String {
    e.to_string()
}

// ------------------------------------------------------------------ headers

/// The value of the first header named `key`, in any ASCII case.
pub open spec fn header_first(hs: Seq<(String, String)>, key: Seq<char>) -> Option<Seq<char>>
    decreases hs.len(),
{
    if hs.len() == 0 {
        None
    } else if eq_ignore_case(hs[0].0@, key) {
        Some(hs[0].1@)
    } else {
        header_first(hs.drop_first(), key)
    }
}

/// The value of the first header named `key`, in any ASCII case.
pub fn header_value(headers: &Vec<(String, String)>, key: &str) -> (r: Option<String>)
    ensures
        opt_text(r) == header_first(headers@, key@),
{
    let k = chars_of(key);
    let mut i: usize = 0;
    assert(headers@.skip(0) =~= headers@);
    while i < headers.len()
        invariant
            i <= headers.len(),
            k@ == key@,
            header_first(headers@, key@) == header_first(headers@.skip(i as int), key@),
        decreases headers.len() - i,
    {
        assert(headers@.skip(i as int).drop_first() =~= headers@.skip(i + 1));
        let name = chars_of(headers[i].0.as_str());
        if eq_ignore_ascii_case(name.as_slice(), k.as_slice()) {
            return Some(headers[i].1.clone());
        }
        i = i + 1;
    }
    None
}

/// The value that the last header named exactly `key` gives.
pub open spec fn header_last(hs: Seq<(String, String)>, key: Seq<char>) -> Option<Seq<char>>
    decreases hs.len(),
{
    if hs.len() == 0 {
        None
    } else if hs.last().0@ == key {
        Some(hs.last().1@)
    } else {
        header_last(hs.drop_last(), key)
    }
}

/// `map` holds the headers `hs` by name, as a map filled from them in order
/// does: names strictly ascending, each once, with the last value given for
/// it.
pub open spec fn header_map_of(map: Seq<(String, String)>, hs: Seq<(String, String)>) -> bool {
    &&& forall|a: int, b: int| 0 <= a < b < map.len() ==> text_lt((#[trigger] map[a]).0@, (#[trigger] map[b]).0@)
    &&& forall|i: int| 0 <= i < map.len() ==> header_last(hs, (#[trigger] map[i]).0@) == Some(map[i].1@)
    &&& forall|k: Seq<char>| (#[trigger] header_last(hs, k)).is_some() ==> exists|i: int| 0 <= i < map.len() && (#[trigger] map[i]).0@ == k
}

/// The headers as a map by name: ordered by name, each name once, with the
/// last value given for it.
pub fn headers_map(headers: &Vec<(String, String)>) -> (r: Vec<(String, String)>)
    ensures
        header_map_of(r@, headers@),
{
    let mut out: Vec<(String, String)> = Vec::new();
    for n in 0..headers.len()
        invariant
            header_map_of(out@, headers@.take(n as int)),
    {
        let ghost prev = headers@.take(n as int);
        let ghost next = headers@.take(n + 1);
        assert(next.drop_last() =~= prev);
        assert(next.last() == headers@[n as int]);
        let k = chars_of(headers[n].0.as_str());
        let mut i: usize = 0;
        while i < out.len() && text_less(chars_of(out[i].0.as_str()).as_slice(), k.as_slice())
            invariant
                i <= out@.len(),
                forall|j: int| 0 <= j < i ==> text_lt((#[trigger] out@[j]).0@, k@),
            decreases out.len() - i,
        {
            i = i + 1;
        }
        let ghost old_out = out@;
        let entry = (headers[n].0.clone(), headers[n].1.clone());
        if i < out.len() && seq_eq(chars_of(out[i].0.as_str()).as_slice(), k.as_slice()) {
            out.set(i, entry);
            proof {
                assert forall|j: int| 0 <= j < out@.len() && j != i implies (#[trigger] out@[j]).0@ != k@ by {
                    if j < i {
                        lemma_text_lt_irreflexive(k@);
                    } else {
                        lemma_text_lt_irreflexive(old_out[j].0@);
                    }
                }
                assert forall|x: Seq<char>| (#[trigger] header_last(next, x)).is_some() implies exists|j: int| 0 <= j < out@.len() && (#[trigger] out@[j]).0@ == x by {
                    if x == k@ {
                        assert(out@[i as int].0@ == x);
                    } else {
                        assert(header_last(prev, x).is_some());
                        let j = choose|j: int| 0 <= j < old_out.len() && (#[trigger] old_out[j]).0@ == x;
                        assert(out@[j].0@ == x);
                    }
                }
            }
        } else {
            proof {
                if i < out.len() {
                    lemma_text_lt_total(k@, out@[i as int].0@);
                }
            }
            out.insert(i, entry);
            proof {
                assert forall|a: int, b: int| 0 <= a < b < out@.len() implies text_lt((#[trigger] out@[a]).0@, (#[trigger] out@[b]).0@) by {
                    if b == i {
                        assert(out@[a] == old_out[a]);
                    } else if a == i {
                        assert(out@[b] == old_out[b - 1]);
                        if b - 1 > i {
                            lemma_text_lt_transitive(k@, old_out[i as int].0@, old_out[b - 1].0@);
                        }
                    } else if b < i {
                        assert(out@[a] == old_out[a] && out@[b] == old_out[b]);
                    } else if a < i {
                        assert(out@[a] == old_out[a] && out@[b] == old_out[b - 1]);
                    } else {
                        assert(out@[a] == old_out[a - 1] && out@[b] == old_out[b - 1]);
                    }
                }
                assert forall|j: int| 0 <= j < out@.len() implies header_last(next, (#[trigger] out@[j]).0@) == Some(out@[j].1@) by {
                    if j < i {
                        assert(out@[j] == old_out[j]);
                        lemma_text_lt_irreflexive(k@);
                    } else if j > i {
                        assert(out@[j] == old_out[j - 1]);
                        lemma_text_lt_irreflexive(k@);
                        if j - 1 > i {
                            lemma_text_lt_transitive(k@, old_out[i as int].0@, old_out[j - 1].0@);
                        }
                    }
                }
                assert forall|x: Seq<char>| (#[trigger] header_last(next, x)).is_some() implies exists|j: int| 0 <= j < out@.len() && (#[trigger] out@[j]).0@ == x by {
                    if x == k@ {
                        assert(out@[i as int].0@ == x);
                    } else {
                        assert(header_last(prev, x).is_some());
                        let j = choose|j: int| 0 <= j < old_out.len() && (#[trigger] old_out[j]).0@ == x;
                        if j < i {
                            assert(out@[j].0@ == x);
                        } else {
                            assert(out@[j + 1].0@ == x);
                        }
                    }
                }
            }
        }
    }
    assert(headers@.take(headers@.len() as int) =~= headers@);
    out
}


// ------------------------------------------------------------------ bodies

/// The first leaf part of one of the given MIME types (in any ASCII case)
/// whose body decodes, as that body.
pub open spec fn first_body(parts: Seq<MimePart>, kinds: Seq<Seq<char>>) -> Option<Seq<char>>
    decreases parts.len(),
{
    if parts.len() == 0 {
        None
    } else if parts[0].leaf && (exists|k: int| 0 <= k < kinds.len() && eq_ignore_case(parts[0].mimetype@, #[trigger] kinds[k]))
        && parts[0].body.is_some() {
        opt_text(parts[0].body)
    } else {
        first_body(parts.drop_first(), kinds)
    }
}

pub open spec fn text_kinds() -> Seq<Seq<char>> {
    seq!["text/plain"@, "text/markdown"@]
}

pub open spec fn html_kinds() -> Seq<Seq<char>> {
    seq!["text/html"@]
}

fn of_kind(mimetype: &String, kinds: &Vec<&str>) -> (r: bool)
    ensures
        r == exists|k: int| 0 <= k < kinds@.len() && eq_ignore_case(mimetype@, #[trigger] kinds@[k]@),
{
    let m = chars_of(mimetype.as_str());
    for k in 0..kinds.len()
        invariant
            m@ == mimetype@,
            forall|j: int| 0 <= j < k ==> !eq_ignore_case(mimetype@, #[trigger] kinds@[j]@),
    {
        if eq_ignore_ascii_case(m.as_slice(), chars_of(kinds[k]).as_slice()) {
            return true;
        }
    }
    false
}

fn first_body_of(parts: &Vec<MimePart>, kinds: &Vec<&str>, Ghost(ks): Ghost<Seq<Seq<char>>>) -> (r: Option<String>)
    requires
        ks == kinds@.map_values(|k: &str| k@),
    ensures
        opt_text(r) == first_body(parts@, ks),
{
    let mut i: usize = 0;
    assert(parts@.skip(0) =~= parts@);
    while i < parts.len()
        invariant
            i <= parts.len(),
            ks == kinds@.map_values(|k: &str| k@),
            first_body(parts@, ks) == first_body(parts@.skip(i as int), ks),
        decreases parts.len() - i,
    {
        assert(parts@.skip(i as int).drop_first() =~= parts@.skip(i + 1));
        assert(parts@.skip(i as int)[0] == parts@[i as int]);
        let part = &parts[i];
        let fits = of_kind(&part.mimetype, kinds);
        proof {
            if fits {
                let k = choose|k: int| 0 <= k < kinds@.len() && eq_ignore_case(part.mimetype@, #[trigger] kinds@[k]@);
                assert(ks[k] == kinds@[k]@);
            } else {
                assert forall|k: int| 0 <= k < ks.len() implies !eq_ignore_case(part.mimetype@, #[trigger] ks[k]) by {
                    assert(ks[k] == kinds@[k]@);
                }
            }
        }
        if part.leaf && fits {
            match &part.body {
                Some(b) => return Some(b.clone()),
                None => {},
            }
        }
        i = i + 1;
    }
    None
}

/// The plain-text body of a message: its first `text/plain` or
/// `text/markdown` leaf part whose body decodes.
pub fn extract_text_body(parts: &Vec<MimePart>) -> (r: Option<String>)
    ensures
        opt_text(r) == first_body(parts@, text_kinds()),
{
    let kinds = vec!["text/plain", "text/markdown"];
    proof {
        reveal_strlit("text/plain");
        reveal_strlit("text/markdown");
        assert(kinds@.map_values(|k: &str| k@) =~= text_kinds());
    }
    first_body_of(parts, &kinds, Ghost(text_kinds()))
}

/// The HTML body of a message: its first `text/html` leaf part whose body
/// decodes.
pub fn extract_html_body(parts: &Vec<MimePart>) -> (r: Option<String>)
    ensures
        opt_text(r) == first_body(parts@, html_kinds()),
{
    let kinds = vec!["text/html"];
    proof {
        reveal_strlit("text/html");
        assert(kinds@.map_values(|k: &str| k@) =~= html_kinds());
    }
    first_body_of(parts, &kinds, Ghost(html_kinds()))
}

// ------------------------------------------------------------------ attachments

/// The `Content-Disposition` of a part, lower-cased; empty when it has none.
pub open spec fn disposition_of(p: MimePart) -> Seq<char> {
    ascii_lower(match header_first(p.headers@, "Content-Disposition"@) {
        Some(v) => v,
        None => Seq::empty(),
    })
}

/// The file name of a part: the disposition's `filename`, else the
/// `Content-Type`'s `name` parameter.
pub open spec fn attachment_name(p: MimePart) -> Option<Seq<char>> {
    match disposition_filename(disposition_of(p)) {
        Some(n) => Some(n),
        None => header_lookup(p.params@, "name"@),
    }
}

/// A leaf part is an attachment when its disposition says `attachment`, or
/// says `inline` and the part has a file name.
pub open spec fn is_attachment(p: MimePart) -> bool {
    let d = disposition_of(p);
    p.leaf && (contains(d, "attachment"@) || (contains(d, "inline"@) && attachment_name(p).is_some()))
}

/// The attachment parts of a message, in order.
pub open spec fn attachment_parts(parts: Seq<MimePart>) -> Seq<MimePart>
    decreases parts.len(),
{
    if parts.len() == 0 {
        Seq::empty()
    } else if is_attachment(parts.last()) {
        attachment_parts(parts.drop_last()).push(parts.last())
    } else {
        attachment_parts(parts.drop_last())
    }
}

/// `a` describes the attachment part `p` (its id aside): its file name,
/// `attachment.bin` when it has none; its MIME type; the size of its body;
/// whether it is shown inline.
pub open spec fn describes(a: MailAttachment, p: MimePart) -> bool {
    &&& a.file_name@ == match attachment_name(p) {
        Some(n) => n,
        None => "attachment.bin"@,
    }
    &&& a.mime_type@ == p.mimetype@
    &&& a.size == p.body_raw@.len()
    &&& a.inline == contains(disposition_of(p), "inline"@)
}

/// The bodies kept for attachments `atts` of parts `ps`: each non-empty
/// body, with its attachment's id, in order.
pub open spec fn kept_contents(atts: Seq<MailAttachment>, ps: Seq<MimePart>) -> Seq<(u128, Seq<u8>)>
    decreases ps.len(),
{
    if ps.len() == 0 || atts.len() == 0 {
        Seq::empty()
    } else if ps.last().body_raw@.len() > 0 {
        kept_contents(atts.drop_last(), ps.drop_last()).push((atts.last().id, ps.last().body_raw@))
    } else {
        kept_contents(atts.drop_last(), ps.drop_last())
    }
}

pub open spec fn contents_view(c: Seq<(u128, Vec<u8>)>) -> Seq<(u128, Seq<u8>)> {
    c.map_values(|x: (u128, Vec<u8>)| (x.0, x.1@))
}

pub(crate) fn copy_bytes(v: &Vec<u8>) -> (r: Vec<u8>)
    ensures
        r@ == v@,
{
    let mut r: Vec<u8> = Vec::new();
    for i in 0..v.len()
        invariant
            r@ == v@.take(i as int),
    {
        r.push(v[i]);
        assert(r@ =~= v@.take(i + 1));
    }
    assert(v@.take(v@.len() as int) =~= v@);
    r
}

/// The attachments of a message, each with a fresh id, and the bytes of
/// those that have any.
pub fn extract_attachments(parts: &Vec<MimePart>) -> (r: (Vec<MailAttachment>, Vec<(u128, Vec<u8>)>))
    ensures
        r.0@.len() == attachment_parts(parts@).len(),
        forall|i: int| 0 <= i < r.0@.len() ==> describes(#[trigger] r.0@[i], attachment_parts(parts@)[i]),
        contents_view(r.1@) == kept_contents(r.0@, attachment_parts(parts@)),
{
    let mut atts: Vec<MailAttachment> = Vec::new();
    let mut contents: Vec<(u128, Vec<u8>)> = Vec::new();
    for n in 0..parts.len()
        invariant
            atts@.len() == attachment_parts(parts@.take(n as int)).len(),
            forall|i: int| 0 <= i < atts@.len() ==> describes(#[trigger] atts@[i], attachment_parts(parts@.take(n as int))[i]),
            contents_view(contents@) == kept_contents(atts@, attachment_parts(parts@.take(n as int))),
    {
        let ghost prev = parts@.take(n as int);
        let ghost next = parts@.take(n + 1);
        assert(next.drop_last() =~= prev);
        assert(next.last() == parts@[n as int]);
        let part = &parts[n];
        if part.leaf {
            let raw_disposition = match header_value(&part.headers, "Content-Disposition") {
                Some(v) => chars_of(v.as_str()),
                None => Vec::new(),
            };
            let d = lower(raw_disposition.as_slice());
            let d_text = string_from_chars(d.as_slice());
            let name = match header_filename(d_text.as_str()) {
                Some(n) => Some(n),
                None => header_get(&part.params, "name"),
            };
            let has_attachment = contains_seq(d.as_slice(), chars_of("attachment").as_slice());
            let has_inline = contains_seq(d.as_slice(), chars_of("inline").as_slice());
            proof {
                reveal_strlit("Content-Disposition");
                reveal_strlit("attachment");
                reveal_strlit("inline");
                reveal_strlit("name");
            }
            assert(d@ == disposition_of(*part));
            if has_attachment || (has_inline && name.is_some()) {
                assert(is_attachment(*part));
                let ghost old_atts = atts@;
                let ghost old_contents = contents@;
                let id = new_id();
                let attachment = MailAttachment {
                    id,
                    file_name: match name {
                        Some(n) => n,
                        None => "attachment.bin".to_owned(),
                    },
                    mime_type: part.mimetype.clone(),
                    size: part.body_raw.len() as u64,
                    inline: has_inline,
                };
                atts.push(attachment);
                proof {
                    reveal_strlit("attachment.bin");
                    assert(attachment_parts(next) == attachment_parts(prev).push(*part));
                    assert(atts@.drop_last() =~= old_atts);
                    assert forall|i: int| 0 <= i < atts@.len() implies describes(#[trigger] atts@[i], attachment_parts(next)[i]) by {
                        if i < old_atts.len() {
                            assert(atts@[i] == old_atts[i]);
                        }
                    }
                }
                proof {
                    let ap = attachment_parts(next);
                    assert(ap.drop_last() =~= attachment_parts(prev));
                    assert(ap.last() == *part);
                    assert(atts@.last().id == id);
                }
                if part.body_raw.len() > 0 {
                    contents.push((id, copy_bytes(&part.body_raw)));
                    assert(contents_view(contents@) =~= contents_view(old_contents).push((id, part.body_raw@)));
                }
            } else {
                assert(!is_attachment(*part));
            }
        } else {
            assert(!is_attachment(*part));
        }
    }
    assert(parts@.take(parts@.len() as int) =~= parts@);
    (atts, contents)
}


// ------------------------------------------------------------------ messages

/// What `mailparse::dateparse` reads from a `Date` header, as seconds.
pub uninterp spec fn rfc2822_secs(raw: Seq<char>) -> Option<i64>;

/// `mailparse::dateparse`: the instant an RFC 2822 date names.
#[verifier::external_body]
fn mail_date(raw: &str) -> (r: Result<i64, mailparse::MailParseError>)
    ensures
        match r {
            Ok(t) => rfc2822_secs(raw@) == Some(t),
            Err(_) => rfc2822_secs(raw@).is_none(),
        },
{
    mailparse::dateparse(raw)
}

/// What `ammonia::clean` keeps of an HTML text.
pub uninterp spec fn sanitized_html(html: Seq<char>) -> Seq<char>;

/// `ammonia::clean`: the HTML with everything unsafe taken out.
#[verifier::external_body]
pub(crate) fn clean_html(html: &str) -> (r: String)
    ensures
        r@ == sanitized_html(html@),
{
    ammonia::clean(html)
}

/// The addresses a header names; none when the header is missing.
pub open spec fn header_addresses(hs: Seq<(String, String)>, key: Seq<char>) -> Seq<(Option<Seq<char>>, Seq<char>)> {
    match header_first(hs, key) {
        Some(v) => address_list(v),
        None => Seq::empty(),
    }
}

/// The subject of a message; `(No subject)` when it has none.
pub open spec fn subject_of(hs: Seq<(String, String)>) -> Seq<char> {
    match header_first(hs, "Subject"@) {
        Some(v) => v,
        None => "(No subject)"@,
    }
}

/// When a message says it was sent: its `Date` header, when that reads as
/// an instant chrono can hold.
pub open spec fn message_sent_at(hs: Seq<(String, String)>) -> Option<i64> {
    match header_first(hs, "Date"@) {
        Some(d) => match rfc2822_secs(d) {
            Some(t) => if chrono_time(t) { Some(t) } else { None },
            None => None,
        },
        None => None,
    }
}

/// The sanitized HTML body of a message.
pub open spec fn html_of(parts: Seq<MimePart>) -> Option<Seq<char>> {
    match first_body(parts, html_kinds()) {
        Some(h) => Some(sanitized_html(h)),
        None => None,
    }
}

/// The message id of a message: its `Message-ID` header, else `fallback`.
pub open spec fn message_id_of(hs: Seq<(String, String)>, fallback: Seq<char>) -> Seq<char> {
    match header_first(hs, "Message-ID"@) {
        Some(v) => v,
        None => fallback,
    }
}

/// The thread a header map places a message in: its `References`, else its
/// `In-Reply-To`, else `fallback`.
pub open spec fn thread_of(map: Seq<(String, String)>, fallback: Seq<char>) -> Seq<char> {
    match header_lookup(map, "References"@) {
        Some(v) => v,
        None => match header_lookup(map, "In-Reply-To"@) {
            Some(v) => v,
            None => fallback,
        },
    }
}

/// The preview of a body: its first 200 characters.
pub open spec fn preview_of(body: Option<Seq<char>>) -> Seq<char> {
    let t = match body {
        Some(t) => t,
        None => Seq::empty(),
    };
    if t.len() <= 200 { t } else { t.take(200) }
}

/// What a message read from raw bytes takes from its parts: subject,
/// addresses, bodies, headers, attachments and sending time.
pub open spec fn read_from(m: MailMessage, parts: Seq<MimePart>) -> bool {
    let hs = parts[0].headers@;
    &&& m.subject@ == subject_of(hs)
    &&& addresses_view(m.from@) == header_addresses(hs, "From"@)
    &&& addresses_view(m.to@) == header_addresses(hs, "To"@)
    &&& addresses_view(m.cc@) == header_addresses(hs, "Cc"@)
    &&& addresses_view(m.bcc@) == header_addresses(hs, "Bcc"@)
    &&& addresses_view(m.reply_to@) == header_addresses(hs, "Reply-To"@)
    &&& opt_text(m.body_text) == first_body(parts, text_kinds())
    &&& opt_text(m.body_html) == html_of(parts)
    &&& header_map_of(m.headers@, hs)
    &&& m.attachments@.len() == attachment_parts(parts).len()
    &&& forall|i: int| 0 <= i < m.attachments@.len() ==> describes(#[trigger] m.attachments@[i], attachment_parts(parts)[i])
    &&& m.sent_at == message_sent_at(hs)
}

/// A freshly read message, not yet snoozed, pinned or scheduled, created
/// and updated at one instant.
pub open spec fn fresh(m: MailMessage) -> bool {
    &&& m.created_at == m.updated_at
    &&& chrono_time(m.created_at)
    &&& m.snoozed_until.is_none()
    &&& !m.pinned
    &&& m.send_at.is_none()
}

/// The parts of a message as its fields.
pub(crate) struct ReadParts {
    pub(crate) subject: String,
    pub(crate) message_id: Option<String>,
    pub(crate) from: Vec<MailAddress>,
    pub(crate) to: Vec<MailAddress>,
    pub(crate) cc: Vec<MailAddress>,
    pub(crate) bcc: Vec<MailAddress>,
    pub(crate) reply_to: Vec<MailAddress>,
    pub(crate) body_text: Option<String>,
    pub(crate) body_html: Option<String>,
    pub(crate) headers: Vec<(String, String)>,
    pub(crate) attachments: Vec<MailAttachment>,
    pub(crate) contents: Vec<(u128, Vec<u8>)>,
    pub(crate) sent_at: Option<i64>,
}

fn addresses_of(headers: &Vec<(String, String)>, key: &str) -> (r: Vec<MailAddress>)
    ensures
        addresses_view(r@) == header_addresses(headers@, key@),
{
    parse_address_list(header_value(headers, key))
}

fn sent_at_of(headers: &Vec<(String, String)>) -> (r: Option<i64>)
    ensures
        r == message_sent_at(headers@),
{
    proof {
        reveal_strlit("Date");
    }
    match header_value(headers, "Date") {
        Some(d) => match mail_date(d.as_str()) {
            Ok(t) => utc_from_secs(t),
            Err(_) => None,
        },
        None => None,
    }
}

pub(crate) fn read_parts(parts: &Vec<MimePart>) -> (r: ReadParts)
    requires
        parts@.len() > 0,
    ensures
        r.subject@ == subject_of(parts@[0].headers@),
        opt_text(r.message_id) == header_first(parts@[0].headers@, "Message-ID"@),
        addresses_view(r.from@) == header_addresses(parts@[0].headers@, "From"@),
        addresses_view(r.to@) == header_addresses(parts@[0].headers@, "To"@),
        addresses_view(r.cc@) == header_addresses(parts@[0].headers@, "Cc"@),
        addresses_view(r.bcc@) == header_addresses(parts@[0].headers@, "Bcc"@),
        addresses_view(r.reply_to@) == header_addresses(parts@[0].headers@, "Reply-To"@),
        opt_text(r.body_text) == first_body(parts@, text_kinds()),
        opt_text(r.body_html) == html_of(parts@),
        header_map_of(r.headers@, parts@[0].headers@),
        r.attachments@.len() == attachment_parts(parts@).len(),
        forall|i: int| 0 <= i < r.attachments@.len() ==> describes(#[trigger] r.attachments@[i], attachment_parts(parts@)[i]),
        contents_view(r.contents@) == kept_contents(r.attachments@, attachment_parts(parts@)),
        r.sent_at == message_sent_at(parts@[0].headers@),
{
    let hs = &parts[0].headers;
    proof {
        reveal_strlit("Subject");
        reveal_strlit("(No subject)");
    }
    let subject = match header_value(hs, "Subject") {
        Some(v) => v,
        None => "(No subject)".to_owned(),
    };
    let body_html = match extract_html_body(parts) {
        Some(h) => Some(clean_html(h.as_str())),
        None => None,
    };
    let (attachments, contents) = extract_attachments(parts);
    ReadParts {
        subject,
        message_id: header_value(hs, "Message-ID"),
        from: addresses_of(hs, "From"),
        to: addresses_of(hs, "To"),
        cc: addresses_of(hs, "Cc"),
        bcc: addresses_of(hs, "Bcc"),
        reply_to: addresses_of(hs, "Reply-To"),
        body_text: extract_text_body(parts),
        body_html,
        headers: headers_map(hs),
        attachments,
        contents,
        sent_at: sent_at_of(hs),
    }
}

/// The first 200 characters of a body.
pub fn preview_text(body: &Option<String>) -> (r: String)
    ensures
        r@ == preview_of(opt_text(*body)),
{
    match body {
        Some(t) => {
            let cs = chars_of(t.as_str());
            if cs.len() <= 200 {
                t.clone()
            } else {
                let mut out: Vec<char> = Vec::new();
                for i in 0..200
                    invariant
                        cs@ == t@,
                        cs@.len() > 200,
                        out@ == cs@.take(i as int),
                {
                    out.push(cs[i]);
                    assert(out@ =~= cs@.take(i + 1));
                }
                string_from_chars(out.as_slice())
            }
        },
        None => String::new(),
    }
}

/// `m`, read from `parts` into the folder `folder_path` of the account
/// `account_id` under `remote_id`, is a message imported from raw bytes:
/// threaded by its headers (its message id, else `remote_id`), previewed
/// from its text, with no flags or labels, received when it was sent (else
/// when it was read).
pub open spec fn imported(m: MailMessage, parts: Seq<MimePart>, account_id: u128, folder_path: Seq<char>, remote_id: Seq<char>) -> bool {
    &&& read_from(m, parts)
    &&& fresh(m)
    &&& m.account_id == account_id
    &&& m.remote_id@ == remote_id
    &&& m.folder_path@ == folder_path
    &&& m.thread_id@ == thread_of(m.headers@, message_id_of(parts[0].headers@, remote_id))
    &&& m.preview@ == preview_of(opt_text(m.body_text))
    &&& m.flags == MailFlags { seen: false, answered: false, flagged: false, deleted: false, draft: false, forwarded: false }
    &&& m.labels@.len() == 0
    &&& m.received_at == match m.sent_at {
        Some(t) => t,
        None => m.created_at,
    }
}

/// A message read from its raw RFC 822 bytes, with the bytes of its
/// attachments by attachment id. It fails, with a parse error, exactly when
/// `mailparse` refuses the bytes.
pub fn import_raw_message(account_id: u128, folder_path: &str, remote_id: &str, raw_rfc822: &[u8]) -> (r: Result<(MailMessage, Vec<(u128, Vec<u8>)>), EmailError>)
    ensures
        match r {
            Ok((m, contents)) => parsed_mime(raw_rfc822@) matches Some(parts)
                && imported(m, parts, account_id, folder_path@, remote_id@)
                && contents_view(contents@) == kept_contents(m.attachments@, attachment_parts(parts)),
            Err(e) => parsed_mime(raw_rfc822@).is_none() && e is Parse,
        },
{
    let parts = match parse_mime(raw_rfc822) {
        Ok(parts) => parts,
        Err(e) => return Err(EmailError::Parse(parse_error_text(&e))),
    };
    let now = now_utc();
    let read = read_parts(&parts);
    let message_id = match read.message_id {
        Some(v) => v,
        None => remote_id.to_owned(),
    };
    let preview = preview_text(&read.body_text);
    let thread_id = thread_id_from_headers(&read.headers, message_id.as_str());
    let message = MailMessage {
        id: new_id(),
        account_id,
        remote_id: remote_id.to_owned(),
        thread_id,
        folder_path: folder_path.to_owned(),
        from: read.from,
        to: read.to,
        cc: read.cc,
        bcc: read.bcc,
        reply_to: read.reply_to,
        subject: read.subject,
        preview,
        body_text: read.body_text,
        body_html: read.body_html,
        flags: MailFlags { seen: false, answered: false, flagged: false, deleted: false, draft: false, forwarded: false },
        labels: Vec::new(),
        headers: read.headers,
        attachments: read.attachments,
        sent_at: read.sent_at,
        received_at: match read.sent_at {
            Some(t) => t,
            None => now,
        },
        created_at: now,
        updated_at: now,
        snoozed_until: None,
        pinned: false,
        send_at: None,
    };
    Ok((message, read.contents))
}

}
