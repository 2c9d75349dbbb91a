//! Messages read from an Exchange Web Services `FindItem` reply, field by
//! field with regular expressions over its XML text.
use vstd::prelude::*;
use crate::ids::{new_id, uuid_text, uuid_to_string};
use crate::mail::{address_view, addresses_view, display_names, opt_text, OutgoingMail};
use crate::markup::{escape_xml, unescape_xml_entities, xml_escape, xml_unescape};
use crate::model::{MailAddress, MailFlags, MailFolder, MailMessage, OfflineSyncLimit};
use crate::numbers::{decimal, decimal_text};
use crate::pattern::{all_captures, all_group_ones, captures_all, first_group, first_group_text, group_ones, matches_view, opt_opt_view, groups_view};
use crate::text::{chars_of, extend, push_str, slice_range, string_from_chars};
use crate::time::{chrono_time, format_secs, format_time, formattable, now_utc, parse_rfc3339, rfc3339_secs};

verus! {

pub open spec fn message_pattern() -> Seq<char> { "(?s)<t:Message>(.*?)</t:Message>"@ }
pub open spec fn id_pattern() -> Seq<char> { "ItemId[^>]*\\bId=\\\"([^\\\"]+)\\\""@ }
pub open spec fn subject_pattern() -> Seq<char> { "(?s)<t:Subject>(.*?)</t:Subject>"@ }
pub open spec fn body_pattern() -> Seq<char> { "(?s)<t:Body[^>]*>(.*?)</t:Body>"@ }
pub open spec fn preview_pattern() -> Seq<char> { "(?s)<t:BodyPreview>(.*?)</t:BodyPreview>"@ }
pub open spec fn sent_pattern() -> Seq<char> { "(?s)<t:DateTimeSent>(.*?)</t:DateTimeSent>"@ }
pub open spec fn received_pattern() -> Seq<char> { "(?s)<t:DateTimeReceived>(.*?)</t:DateTimeReceived>"@ }
pub open spec fn from_pattern() -> Seq<char> { "(?s)<t:From>.*?<t:EmailAddress>(.*?)</t:EmailAddress>.*?</t:From>"@ }
pub open spec fn to_block_pattern() -> Seq<char> { "(?s)<t:ToRecipients>(.*?)</t:ToRecipients>"@ }
pub open spec fn address_pattern() -> Seq<char> { "(?s)<t:EmailAddress>(.*?)</t:EmailAddress>"@ }

/// What one `<t:Message>` block says.
pub struct EwsFields {
    /// The item id, when the block has one.
    pub remote_id: Option<Seq<char>>,
    pub subject: Seq<char>,
    pub body_text: Option<Seq<char>>,
    pub preview: Seq<char>,
    pub sent_at: Option<i64>,
    /// The received time, else the sent time.
    pub received_at: Option<i64>,
    pub from: Seq<Seq<char>>,
    pub to: Seq<Seq<char>>,
}

pub open spec fn unescaped(o: Option<Seq<char>>) -> Option<Seq<char>> {
    match o {
        Some(t) => Some(xml_unescape(t)),
        None => None,
    }
}

pub open spec fn instant_of(o: Option<Seq<char>>) -> Option<i64> {
    match o {
        Some(t) => rfc3339_secs(t),
        None => None,
    }
}

/// The fields of a message block: the subject defaults to "(No subject)",
/// the preview to the first 200 characters of the body, then to nothing;
/// the received time falls back to the sent time. `None` when a pattern
/// does not compile.
pub open spec fn ews_fields(block: Seq<char>) -> Option<EwsFields> {
    match (
        first_group(id_pattern(), block),
        first_group(subject_pattern(), block),
        first_group(body_pattern(), block),
        first_group(preview_pattern(), block),
        first_group(sent_pattern(), block),
        first_group(received_pattern(), block),
        first_group(from_pattern(), block),
        first_group(to_block_pattern(), block),
    ) {
        (Some(id), Some(subject), Some(body), Some(preview), Some(sent), Some(received), Some(from), Some(to_block)) => {
            match recipients_of(to_block) {
                None => None,
                Some(to) => {
                    let body_text = unescaped(body);
                    let sent_at = instant_of(sent);
                    Some(EwsFields {
                        remote_id: id,
                        subject: match subject {
                            Some(s) => xml_unescape(s),
                            None => "(No subject)"@,
                        },
                        body_text,
                        preview: match preview {
                            Some(p) => xml_unescape(p),
                            None => match body_text {
                                Some(b) => if b.len() <= 200 { b } else { b.take(200) },
                                None => Seq::empty(),
                            },
                        },
                        sent_at,
                        received_at: match instant_of(received) {
                            Some(t) => Some(t),
                            None => sent_at,
                        },
                        from: match from {
                            Some(a) => seq![xml_unescape(a)],
                            None => Seq::empty(),
                        },
                        to,
                    })
                },
            }
        },
        _ => None,
    }
}

pub open spec fn bare_addresses(a: Seq<Seq<char>>) -> Seq<(Option<Seq<char>>, Seq<char>)> {
    a.map_values(|t: Seq<char>| (None::<Seq<char>>, t))
}

/// `m` is the message of block fields `f`, stored under `id` in `folder`,
/// read at `now`; a block without an item id gets the id `fallback_remote`.
pub open spec fn ews_message(m: MailMessage, f: EwsFields, account_id: u128, folder: Seq<char>, id: u128, fallback_remote: u128, now: i64) -> bool {
    &&& m.id == id
    &&& m.account_id == account_id
    &&& m.remote_id@ == match f.remote_id {
        Some(r) => r,
        None => uuid_text(fallback_remote),
    }
    &&& m.thread_id@ == m.remote_id@
    &&& m.folder_path@ == folder
    &&& addresses_view(m.from@) == bare_addresses(f.from)
    &&& addresses_view(m.to@) == bare_addresses(f.to)
    &&& m.cc@.len() == 0 && m.bcc@.len() == 0 && m.reply_to@.len() == 0
    &&& m.subject@ == f.subject
    &&& m.preview@ == f.preview
    &&& opt_text(m.body_text) == f.body_text
    &&& m.body_html.is_none()
    &&& m.flags == (MailFlags { seen: false, answered: false, flagged: false, deleted: false, draft: false, forwarded: false })
    &&& m.labels@.len() == 0 && m.headers@.len() == 0 && m.attachments@.len() == 0
    &&& m.sent_at == f.sent_at
    &&& m.received_at == match f.received_at {
        Some(t) => t,
        None => now,
    }
    &&& m.created_at == now && m.updated_at == now
    &&& m.snoozed_until.is_none() && !m.pinned && m.send_at.is_none()
}

fn unescape_text(t: &String) -> (r: String)
    ensures
        r@ == xml_unescape(t@),
{
    let c = chars_of(t.as_str());
    let u = unescape_xml_entities(c.as_slice());
    string_from_chars(u.as_slice())
}

fn instant_of_text(o: &Option<String>) -> (r: Option<i64>)
    ensures
        r == instant_of(opt_text(*o)),
{
    match o {
        Some(t) => parse_rfc3339(t.as_str()),
        None => None,
    }
}

fn bare_address(t: String) -> (r: MailAddress)
    ensures
        address_view(r) == (None::<Seq<char>>, t@),
{
    MailAddress { name: None, address: t }
}

/// Addresses without names, from the texts of `a`.
fn bare_address_list(a: &Vec<String>) -> (r: Vec<MailAddress>)
    ensures
        addresses_view(r@) == bare_addresses(a@.map_values(|s: String| s@)),
{
    let mut out: Vec<MailAddress> = Vec::new();
    for i in 0..a.len()
        invariant
            out@.len() == i,
            forall|j: int| 0 <= j < i ==> address_view(#[trigger] out@[j]) == (None::<Seq<char>>, a@[j]@),
    {
        out.push(bare_address(a[i].clone()));
    }
    assert(addresses_view(out@) =~= bare_addresses(a@.map_values(|s: String| s@)));
    out
}

/// The texts of `a`, unescaped.
fn unescape_all(a: &Vec<String>) -> (r: Vec<String>)
    ensures
        r@.map_values(|s: String| s@) == a@.map_values(|s: String| s@).map_values(|t: Seq<char>| xml_unescape(t)),
{
    let mut out: Vec<String> = Vec::new();
    for i in 0..a.len()
        invariant
            out@.len() == i,
            forall|j: int| 0 <= j < i ==> (#[trigger] out@[j])@ == xml_unescape(a@[j]@),
    {
        out.push(unescape_text(&a[i]));
    }
    assert(out@.map_values(|s: String| s@) =~= a@.map_values(|s: String| s@).map_values(|t: Seq<char>| xml_unescape(t)));
    out
}

/// The recipients listed in a `<t:ToRecipients>` section, if there is one.
pub open spec fn recipients_of(to_block: Option<Seq<char>>) -> Option<Seq<Seq<char>>> {
    match to_block {
        None => Some(Seq::<Seq<char>>::empty()),
        Some(section) => match all_captures(address_pattern(), section) {
            None => None,
            Some(m) => Some(display_names(m)),
        },
    }
}

fn recipients(to_block: &Option<String>) -> (r: Option<Vec<MailAddress>>)
    ensures
        match recipients_of(opt_text(*to_block)) {
            None => r.is_none(),
            Some(t) => r matches Some(v) && addresses_view(v@) == bare_addresses(t),
        },
{
    match to_block {
        None => {
            let v: Vec<MailAddress> = Vec::new();
            assert(addresses_view(v@) =~= bare_addresses(Seq::<Seq<char>>::empty()));
            Some(v)
        },
        Some(section) => {
            let names = match all_group_ones("(?s)<t:EmailAddress>(.*?)</t:EmailAddress>", section.as_str()) {
                Some(n) => n,
                None => return None,
            };
            let ghost m = all_captures(address_pattern(), section@)->0;
            proof {
                lemma_display_names_unescape(m);
            }
            let un = unescape_all(&names);
            Some(bare_address_list(&un))
        },
    }
}

/// The first 200 characters of `t`.
fn first_chars(t: &String) -> (r: String)
    ensures
        r@ == if t@.len() <= 200 { t@ } else { t@.take(200) },
{
    let c = chars_of(t.as_str());
    if c.len() <= 200 {
        string_from_chars(c.as_slice())
    } else {
        let head = slice_range(c.as_slice(), 0, 200);
        assert(head@ =~= t@.take(200));
        string_from_chars(head.as_slice())
    }
}

/// `m` was read from `block`: under some id and time, and for a block without
/// an item id some fresh remote id.
pub open spec fn read_from_block(m: MailMessage, block: Seq<char>, account_id: u128, folder: Seq<char>) -> bool {
    ews_fields(block) matches Some(f) && exists|id: u128, fallback: u128, now: i64| chrono_time(now)
        && ews_message(m, f, account_id, folder, id, fallback, now)
}

/// The message of one `<t:Message>` block, stored under `id` in `folder_path`
/// and read at `now`; `fallback_remote` names a block without an item id.
/// `None` when a pattern does not compile.
pub fn ews_message_from_block(
    account_id: u128,
    folder_path: &str,
    block: &str,
    id: u128,
    fallback_remote: u128,
    now: i64,
) -> (r: Option<MailMessage>)
    ensures
        match ews_fields(block@) {
            None => r.is_none(),
            Some(f) => r matches Some(m) && ews_message(m, f, account_id, folder_path@, id, fallback_remote, now),
        },
{
    let id_cap = first_group_text("ItemId[^>]*\\bId=\\\"([^\\\"]+)\\\"", block)?;
    let subject_cap = first_group_text("(?s)<t:Subject>(.*?)</t:Subject>", block)?;
    let body_cap = first_group_text("(?s)<t:Body[^>]*>(.*?)</t:Body>", block)?;
    let preview_cap = first_group_text("(?s)<t:BodyPreview>(.*?)</t:BodyPreview>", block)?;
    let sent_cap = first_group_text("(?s)<t:DateTimeSent>(.*?)</t:DateTimeSent>", block)?;
    let received_cap = first_group_text("(?s)<t:DateTimeReceived>(.*?)</t:DateTimeReceived>", block)?;
    let from_cap = first_group_text("(?s)<t:From>.*?<t:EmailAddress>(.*?)</t:EmailAddress>.*?</t:From>", block)?;
    let to_block_cap = first_group_text("(?s)<t:ToRecipients>(.*?)</t:ToRecipients>", block)?;
    let to = recipients(&to_block_cap)?;
    let remote_id = match id_cap {
        Some(r) => r,
        None => uuid_to_string(fallback_remote),
    };
    let thread_id = remote_id.clone();
    let subject = match &subject_cap {
        Some(s) => unescape_text(s),
        None => "(No subject)".to_owned(),
    };
    let body_text = match &body_cap {
        Some(b) => Some(unescape_text(b)),
        None => None,
    };
    let preview = match &preview_cap {
        Some(p) => unescape_text(p),
        None => match &body_text {
            Some(b) => first_chars(b),
            None => String::new(),
        },
    };
    let sent_at = instant_of_text(&sent_cap);
    let received_at = match instant_of_text(&received_cap) {
        Some(t) => t,
        None => match sent_at {
            Some(t) => t,
            None => now,
        },
    };
    let from = match &from_cap {
        Some(a) => {
            let mut v: Vec<MailAddress> = Vec::new();
            v.push(bare_address(unescape_text(a)));
            assert(addresses_view(v@) =~= bare_addresses(seq![xml_unescape(a@)]));
            v
        },
        None => {
            let v: Vec<MailAddress> = Vec::new();
            assert(addresses_view(v@) =~= bare_addresses(Seq::<Seq<char>>::empty()));
            v
        },
    };
    Some(MailMessage {
        id,
        account_id,
        remote_id,
        thread_id,
        folder_path: folder_path.to_owned(),
        from,
        to,
        cc: Vec::new(),
        bcc: Vec::new(),
        reply_to: Vec::new(),
        subject,
        preview,
        body_text,
        body_html: None,
        flags: MailFlags::default(),
        labels: Vec::new(),
        headers: Vec::new(),
        attachments: Vec::new(),
        sent_at,
        received_at,
        created_at: now,
        updated_at: now,
        snoozed_until: None,
        pinned: false,
        send_at: None,
    })
}

/// The unescaped group-1 texts are the group-1 texts unescaped.
proof fn lemma_display_names_unescape(m: Seq<Seq<Option<Seq<char>>>>)
    ensures
        display_names(m) == group_ones(m).map_values(|t: Seq<char>| xml_unescape(t)),
    decreases m.len(),
{
    if m.len() > 0 {
        lemma_display_names_unescape(m.drop_last());
        let g = m.last();
        assert(group_ones(m).map_values(|t: Seq<char>| xml_unescape(t)) =~= if g.len() > 1 && g[1] is Some {
            group_ones(m.drop_last()).map_values(|t: Seq<char>| xml_unescape(t)).push(xml_unescape(g[1]->0))
        } else {
            group_ones(m.drop_last()).map_values(|t: Seq<char>| xml_unescape(t))
        });
    } else {
        assert(group_ones(m).map_values(|t: Seq<char>| xml_unescape(t)) =~= Seq::<Seq<char>>::empty());
    }
}

/// The messages of an EWS `FindItem` reply, one per `<t:Message>` block, each
/// with fresh ids and read at the current time; `None` when a pattern does
/// not compile.
pub fn parse_ews_messages(account_id: u128, folder_path: &str, payload: &str) -> (r: Option<Vec<MailMessage>>)
    ensures
        match r {
            Some(v) => all_captures(message_pattern(), payload@) matches Some(m) && v@.len() == group_ones(m).len()
                && forall|i: int| 0 <= i < v@.len() ==> read_from_block(#[trigger] v@[i], group_ones(m)[i], account_id, folder_path@),
            None => all_captures(message_pattern(), payload@) matches Some(m)
                ==> exists|i: int| 0 <= i < group_ones(m).len() && ews_fields(#[trigger] group_ones(m)[i]).is_none(),
        },
{
    let blocks = all_group_ones("(?s)<t:Message>(.*?)</t:Message>", payload)?;
    let ghost m = all_captures(message_pattern(), payload@)->0;
    let ghost bs = blocks@.map_values(|s: String| s@);
    let mut out: Vec<MailMessage> = Vec::new();
    for i in 0..blocks.len()
        invariant
            bs == blocks@.map_values(|s: String| s@),
            bs == group_ones(m),
            all_captures(message_pattern(), payload@) == Some(m),
            out@.len() == i,
            forall|j: int| 0 <= j < i ==> read_from_block(#[trigger] out@[j], bs[j], account_id, folder_path@),
    {
        let id = new_id();
        let fallback = new_id();
        let now = now_utc();
        assert(bs[i as int] == blocks@[i as int]@);
        match ews_message_from_block(account_id, folder_path, blocks[i].as_str(), id, fallback, now) {
            Some(msg) => {
                proof {
                    let f = ews_fields(bs[i as int])->0;
                    assert(ews_message(msg, f, account_id, folder_path@, id, fallback, now));
                    assert(read_from_block(msg, bs[i as int], account_id, folder_path@));
                }
                let ghost prev = out@;
                out.push(msg);
                assert(forall|j: int| 0 <= j < i ==> out@[j] == prev[j]);
            },
            None => {
                assert(ews_fields(group_ones(m)[i as int]).is_none());
                assert(exists|k: int| 0 <= k < group_ones(m).len() && ews_fields(#[trigger] group_ones(m)[k]).is_none());
                assert(all_captures(message_pattern(), payload@) matches Some(mm) ==> mm == m);
                return None;
            },
        }
    }
    Some(out)
}

}

verus! {

// ------------------------------------------------------------------ requests

/// How a request to an Exchange server authenticates: with the access token
/// when there is one, else with the user name and password when there is a
/// password, else not at all.
#[derive(Debug, Clone, PartialEq, Eq)]
pub enum EwsAuth {
    Bearer(String),
    Basic(String, String),
    Anonymous,
}

pub fn ews_auth(settings: &crate::mail::ProtocolSettings) -> (r: EwsAuth)
    ensures
        match settings.access_token {
            Some(t) => r matches EwsAuth::Bearer(b) && b@ == t@,
            None => match settings.password {
                Some(p) => r matches EwsAuth::Basic(u, q) && u@ == settings.username@ && q@ == p@,
                None => r is Anonymous,
            },
        },
{
    match &settings.access_token {
        Some(t) => EwsAuth::Bearer(t.clone()),
        None => match &settings.password {
            Some(p) => EwsAuth::Basic(settings.username.clone(), p.clone()),
            None => EwsAuth::Anonymous,
        },
    }
}

/// The folders of an Exchange `FindFolder` reply; the usual folders when it
/// names none.
pub fn ews_folders_or_default(account_id: u128, payload: &str) -> (r: Vec<MailFolder>)
    ensures
        match all_captures(crate::mail::ews_folder_pattern(), payload@) {
            Some(m) if display_names(m).len() > 0 => r@.len() == display_names(m).len()
                && forall|i: int| 0 <= i < r@.len() ==> crate::mail::named_folder(#[trigger] r@[i], account_id, display_names(m)[i]),
            _ => r@.len() == crate::mail::ews_default_names().len()
                && forall|i: int| 0 <= i < r@.len() ==> crate::mail::named_folder(#[trigger] r@[i], account_id, crate::mail::ews_default_names()[i]),
        },
{
    match crate::mail::parse_ews_folders(account_id, payload) {
        Some(v) => if v.len() > 0 { v } else { crate::mail::default_ews_folders(account_id) },
        None => crate::mail::default_ews_folders(account_id),
    }
}

pub open spec fn soap_head() -> Seq<char> {
    "<soap:Envelope xmlns:soap=\"http://schemas.xmlsoap.org/soap/envelope/\" xmlns:t=\"http://schemas.microsoft.com/exchange/services/2006/types\">\n<soap:Body>\n"@
}

pub open spec fn soap_tail() -> Seq<char> {
    "\n</soap:Body>\n</soap:Envelope>"@
}

/// The restriction of a `FindItem` to mail received since an instant.
pub open spec fn received_since(t: i64) -> Seq<char> {
    "    <Restriction>\n      <t:IsGreaterThanOrEqualTo>\n        <t:FieldURI FieldURI=\"item:DateTimeReceived\" />\n        <t:FieldURIOrConstant>\n          <t:Constant Value=\""@
        + format_secs(t, "%Y-%m-%dT%H:%M:%SZ"@)
        + "\" />\n        </t:FieldURIOrConstant>\n      </t:IsGreaterThanOrEqualTo>\n    </Restriction>"@
}

/// The `FindItem` request for the newest `limit` items of a folder, with a
/// sync window of some days ending at `now` when there is one.
pub open spec fn find_item_soap(folder_path: Seq<char>, limit: usize, window: Option<OfflineSyncLimit>, now: i64) -> Seq<char> {
    let restriction = match window {
        Some(OfflineSyncLimit::Days(days)) => received_since((now - days * 86400) as i64),
        _ => Seq::empty(),
    };
    soap_head()
        + "  <FindItem xmlns=\"http://schemas.microsoft.com/exchange/services/2006/messages\" Traversal=\"Shallow\">\n    <ItemShape><t:BaseShape>AllProperties</t:BaseShape></ItemShape>\n    <IndexedPageItemView MaxEntriesReturned=\""@
        + decimal(limit as nat)
        + "\" Offset=\"0\" BasePoint=\"Beginning\"/>\n"@
        + restriction
        + "\n    <ParentFolderIds><t:DistinguishedFolderId Id=\""@
        + crate::mail::distinguished_folder(folder_path)
        + "\"/></ParentFolderIds>\n  </FindItem>"@
        + soap_tail()
}

pub fn ews_find_item_soap(folder_path: &str, limit: usize, window: Option<OfflineSyncLimit>, now: i64) -> (r: String)
    requires
        window matches Some(OfflineSyncLimit::Days(days)) ==> now - days * 86400 >= i64::MIN && formattable((now - days * 86400) as i64),
    ensures
        r@ == find_item_soap(folder_path@, limit, window, now),
{
    let mut s: Vec<char> = Vec::new();
    push_str(&mut s, "<soap:Envelope xmlns:soap=\"http://schemas.xmlsoap.org/soap/envelope/\" xmlns:t=\"http://schemas.microsoft.com/exchange/services/2006/types\">\n<soap:Body>\n");
    push_str(&mut s, "  <FindItem xmlns=\"http://schemas.microsoft.com/exchange/services/2006/messages\" Traversal=\"Shallow\">\n    <ItemShape><t:BaseShape>AllProperties</t:BaseShape></ItemShape>\n    <IndexedPageItemView MaxEntriesReturned=\"");
    let d = decimal_text(limit as u64);
    extend(&mut s, d.as_slice());
    push_str(&mut s, "\" Offset=\"0\" BasePoint=\"Beginning\"/>\n");
    match window {
        Some(OfflineSyncLimit::Days(days)) => {
            let after = now - (days as i64) * 86400;
            push_str(&mut s, "    <Restriction>\n      <t:IsGreaterThanOrEqualTo>\n        <t:FieldURI FieldURI=\"item:DateTimeReceived\" />\n        <t:FieldURIOrConstant>\n          <t:Constant Value=\"");
            let t = format_time(after, "%Y-%m-%dT%H:%M:%SZ");
            push_str(&mut s, t.as_str());
            push_str(&mut s, "\" />\n        </t:FieldURIOrConstant>\n      </t:IsGreaterThanOrEqualTo>\n    </Restriction>");
        },
        _ => {},
    }
    push_str(&mut s, "\n    <ParentFolderIds><t:DistinguishedFolderId Id=\"");
    push_str(&mut s, crate::mail::ews_distinguished_folder(folder_path));
    push_str(&mut s, "\"/></ParentFolderIds>\n  </FindItem>");
    push_str(&mut s, "\n</soap:Body>\n</soap:Envelope>");
    string_from_chars(s.as_slice())
}

/// One recipient of a `CreateItem`: its name (empty when none) and address,
/// escaped.
pub open spec fn mailbox_xml(a: MailAddress) -> Seq<char> {
    "<t:Mailbox><t:Name>"@ + xml_escape(match a.name {
        Some(n) => n@,
        None => Seq::empty(),
    }) + "</t:Name><t:EmailAddress>"@ + xml_escape(a.address@) + "</t:EmailAddress></t:Mailbox>"@
}

pub open spec fn mailboxes_xml(s: Seq<MailAddress>) -> Seq<char>
    decreases s.len(),
{
    if s.len() == 0 {
        Seq::empty()
    } else {
        mailboxes_xml(s.drop_last()) + mailbox_xml(s.last())
    }
}

/// The `CreateItem` request that sends a message and keeps a copy in Sent
/// Items: its subject, its HTML body when it has one (else its text), and
/// its recipients.
pub open spec fn create_item_soap(m: OutgoingMail) -> Seq<char> {
    let (kind, content) = match m.body_html {
        Some(h) => ("HTML"@, h@),
        None => ("Text"@, m.body_text@),
    };
    soap_head()
        + "  <CreateItem xmlns=\"http://schemas.microsoft.com/exchange/services/2006/messages\" MessageDisposition=\"SendAndSaveCopy\">\n    <SavedItemFolderId><t:DistinguishedFolderId Id=\"sentitems\"/></SavedItemFolderId>\n    <Items>\n      <t:Message>\n        <t:Subject>"@
        + xml_escape(m.subject@)
        + "</t:Subject>\n        <t:Body BodyType=\""@
        + kind
        + "\">"@
        + xml_escape(content)
        + "</t:Body>\n        <t:ToRecipients>"@
        + mailboxes_xml(m.to@)
        + "</t:ToRecipients>\n      </t:Message>\n    </Items>\n  </CreateItem>"@
        + soap_tail()
}

pub fn ews_create_item_soap(outgoing: &OutgoingMail) -> (r: String)
    ensures
        r@ == create_item_soap(*outgoing),
{
    let mut boxes: Vec<char> = Vec::new();
    for i in 0..outgoing.to.len()
        invariant
            boxes@ == mailboxes_xml(outgoing.to@.take(i as int)),
    {
        assert(outgoing.to@.take(i + 1).drop_last() =~= outgoing.to@.take(i as int));
        let a = &outgoing.to[i];
        push_str(&mut boxes, "<t:Mailbox><t:Name>");
        let name: Vec<char> = match &a.name {
            Some(n) => chars_of(n.as_str()),
            None => Vec::new(),
        };
        let en = escape_xml(name.as_slice());
        extend(&mut boxes, en.as_slice());
        push_str(&mut boxes, "</t:Name><t:EmailAddress>");
        let ea = escape_xml(chars_of(a.address.as_str()).as_slice());
        extend(&mut boxes, ea.as_slice());
        push_str(&mut boxes, "</t:EmailAddress></t:Mailbox>");
    }
    assert(outgoing.to@.take(outgoing.to@.len() as int) =~= outgoing.to@);
    let (kind, content): (&str, &String) = match &outgoing.body_html {
        Some(h) => ("HTML", h),
        None => ("Text", &outgoing.body_text),
    };
    let mut s: Vec<char> = Vec::new();
    push_str(&mut s, "<soap:Envelope xmlns:soap=\"http://schemas.xmlsoap.org/soap/envelope/\" xmlns:t=\"http://schemas.microsoft.com/exchange/services/2006/types\">\n<soap:Body>\n");
    push_str(&mut s, "  <CreateItem xmlns=\"http://schemas.microsoft.com/exchange/services/2006/messages\" MessageDisposition=\"SendAndSaveCopy\">\n    <SavedItemFolderId><t:DistinguishedFolderId Id=\"sentitems\"/></SavedItemFolderId>\n    <Items>\n      <t:Message>\n        <t:Subject>");
    let es = escape_xml(chars_of(outgoing.subject.as_str()).as_slice());
    extend(&mut s, es.as_slice());
    push_str(&mut s, "</t:Subject>\n        <t:Body BodyType=\"");
    push_str(&mut s, kind);
    push_str(&mut s, "\">");
    let ec = escape_xml(chars_of(content.as_str()).as_slice());
    extend(&mut s, ec.as_slice());
    push_str(&mut s, "</t:Body>\n        <t:ToRecipients>");
    extend(&mut s, boxes.as_slice());
    push_str(&mut s, "</t:ToRecipients>\n      </t:Message>\n    </Items>\n  </CreateItem>");
    push_str(&mut s, "\n</soap:Body>\n</soap:Envelope>");
    string_from_chars(s.as_slice())
}

}
