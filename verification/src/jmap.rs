//! Folders and messages read from JMAP (`Mailbox/get`, `Email/get`) replies.
use vstd::prelude::*;
use crate::ids::new_id;
use crate::json::{
    entries_get, entries_lookup, jarr, jget, jget_opt, jobj, json_array, json_get, json_get_opt,
    json_object, json_str, json_u64, jstr, ju64, opt_ref, JsonValue,
};
use crate::mail::{address_view, addresses_view, opt_text};
use crate::model::{MailAddress, MailAttachment, MailFlags, MailFolder, MailMessage};
use crate::text::{chars_of, eq_ignore_ascii_case, eq_ignore_case, seq_eq};
use crate::time::{chrono_time, now_utc, parse_rfc3339, rfc3339_secs};

verus! {

// ------------------------------------------------------------------ method responses

/// The `methodResponses` array of a reply; empty when there is none.
pub open spec fn method_responses(payload: JsonValue) -> Seq<JsonValue> {
    match jarr(jget(payload, "methodResponses"@)) {
        Some(a) => a,
        None => Seq::empty(),
    }
}

/// The name of a method response: the string that opens its array.
pub open spec fn method_name(method: JsonValue) -> Option<Seq<char>> {
    match method {
        JsonValue::Array(parts) => if parts@.len() > 0 { jstr(Some(parts@[0])) } else { None },
        _ => None,
    }
}

/// The parts of the first method response named `name`.
pub open spec fn first_method(methods: Seq<JsonValue>, name: Seq<char>) -> Option<Seq<JsonValue>>
    decreases methods.len(),
{
    if methods.len() == 0 {
        None
    } else if method_name(methods[0]) == Some(name) {
        match methods[0] {
            JsonValue::Array(parts) => Some(parts@),
            _ => None,
        }
    } else {
        first_method(methods.drop_first(), name)
    }
}

pub open spec fn second(parts: Seq<JsonValue>) -> Option<JsonValue> {
    if parts.len() > 1 { Some(parts[1]) } else { None }
}

/// The `list` of a method response's arguments; empty when there is none.
pub open spec fn method_list(parts: Seq<JsonValue>) -> Seq<JsonValue> {
    match jarr(jget_opt(second(parts), "list"@)) {
        Some(a) => a,
        None => Seq::empty(),
    }
}

/// The list of the first response to the method `name`; empty without one.
pub open spec fn listed(payload: JsonValue, name: Seq<char>) -> Seq<JsonValue> {
    match first_method(method_responses(payload), name) {
        Some(parts) => method_list(parts),
        None => Seq::empty(),
    }
}

fn method_name_of(method: &JsonValue) -> (r: Option<&String>)
    ensures
        match r {
            Some(s) => method_name(*method) == Some(s@),
            None => method_name(*method).is_none(),
        },
{
    match method {
        JsonValue::Array(parts) => {
            if parts.len() > 0 {
                json_str(Some(&parts[0]))
            } else {
                None
            }
        },
        _ => None,
    }
}

fn is_named(method: &JsonValue, name: &str) -> (r: bool)
    ensures
        r == (method_name(*method) == Some(name@)),
{
    match method_name_of(method) {
        Some(s) => {
            let a = chars_of(s.as_str());
            let b = chars_of(name);
            seq_eq(a.as_slice(), b.as_slice())
        },
        None => false,
    }
}

/// The list of the first response to the method `name`.
fn listed_items<'a>(payload: &'a JsonValue, name: &str) -> (r: Option<&'a Vec<JsonValue>>)
    ensures
        match r {
            Some(a) => a@ == listed(*payload, name@),
            None => listed(*payload, name@).len() == 0,
        },
{
    let methods = match json_array(json_get(payload, "methodResponses")) {
        Some(m) => m,
        None => return None,
    };
    let mut i: usize = 0;
    assert(methods@.skip(0) =~= methods@);
    while i < methods.len()
        invariant
            i <= methods.len(),
            method_responses(*payload) == methods@,
            first_method(methods@, name@) == first_method(methods@.skip(i as int), name@),
        decreases methods.len() - i,
    {
        assert(methods@.skip(i as int).drop_first() =~= methods@.skip(i + 1));
        assert(methods@.skip(i as int)[0] == methods@[i as int]);
        if is_named(&methods[i], name) {
            match &methods[i] {
                JsonValue::Array(parts) => {
                    let args = if parts.len() > 1 { Some(&parts[1]) } else { None };
                    return json_array(json_get_opt(args, "list"));
                },
                _ => return None,
            }
        }
        i = i + 1;
    }
    None
}

// ------------------------------------------------------------------ folders

/// The folder that one `Mailbox/get` entry describes: its id, its name
/// (else "Mailbox"), and its unread and total counts (else 0, kept to 32
/// bits); nothing without an id.
pub open spec fn jmap_folder(entry: JsonValue) -> Option<(Seq<char>, Seq<char>, u32, u32)> {
    match jstr(jget(entry, "id"@)) {
        None => None,
        Some(id) => Some((
            id,
            match jstr(jget(entry, "name"@)) {
                Some(n) => n,
                None => "Mailbox"@,
            },
            match ju64(jget(entry, "unreadEmails"@)) {
                Some(n) => n as u32,
                None => 0,
            },
            match ju64(jget(entry, "totalEmails"@)) {
                Some(n) => n as u32,
                None => 0,
            },
        )),
    }
}

pub open spec fn jmap_folder_list(list: Seq<JsonValue>) -> Seq<(Seq<char>, Seq<char>, u32, u32)>
    decreases list.len(),
{
    if list.len() == 0 {
        Seq::empty()
    } else {
        let rest = jmap_folder_list(list.drop_last());
        match jmap_folder(list.last()) {
            Some(f) => rest.push(f),
            None => rest,
        }
    }
}

pub open spec fn folder_view(f: MailFolder) -> (Seq<char>, Seq<char>, u32, u32) {
    (f.remote_id@, f.path@, f.unread_count, f.total_count)
}

fn folder_of_entry(account_id: u128, entry: &JsonValue) -> (r: Option<MailFolder>)
    ensures
        match jmap_folder(*entry) {
            None => r.is_none(),
            Some(f) => r matches Some(m) && folder_view(m) == f && m.account_id == account_id
                && opt_text(m.delimiter) == Some("/"@),
        },
{
    let id = json_str(json_get(entry, "id"))?;
    let name = match json_str(json_get(entry, "name")) {
        Some(n) => n.clone(),
        None => "Mailbox".to_owned(),
    };
    let unread = match json_u64(json_get(entry, "unreadEmails")) {
        Some(n) => n as u32,
        None => 0,
    };
    let total = match json_u64(json_get(entry, "totalEmails")) {
        Some(n) => n as u32,
        None => 0,
    };
    Some(MailFolder {
        account_id,
        remote_id: id.clone(),
        path: name,
        delimiter: Some("/".to_owned()),
        unread_count: unread,
        total_count: total,
    })
}

/// The folders of a `Mailbox/get` reply, in the order listed; entries
/// without an id are skipped.
pub fn parse_jmap_folders(account_id: u128, payload: &JsonValue) -> (r: Vec<MailFolder>)
    ensures
        r@.map_values(|f: MailFolder| folder_view(f)) == jmap_folder_list(listed(*payload, "Mailbox/get"@)),
        forall|i: int| 0 <= i < r@.len() ==> (#[trigger] r@[i]).account_id == account_id
            && opt_text(r@[i].delimiter) == Some("/"@),
{
    let mut out: Vec<MailFolder> = Vec::new();
    let list = match listed_items(payload, "Mailbox/get") {
        Some(l) => l,
        None => {
            assert(out@.map_values(|f: MailFolder| folder_view(f)) =~= jmap_folder_list(Seq::<JsonValue>::empty()));
            return out;
        },
    };
    for i in 0..list.len()
        invariant
            out@.map_values(|f: MailFolder| folder_view(f)) == jmap_folder_list(list@.take(i as int)),
            forall|j: int| 0 <= j < out@.len() ==> (#[trigger] out@[j]).account_id == account_id
                && opt_text(out@[j].delimiter) == Some("/"@),
    {
        assert(list@.take(i + 1).drop_last() =~= list@.take(i as int));
        match folder_of_entry(account_id, &list[i]) {
            Some(f) => {
                out.push(f);
                assert(out@.map_values(|f: MailFolder| folder_view(f)) =~= jmap_folder_list(list@.take(i as int)).push(folder_view(f)));
            },
            None => {},
        }
    }
    assert(list@.take(list.len() as int) =~= list@);
    out
}

// ------------------------------------------------------------------ addresses and bodies

/// The address of one JMAP address entry: its `email`, with its `name`
/// when that is a non-empty string; nothing without an email.
pub open spec fn jmap_address(entry: JsonValue) -> Option<(Option<Seq<char>>, Seq<char>)> {
    match jstr(jget(entry, "email"@)) {
        None => None,
        Some(a) => Some((
            match jstr(jget(entry, "name"@)) {
                Some(n) => if n.len() == 0 { None } else { Some(n) },
                None => None,
            },
            a,
        )),
    }
}

pub open spec fn jmap_address_list(list: Seq<JsonValue>) -> Seq<(Option<Seq<char>>, Seq<char>)>
    decreases list.len(),
{
    if list.len() == 0 {
        Seq::empty()
    } else {
        let rest = jmap_address_list(list.drop_last());
        match jmap_address(list.last()) {
            Some(a) => rest.push(a),
            None => rest,
        }
    }
}

/// The addresses of an optional address array; none when it is not an array.
pub open spec fn jmap_addresses(v: Option<JsonValue>) -> Seq<(Option<Seq<char>>, Seq<char>)> {
    match jarr(v) {
        Some(a) => jmap_address_list(a),
        None => Seq::empty(),
    }
}

pub fn parse_jmap_addresses(value: Option<&JsonValue>) -> (r: Vec<MailAddress>)
    ensures
        addresses_view(r@) == jmap_addresses(opt_ref(value)),
{
    let mut out: Vec<MailAddress> = Vec::new();
    let list = match json_array(value) {
        Some(l) => l,
        None => {
            assert(addresses_view(out@) =~= Seq::<(Option<Seq<char>>, Seq<char>)>::empty());
            return out;
        },
    };
    for i in 0..list.len()
        invariant
            addresses_view(out@) == jmap_address_list(list@.take(i as int)),
    {
        assert(list@.take(i + 1).drop_last() =~= list@.take(i as int));
        let entry = &list[i];
        match json_str(json_get(entry, "email")) {
            Some(a) => {
                let name = match json_str(json_get(entry, "name")) {
                    Some(n) => if n.as_str().is_empty() { None } else { Some(n.clone()) },
                    None => None,
                };
                let addr = MailAddress { name, address: a.clone() };
                out.push(addr);
                assert(addresses_view(out@) =~= jmap_address_list(list@.take(i as int)).push(address_view(addr)));
            },
            None => {},
        }
    }
    assert(list@.take(list.len() as int) =~= list@);
    out
}

/// The body text that the parts select: the `value` of the first part whose
/// `partId` names a body value holding a string value; nothing as soon as a
/// part has no `partId` or names no body value.
pub open spec fn picked_body(parts: Seq<JsonValue>, values: Seq<(String, JsonValue)>) -> Option<Seq<char>>
    decreases parts.len(),
{
    if parts.len() == 0 {
        None
    } else {
        match jstr(jget(parts[0], "partId"@)) {
            None => None,
            Some(id) => match entries_get(values, id) {
                None => None,
                Some(v) => match jstr(jget(v, "value"@)) {
                    Some(t) => Some(t),
                    None => picked_body(parts.drop_first(), values),
                },
            },
        }
    }
}

pub open spec fn jmap_body(parts: Option<JsonValue>, values: Seq<(String, JsonValue)>) -> Option<Seq<char>> {
    match jarr(parts) {
        Some(p) => picked_body(p, values),
        None => None,
    }
}

pub fn pick_jmap_body(body_parts: Option<&JsonValue>, values: &Vec<(String, JsonValue)>) -> (r: Option<String>)
    ensures
        opt_text(r) == jmap_body(opt_ref(body_parts), values@),
{
    let parts = json_array(body_parts)?;
    let mut i: usize = 0;
    assert(parts@.skip(0) =~= parts@);
    while i < parts.len()
        invariant
            i <= parts.len(),
            jmap_body(opt_ref(body_parts), values@) == picked_body(parts@.skip(i as int), values@),
        decreases parts.len() - i,
    {
        assert(parts@.skip(i as int).drop_first() =~= parts@.skip(i + 1));
        assert(parts@.skip(i as int)[0] == parts@[i as int]);
        let part_id = json_str(json_get(&parts[i], "partId"))?;
        let value = entries_lookup(values, part_id.as_str())?;
        match json_str(json_get(value, "value")) {
            Some(text) => return Some(text.clone()),
            None => {},
        }
        i = i + 1;
    }
    None
}

// ------------------------------------------------------------------ messages

/// The flags that a `keywords` object sets: seen, answered, flagged and draft
/// by `$seen`, `$answered`, `$flagged` and `$draft`; none without keywords.
pub open spec fn keyword_flags(keywords: Option<Seq<(String, JsonValue)>>) -> MailFlags {
    match keywords {
        Some(k) => MailFlags {
            seen: entries_get(k, "$seen"@) is Some,
            answered: entries_get(k, "$answered"@) is Some,
            flagged: entries_get(k, "$flagged"@) is Some,
            deleted: false,
            draft: entries_get(k, "$draft"@) is Some,
            forwarded: false,
        },
        None => MailFlags { seen: false, answered: false, flagged: false, deleted: false, draft: false, forwarded: false },
    }
}

/// An attachment as one `attachments` entry describes it, its id aside.
pub open spec fn jmap_attachment(a: MailAttachment, entry: JsonValue) -> bool {
    &&& a.file_name@ == match jstr(jget(entry, "name"@)) {
        Some(n) => n,
        None => "attachment.bin"@,
    }
    &&& a.mime_type@ == match jstr(jget(entry, "type"@)) {
        Some(t) => t,
        None => "application/octet-stream"@,
    }
    &&& a.size == match ju64(jget(entry, "size"@)) {
        Some(n) => n,
        None => 0,
    }
    &&& a.inline == match jstr(jget(entry, "disposition"@)) {
        Some(d) => eq_ignore_case(d, "inline"@),
        None => false,
    }
}

pub open spec fn or_default(o: Option<Seq<char>>, d: Seq<char>) -> Seq<char> {
    match o {
        Some(t) => t,
        None => d,
    }
}

pub open spec fn instant(o: Option<Seq<char>>) -> Option<i64> {
    match o {
        Some(t) => rfc3339_secs(t),
        None => None,
    }
}

/// `m` is the message that one `Email/get` entry describes, stored under
/// `id` in `folder` and read at `now`; attachment ids are fresh.
pub open spec fn jmap_message(m: MailMessage, entry: JsonValue, account_id: u128, folder: Seq<char>, id: u128, now: i64) -> bool {
    let remote = or_default(jstr(jget(entry, "id"@)), "unknown"@);
    let sent = instant(jstr(jget(entry, "sentAt"@)));
    let values = match jobj(jget(entry, "bodyValues"@)) {
        Some(v) => v,
        None => Seq::empty(),
    };
    let attachments = match jarr(jget(entry, "attachments"@)) {
        Some(a) => a,
        None => Seq::empty(),
    };
    &&& m.id == id
    &&& m.account_id == account_id
    &&& m.remote_id@ == remote
    &&& m.thread_id@ == or_default(jstr(jget(entry, "threadId"@)), remote)
    &&& m.folder_path@ == folder
    &&& addresses_view(m.from@) == jmap_addresses(jget(entry, "from"@))
    &&& addresses_view(m.to@) == jmap_addresses(jget(entry, "to"@))
    &&& addresses_view(m.cc@) == jmap_addresses(jget(entry, "cc"@))
    &&& addresses_view(m.bcc@) == jmap_addresses(jget(entry, "bcc"@))
    &&& addresses_view(m.reply_to@) == jmap_addresses(jget(entry, "replyTo"@))
    &&& m.subject@ == or_default(jstr(jget(entry, "subject"@)), "(No subject)"@)
    &&& m.preview@ == or_default(jstr(jget(entry, "preview"@)), Seq::empty())
    &&& opt_text(m.body_text) == jmap_body(jget(entry, "textBody"@), values)
    &&& opt_text(m.body_html) == jmap_body(jget(entry, "htmlBody"@), values)
    &&& m.flags == keyword_flags(jobj(jget(entry, "keywords"@)))
    &&& m.labels@.len() == 0 && m.headers@.len() == 0
    &&& m.attachments@.len() == attachments.len()
    &&& forall|i: int| 0 <= i < attachments.len() ==> jmap_attachment(#[trigger] m.attachments@[i], attachments[i])
    &&& m.sent_at == sent
    &&& m.received_at == match instant(jstr(jget(entry, "receivedAt"@))) {
        Some(t) => t,
        None => match sent {
            Some(t) => t,
            None => now,
        },
    }
    &&& m.created_at == now && m.updated_at == now
    &&& m.snoozed_until.is_none() && !m.pinned && m.send_at.is_none()
}

fn text_or(v: Option<&String>, d: &str) -> (r: String)
    ensures
        r@ == match v {
            Some(s) => s@,
            None => d@,
        },
{
    match v {
        Some(s) => s.clone(),
        None => d.to_owned(),
    }
}

fn instant_of(v: Option<&String>) -> (r: Option<i64>)
    ensures
        r == instant(match v {
            Some(s) => Some(s@),
            None => None,
        }),
{
    match v {
        Some(s) => parse_rfc3339(s.as_str()),
        None => None,
    }
}

fn flags_of(keywords: Option<&Vec<(String, JsonValue)>>) -> (r: MailFlags)
    ensures
        r == keyword_flags(match keywords {
            Some(k) => Some(k@),
            None => None,
        }),
{
    let mut flags = MailFlags::default();
    match keywords {
        Some(k) => {
            flags.seen = entries_lookup(k, "$seen").is_some();
            flags.answered = entries_lookup(k, "$answered").is_some();
            flags.flagged = entries_lookup(k, "$flagged").is_some();
            flags.draft = entries_lookup(k, "$draft").is_some();
        },
        None => {},
    }
    flags
}

fn attachment_of(entry: &JsonValue) -> (r: MailAttachment)
    ensures
        jmap_attachment(r, *entry),
{
    let inline = match json_str(json_get(entry, "disposition")) {
        Some(d) => {
            let a = chars_of(d.as_str());
            let b = chars_of("inline");
            eq_ignore_ascii_case(a.as_slice(), b.as_slice())
        },
        None => false,
    };
    MailAttachment {
        id: new_id(),
        file_name: text_or(json_str(json_get(entry, "name")), "attachment.bin"),
        mime_type: text_or(json_str(json_get(entry, "type")), "application/octet-stream"),
        size: match json_u64(json_get(entry, "size")) {
            Some(n) => n,
            None => 0,
        },
        inline,
    }
}

fn attachments_of(list: Option<&Vec<JsonValue>>) -> (r: Vec<MailAttachment>)
    ensures
        r@.len() == match list {
            Some(l) => l@.len(),
            None => 0,
        },
        forall|i: int| 0 <= i < r@.len() ==> jmap_attachment(#[trigger] r@[i], list->0@[i]),
{
    let mut out: Vec<MailAttachment> = Vec::new();
    match list {
        Some(l) => {
            for i in 0..l.len()
                invariant
                    out@.len() == i,
                    forall|j: int| 0 <= j < i ==> jmap_attachment(#[trigger] out@[j], l@[j]),
            {
                out.push(attachment_of(&l[i]));
            }
        },
        None => {},
    }
    out
}

/// The message of one `Email/get` entry, stored under `id` in `folder_path`
/// and read at `now`.
pub fn jmap_message_from_entry(account_id: u128, folder_path: &str, entry: &JsonValue, id: u128, now: i64) -> (r: MailMessage)
    ensures
        jmap_message(r, *entry, account_id, folder_path@, id, now),
{
    let remote = text_or(json_str(json_get(entry, "id")), "unknown");
    let thread_id = match json_str(json_get(entry, "threadId")) {
        Some(t) => t.clone(),
        None => remote.clone(),
    };
    let sent_at = instant_of(json_str(json_get(entry, "sentAt")));
    let received_at = match instant_of(json_str(json_get(entry, "receivedAt"))) {
        Some(t) => t,
        None => match sent_at {
            Some(t) => t,
            None => now,
        },
    };
    let empty: Vec<(String, JsonValue)> = Vec::new();
    let values = match json_object(json_get(entry, "bodyValues")) {
        Some(v) => v,
        None => &empty,
    };
    let body_text = pick_jmap_body(json_get(entry, "textBody"), values);
    let body_html = pick_jmap_body(json_get(entry, "htmlBody"), values);
    let flags = flags_of(json_object(json_get(entry, "keywords")));
    let attachments = attachments_of(json_array(json_get(entry, "attachments")));
    let preview = text_or(json_str(json_get(entry, "preview")), "");
    proof {
        reveal_strlit("");
        assert(""@ =~= Seq::<char>::empty());
    }
    MailMessage {
        id,
        account_id,
        remote_id: remote,
        thread_id,
        folder_path: folder_path.to_owned(),
        from: parse_jmap_addresses(json_get(entry, "from")),
        to: parse_jmap_addresses(json_get(entry, "to")),
        cc: parse_jmap_addresses(json_get(entry, "cc")),
        bcc: parse_jmap_addresses(json_get(entry, "bcc")),
        reply_to: parse_jmap_addresses(json_get(entry, "replyTo")),
        subject: text_or(json_str(json_get(entry, "subject")), "(No subject)"),
        preview,
        body_text,
        body_html,
        flags,
        labels: Vec::new(),
        headers: Vec::new(),
        attachments,
        sent_at,
        received_at,
        created_at: now,
        updated_at: now,
        snoozed_until: None,
        pinned: false,
        send_at: None,
    }
}

/// `m` was read from `entry`, under some id and time.
pub open spec fn read_from_entry(m: MailMessage, entry: JsonValue, account_id: u128, folder: Seq<char>) -> bool {
    exists|id: u128, now: i64| chrono_time(now) && jmap_message(m, entry, account_id, folder, id, now)
}

/// The messages of an `Email/get` reply, one per listed entry, each with a
/// fresh id and read at the current time.
pub fn parse_jmap_messages(account_id: u128, folder_path: &str, payload: &JsonValue) -> (r: Vec<MailMessage>)
    ensures
        r@.len() == listed(*payload, "Email/get"@).len(),
        forall|i: int| 0 <= i < r@.len() ==> read_from_entry(#[trigger] r@[i], listed(*payload, "Email/get"@)[i], account_id, folder_path@),
{
    let mut out: Vec<MailMessage> = Vec::new();
    let list = match listed_items(payload, "Email/get") {
        Some(l) => l,
        None => return out,
    };
    for i in 0..list.len()
        invariant
            list@ == listed(*payload, "Email/get"@),
            out@.len() == i,
            forall|j: int| 0 <= j < i ==> read_from_entry(#[trigger] out@[j], list@[j], account_id, folder_path@),
    {
        let id = new_id();
        let now = now_utc();
        let m = jmap_message_from_entry(account_id, folder_path, &list[i], id, now);
        let ghost prev = out@;
        out.push(m);
        assert(forall|j: int| 0 <= j < i ==> out@[j] == prev[j]);
        assert(jmap_message(out@[i as int], list@[i as int], account_id, folder_path@, id, now));
        assert(read_from_entry(out@[i as int], list@[i as int], account_id, folder_path@));
    }
    out
}

// ------------------------------------------------------------------ request results

/// The first id that the first response to `method_name` returns; nothing
/// as soon as a response is not an array or does not open with a string.
pub open spec fn first_id_in(methods: Seq<JsonValue>, name: Seq<char>) -> Option<Seq<char>>
    decreases methods.len(),
{
    if methods.len() == 0 {
        None
    } else {
        match jarr(Some(methods[0])) {
            None => None,
            Some(parts) => if parts.len() == 0 {
                None
            } else {
                match jstr(Some(parts[0])) {
                    None => None,
                    Some(n) => if n != name {
                        first_id_in(methods.drop_first(), name)
                    } else {
                        match jarr(jget_opt(second(parts), "ids"@)) {
                            None => None,
                            Some(ids) => if ids.len() > 0 { jstr(Some(ids[0])) } else { None },
                        }
                    },
                }
            },
        }
    }
}

pub open spec fn jmap_first_id_of(payload: JsonValue, name: Seq<char>) -> Option<Seq<char>> {
    match jarr(jget(payload, "methodResponses"@)) {
        None => None,
        Some(methods) => first_id_in(methods, name),
    }
}

pub fn jmap_first_id(payload: &JsonValue, method_name: &str) -> (r: Option<String>)
    ensures
        opt_text(r) == jmap_first_id_of(*payload, method_name@),
{
    let methods = json_array(json_get(payload, "methodResponses"))?;
    let mut i: usize = 0;
    assert(methods@.skip(0) =~= methods@);
    while i < methods.len()
        invariant
            i <= methods.len(),
            jmap_first_id_of(*payload, method_name@) == first_id_in(methods@.skip(i as int), method_name@),
        decreases methods.len() - i,
    {
        assert(methods@.skip(i as int).drop_first() =~= methods@.skip(i + 1));
        assert(methods@.skip(i as int)[0] == methods@[i as int]);
        let parts = json_array(Some(&methods[i]))?;
        if parts.len() == 0 {
            return None;
        }
        let name = json_str(Some(&parts[0]))?;
        let a = chars_of(name.as_str());
        let b = chars_of(method_name);
        if seq_eq(a.as_slice(), b.as_slice()) {
            let args = if parts.len() > 1 { Some(&parts[1]) } else { None };
            let ids = json_array(json_get_opt(args, "ids"))?;
            if ids.len() == 0 {
                return None;
            }
            return match json_str(Some(&ids[0])) {
                Some(s) => Some(s.clone()),
                None => None,
            };
        }
        i = i + 1;
    }
    None
}

/// A method response named `error`, in any case.
pub open spec fn error_response(method: JsonValue) -> bool {
    method_name(method) matches Some(n) && eq_ignore_case(n, "error"@)
}

/// Some method response is named `error`, in any case.
pub open spec fn has_error_response(payload: JsonValue) -> bool {
    exists|i: int| 0 <= i < method_responses(payload).len() && error_response(#[trigger] method_responses(payload)[i])
}

pub fn jmap_has_error(payload: &JsonValue) -> (r: bool)
    ensures
        r == has_error_response(*payload),
{
    let methods = match json_array(json_get(payload, "methodResponses")) {
        Some(m) => m,
        None => return false,
    };
    let b = chars_of("error");
    for i in 0..methods.len()
        invariant
            method_responses(*payload) == methods@,
            b@ == "error"@,
            forall|j: int| 0 <= j < i ==> !error_response(#[trigger] methods@[j]),
    {
        match method_name_of(&methods[i]) {
            Some(n) => {
                let a = chars_of(n.as_str());
                if eq_ignore_ascii_case(a.as_slice(), b.as_slice()) {
                    assert(error_response(method_responses(*payload)[i as int]));
                    return true;
                }
            },
            None => {},
        }
    }
    false
}

}
