//! JMAP sessions and the method calls the mail backend makes: reading the
//! session document, and building the requests that list folders, fetch
//! recent mail and send a message.
use vstd::prelude::*;
use crate::jmap::{has_error_response, jmap_first_id, jmap_first_id_of, jmap_has_error};
use crate::json::{
    entries_get, entries_lookup, jentries, jget, jobj, json_get, json_object, json_str, jstr, jtext, jview,
    jviews, opt_ref, push_item, put, JsonNumber, JsonValue, JsonView,
};
use crate::mail::{opt_text, EmailError, OutgoingMail};
use crate::model::{MailAddress, OfflineSyncLimit};
use crate::time::{format_secs, format_time, formattable};

verus! {

// ------------------------------------------------------------------ session

/// The first text value among object entries.
pub open spec fn first_text_value(es: Seq<(String, JsonValue)>) -> Option<Seq<char>>
    decreases es.len(),
{
    if es.len() == 0 {
        None
    } else {
        match es[0].1 {
            JsonValue::String(s) => Some(s@),
            _ => first_text_value(es.drop_first()),
        }
    }
}

/// What a JMAP session document says: its API address, the account for
/// mail (the primary mail account, else the first primary account named),
/// and the account for sending (the primary submission account, else the
/// mail account); or what is missing.
pub open spec fn session_of(payload: JsonValue) -> Result<(Seq<char>, Seq<char>, Seq<char>), Seq<char>> {
    match jstr(jget(payload, "apiUrl"@)) {
        None => Err("JMAP session missing apiUrl"@),
        Some(api) => match jobj(jget(payload, "primaryAccounts"@)) {
            None => Err("JMAP session missing primaryAccounts"@),
            Some(primary) => {
                let mail = match jstr(entries_get(primary, "urn:ietf:params:jmap:mail"@)) {
                    Some(m) => Some(m),
                    None => first_text_value(primary),
                };
                match mail {
                    None => Err("JMAP session missing mail account"@),
                    Some(m) => Ok((api, m, match jstr(entries_get(primary, "urn:ietf:params:jmap:submission"@)) {
                        Some(s) => s,
                        None => m,
                    })),
                }
            },
        },
    }
}

fn first_text(es: &Vec<(String, JsonValue)>) -> (r: Option<String>)
    ensures
        opt_text(r) == first_text_value(es@),
{
    let mut i: usize = 0;
    assert(es@.skip(0) =~= es@);
    while i < es.len()
        invariant
            i <= es.len(),
            first_text_value(es@) == first_text_value(es@.skip(i as int)),
        decreases es.len() - i,
    {
        assert(es@.skip(i as int).drop_first() =~= es@.skip(i + 1));
        assert(es@.skip(i as int)[0] == es@[i as int]);
        match &es[i].1 {
            JsonValue::String(s) => return Some(s.clone()),
            _ => {},
        }
        i = i + 1;
    }
    None
}

/// The API address, mail account and submission account of a JMAP session
/// document; a data error naming what is missing.
pub fn jmap_session_accounts(payload: &JsonValue) -> (r: Result<(String, String, String), EmailError>)
    ensures
        match session_of(*payload) {
            Ok((api, mail, submission)) => r matches Ok((a, m, s)) && a@ == api && m@ == mail && s@ == submission,
            Err(msg) => r matches Err(EmailError::Data(e)) && e@ == msg,
        },
{
    let api = match json_str(json_get(payload, "apiUrl")) {
        Some(a) => a.clone(),
        None => return Err(EmailError::Data("JMAP session missing apiUrl".to_owned())),
    };
    let primary = match json_object(json_get(payload, "primaryAccounts")) {
        Some(p) => p,
        None => return Err(EmailError::Data("JMAP session missing primaryAccounts".to_owned())),
    };
    let mail = match json_str(entries_lookup(primary, "urn:ietf:params:jmap:mail")) {
        Some(m) => m.clone(),
        None => match first_text(primary) {
            Some(m) => m,
            None => return Err(EmailError::Data("JMAP session missing mail account".to_owned())),
        },
    };
    let submission = match json_str(entries_lookup(primary, "urn:ietf:params:jmap:submission")) {
        Some(s) => s.clone(),
        None => mail.clone(),
    };
    Ok((api, mail, submission))
}

// ------------------------------------------------------------------ request pieces

pub open spec fn text_array(items: Seq<Seq<char>>) -> JsonView {
    JsonView::Array(items.map_values(|s: Seq<char>| JsonView::Str(s)))
}

pub open spec fn mail_capabilities() -> Seq<Seq<char>> {
    seq!["urn:ietf:params:jmap:core"@, "urn:ietf:params:jmap:mail"@]
}

pub open spec fn send_capabilities() -> Seq<Seq<char>> {
    seq!["urn:ietf:params:jmap:core"@, "urn:ietf:params:jmap:mail"@, "urn:ietf:params:jmap:submission"@]
}

/// A back-reference to the result of an earlier call.
pub open spec fn result_ref(of: Seq<char>, name: Seq<char>, path: Seq<char>) -> JsonView {
    JsonView::Object(seq![("resultOf"@, JsonView::Str(of)), ("name"@, JsonView::Str(name)), ("path"@, JsonView::Str(path))])
}

/// One method call: its name, arguments and tag.
pub open spec fn method_call(name: Seq<char>, args: JsonView, tag: Seq<char>) -> JsonView {
    JsonView::Array(seq![JsonView::Str(name), args, JsonView::Str(tag)])
}

/// A request of method calls under the given capabilities.
pub open spec fn jmap_request_body(using: Seq<Seq<char>>, calls: Seq<JsonView>) -> JsonView {
    JsonView::Object(seq![("using"@, text_array(using)), ("methodCalls"@, JsonView::Array(calls))])
}

fn text_array_value(items: &Vec<&str>) -> (r: JsonValue)
    ensures
        jview(r) == text_array(items@.map_values(|s: &str| s@)),
{
    let mut out: Vec<JsonValue> = Vec::new();
    for i in 0..items.len()
        invariant
            jviews(out@) == items@.take(i as int).map_values(|s: &str| s@).map_values(|s: Seq<char>| JsonView::Str(s)),
    {
        push_item(&mut out, jtext(items[i]));
        assert(items@.take(i + 1).map_values(|s: &str| s@).map_values(|s: Seq<char>| JsonView::Str(s))
            =~= items@.take(i as int).map_values(|s: &str| s@).map_values(|s: Seq<char>| JsonView::Str(s)).push(JsonView::Str(items@[i as int]@)));
    }
    assert(items@.take(items@.len() as int) =~= items@);
    JsonValue::Array(out)
}

fn capabilities(with_submission: bool) -> (r: JsonValue)
    ensures
        jview(r) == text_array(if with_submission { send_capabilities() } else { mail_capabilities() }),
{
    let mut items: Vec<&str> = Vec::new();
    items.push("urn:ietf:params:jmap:core");
    items.push("urn:ietf:params:jmap:mail");
    if with_submission {
        items.push("urn:ietf:params:jmap:submission");
    }
    let r = text_array_value(&items);
    proof {
        if with_submission {
            assert(items@.map_values(|s: &str| s@) =~= send_capabilities());
        } else {
            assert(items@.map_values(|s: &str| s@) =~= mail_capabilities());
        }
    }
    r
}

fn result_ref_value(of: &str, name: &str, path: &str) -> (r: JsonValue)
    ensures
        jview(r) == result_ref(of@, name@, path@),
{
    let mut es: Vec<(String, JsonValue)> = Vec::new();
    put(&mut es, "resultOf", jtext(of));
    put(&mut es, "name", jtext(name));
    put(&mut es, "path", jtext(path));
    assert(jentries(es@) =~= seq![("resultOf"@, JsonView::Str(of@)), ("name"@, JsonView::Str(name@)), ("path"@, JsonView::Str(path@))]);
    JsonValue::Object(es)
}

fn method_call_value(name: &str, args: JsonValue, tag: &str) -> (r: JsonValue)
    ensures
        jview(r) == method_call(name@, jview(args), tag@),
{
    let ghost av = jview(args);
    let mut items: Vec<JsonValue> = Vec::new();
    push_item(&mut items, jtext(name));
    push_item(&mut items, args);
    push_item(&mut items, jtext(tag));
    assert(jviews(items@) =~= seq![JsonView::Str(name@), av, JsonView::Str(tag@)]);
    JsonValue::Array(items)
}

fn request_value(with_submission: bool, calls: Vec<JsonValue>) -> (r: JsonValue)
    ensures
        jview(r) == jmap_request_body(if with_submission { send_capabilities() } else { mail_capabilities() }, jviews(calls@)),
{
    let ghost cv = jviews(calls@);
    let mut es: Vec<(String, JsonValue)> = Vec::new();
    put(&mut es, "using", capabilities(with_submission));
    put(&mut es, "methodCalls", JsonValue::Array(calls));
    assert(jentries(es@) =~= seq![("using"@, text_array(if with_submission { send_capabilities() } else { mail_capabilities() })),
        ("methodCalls"@, JsonView::Array(cv))]);
    JsonValue::Object(es)
}

// ------------------------------------------------------------------ folders

/// The request for the mailboxes of an account, by name: a `Mailbox/query`
/// sorted by name and a `Mailbox/get` of its result.
pub open spec fn folders_request(account: Seq<char>) -> JsonView {
    jmap_request_body(mail_capabilities(), seq![
        method_call("Mailbox/query"@, JsonView::Object(seq![
            ("accountId"@, JsonView::Str(account)),
            ("sort"@, JsonView::Array(seq![JsonView::Object(seq![("property"@, JsonView::Str("name"@))])])),
        ]), "m1"@),
        method_call("Mailbox/get"@, JsonView::Object(seq![
            ("accountId"@, JsonView::Str(account)),
            ("#ids"@, result_ref("m1"@, "Mailbox/query"@, "/ids"@)),
        ]), "m2"@),
    ])
}

pub fn jmap_folders_request(mail_account: &str) -> (r: JsonValue)
    ensures
        jview(r) == folders_request(mail_account@),
{
    let mut prop: Vec<(String, JsonValue)> = Vec::new();
    put(&mut prop, "property", jtext("name"));
    let mut sort: Vec<JsonValue> = Vec::new();
    let ghost pv = jentries(prop@);
    push_item(&mut sort, JsonValue::Object(prop));
    let mut q: Vec<(String, JsonValue)> = Vec::new();
    put(&mut q, "accountId", jtext(mail_account));
    put(&mut q, "sort", JsonValue::Array(sort));
    let mut g: Vec<(String, JsonValue)> = Vec::new();
    put(&mut g, "accountId", jtext(mail_account));
    put(&mut g, "#ids", result_ref_value("m1", "Mailbox/query", "/ids"));
    let ghost qv = jentries(q@);
    let ghost gv = jentries(g@);
    let mut calls: Vec<JsonValue> = Vec::new();
    push_item(&mut calls, method_call_value("Mailbox/query", JsonValue::Object(q), "m1"));
    push_item(&mut calls, method_call_value("Mailbox/get", JsonValue::Object(g), "m2"));
    proof {
        assert(pv =~= seq![("property"@, JsonView::Str("name"@))]);
        assert(qv =~= seq![
            ("accountId"@, JsonView::Str(mail_account@)),
            ("sort"@, JsonView::Array(seq![JsonView::Object(seq![("property"@, JsonView::Str("name"@))])])),
        ]);
        assert(gv =~= seq![
            ("accountId"@, JsonView::Str(mail_account@)),
            ("#ids"@, result_ref("m1"@, "Mailbox/query"@, "/ids"@)),
        ]);
    }
    let ghost callsv = jviews(calls@);
    let r = request_value(false, calls);
    assert(callsv =~= seq![
        method_call("Mailbox/query"@, JsonView::Object(qv), "m1"@),
        method_call("Mailbox/get"@, JsonView::Object(gv), "m2"@),
    ]);
    r
}


// ------------------------------------------------------------------ recent mail

pub open spec fn email_properties() -> Seq<Seq<char>> {
    seq!["id"@, "threadId"@, "subject"@, "from"@, "to"@, "cc"@, "bcc"@, "replyTo"@, "preview"@, "keywords"@,
        "receivedAt"@, "sentAt"@, "textBody"@, "htmlBody"@, "bodyValues"@]
}

/// The filter of recent mail: in the folder the first call found, and with
/// a sync window of some days ending at `now`, received after its start.
pub open spec fn recent_filter(window: Option<OfflineSyncLimit>, now: i64) -> JsonView {
    let base: Seq<(Seq<char>, JsonView)> = seq![("inMailbox"@, result_ref("m1"@, "Mailbox/query"@, "/ids/0"@))];
    match window {
        Some(OfflineSyncLimit::Days(days)) => JsonView::Object(base.push(("after"@,
            JsonView::Str(format_secs((now - days * 86400) as i64, "%Y-%m-%dT%H:%M:%SZ"@))))),
        _ => JsonView::Object(base),
    }
}

/// The request for the newest `limit` messages of a folder: the folder by
/// name, the newest of its messages, and their fields with text and HTML
/// bodies.
pub open spec fn recent_request(account: Seq<char>, folder_path: Seq<char>, limit: usize, window: Option<OfflineSyncLimit>, now: i64) -> JsonView {
    jmap_request_body(mail_capabilities(), seq![
        method_call("Mailbox/query"@, JsonView::Object(seq![
            ("accountId"@, JsonView::Str(account)),
            ("filter"@, JsonView::Object(seq![("name"@, JsonView::Str(folder_path))])),
            ("limit"@, JsonView::Number(JsonNumber::PosInt(1))),
        ]), "m1"@),
        method_call("Email/query"@, JsonView::Object(seq![
            ("accountId"@, JsonView::Str(account)),
            ("filter"@, recent_filter(window, now)),
            ("sort"@, JsonView::Array(seq![JsonView::Object(seq![("property"@, JsonView::Str("receivedAt"@)), ("isAscending"@, JsonView::Bool(false))])])),
            ("limit"@, JsonView::Number(JsonNumber::PosInt(limit as u64))),
        ]), "m2"@),
        method_call("Email/get"@, JsonView::Object(seq![
            ("accountId"@, JsonView::Str(account)),
            ("#ids"@, result_ref("m2"@, "Email/query"@, "/ids"@)),
            ("properties"@, text_array(email_properties())),
            ("fetchTextBodyValues"@, JsonView::Bool(true)),
            ("fetchHTMLBodyValues"@, JsonView::Bool(true)),
        ]), "m3"@),
    ])
}

fn recent_filter_value(window: Option<OfflineSyncLimit>, now: i64) -> (r: JsonValue)
    requires
        window matches Some(OfflineSyncLimit::Days(days)) ==> now - days * 86400 >= i64::MIN && formattable((now - days * 86400) as i64),
    ensures
        jview(r) == recent_filter(window, now),
{
    let mut es: Vec<(String, JsonValue)> = Vec::new();
    put(&mut es, "inMailbox", result_ref_value("m1", "Mailbox/query", "/ids/0"));
    let ghost base = jentries(es@);
    assert(base =~= seq![("inMailbox"@, result_ref("m1"@, "Mailbox/query"@, "/ids/0"@))]);
    match window {
        Some(OfflineSyncLimit::Days(days)) => {
            let after = now - (days as i64) * 86400;
            put(&mut es, "after", JsonValue::String(format_time(after, "%Y-%m-%dT%H:%M:%SZ")));
        },
        _ => {},
    }
    JsonValue::Object(es)
}

pub fn jmap_recent_request(mail_account: &str, folder_path: &str, limit: usize, window: Option<OfflineSyncLimit>, now: i64) -> (r: JsonValue)
    requires
        window matches Some(OfflineSyncLimit::Days(days)) ==> now - days * 86400 >= i64::MIN && formattable((now - days * 86400) as i64),
    ensures
        jview(r) == recent_request(mail_account@, folder_path@, limit, window, now),
{
    let mut name_filter: Vec<(String, JsonValue)> = Vec::new();
    put(&mut name_filter, "name", jtext(folder_path));
    let ghost nf = jentries(name_filter@);
    let mut q1: Vec<(String, JsonValue)> = Vec::new();
    put(&mut q1, "accountId", jtext(mail_account));
    put(&mut q1, "filter", JsonValue::Object(name_filter));
    put(&mut q1, "limit", JsonValue::Number(JsonNumber::PosInt(1)));
    let ghost q1v = jentries(q1@);

    let mut order: Vec<(String, JsonValue)> = Vec::new();
    put(&mut order, "property", jtext("receivedAt"));
    put(&mut order, "isAscending", JsonValue::Bool(false));
    let ghost ov = jentries(order@);
    let mut sort: Vec<JsonValue> = Vec::new();
    push_item(&mut sort, JsonValue::Object(order));
    let ghost sv = jviews(sort@);
    let mut q2: Vec<(String, JsonValue)> = Vec::new();
    put(&mut q2, "accountId", jtext(mail_account));
    put(&mut q2, "filter", recent_filter_value(window, now));
    put(&mut q2, "sort", JsonValue::Array(sort));
    put(&mut q2, "limit", JsonValue::Number(JsonNumber::PosInt(limit as u64)));
    let ghost q2v = jentries(q2@);

    let mut props: Vec<&str> = Vec::new();
    props.push("id");
    props.push("threadId");
    props.push("subject");
    props.push("from");
    props.push("to");
    props.push("cc");
    props.push("bcc");
    props.push("replyTo");
    props.push("preview");
    props.push("keywords");
    props.push("receivedAt");
    props.push("sentAt");
    props.push("textBody");
    props.push("htmlBody");
    props.push("bodyValues");
    assert(props@.map_values(|s: &str| s@) =~= email_properties());
    let mut g: Vec<(String, JsonValue)> = Vec::new();
    put(&mut g, "accountId", jtext(mail_account));
    put(&mut g, "#ids", result_ref_value("m2", "Email/query", "/ids"));
    put(&mut g, "properties", text_array_value(&props));
    put(&mut g, "fetchTextBodyValues", JsonValue::Bool(true));
    put(&mut g, "fetchHTMLBodyValues", JsonValue::Bool(true));
    let ghost gv = jentries(g@);

    let mut calls: Vec<JsonValue> = Vec::new();
    push_item(&mut calls, method_call_value("Mailbox/query", JsonValue::Object(q1), "m1"));
    push_item(&mut calls, method_call_value("Email/query", JsonValue::Object(q2), "m2"));
    push_item(&mut calls, method_call_value("Email/get", JsonValue::Object(g), "m3"));
    let ghost callsv = jviews(calls@);
    proof {
        assert(nf =~= seq![("name"@, JsonView::Str(folder_path@))]);
        assert(q1v =~= seq![
            ("accountId"@, JsonView::Str(mail_account@)),
            ("filter"@, JsonView::Object(seq![("name"@, JsonView::Str(folder_path@))])),
            ("limit"@, JsonView::Number(JsonNumber::PosInt(1))),
        ]);
        assert(ov =~= seq![("property"@, JsonView::Str("receivedAt"@)), ("isAscending"@, JsonView::Bool(false))]);
        assert(sv =~= seq![JsonView::Object(seq![("property"@, JsonView::Str("receivedAt"@)), ("isAscending"@, JsonView::Bool(false))])]);
        assert(q2v =~= seq![
            ("accountId"@, JsonView::Str(mail_account@)),
            ("filter"@, recent_filter(window, now)),
            ("sort"@, JsonView::Array(seq![JsonView::Object(seq![("property"@, JsonView::Str("receivedAt"@)), ("isAscending"@, JsonView::Bool(false))])])),
            ("limit"@, JsonView::Number(JsonNumber::PosInt(limit as u64))),
        ]);
        assert(gv =~= seq![
            ("accountId"@, JsonView::Str(mail_account@)),
            ("#ids"@, result_ref("m2"@, "Email/query"@, "/ids"@)),
            ("properties"@, text_array(email_properties())),
            ("fetchTextBodyValues"@, JsonView::Bool(true)),
            ("fetchHTMLBodyValues"@, JsonView::Bool(true)),
        ]);
        assert(callsv =~= seq![
            method_call("Mailbox/query"@, JsonView::Object(q1v), "m1"@),
            method_call("Email/query"@, JsonView::Object(q2v), "m2"@),
            method_call("Email/get"@, JsonView::Object(gv), "m3"@),
        ]);
    }
    request_value(false, calls)
}


// ------------------------------------------------------------------ sending

/// The request for the drafts mailbox of an account.
pub open spec fn drafts_request(account: Seq<char>) -> JsonView {
    jmap_request_body(mail_capabilities(), seq![
        method_call("Mailbox/query"@, JsonView::Object(seq![
            ("accountId"@, JsonView::Str(account)),
            ("filter"@, JsonView::Object(seq![("role"@, JsonView::Str("drafts"@))])),
            ("limit"@, JsonView::Number(JsonNumber::PosInt(1))),
        ]), "m1"@),
    ])
}

pub fn jmap_drafts_request(mail_account: &str) -> (r: JsonValue)
    ensures
        jview(r) == drafts_request(mail_account@),
{
    let mut f: Vec<(String, JsonValue)> = Vec::new();
    put(&mut f, "role", jtext("drafts"));
    let ghost fv = jentries(f@);
    let mut q: Vec<(String, JsonValue)> = Vec::new();
    put(&mut q, "accountId", jtext(mail_account));
    put(&mut q, "filter", JsonValue::Object(f));
    put(&mut q, "limit", JsonValue::Number(JsonNumber::PosInt(1)));
    let ghost qv = jentries(q@);
    let mut calls: Vec<JsonValue> = Vec::new();
    push_item(&mut calls, method_call_value("Mailbox/query", JsonValue::Object(q), "m1"));
    let ghost callsv = jviews(calls@);
    proof {
        assert(fv =~= seq![("role"@, JsonView::Str("drafts"@))]);
        assert(qv =~= seq![
            ("accountId"@, JsonView::Str(mail_account@)),
            ("filter"@, JsonView::Object(seq![("role"@, JsonView::Str("drafts"@))])),
            ("limit"@, JsonView::Number(JsonNumber::PosInt(1))),
        ]);
        assert(callsv =~= seq![method_call("Mailbox/query"@, JsonView::Object(qv), "m1"@)]);
    }
    request_value(false, calls)
}

/// The drafts mailbox a reply names; a data error when it names none.
pub fn jmap_draft_mailbox(reply: &JsonValue) -> (r: Result<String, EmailError>)
    ensures
        match jmap_first_id_of(*reply, "Mailbox/query"@) {
            Some(id) => r matches Ok(m) && m@ == id,
            None => r matches Err(EmailError::Data(e)) && e@ == "JMAP draft mailbox not found"@,
        },
{
    match jmap_first_id(reply, "Mailbox/query") {
        Some(id) => Ok(id),
        None => Err(EmailError::Data("JMAP draft mailbox not found".to_owned())),
    }
}

/// An address as JMAP writes it: name (empty when none) and e-mail.
pub open spec fn address_json(a: MailAddress) -> JsonView {
    JsonView::Object(seq![
        ("name"@, JsonView::Str(match a.name {
            Some(n) => n@,
            None => Seq::empty(),
        })),
        ("email"@, JsonView::Str(a.address@)),
    ])
}

pub open spec fn addresses_json(s: Seq<MailAddress>) -> JsonView {
    JsonView::Array(s.map_values(|a: MailAddress| address_json(a)))
}

pub open spec fn body_part(id: Seq<char>, kind: Seq<char>, value: Seq<char>) -> JsonView {
    JsonView::Object(seq![("partId"@, JsonView::Str(id)), ("type"@, JsonView::Str(kind)), ("value"@, JsonView::Str(value))])
}

/// The draft a message is created as: in the drafts mailbox, with its
/// addresses, subject, text body, HTML body when it has one, and the
/// `$draft` keyword.
pub open spec fn draft_json(m: OutgoingMail, draft_mailbox: Seq<char>) -> JsonView {
    JsonView::Object(seq![
        ("mailboxIds"@, JsonView::Object(seq![(draft_mailbox, JsonView::Bool(true))])),
        ("from"@, JsonView::Array(seq![address_json(m.from)])),
        ("to"@, addresses_json(m.to@)),
        ("cc"@, addresses_json(m.cc@)),
        ("bcc"@, addresses_json(m.bcc@)),
        ("subject"@, JsonView::Str(m.subject@)),
        ("textBody"@, JsonView::Array(seq![body_part("1"@, "text/plain"@, m.body_text@)])),
        ("htmlBody"@, JsonView::Array(match m.body_html {
            Some(h) => seq![body_part("2"@, "text/html"@, h@)],
            None => Seq::empty(),
        })),
        ("keywords"@, JsonView::Object(seq![("$draft"@, JsonView::Bool(true))])),
    ])
}

/// The request that sends a message: it creates the draft, then submits it
/// and destroys the draft once it is sent.
pub open spec fn send_request(mail_account: Seq<char>, submission_account: Seq<char>, draft_mailbox: Seq<char>, m: OutgoingMail) -> JsonView {
    jmap_request_body(send_capabilities(), seq![
        method_call("Email/set"@, JsonView::Object(seq![
            ("accountId"@, JsonView::Str(mail_account)),
            ("create"@, JsonView::Object(seq![("draft1"@, draft_json(m, draft_mailbox))])),
        ]), "m1"@),
        method_call("EmailSubmission/set"@, JsonView::Object(seq![
            ("accountId"@, JsonView::Str(submission_account)),
            ("create"@, JsonView::Object(seq![("send1"@, JsonView::Object(seq![("emailId"@, JsonView::Str("#draft1"@))]))])),
            ("onSuccessDestroyEmail"@, JsonView::Array(seq![JsonView::Str("#draft1"@)])),
        ]), "m2"@),
    ])
}

fn address_value(a: &MailAddress) -> (r: JsonValue)
    ensures
        jview(r) == address_json(*a),
{
    let mut es: Vec<(String, JsonValue)> = Vec::new();
    let name = match &a.name {
        Some(n) => n.clone(),
        None => String::new(),
    };
    put(&mut es, "name", JsonValue::String(name));
    put(&mut es, "email", JsonValue::String(a.address.clone()));
    assert(jentries(es@) =~= seq![
        ("name"@, JsonView::Str(match a.name {
            Some(n) => n@,
            None => Seq::empty(),
        })),
        ("email"@, JsonView::Str(a.address@)),
    ]);
    JsonValue::Object(es)
}

fn addresses_value(s: &Vec<MailAddress>) -> (r: JsonValue)
    ensures
        jview(r) == addresses_json(s@),
{
    let mut out: Vec<JsonValue> = Vec::new();
    for i in 0..s.len()
        invariant
            jviews(out@) == s@.take(i as int).map_values(|a: MailAddress| address_json(a)),
    {
        push_item(&mut out, address_value(&s[i]));
        assert(s@.take(i + 1).map_values(|a: MailAddress| address_json(a))
            =~= s@.take(i as int).map_values(|a: MailAddress| address_json(a)).push(address_json(s@[i as int])));
    }
    assert(s@.take(s@.len() as int) =~= s@);
    JsonValue::Array(out)
}

fn body_part_value(id: &str, kind: &str, value: &String) -> (r: JsonValue)
    ensures
        jview(r) == body_part(id@, kind@, value@),
{
    let mut es: Vec<(String, JsonValue)> = Vec::new();
    put(&mut es, "partId", jtext(id));
    put(&mut es, "type", jtext(kind));
    put(&mut es, "value", JsonValue::String(value.clone()));
    assert(jentries(es@) =~= seq![("partId"@, JsonView::Str(id@)), ("type"@, JsonView::Str(kind@)), ("value"@, JsonView::Str(value@))]);
    JsonValue::Object(es)
}

fn draft_value(m: &OutgoingMail, draft_mailbox: &str) -> (r: JsonValue)
    ensures
        jview(r) == draft_json(*m, draft_mailbox@),
{
    let mut ids: Vec<(String, JsonValue)> = Vec::new();
    put(&mut ids, draft_mailbox, JsonValue::Bool(true));
    let ghost idsv = jentries(ids@);
    let mut from: Vec<JsonValue> = Vec::new();
    push_item(&mut from, address_value(&m.from));
    let ghost fromv = jviews(from@);
    let mut text: Vec<JsonValue> = Vec::new();
    push_item(&mut text, body_part_value("1", "text/plain", &m.body_text));
    let ghost textv = jviews(text@);
    let mut html: Vec<JsonValue> = Vec::new();
    match &m.body_html {
        Some(h) => push_item(&mut html, body_part_value("2", "text/html", h)),
        None => {},
    }
    let ghost htmlv = jviews(html@);
    let mut kw: Vec<(String, JsonValue)> = Vec::new();
    put(&mut kw, "$draft", JsonValue::Bool(true));
    let ghost kwv = jentries(kw@);
    let mut es: Vec<(String, JsonValue)> = Vec::new();
    put(&mut es, "mailboxIds", JsonValue::Object(ids));
    put(&mut es, "from", JsonValue::Array(from));
    put(&mut es, "to", addresses_value(&m.to));
    put(&mut es, "cc", addresses_value(&m.cc));
    put(&mut es, "bcc", addresses_value(&m.bcc));
    put(&mut es, "subject", JsonValue::String(m.subject.clone()));
    put(&mut es, "textBody", JsonValue::Array(text));
    put(&mut es, "htmlBody", JsonValue::Array(html));
    put(&mut es, "keywords", JsonValue::Object(kw));
    proof {
        assert(idsv =~= seq![(draft_mailbox@, JsonView::Bool(true))]);
        assert(fromv =~= seq![address_json(m.from)]);
        assert(textv =~= seq![body_part("1"@, "text/plain"@, m.body_text@)]);
        assert(htmlv =~= match m.body_html {
            Some(h) => seq![body_part("2"@, "text/html"@, h@)],
            None => Seq::<JsonView>::empty(),
        });
        assert(kwv =~= seq![("$draft"@, JsonView::Bool(true))]);
        assert(jentries(es@) =~= seq![
            ("mailboxIds"@, JsonView::Object(seq![(draft_mailbox@, JsonView::Bool(true))])),
            ("from"@, JsonView::Array(seq![address_json(m.from)])),
            ("to"@, addresses_json(m.to@)),
            ("cc"@, addresses_json(m.cc@)),
            ("bcc"@, addresses_json(m.bcc@)),
            ("subject"@, JsonView::Str(m.subject@)),
            ("textBody"@, JsonView::Array(seq![body_part("1"@, "text/plain"@, m.body_text@)])),
            ("htmlBody"@, JsonView::Array(match m.body_html {
                Some(h) => seq![body_part("2"@, "text/html"@, h@)],
                None => Seq::empty(),
            })),
            ("keywords"@, JsonView::Object(seq![("$draft"@, JsonView::Bool(true))])),
        ]);
    }
    JsonValue::Object(es)
}

pub fn jmap_send_request(mail_account: &str, submission_account: &str, draft_mailbox: &str, outgoing: &OutgoingMail) -> (r: JsonValue)
    ensures
        jview(r) == send_request(mail_account@, submission_account@, draft_mailbox@, *outgoing),
{
    let mut create: Vec<(String, JsonValue)> = Vec::new();
    put(&mut create, "draft1", draft_value(outgoing, draft_mailbox));
    let ghost createv = jentries(create@);
    let mut set: Vec<(String, JsonValue)> = Vec::new();
    put(&mut set, "accountId", jtext(mail_account));
    put(&mut set, "create", JsonValue::Object(create));
    let ghost setv = jentries(set@);

    let mut email: Vec<(String, JsonValue)> = Vec::new();
    put(&mut email, "emailId", jtext("#draft1"));
    let ghost emailv = jentries(email@);
    let mut send: Vec<(String, JsonValue)> = Vec::new();
    put(&mut send, "send1", JsonValue::Object(email));
    let ghost sendv = jentries(send@);
    let mut destroy: Vec<JsonValue> = Vec::new();
    push_item(&mut destroy, jtext("#draft1"));
    let ghost destroyv = jviews(destroy@);
    let mut sub: Vec<(String, JsonValue)> = Vec::new();
    put(&mut sub, "accountId", jtext(submission_account));
    put(&mut sub, "create", JsonValue::Object(send));
    put(&mut sub, "onSuccessDestroyEmail", JsonValue::Array(destroy));
    let ghost subv = jentries(sub@);

    let mut calls: Vec<JsonValue> = Vec::new();
    push_item(&mut calls, method_call_value("Email/set", JsonValue::Object(set), "m1"));
    push_item(&mut calls, method_call_value("EmailSubmission/set", JsonValue::Object(sub), "m2"));
    let ghost callsv = jviews(calls@);
    proof {
        assert(createv =~= seq![("draft1"@, draft_json(*outgoing, draft_mailbox@))]);
        assert(setv =~= seq![
            ("accountId"@, JsonView::Str(mail_account@)),
            ("create"@, JsonView::Object(seq![("draft1"@, draft_json(*outgoing, draft_mailbox@))])),
        ]);
        assert(emailv =~= seq![("emailId"@, JsonView::Str("#draft1"@))]);
        assert(sendv =~= seq![("send1"@, JsonView::Object(seq![("emailId"@, JsonView::Str("#draft1"@))]))]);
        assert(destroyv =~= seq![JsonView::Str("#draft1"@)]);
        assert(subv =~= seq![
            ("accountId"@, JsonView::Str(submission_account@)),
            ("create"@, JsonView::Object(seq![("send1"@, JsonView::Object(seq![("emailId"@, JsonView::Str("#draft1"@))]))])),
            ("onSuccessDestroyEmail"@, JsonView::Array(seq![JsonView::Str("#draft1"@)])),
        ]);
        assert(callsv =~= seq![
            method_call("Email/set"@, JsonView::Object(setv), "m1"@),
            method_call("EmailSubmission/set"@, JsonView::Object(subv), "m2"@),
        ]);
    }
    request_value(true, calls)
}

/// Whether a send went through: a reply with a method error is a data
/// error.
pub fn jmap_send_outcome(reply: &JsonValue) -> (r: Result<(), EmailError>)
    ensures
        match r {
            Ok(()) => !has_error_response(*reply),
            Err(e) => has_error_response(*reply) && (e matches EmailError::Data(m) && m@ == "JMAP send returned method error"@),
        },
{
    if jmap_has_error(reply) {
        Err(EmailError::Data("JMAP send returned method error".to_owned()))
    } else {
        Ok(())
    }
}

}
