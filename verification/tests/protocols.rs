use cove_mail::ews::{
    ews_auth, ews_create_item_soap, ews_find_item_soap, ews_folders_or_default, parse_ews_messages, EwsAuth,
};
use cove_mail::jmap::{jmap_first_id, jmap_has_error, parse_jmap_folders, parse_jmap_messages, pick_jmap_body};
use cove_mail::jmap_requests::{
    jmap_draft_mailbox, jmap_drafts_request, jmap_folders_request, jmap_recent_request, jmap_send_outcome,
    jmap_send_request, jmap_session_accounts,
};
use cove_mail::json::{json_get, json_str, JsonNumber, JsonValue};
use cove_mail::mail::{EmailError, OutgoingMail, ProtocolSettings};
use cove_mail::model::{MailAddress, OfflineSyncLimit};

fn s(t: &str) -> JsonValue {
    JsonValue::String(t.to_string())
}

fn n(v: u64) -> JsonValue {
    JsonValue::Number(JsonNumber::PosInt(v))
}

fn arr(items: Vec<JsonValue>) -> JsonValue {
    JsonValue::Array(items)
}

fn obj(entries: Vec<(&str, JsonValue)>) -> JsonValue {
    JsonValue::Object(entries.into_iter().map(|(k, v)| (k.to_string(), v)).collect())
}

fn write(v: &JsonValue, out: &mut String) {
    match v {
        JsonValue::Null => out.push_str("null"),
        JsonValue::Bool(b) => out.push_str(if *b { "true" } else { "false" }),
        JsonValue::Number(JsonNumber::PosInt(n)) => out.push_str(&n.to_string()),
        JsonValue::Number(JsonNumber::NegInt(n)) => out.push_str(&n.to_string()),
        JsonValue::Number(JsonNumber::Other(t)) => out.push_str(t),
        JsonValue::String(t) => {
            out.push('"');
            out.push_str(t);
            out.push('"');
        }
        JsonValue::Array(items) => {
            out.push('[');
            for (i, item) in items.iter().enumerate() {
                if i > 0 {
                    out.push(',');
                }
                write(item, out);
            }
            out.push(']');
        }
        JsonValue::Object(es) => {
            out.push('{');
            for (i, (k, item)) in es.iter().enumerate() {
                if i > 0 {
                    out.push(',');
                }
                out.push('"');
                out.push_str(k);
                out.push_str("\":");
                write(item, out);
            }
            out.push('}');
        }
    }
}

fn text(v: &JsonValue) -> String {
    let mut out = String::new();
    write(v, &mut out);
    out
}

fn addr(name: Option<&str>, a: &str) -> MailAddress {
    MailAddress { name: name.map(|x| x.to_string()), address: a.to_string() }
}

fn outgoing(html: Option<&str>) -> OutgoingMail {
    OutgoingMail {
        from: addr(Some("Ann"), "ann@example.com"),
        to: vec![addr(None, "bob@example.com")],
        cc: vec![],
        bcc: vec![],
        reply_to: vec![],
        subject: "Q&A".to_string(),
        body_text: "hi <there>".to_string(),
        body_html: html.map(|h| h.to_string()),
        attachments: vec![],
    }
}

#[test]
fn session_names_the_accounts() {
    let session = obj(vec![
        ("apiUrl", s("https://api.example.com/jmap/")),
        ("primaryAccounts", obj(vec![("urn:ietf:params:jmap:mail", s("A1"))])),
    ]);
    assert_eq!(
        jmap_session_accounts(&session).unwrap(),
        ("https://api.example.com/jmap/".to_string(), "A1".to_string(), "A1".to_string())
    );
    let other = obj(vec![
        ("apiUrl", s("u")),
        ("primaryAccounts", obj(vec![("x", n(1)), ("y", s("B")), ("urn:ietf:params:jmap:submission", s("S"))])),
    ]);
    assert_eq!(jmap_session_accounts(&other).unwrap(), ("u".to_string(), "B".to_string(), "S".to_string()));
    assert_eq!(
        jmap_session_accounts(&obj(vec![])),
        Err(EmailError::Data("JMAP session missing apiUrl".to_string()))
    );
    assert_eq!(
        jmap_session_accounts(&obj(vec![("apiUrl", s("u"))])),
        Err(EmailError::Data("JMAP session missing primaryAccounts".to_string()))
    );
    assert_eq!(
        jmap_session_accounts(&obj(vec![("apiUrl", s("u")), ("primaryAccounts", obj(vec![]))])),
        Err(EmailError::Data("JMAP session missing mail account".to_string()))
    );
}

#[test]
fn folder_request_queries_then_gets() {
    assert_eq!(
        text(&jmap_folders_request("A1")),
        "{\"using\":[\"urn:ietf:params:jmap:core\",\"urn:ietf:params:jmap:mail\"],\"methodCalls\":[\
[\"Mailbox/query\",{\"accountId\":\"A1\",\"sort\":[{\"property\":\"name\"}]},\"m1\"],\
[\"Mailbox/get\",{\"accountId\":\"A1\",\"#ids\":{\"resultOf\":\"m1\",\"name\":\"Mailbox/query\",\"path\":\"/ids\"}},\"m2\"]]}"
    );
}

#[test]
fn drafts_request_asks_for_one_mailbox() {
    assert_eq!(
        text(&jmap_drafts_request("A1")),
        "{\"using\":[\"urn:ietf:params:jmap:core\",\"urn:ietf:params:jmap:mail\"],\"methodCalls\":[\
[\"Mailbox/query\",{\"accountId\":\"A1\",\"filter\":{\"role\":\"drafts\"},\"limit\":1},\"m1\"]]}"
    );
}

#[test]
fn recent_request_mentions_the_window() {
    let plain = text(&jmap_recent_request("A1", "Inbox", 25, None, 1_700_000_000));
    assert!(plain.contains("\"limit\":25"));
    assert!(plain.contains("Inbox"));
    assert!(!plain.contains("\"after\""));
    let windowed = text(&jmap_recent_request("A1", "Inbox", 25, Some(OfflineSyncLimit::Days(30)), 1_700_000_000));
    assert!(windowed.contains("\"after\":\"2023-10-15T22:13:20Z\""));
}

#[test]
fn draft_mailbox_comes_from_the_query_reply() {
    let reply = obj(vec![("methodResponses", arr(vec![arr(vec![s("Mailbox/query"), obj(vec![("ids", arr(vec![s("D7")]))]), s("m1")])]))]);
    assert_eq!(jmap_draft_mailbox(&reply), Ok("D7".to_string()));
    assert_eq!(jmap_first_id(&reply, "Mailbox/query"), Some("D7".to_string()));
    let empty = obj(vec![("methodResponses", arr(vec![]))]);
    assert_eq!(jmap_draft_mailbox(&empty), Err(EmailError::Data("JMAP draft mailbox not found".to_string())));
}

#[test]
fn send_request_creates_and_submits() {
    let t = text(&jmap_send_request("A1", "S1", "D7", &outgoing(None)));
    assert!(t.starts_with("{\"using\":[\"urn:ietf:params:jmap:core\",\"urn:ietf:params:jmap:mail\",\"urn:ietf:params:jmap:submission\"]"));
    assert!(t.contains("[\"Email/set\",{\"accountId\":\"A1\",\"create\":{\"draft1\":{\"mailboxIds\":{\"D7\":true}"));
    assert!(t.contains("\"htmlBody\":[]"));
    assert!(t.contains("\"keywords\":{\"$draft\":true}"));
    assert!(t.contains(
        "[\"EmailSubmission/set\",{\"accountId\":\"S1\",\"create\":{\"send1\":{\"emailId\":\"#draft1\"}},\"onSuccessDestroyEmail\":[\"#draft1\"]},\"m2\"]"
    ));
}

#[test]
fn send_outcome_reports_method_errors() {
    let ok = obj(vec![("methodResponses", arr(vec![arr(vec![s("Email/set"), obj(vec![]), s("m1")])]))]);
    assert_eq!(jmap_send_outcome(&ok), Ok(()));
    let bad = obj(vec![("methodResponses", arr(vec![arr(vec![s("Error"), obj(vec![]), s("m1")])]))]);
    assert!(jmap_has_error(&bad));
    assert_eq!(jmap_send_outcome(&bad), Err(EmailError::Data("JMAP send returned method error".to_string())));
}

#[test]
fn folders_of_a_mailbox_reply() {
    let reply = obj(vec![(
        "methodResponses",
        arr(vec![arr(vec![
            s("Mailbox/get"),
            obj(vec![(
                "list",
                arr(vec![
                    obj(vec![("id", s("M1")), ("name", s("Inbox")), ("unreadEmails", n(3)), ("totalEmails", n(10))]),
                    obj(vec![("name", s("No id"))]),
                    obj(vec![("id", s("M2"))]),
                ]),
            )]),
            s("m2"),
        ])]),
    )]);
    let folders = parse_jmap_folders(4, &reply);
    assert_eq!(folders.len(), 2);
    assert_eq!(folders[0].remote_id, "M1");
    assert_eq!(folders[0].path, "Inbox");
    assert_eq!(folders[0].unread_count, 3);
    assert_eq!(folders[0].total_count, 10);
    assert_eq!(folders[1].path, "Mailbox");
    assert_eq!(folders[1].delimiter.as_deref(), Some("/"));
}

#[test]
fn messages_of_an_email_reply() {
    let entry = obj(vec![
        ("id", s("E1")),
        ("threadId", s("T1")),
        ("from", arr(vec![obj(vec![("name", s("")), ("email", s("ann@example.com"))])])),
        ("subject", s("Hello")),
        ("textBody", arr(vec![obj(vec![("partId", s("1"))])])),
        ("bodyValues", obj(vec![("1", obj(vec![("value", s("body text"))]))])),
        ("keywords", obj(vec![("$seen", JsonValue::Bool(true))])),
        ("receivedAt", s("2023-11-14T22:13:20Z")),
        ("attachments", arr(vec![obj(vec![("name", s("a.pdf")), ("type", s("application/pdf")), ("size", n(12)), ("disposition", s("INLINE"))])])),
    ]);
    let reply = obj(vec![("methodResponses", arr(vec![arr(vec![s("Email/get"), obj(vec![("list", arr(vec![entry]))]), s("m2")])]))]);
    let msgs = parse_jmap_messages(4, "Inbox", &reply);
    assert_eq!(msgs.len(), 1);
    let m = &msgs[0];
    assert_eq!(m.remote_id, "E1");
    assert_eq!(m.thread_id, "T1");
    assert_eq!(m.from[0].name, None);
    assert_eq!(m.subject, "Hello");
    assert_eq!(m.body_text.as_deref(), Some("body text"));
    assert_eq!(m.body_html, None);
    assert!(m.flags.seen);
    assert!(!m.flags.flagged);
    assert_eq!(m.received_at, 1_700_000_000);
    assert_eq!(m.attachments[0].size, 12);
    assert!(m.attachments[0].inline);
}

#[test]
fn body_parts_are_picked_in_order() {
    let parts = arr(vec![obj(vec![("partId", s("9"))]), obj(vec![("partId", s("2"))])]);
    let values = vec![("2".to_string(), obj(vec![("value", s("second"))]))];
    assert_eq!(pick_jmap_body(Some(&parts), &values), None);
    let values = vec![("9".to_string(), obj(vec![])), ("2".to_string(), obj(vec![("value", s("second"))]))];
    assert_eq!(pick_jmap_body(Some(&parts), &values), Some("second".to_string()));
    assert_eq!(pick_jmap_body(None, &values), None);
}

#[test]
fn json_lookups() {
    let v = obj(vec![("a", s("x")), ("a", s("y"))]);
    assert_eq!(json_str(json_get(&v, "a")).map(|t| t.as_str()), Some("x"));
    assert!(json_get(&s("a"), "a").is_none());
}

fn settings(token: Option<&str>, password: Option<&str>) -> ProtocolSettings {
    ProtocolSettings {
        imap_host: None,
        imap_port: None,
        smtp_host: None,
        smtp_port: None,
        endpoint: Some("https://ews.example.com/EWS/Exchange.asmx".to_string()),
        username: "ann".to_string(),
        access_token: token.map(|t| t.to_string()),
        password: password.map(|p| p.to_string()),
        offline_sync_limit: None,
    }
}

#[test]
fn settings_debug_hides_secrets() {
    let mut s = settings(Some("tok-123"), Some("pw-456"));
    s.imap_host = Some("imap.example.com".to_string());
    s.imap_port = Some(993);
    s.offline_sync_limit = Some(OfflineSyncLimit::Days(30));
    let text = s.redacted_debug();
    assert_eq!(
        text,
        "ProtocolSettings { imap_host: Some(\"imap.example.com\"), imap_port: Some(993), smtp_host: None, \
smtp_port: None, endpoint: Some(\"https://ews.example.com/EWS/Exchange.asmx\"), username: \"ann\", \
access_token: Some(\"[REDACTED]\"), password: Some(\"[REDACTED]\"), offline_sync_limit: Some(Days(30)) }"
    );
    assert!(!text.contains("tok-123") && !text.contains("pw-456"));
    let plain = settings(None, None);
    assert!(plain.redacted_debug().contains("access_token: None, password: None, offline_sync_limit: None"));
}

#[test]
fn ews_authentication_choice() {
    assert_eq!(ews_auth(&settings(Some("tok"), Some("pw"))), EwsAuth::Bearer("tok".to_string()));
    assert_eq!(ews_auth(&settings(None, Some("pw"))), EwsAuth::Basic("ann".to_string(), "pw".to_string()));
    assert_eq!(ews_auth(&settings(None, None)), EwsAuth::Anonymous);
}

#[test]
fn ews_folders_fall_back_to_defaults() {
    let listed = ews_folders_or_default(1, "<t:DisplayName>Inbox</t:DisplayName>");
    assert_eq!(listed.len(), 1);
    let defaults = ews_folders_or_default(1, "<nothing/>");
    let names: Vec<&str> = defaults.iter().map(|f| f.path.as_str()).collect();
    assert_eq!(names, vec!["Inbox", "Sent Items", "Drafts", "Archive", "Deleted Items"]);
}

#[test]
fn ews_find_item_request() {
    let plain = ews_find_item_soap("Sent Items", 50, None, 1_700_000_000);
    assert!(plain.contains("<t:DistinguishedFolderId Id=\"sentitems\""));
    assert!(plain.contains("MaxEntriesReturned=\"50\""));
    assert!(!plain.contains("Restriction"));
    let windowed = ews_find_item_soap("Inbox", 50, Some(OfflineSyncLimit::Days(30)), 1_700_000_000);
    assert!(windowed.contains("<t:Constant Value=\"2023-10-15T22:13:20Z\""));
}

#[test]
fn ews_create_item_escapes_text() {
    let soap = ews_create_item_soap(&outgoing(None));
    assert!(soap.contains("<t:Subject>Q&amp;A</t:Subject>"));
    assert!(soap.contains("<t:Body BodyType=\"Text\">hi &lt;there&gt;</t:Body>"));
    assert!(soap.contains("<t:Mailbox><t:Name></t:Name><t:EmailAddress>bob@example.com</t:EmailAddress></t:Mailbox>"));
    let html = ews_create_item_soap(&outgoing(Some("<p>x</p>")));
    assert!(html.contains("<t:Body BodyType=\"HTML\">&lt;p&gt;x&lt;/p&gt;</t:Body>"));
}

#[test]
fn ews_messages_are_read_from_blocks() {
    let payload = "<m:Items><t:Message><t:ItemId Id=\"AAA\" ChangeKey=\"k\"/><t:Subject>Hi &amp; bye</t:Subject>\
<t:DateTimeReceived>2023-11-14T22:13:20Z</t:DateTimeReceived>\
<t:From><t:Mailbox><t:EmailAddress>ann@example.com</t:EmailAddress></t:Mailbox></t:From>\
<t:ToRecipients><t:Mailbox><t:EmailAddress>bob@example.com</t:EmailAddress></t:Mailbox></t:ToRecipients>\
</t:Message><t:Message></t:Message></m:Items>";
    let msgs = parse_ews_messages(1, "Inbox", payload).expect("patterns compile");
    assert_eq!(msgs.len(), 2);
    assert_eq!(msgs[0].remote_id, "AAA");
    assert_eq!(msgs[0].subject, "Hi & bye");
    assert_eq!(msgs[0].received_at, 1_700_000_000);
    assert_eq!(msgs[0].from[0].address, "ann@example.com");
    assert_eq!(msgs[0].to[0].address, "bob@example.com");
    assert_eq!(msgs[1].subject, "(No subject)");
}
