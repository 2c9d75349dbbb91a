use cove_mail::desktop::{service_backend_for, ServiceBackend};
use cove_mail::mail::{mail_backend_for, xoauth2_response, MailBackend};
use cove_mail::account_setup::default_settings_for_provider;
use cove_mail::compose::{
    chat_reply_mail, compose_mail, compose_recipients, file_attachment, generic_setup, oauth_account_setup, scheduled_outgoing,
};
use cove_mail::oauth::oauth_profile_for_provider;
use cove_mail::config::NotificationConfig;
use cove_mail::desktop::{cloud_provider_key, protocols_for_provider, validate_local_ai_runtime, PathKind, ValidateLocalAiRuntimePayload};
use cove_mail::json::{JsonNumber, JsonValue};
use cove_mail::markup::{collapse_ws, escape_xml, unescape_xml_entities};
use cove_mail::model::{
    Account, AccountProtocol, CalendarEvent, CloudAiProvider, MailAddress, MailFlags, MailMessage, OfflineSyncLimit,
    Provider, ReminderTask, RsvpStatus, TaskPriority, TaskStatus,
};
use cove_mail::native::{
    ag_chat_bubble_text, extract_unsubscribe_url, generic_setup_complete, search_with_operators, GenericSetupDraft,
};
use cove_mail::notify::{quiet_hours_at, NotificationState};
use cove_mail::numbers::{decimal_text, parse_i64, parse_u8};
use cove_mail::threads::{list_conversations_by_contact, list_threads};

fn write(v: &JsonValue, out: &mut String) {
    match v {
        JsonValue::Null => out.push_str("null"),
        JsonValue::Bool(b) => out.push_str(if *b { "true" } else { "false" }),
        JsonValue::Number(JsonNumber::PosInt(n)) => out.push_str(&n.to_string()),
        JsonValue::Number(JsonNumber::NegInt(n)) => out.push_str(&n.to_string()),
        JsonValue::Number(JsonNumber::Other(t)) => out.push_str(t),
        JsonValue::String(t) => {
            out.push('"');
            out.push_str(t);
            out.push('"');
        }
        JsonValue::Array(items) => {
            out.push('[');
            for (i, item) in items.iter().enumerate() {
                if i > 0 {
                    out.push(',');
                }
                write(item, out);
            }
            out.push(']');
        }
        JsonValue::Object(es) => {
            out.push('{');
            for (i, (k, item)) in es.iter().enumerate() {
                if i > 0 {
                    out.push(',');
                }
                out.push('"');
                out.push_str(k);
                out.push_str("\":");
                write(item, out);
            }
            out.push('}');
        }
    }
}

fn text(v: &JsonValue) -> String {
    let mut out = String::new();
    write(v, &mut out);
    out
}

fn chars(s: &str) -> Vec<char> {
    s.chars().collect()
}

fn addr(name: Option<&str>, a: &str) -> MailAddress {
    MailAddress { name: name.map(|n| n.to_string()), address: a.to_string() }
}

fn message(id: u128, thread: &str, from: MailAddress, to: Vec<MailAddress>, subject: &str, at: i64, seen: bool) -> MailMessage {
    let mut flags = MailFlags::default();
    flags.seen = seen;
    MailMessage {
        id,
        account_id: 1,
        remote_id: format!("r{}", id),
        thread_id: thread.to_string(),
        folder_path: "INBOX".to_string(),
        from: vec![from],
        to,
        cc: vec![],
        bcc: vec![],
        reply_to: vec![],
        subject: subject.to_string(),
        preview: "preview text".to_string(),
        body_text: None,
        body_html: None,
        flags,
        labels: vec![],
        headers: vec![],
        attachments: vec![],
        sent_at: None,
        received_at: at,
        created_at: at,
        updated_at: at,
        snoozed_until: None,
        pinned: false,
        send_at: None,
    }
}

fn account() -> Account {
    Account {
        id: 1,
        provider: Provider::Generic,
        protocols: vec![AccountProtocol::ImapSmtp],
        display_name: "Me".to_string(),
        email_address: "me@example.com".to_string(),
        oauth_profile: None,
        created_at: 0,
        updated_at: 0,
    }
}

#[test]
fn chat_bubbles_drop_quotes_and_signatures() {
    let mut m = message(1, "t", addr(None, "a@x.com"), vec![], "s", 0, true);
    m.body_text = Some("Sounds good!\r\n\r\nOn Mon, Ann wrote:\r\n> earlier".to_string());
    assert_eq!(ag_chat_bubble_text(&m), "Sounds good!");
    m.body_text = Some("> only a quote".to_string());
    assert_eq!(ag_chat_bubble_text(&m), "> only a quote");
    m.body_text = None;
    assert_eq!(ag_chat_bubble_text(&m), "preview text");
}

#[test]
fn unsubscribe_links() {
    assert_eq!(
        extract_unsubscribe_url("<mailto:u@x.com>, <https://x.com/unsub?id=1>"),
        Some("https://x.com/unsub?id=1".to_string())
    );
    assert_eq!(extract_unsubscribe_url("<mailto:u@x.com>"), None);
}

#[test]
fn operator_search() {
    let mut a = message(1, "t1", addr(Some("Ann"), "ann@x.com"), vec![addr(None, "me@example.com")], "Budget plan", 1_700_000_000, false);
    a.labels = vec!["Work".to_string()];
    let b = message(2, "t2", addr(None, "bob@y.com"), vec![], "Lunch", 1_600_000_000, true);
    let all = vec![a, b];
    let ids = |q: &str| -> Vec<u128> { search_with_operators(all.clone(), q).iter().map(|m| m.id).collect() };
    assert_eq!(ids("from:ann"), vec![1]);
    assert_eq!(ids("FROM:Bob"), vec![2]);
    assert_eq!(ids("is:unread"), vec![1]);
    assert_eq!(ids("label:work budget"), vec![1]);
    assert_eq!(ids("after:2023-01-01"), vec![1]);
    assert_eq!(ids("before:2023-01-01"), vec![2]);
    assert_eq!(ids("lunch"), vec![2]);
    assert_eq!(ids(""), vec![1, 2]);
}

#[test]
fn threads_are_summarised_newest_first() {
    let me = addr(None, "me@example.com");
    let msgs = vec![
        message(1, "A", addr(None, "ann@x.com"), vec![me.clone()], "first", 100, false),
        message(2, "B", addr(None, "bob@x.com"), vec![me.clone()], "other", 300, true),
        message(3, "A", addr(None, "carl@x.com"), vec![me.clone()], "Re: first", 200, false),
    ];
    let t = list_threads(msgs);
    assert_eq!(t.len(), 2);
    assert_eq!(t[0].thread_id, "B");
    assert_eq!(t[1].thread_id, "A");
    assert_eq!(t[1].message_count, 2);
    assert_eq!(t[1].unread_count, 2);
    assert_eq!(t[1].subject, "Re: first");
    assert_eq!(t[1].most_recent_at, 200);
    let mut p = t[1].participants.clone();
    p.sort();
    assert_eq!(p, vec!["ann@x.com".to_string(), "carl@x.com".to_string()]);
}

#[test]
fn conversations_group_by_the_other_party() {
    let me = addr(Some("Me"), "me@example.com");
    let msgs = vec![
        message(1, "A", addr(Some("Ann"), "Ann@x.com"), vec![me.clone()], "hello", 100, false),
        message(2, "B", me.clone(), vec![addr(Some("Ann L"), "ann@x.com")], "reply", 200, true),
        message(3, "C", addr(None, "bob@x.com"), vec![me.clone()], "hi", 50, true),
    ];
    let c = list_conversations_by_contact("me@example.com", msgs);
    assert_eq!(c.len(), 2);
    assert_eq!(c[0].email_address, "ann@x.com");
    assert_eq!(c[0].message_count, 2);
    assert_eq!(c[0].unread_count, 1);
    assert_eq!(c[0].latest_subject, "reply");
    assert_eq!(c[0].display_name.as_deref(), Some("Ann L"));
    assert_eq!(c[1].email_address, "bob@x.com");
}

fn notifications() -> NotificationConfig {
    NotificationConfig::default()
}

#[test]
fn quiet_hours_span_midnight() {
    let mut c = notifications();
    assert!(!quiet_hours_at(&c, 23 * 3600));
    c.quiet_hours_enabled = true;
    assert!(quiet_hours_at(&c, 23 * 3600));
    assert!(quiet_hours_at(&c, 3600));
    assert!(!quiet_hours_at(&c, 12 * 3600));
    c.quiet_hours_start = "09:00".to_string();
    c.quiet_hours_end = "17:00".to_string();
    assert!(quiet_hours_at(&c, 10 * 3600));
    assert!(!quiet_hours_at(&c, 17 * 3600));
    c.quiet_hours_start = "late".to_string();
    assert!(!quiet_hours_at(&c, 10 * 3600));
}

#[test]
fn new_mail_is_notified_once() {
    let c = notifications();
    let mut state = NotificationState::new();
    let msgs = vec![
        message(1, "A", addr(Some("Ann"), "ann@x.com"), vec![], "Hi", 0, false),
        message(2, "B", addr(None, "bob@x.com"), vec![], "Read", 0, true),
    ];
    let first = state.check_new_mail(&c, &msgs, false);
    assert_eq!(first.len(), 1);
    assert_eq!(first[0].summary, "New mail from Ann");
    assert_eq!(first[0].body, "Hi");
    assert!(state.check_new_mail(&c, &msgs, false).is_empty());
    let mut other = NotificationState::new();
    assert!(other.check_new_mail(&c, &msgs, true).is_empty());
}

#[test]
fn new_mail_counts_each_unseen_id_once() {
    let c = notifications();
    let mut state = NotificationState::new();
    let msgs = vec![
        message(1, "A", addr(Some("Ann"), "ann@x.com"), vec![], "One", 0, false),
        message(1, "A", addr(Some("Ann"), "ann@x.com"), vec![], "One again", 0, false),
        message(2, "B", addr(None, "bob@x.com"), vec![], "Two", 0, false),
        message(3, "C", addr(None, "cy@x.com"), vec![], "Seen", 0, true),
    ];
    let first = state.check_new_mail(&c, &msgs, false);
    assert_eq!(first.len(), 2);
    assert_eq!(first[1].summary, "New mail from bob@x.com");
    assert!(state.check_new_mail(&c, &msgs, false).is_empty());
}

#[test]
fn xml_escaping_round_trips() {
    for text in ["", "plain", "<a href=\"x\">Tom & 'Jerry'</a>", "&amp; &lt;", "&&&;;"] {
        let escaped = escape_xml(&chars(text));
        assert_eq!(unescape_xml_entities(&escaped).iter().collect::<String>(), text);
    }
}

fn event(id: u128, start: i64) -> CalendarEvent {
    CalendarEvent {
        id,
        account_id: 1,
        calendar_id: "c".to_string(),
        remote_id: "r".to_string(),
        title: "Standup".to_string(),
        description: None,
        location: Some("Room 4".to_string()),
        timezone: None,
        starts_at: start,
        ends_at: start + 600,
        all_day: false,
        recurrence_rule: None,
        attendees: vec![],
        organizer: None,
        alarms: vec![],
        rsvp_status: RsvpStatus::NeedsAction,
        updated_at: 0,
    }
}

#[test]
fn calendar_reminders_fire_once_per_lead_time() {
    let c = notifications();
    let mut state = NotificationState::new();
    let now = 1_700_000_000;
    let events = vec![event(1, now + 4 * 60), event(2, now - 60), event(3, now + 60 * 60)];
    let notes = state.check_calendar_reminders(&c, &events, now, false);
    let summaries: Vec<&str> = notes.iter().map(|n| n.summary.as_str()).collect();
    assert_eq!(summaries, vec!["Standup - in 15 min", "Standup - in 5 min"]);
    assert_eq!(notes[0].body, "Room 4");
    assert!(state.check_calendar_reminders(&c, &events, now, false).is_empty());
}

#[test]
fn task_reminders_skip_closed_tasks() {
    let c = notifications();
    let mut state = NotificationState::new();
    let now = 1_700_000_000;
    let task = |id: u128, done: bool| ReminderTask {
        id,
        account_id: 1,
        list_id: "l".to_string(),
        remote_id: None,
        title: format!("Task {}", id),
        notes: None,
        due_at: Some(now + 600),
        completed_at: if done { Some(now) } else { None },
        priority: TaskPriority::Normal,
        status: TaskStatus::NotStarted,
        repeat_rule: None,
        parent_id: None,
        snoozed_until: None,
        created_at: 0,
        updated_at: 0,
    };
    let notes = state.check_task_reminders(&c, &vec![task(1, false), task(2, true)], now, false);
    assert_eq!(notes.len(), 1);
    assert_eq!(notes[0].summary, "Task due in 15 min");
    assert_eq!(notes[0].body, "Task 1");
}

#[test]
fn composing_needs_a_recipient() {
    let r = compose_recipients(" a@x.com , ,b@y.com");
    let addrs: Vec<&str> = r.iter().map(|a| a.address.as_str()).collect();
    assert_eq!(addrs, vec!["a@x.com", "b@y.com"]);
    let m = compose_mail(&account(), "a@x.com", "Hi", "Body", vec![]).expect("composed");
    assert_eq!(m.from.name.as_deref(), Some("Me"));
    assert_eq!(m.from.address, "me@example.com");
    assert_eq!(m.to.len(), 1);
    assert_eq!(compose_mail(&account(), " , ", "Hi", "Body", vec![]).err(), Some("Compose requires at least one recipient".to_string()));
}

#[test]
fn chat_replies() {
    let r = chat_reply_mail(&account(), "ann@x.com", Some("Lunch"), "Sure").expect("reply");
    assert_eq!(r.subject, "Re: Lunch");
    assert_eq!(r.to[0].address, "ann@x.com");
    let r = chat_reply_mail(&account(), "ann@x.com", Some("RE: Lunch"), "Sure").expect("reply");
    assert_eq!(r.subject, "RE: Lunch");
    let r = chat_reply_mail(&account(), "ann@x.com", None, "Sure").expect("reply");
    assert_eq!(r.subject, "Chat Reply");
    assert!(chat_reply_mail(&account(), "ann@x.com", None, "   ").is_none());
}

#[test]
fn scheduled_messages_are_sent_as_stored() {
    let m = message(1, "t", addr(Some("Me"), "me@example.com"), vec![addr(None, "a@x.com")], "Later", 0, true);
    let out = scheduled_outgoing(&m, "fallback@example.com");
    assert_eq!(out.from.address, "me@example.com");
    assert_eq!(out.body_text, "");
    let mut none = m.clone();
    none.from.clear();
    assert_eq!(scheduled_outgoing(&none, "fallback@example.com").from.address, "fallback@example.com");
}

#[test]
fn attachments_are_base64() {
    let a = file_attachment(Some("notes.txt"), b"hello");
    assert_eq!(a.file_name, "notes.txt");
    assert_eq!(a.content_base64, "aGVsbG8=");
    assert_eq!(a.mime_type, "application/octet-stream");
    assert!(!a.inline);
    assert_eq!(file_attachment(None, b"").file_name, "attachment.bin");
    assert_eq!(file_attachment(None, b"").content_base64, "");
    assert_eq!(file_attachment(None, b"M").content_base64, "TQ==");
    assert_eq!(file_attachment(None, b"Ma").content_base64, "TWE=");
    assert_eq!(file_attachment(None, b"Man").content_base64, "TWFu");
    assert_eq!(file_attachment(None, &[0xfb, 0xff, 0xbf]).content_base64, "+/+/");
}

#[test]
fn manual_account_setup() {
    let mut d = GenericSetupDraft::default();
    assert!(!generic_setup_complete(&d));
    assert_eq!(generic_setup(&d, OfflineSyncLimit::All, 9, 100).err(), Some("Please fill out all required fields".to_string()));
    d.email = "me@example.com".to_string();
    d.imap_server = "imap.example.com".to_string();
    d.smtp_server = "smtp.example.com".to_string();
    assert!(generic_setup_complete(&d));
    let (a, settings) = generic_setup(&d, OfflineSyncLimit::Days(30), 9, 100).expect("set up");
    assert_eq!(a.id, 9);
    assert_eq!(a.provider, Provider::Generic);
    assert_eq!(a.email_address, "me@example.com");
    assert_eq!(
        text(&settings),
        "{\"email\":{\"imap_host\":\"imap.example.com\",\"imap_port\":993,\"smtp_host\":\"smtp.example.com\",\
\"smtp_port\":465,\"endpoint\":null,\"username\":\"me@example.com\",\"password\":null,\"access_token\":null,\
\"offline_sync_limit\":{\"days\":30}}}"
    );
}

#[test]
fn oauth_account_record() {
    let p = oauth_profile_for_provider(Provider::Gmail, "client", "http://127.0.0.1:8765/cb").expect("profile");
    let (a, settings) = oauth_account_setup(Provider::Gmail, "Me", "me@gmail.com", OfflineSyncLimit::All, p, 4, 50);
    assert_eq!(a.id, 4);
    assert_eq!(a.provider, Provider::Gmail);
    assert_eq!(a.protocols, vec![AccountProtocol::ImapSmtp, AccountProtocol::GoogleCalendar, AccountProtocol::GoogleTasks]);
    assert_eq!((a.display_name.as_str(), a.email_address.as_str()), ("Me", "me@gmail.com"));
    assert_eq!(a.oauth_profile.as_ref().map(|p| p.client_id.as_str()), Some("client"));
    assert_eq!((a.created_at, a.updated_at), (50, 50));
    assert_eq!(
        text(&settings),
        "{\"email\":{\"imap_host\":\"imap.gmail.com\",\"imap_port\":993,\"smtp_host\":\"smtp.gmail.com\",\
\"smtp_port\":465,\"endpoint\":null,\"username\":\"me@gmail.com\",\"password\":null,\"access_token\":null,\
\"offline_sync_limit\":\"all\"},\"calendar\":{\"endpoint\":\"https://www.googleapis.com/calendar/v3\",\
\"access_token\":null,\"calendar_id\":\"primary\"},\"tasks\":{\"endpoint\":\"https://tasks.googleapis.com/tasks/v1\",\
\"access_token\":null,\"list_id\":\"@default\"}}"
    );
}

#[test]
fn provider_defaults() {
    let gmail = default_settings_for_provider(&Provider::Gmail, "me@gmail.com", None, None).expect("defaults");
    let t = text(&gmail);
    assert!(t.contains("\"imap_host\":\"imap.gmail.com\""));
    assert!(t.contains("\"calendar_id\":\"primary\""));
    assert!(t.contains("\"list_id\":\"@default\""));
    let ms = default_settings_for_provider(&Provider::Outlook, "me@outlook.com", Some("cal".to_string()), None).expect("defaults");
    let t = text(&ms);
    assert!(t.contains("\"smtp_port\":587"));
    assert!(t.contains("\"calendar_id\":\"cal\""));
    assert!(t.contains("\"list_id\":\"Tasks\""));
    assert_eq!(
        default_settings_for_provider(&Provider::Yahoo, "me@yahoo.com", None, None).err(),
        Some("Provider defaults not implemented".to_string())
    );
}

#[test]
fn provider_protocols_and_keys() {
    assert_eq!(
        protocols_for_provider(&Provider::Gmail),
        vec![AccountProtocol::ImapSmtp, AccountProtocol::GoogleCalendar, AccountProtocol::GoogleTasks]
    );
    assert_eq!(protocols_for_provider(&Provider::Yahoo), vec![AccountProtocol::ImapSmtp]);
    assert_eq!(cloud_provider_key(CloudAiProvider::OpenRouter), "openrouter");
}

#[test]
fn local_ai_paths_are_checked() {
    let p = ValidateLocalAiRuntimePayload { llama_cpp_binary: Some("/bin/llama".to_string()), model_path: Some("/m/model.GGUF".to_string()) };
    let ok = validate_local_ai_runtime(&p, PathKind::File, PathKind::File, Some("GGUF"));
    assert!(ok.valid);
    assert!(ok.errors.is_empty());
    let bad = ValidateLocalAiRuntimePayload { llama_cpp_binary: None, model_path: Some("/m/model.bin".to_string()) };
    let r = validate_local_ai_runtime(&bad, PathKind::Missing, PathKind::File, Some("bin"));
    assert!(!r.valid);
    assert_eq!(r.errors, vec!["llama.cpp binary path is required".to_string(), "model file must use .gguf extension".to_string()]);
}

#[test]
fn markup_and_numbers() {
    assert_eq!(escape_xml(&chars("<a & 'b'>")).iter().collect::<String>(), "&lt;a &amp; &apos;b&apos;&gt;");
    assert_eq!(unescape_xml_entities(&chars("&lt;p&gt; &amp;amp;")).iter().collect::<String>(), "<p> &amp;");
    assert_eq!(collapse_ws(&chars("  a \n\t b  ")).iter().collect::<String>(), " a b ");
    assert_eq!(parse_u8(&chars("255")), Some(255));
    assert_eq!(parse_u8(&chars("256")), None);
    assert_eq!(parse_i64(&chars("-42")), Some(-42));
    assert_eq!(parse_i64(&chars("4x")), None);
    assert_eq!(decimal_text(1234).iter().collect::<String>(), "1234");
}

#[test]
fn backends_follow_the_provider() {
    assert_eq!(mail_backend_for(&Provider::Exchange), MailBackend::Ews);
    assert_eq!(mail_backend_for(&Provider::FastMail), MailBackend::Jmap);
    assert_eq!(mail_backend_for(&Provider::Gmail), MailBackend::ImapSmtp);
    assert_eq!(service_backend_for(&Provider::Gmail), ServiceBackend::Google);
    assert_eq!(service_backend_for(&Provider::Exchange), ServiceBackend::Microsoft);
    assert_eq!(service_backend_for(&Provider::ICloud), ServiceBackend::CalDav);
    assert_eq!(xoauth2_response("me@x.com", "tok"), "user=me@x.com\u{1}auth=Bearer tok\u{1}\u{1}");
}
