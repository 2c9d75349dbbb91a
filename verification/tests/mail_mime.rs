use cove_mail::fetch::{
    decode_gmail_raw, gmail_fetch_result, gmail_message, gmail_query, imap_message, imap_range_sequence,
    imap_since_query, imap_uid_sequence, parse_gmail_internal_date, GmailRawMessage, ImapFetch, ImapFlag,
};
use cove_mail::mail::{
    default_ews_folders, default_protocol_for_provider, ews_distinguished_folder, header_filename, header_get,
    merge_folders, parse_address_list, parse_ews_folders, text_less, thread_id_from_headers, EmailError,
};
use cove_mail::mime::{
    extract_attachments, extract_html_body, extract_text_body, header_value, headers_map, import_raw_message,
    preview_text, MimePart,
};
use cove_mail::model::{MailFolder, OfflineSyncLimit, Provider};

const SAMPLE: &str = "From: \"Ann Lee\" <ann@example.com>\r\n\
To: bob@example.com, Carl <carl@example.com>\r\n\
Subject: Lunch plans\r\n\
Message-ID: <m1@example.com>\r\n\
References: <r0@example.com>\r\n\
Date: Tue, 14 Nov 2023 22:13:20 +0000\r\n\
MIME-Version: 1.0\r\n\
Content-Type: multipart/mixed; boundary=\"BOUND\"\r\n\
\r\n\
--BOUND\r\n\
Content-Type: text/plain; charset=utf-8\r\n\
\r\n\
Shall we meet at noon?\r\n\
--BOUND\r\n\
Content-Type: text/html; charset=utf-8\r\n\
\r\n\
<p>Shall we meet at <b>noon</b>?</p><script>alert(1)</script>\r\n\
--BOUND\r\n\
Content-Type: application/pdf; name=\"menu.pdf\"\r\n\
Content-Disposition: attachment; filename=\"menu.pdf\"\r\n\
\r\n\
PDFDATA\r\n\
--BOUND--\r\n";

fn pair(a: &str, b: &str) -> (String, String) {
    (a.to_string(), b.to_string())
}

#[test]
fn provider_protocols() {
    assert_eq!(default_protocol_for_provider(&Provider::Exchange), "ews");
    assert_eq!(default_protocol_for_provider(&Provider::FastMail), "jmap");
    assert_eq!(default_protocol_for_provider(&Provider::Gmail), "imap_smtp");
}

#[test]
fn address_lists_split_names_and_addresses() {
    let v = parse_address_list(Some("\"Ann Lee\" <ann@example.com>, bob@example.com".to_string()));
    assert_eq!(v.len(), 2);
    assert_eq!(v[0].name.as_deref(), Some("Ann Lee"));
    assert_eq!(v[0].address, "ann@example.com");
    assert_eq!(v[1].name, None);
    assert_eq!(v[1].address, "bob@example.com");
    assert!(parse_address_list(None).is_empty());
    assert!(parse_address_list(Some(" , ".to_string())).is_empty());
}

#[test]
fn disposition_file_names() {
    assert_eq!(header_filename("attachment; filename=\"a b.pdf\""), Some("a b.pdf".to_string()));
    assert_eq!(header_filename("attachment; filename=x.txt; size=3"), Some("x.txt".to_string()));
    assert_eq!(header_filename("inline"), None);
}

#[test]
fn header_lookups() {
    let hs = vec![pair("Subject", "one"), pair("subject", "two"), pair("In-Reply-To", "<p@x>")];
    assert_eq!(header_get(&hs, "Subject"), Some("one".to_string()));
    assert_eq!(header_get(&hs, "SUBJECT"), None);
    assert_eq!(header_value(&hs, "SUBJECT"), Some("one".to_string()));
    assert_eq!(thread_id_from_headers(&hs, "fallback"), "<p@x>");
    assert_eq!(thread_id_from_headers(&vec![], "fallback"), "fallback");
}

#[test]
fn header_map_keeps_last_value_sorted() {
    let hs = vec![pair("X-B", "1"), pair("X-A", "2"), pair("X-B", "3")];
    let m = headers_map(&hs);
    assert_eq!(m, vec![pair("X-A", "2"), pair("X-B", "3")]);
}

#[test]
fn text_order_is_lexicographic() {
    let a: Vec<char> = "abc".chars().collect();
    let b: Vec<char> = "abd".chars().collect();
    let p: Vec<char> = "ab".chars().collect();
    assert!(text_less(&a, &b));
    assert!(!text_less(&b, &a));
    assert!(text_less(&p, &a));
    assert!(!text_less(&a, &a));
}

#[test]
fn ews_folder_names() {
    assert_eq!(ews_distinguished_folder("Sent Items"), "sentitems");
    assert_eq!(ews_distinguished_folder("TRASH"), "deleteditems");
    assert_eq!(ews_distinguished_folder("Archive"), "archiveinbox");
    assert_eq!(ews_distinguished_folder("Projects"), "inbox");
    let d = default_ews_folders(9);
    assert!(d.iter().any(|f| f.path == "Inbox"));
    let parsed = parse_ews_folders(9, "<t:DisplayName>Inbox</t:DisplayName><t:DisplayName>R&amp;D</t:DisplayName>")
        .expect("pattern compiles");
    assert_eq!(parsed.len(), 2);
    assert_eq!(parsed[1].path, "R&D");
    assert_eq!(parsed[1].account_id, 9);
}

fn folder(path: &str, unread: u32) -> MailFolder {
    MailFolder {
        account_id: 1,
        remote_id: path.to_string(),
        path: path.to_string(),
        delimiter: None,
        unread_count: unread,
        total_count: 0,
    }
}

#[test]
fn merged_folders_are_unique_by_path() {
    let mut known = vec![folder("INBOX", 1), folder("Archive", 0)];
    merge_folders(&mut known, vec![folder("INBOX", 7), folder("Drafts", 0)]);
    let paths: Vec<&str> = known.iter().map(|f| f.path.as_str()).collect();
    assert_eq!(paths, vec!["Archive", "Drafts", "INBOX"]);
    assert_eq!(known[2].unread_count, 7);
}

#[test]
fn import_reads_bodies_addresses_and_attachments() {
    let (m, contents) = import_raw_message(5, "INBOX", "r-1", SAMPLE.as_bytes()).expect("parsed");
    assert_eq!(m.account_id, 5);
    assert_eq!(m.folder_path, "INBOX");
    assert_eq!(m.remote_id, "r-1");
    assert_eq!(m.subject, "Lunch plans");
    assert_eq!(m.from.len(), 1);
    assert_eq!(m.from[0].name.as_deref(), Some("Ann Lee"));
    assert_eq!(m.to.len(), 2);
    assert_eq!(m.thread_id, "<r0@example.com>");
    assert!(m.body_text.as_deref().unwrap().starts_with("Shall we meet at noon?"));
    let html = m.body_html.as_deref().unwrap();
    assert!(html.contains("<b>noon</b>"));
    assert!(!html.contains("script"));
    assert_eq!(m.sent_at, Some(1_700_000_000));
    assert_eq!(m.attachments.len(), 1);
    assert_eq!(m.attachments[0].file_name, "menu.pdf");
    assert_eq!(m.attachments[0].mime_type, "application/pdf");
    assert!(!m.attachments[0].inline);
    assert_eq!(contents.len(), 1);
    assert_eq!(contents[0].0, m.attachments[0].id);
    assert_eq!(contents[0].1, b"PDFDATA".to_vec());
}

#[test]
fn preview_keeps_the_first_two_hundred_chars() {
    assert_eq!(preview_text(&Some("a\nb".to_string())), "a\nb");
    assert_eq!(preview_text(&None), "");
    let long = "é".repeat(500);
    assert_eq!(preview_text(&Some(long)), "é".repeat(200));
}

fn part(mimetype: &str, headers: Vec<(String, String)>, body: &str, leaf: bool) -> MimePart {
    MimePart {
        headers,
        mimetype: mimetype.to_string(),
        params: vec![],
        body: Some(body.to_string()),
        body_raw: body.as_bytes().to_vec(),
        leaf,
    }
}

#[test]
fn bodies_come_from_the_first_matching_leaf() {
    let parts = vec![
        part("multipart/alternative", vec![], "", false),
        part("text/html", vec![], "<p>h</p>", true),
        part("text/markdown", vec![], "*m*", true),
        part("text/plain", vec![], "p", true),
    ];
    assert_eq!(extract_text_body(&parts), Some("*m*".to_string()));
    assert_eq!(extract_html_body(&parts), Some("<p>h</p>".to_string()));
    assert_eq!(extract_text_body(&vec![part("multipart/alternative", vec![], "", false)]), None);
}

#[test]
fn attachments_need_a_disposition() {
    let inline_named = part(
        "image/png",
        vec![pair("Content-Disposition", "inline; filename=\"logo.png\"")],
        "PNG",
        true,
    );
    let inline_unnamed = part("image/png", vec![pair("Content-Disposition", "inline")], "X", true);
    let unnamed = part("application/octet-stream", vec![pair("Content-Disposition", "attachment")], "", true);
    let (atts, contents) = extract_attachments(&vec![inline_named, inline_unnamed, unnamed]);
    assert_eq!(atts.len(), 2);
    assert_eq!(atts[0].file_name, "logo.png");
    assert!(atts[0].inline);
    assert_eq!(atts[1].file_name, "attachment.bin");
    assert_eq!(atts[1].size, 0);
    assert_eq!(contents.len(), 1);
    assert_eq!(contents[0].1, b"PNG".to_vec());
}

#[test]
fn gmail_raw_decodes_padded_and_unpadded() {
    assert_eq!(decode_gmail_raw("aGk").unwrap(), b"hi".to_vec());
    assert_eq!(decode_gmail_raw("aGk=").unwrap(), b"hi".to_vec());
    assert!(matches!(decode_gmail_raw("***"), Err(EmailError::Data(_))));
    assert_eq!(parse_gmail_internal_date("1700000000123"), Some(1_700_000_000));
    assert_eq!(parse_gmail_internal_date("soon"), None);
}

fn gmail(raw: Option<String>) -> GmailRawMessage {
    GmailRawMessage {
        id: "g1".to_string(),
        thread_id: Some("t1".to_string()),
        label_ids: Some(vec!["UNREAD".to_string(), "STARRED".to_string(), "INBOX".to_string()]),
        snippet: Some("snip".to_string()),
        internal_date: Some("1700000100000".to_string()),
        raw,
    }
}

fn url_safe(bytes: &[u8]) -> String {
    const ALPHABET: &[u8; 64] = b"ABCDEFGHIJKLMNOPQRSTUVWXYZabcdefghijklmnopqrstuvwxyz0123456789-_";
    let mut out = String::new();
    for chunk in bytes.chunks(3) {
        let b = [chunk[0], *chunk.get(1).unwrap_or(&0), *chunk.get(2).unwrap_or(&0)];
        let n = ((b[0] as u32) << 16) | ((b[1] as u32) << 8) | b[2] as u32;
        let k = chunk.len() + 1;
        for i in 0..k {
            out.push(ALPHABET[((n >> (18 - 6 * i)) & 63) as usize] as char);
        }
    }
    out
}

#[test]
fn gmail_message_takes_labels_thread_and_date() {
    let raw = url_safe(SAMPLE.as_bytes());
    let (m, contents) = gmail_message(4, "INBOX", gmail(Some(raw))).unwrap().expect("message");
    assert_eq!(m.remote_id, "g1");
    assert_eq!(m.thread_id, "t1");
    assert!(!m.flags.seen);
    assert!(m.flags.flagged);
    assert_eq!(m.received_at, 1_700_000_100);
    assert_eq!(m.subject, "Lunch plans");
    assert_eq!(contents.len(), 1);
    assert!(gmail_message(4, "INBOX", gmail(None)).unwrap().is_none());
}

#[test]
fn gmail_fetch_fails_on_a_bad_payload() {
    let good = gmail(Some(url_safe(SAMPLE.as_bytes())));
    let res = gmail_fetch_result(1, "INBOX", vec![good.clone(), gmail(None)]).expect("fetched");
    assert_eq!(res.messages.len(), 1);
    assert_eq!(res.attachment_content.len(), 1);
    assert_eq!(res.attachment_content[0].1, res.messages[0].id);
    assert!(gmail_fetch_result(1, "INBOX", vec![good, gmail(Some("***".to_string()))]).is_err());
}

#[test]
fn gmail_query_adds_the_window() {
    assert_eq!(gmail_query("INBOX", None, 1_700_000_000), "label:INBOX");
    assert_eq!(gmail_query("INBOX", Some(OfflineSyncLimit::All), 1_700_000_000), "label:INBOX");
    assert_eq!(
        gmail_query("INBOX", Some(OfflineSyncLimit::Days(30)), 1_700_000_000),
        "label:INBOX after:2023/10/15"
    );
}

#[test]
fn imap_queries() {
    assert_eq!(imap_since_query(30, 1_700_000_000), "SINCE 15-Oct-2023");
    assert_eq!(imap_uid_sequence(&vec![], 10), None);
    assert_eq!(imap_uid_sequence(&vec![5, 3, 9], 10), Some("3,5,9".to_string()));
    assert_eq!(imap_uid_sequence(&vec![5, 3, 9, 1], 2), Some("9,5".to_string()));
    assert_eq!(imap_range_sequence(0, 10), None);
    assert_eq!(imap_range_sequence(100, 10), Some("91:100".to_string()));
    assert_eq!(imap_range_sequence(5, 10), Some("1:5".to_string()));
}

#[test]
fn imap_message_reads_flags_and_uid() {
    let f = ImapFetch {
        uid: Some(42),
        message: 7,
        flags: vec![ImapFlag::Seen, ImapFlag::Custom("$Label".to_string())],
        internal_date: None,
        body: Some(SAMPLE.as_bytes().to_vec()),
    };
    let (m, _) = imap_message(2, "INBOX", &f).unwrap().expect("message");
    assert_eq!(m.remote_id, "42");
    assert!(m.flags.seen);
    assert!(!m.flags.flagged);
    assert_eq!(m.received_at, 1_700_000_000);
    assert_eq!(m.thread_id, "<r0@example.com>");
    let empty = ImapFetch { uid: None, message: 7, flags: vec![], internal_date: None, body: None };
    assert!(imap_message(2, "INBOX", &empty).unwrap().is_none());
}
