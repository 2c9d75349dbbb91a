//! Outgoing mail as the desktop client builds it: composed messages, chat
//! replies, scheduled messages coming due, attachments read from files,
//! and the settings of an account set up by hand.
use vstd::prelude::*;
use crate::json::{jentries, jtext, jview, put, JsonNumber, JsonValue, JsonView};
use crate::mail::{opt_text, OutgoingAttachment, OutgoingMail};
use crate::model::{Account, AccountProtocol, MailAddress, MailMessage, OfflineSyncLimit, Provider};
use crate::native::{generic_setup_complete, GenericSetupDraft};
use crate::oauth::OAuthProfile;
use crate::security::{blank, is_blank};
use crate::text::{chars_of, split_char, split_on, starts_with, string_from_chars, to_lowercase, trim, trimmed, unicode_lower};

verus! {

// ------------------------------------------------------------------ recipients

/// The addresses of a comma-separated recipient line: each non-blank
/// segment, trimmed, without a name.
pub open spec fn recipient_addresses(segments: Seq<Seq<char>>) -> Seq<Seq<char>>
    decreases segments.len(),
{
    if segments.len() == 0 {
        Seq::empty()
    } else {
        let rest = recipient_addresses(segments.drop_last());
        if trim(segments.last()).len() == 0 { rest } else { rest.push(trim(segments.last())) }
    }
}

pub open spec fn bare_addresses(v: Seq<MailAddress>) -> Seq<Seq<char>> {
    v.map_values(|a: MailAddress| a.address@)
}

pub open spec fn nameless(v: Seq<MailAddress>) -> bool {
    forall|i: int| 0 <= i < v.len() ==> (#[trigger] v[i]).name.is_none()
}

/// The recipients of a comma-separated line.
pub fn compose_recipients(line: &str) -> (r: Vec<MailAddress>)
    ensures
        bare_addresses(r@) == recipient_addresses(split_char(line@, ',')),
        nameless(r@),
{
    let cs = chars_of(line);
    let segments = split_on(cs.as_slice(), ',');
    let ghost sv = segments@.map_values(|s: Vec<char>| s@);
    assert(sv == split_char(line@, ','));
    let mut out: Vec<MailAddress> = Vec::new();
    for i in 0..segments.len()
        invariant
            sv == segments@.map_values(|s: Vec<char>| s@),
            bare_addresses(out@) == recipient_addresses(sv.take(i as int)),
            nameless(out@),
    {
        assert(sv.take(i + 1).drop_last() =~= sv.take(i as int));
        assert(sv.take(i + 1).last() == segments@[i as int]@);
        let t = trimmed(segments[i].as_slice());
        let ghost before = out@;
        if t.len() > 0 {
            out.push(MailAddress { name: None, address: string_from_chars(t.as_slice()) });
            assert(bare_addresses(out@) =~= bare_addresses(before).push(t@));
        }
    }
    assert(sv.take(sv.len() as int) =~= sv);
    out
}

// ------------------------------------------------------------------ messages

/// The sender of a message from an account: its display name and address.
pub open spec fn sent_from(a: MailAddress, account: Account) -> bool {
    &&& opt_text(a.name) == Some(account.display_name@)
    &&& a.address@ == account.email_address@
}

fn sender_of(account: &Account) -> (r: MailAddress)
    ensures
        sent_from(r, *account),
{
    MailAddress { name: Some(account.display_name.clone()), address: account.email_address.clone() }
}

/// A plain-text message with no copies, reply addresses or attachments.
pub open spec fn plain(m: OutgoingMail) -> bool {
    &&& m.cc@.len() == 0
    &&& m.bcc@.len() == 0
    &&& m.reply_to@.len() == 0
    &&& m.body_html.is_none()
    &&& m.attachments@.len() == 0
}

/// A message composed from an account to the recipients of a line, with
/// the attachments given; an error when the line names no one.
pub fn compose_mail(account: &Account, to_line: &str, subject: &str, body: &str, attachments: Vec<OutgoingAttachment>) -> (r: Result<OutgoingMail, String>)
    ensures
        match r {
            Ok(m) => recipient_addresses(split_char(to_line@, ',')).len() > 0
                && sent_from(m.from, *account)
                && bare_addresses(m.to@) == recipient_addresses(split_char(to_line@, ','))
                && nameless(m.to@)
                && m.subject@ == subject@ && m.body_text@ == body@
                && m.cc@.len() == 0 && m.bcc@.len() == 0 && m.reply_to@.len() == 0 && m.body_html.is_none()
                && m.attachments@ == attachments@,
            Err(e) => recipient_addresses(split_char(to_line@, ',')).len() == 0 && e@ == "Compose requires at least one recipient"@,
        },
{
    let to = compose_recipients(to_line);
    if to.len() == 0 {
        return Err("Compose requires at least one recipient".to_owned());
    }
    Ok(OutgoingMail {
        from: sender_of(account),
        to,
        cc: Vec::new(),
        bcc: Vec::new(),
        reply_to: Vec::new(),
        subject: subject.to_owned(),
        body_text: body.to_owned(),
        body_html: None,
        attachments,
    })
}

/// The subject of a chat reply: the last message's subject when it already
/// starts with `re:` (in any case), else `Re: ` before it; `Chat Reply`
/// when there is no message.
pub open spec fn chat_subject(last: Option<Seq<char>>) -> Seq<char> {
    match last {
        Some(s) => if starts_with(unicode_lower(s), "re:"@) { s } else { "Re: "@ + s },
        None => "Chat Reply"@,
    }
}

/// The reply to a chat contact; none when the text is blank.
pub fn chat_reply_mail(account: &Account, contact_email: &str, last_subject: Option<&str>, text: &str) -> (r: Option<OutgoingMail>)
    ensures
        match r {
            None => blank(text@),
            Some(m) => !blank(text@) && sent_from(m.from, *account)
                && m.to@.len() == 1 && m.to@[0].name.is_none() && m.to@[0].address@ == contact_email@
                && m.subject@ == chat_subject(match last_subject {
                    Some(s) => Some(s@),
                    None => None,
                })
                && m.body_text@ == text@ && plain(m),
        },
{
    if is_blank(text) {
        return None;
    }
    proof {
        reveal_strlit("re:");
    }
    let subject = match last_subject {
        Some(s) => {
            let lowered = to_lowercase(s);
            if crate::text::has_prefix(chars_of(lowered.as_str()).as_slice(), chars_of("re:").as_slice()) {
                s.to_owned()
            } else {
                let mut t = chars_of("Re: ");
                crate::text::push_str(&mut t, s);
                string_from_chars(t.as_slice())
            }
        },
        None => "Chat Reply".to_owned(),
    };
    let mut to: Vec<MailAddress> = Vec::new();
    to.push(MailAddress { name: None, address: contact_email.to_owned() });
    Some(OutgoingMail {
        from: sender_of(account),
        to,
        cc: Vec::new(),
        bcc: Vec::new(),
        reply_to: Vec::new(),
        subject,
        body_text: text.to_owned(),
        body_html: None,
        attachments: Vec::new(),
    })
}

fn copy_addresses(v: &Vec<MailAddress>) -> (r: Vec<MailAddress>)
    ensures
        crate::mail::addresses_view(r@) == crate::mail::addresses_view(v@),
{
    let mut out: Vec<MailAddress> = Vec::new();
    for i in 0..v.len()
        invariant
            crate::mail::addresses_view(out@) == crate::mail::addresses_view(v@.take(i as int)),
    {
        let name = match &v[i].name {
            Some(n) => Some(n.clone()),
            None => None,
        };
        let ghost before = out@;
        let a = MailAddress { name, address: v[i].address.clone() };
        assert(crate::mail::address_view(a) == crate::mail::address_view(v@[i as int]));
        out.push(a);
        assert(v@.take(i + 1) =~= v@.take(i as int).push(v@[i as int]));
        assert(crate::mail::addresses_view(out@) =~= crate::mail::addresses_view(before).push(crate::mail::address_view(a)));
        assert(crate::mail::addresses_view(out@) =~= crate::mail::addresses_view(v@.take(i + 1)));
    }
    assert(v@.take(v@.len() as int) =~= v@);
    out
}

/// A scheduled message that has come due, to be sent as stored: from its
/// first sender (else the account's address), to its recipients, with its
/// subject and bodies (no text body read as empty).
pub fn scheduled_outgoing(message: &MailMessage, account_email: &str) -> (r: OutgoingMail)
    ensures
        crate::mail::address_view(r.from) == if message.from@.len() > 0 {
            crate::mail::address_view(message.from@[0])
        } else {
            (None, account_email@)
        },
        crate::mail::addresses_view(r.to@) == crate::mail::addresses_view(message.to@),
        crate::mail::addresses_view(r.cc@) == crate::mail::addresses_view(message.cc@),
        crate::mail::addresses_view(r.bcc@) == crate::mail::addresses_view(message.bcc@),
        crate::mail::addresses_view(r.reply_to@) == crate::mail::addresses_view(message.reply_to@),
        r.subject@ == message.subject@,
        r.body_text@ == match message.body_text {
            Some(t) => t@,
            None => Seq::empty(),
        },
        opt_text(r.body_html) == opt_text(message.body_html),
        r.attachments@.len() == 0,
{
    let from = if message.from.len() > 0 {
        let f = &message.from[0];
        MailAddress {
            name: match &f.name {
                Some(n) => Some(n.clone()),
                None => None,
            },
            address: f.address.clone(),
        }
    } else {
        MailAddress { name: None, address: account_email.to_owned() }
    };
    OutgoingMail {
        from,
        to: copy_addresses(&message.to),
        cc: copy_addresses(&message.cc),
        bcc: copy_addresses(&message.bcc),
        reply_to: copy_addresses(&message.reply_to),
        subject: message.subject.clone(),
        body_text: match &message.body_text {
            Some(t) => t.clone(),
            None => String::new(),
        },
        body_html: match &message.body_html {
            Some(h) => Some(h.clone()),
            None => None,
        },
        attachments: Vec::new(),
    }
}

// ------------------------------------------------------------------ attachments

/// The character of a six-bit value in the standard base64 alphabet.
pub open spec fn base64_char(n: int) -> char {
    if n < 26 {
        ('A' as int + n) as char
    } else if n < 52 {
        ('a' as int + (n - 26)) as char
    } else if n < 62 {
        ('0' as int + (n - 52)) as char
    } else if n == 62 {
        '+'
    } else {
        '/'
    }
}

/// Standard base64 with padding (RFC 4648): each three bytes become four
/// characters of six bits each; a last group of one or two bytes is filled
/// with zero bits and padded with `=` to four characters.
pub open spec fn base64_standard(b: Seq<u8>) -> Seq<char>
    decreases b.len(),
{
    if b.len() == 0 {
        Seq::empty()
    } else {
        let x = b[0] as int;
        let y = if b.len() > 1 { b[1] as int } else { 0 };
        let z = if b.len() > 2 { b[2] as int } else { 0 };
        let c0 = base64_char(x / 4);
        let c1 = base64_char((x % 4) * 16 + y / 16);
        let c2 = base64_char((y % 16) * 4 + z / 64);
        let c3 = base64_char(z % 64);
        if b.len() == 1 {
            seq![c0, c1, '=', '=']
        } else if b.len() == 2 {
            seq![c0, c1, c2, '=']
        } else {
            seq![c0, c1, c2, c3] + base64_standard(b.skip(3))
        }
    }
}

/// `STANDARD.encode` of the bytes: the `base64` crate's standard engine
/// encodes with the standard alphabet and pads.
#[verifier::external_body]
fn encode_base64(bytes: &[u8]) -> (r: String)
    ensures
        r@ == base64_standard(bytes@),
{
    base64::Engine::encode(&base64::engine::general_purpose::STANDARD, bytes)
}

/// A file attached to a message: its name (`attachment.bin` when the path
/// has none), as opaque bytes, base64-encoded, not inline.
pub fn file_attachment(file_name: Option<&str>, bytes: &[u8]) -> (r: OutgoingAttachment)
    ensures
        r.file_name@ == match file_name {
            Some(n) => n@,
            None => "attachment.bin"@,
        },
        r.mime_type@ == "application/octet-stream"@,
        r.content_base64@ == base64_standard(bytes@),
        !r.inline,
{
    OutgoingAttachment {
        file_name: match file_name {
            Some(n) => n.to_owned(),
            None => "attachment.bin".to_owned(),
        },
        mime_type: "application/octet-stream".to_owned(),
        content_base64: encode_base64(bytes),
        inline: false,
    }
}

// ------------------------------------------------------------------ hand setup

/// How a sync window is written in the settings: `"all"`, or
/// `{"days": n}`.
pub open spec fn window_json(w: OfflineSyncLimit) -> JsonView {
    match w {
        OfflineSyncLimit::All => JsonView::Str("all"@),
        OfflineSyncLimit::Days(d) => JsonView::Object(seq![("days"@, JsonView::Number(JsonNumber::PosInt(d as u64)))]),
    }
}

/// The mail settings of an account set up by hand: its servers and ports,
/// its address as user name, no secrets, and its sync window.
pub open spec fn hand_settings(d: GenericSetupDraft, w: OfflineSyncLimit) -> JsonView {
    JsonView::Object(seq![("email"@, JsonView::Object(seq![
        ("imap_host"@, JsonView::Str(d.imap_server@)),
        ("imap_port"@, JsonView::Number(JsonNumber::PosInt(d.imap_port as u64))),
        ("smtp_host"@, JsonView::Str(d.smtp_server@)),
        ("smtp_port"@, JsonView::Number(JsonNumber::PosInt(d.smtp_port as u64))),
        ("endpoint"@, JsonView::Null),
        ("username"@, JsonView::Str(d.email@)),
        ("password"@, JsonView::Null),
        ("access_token"@, JsonView::Null),
        ("offline_sync_limit"@, window_json(w)),
    ]))])
}

fn window_value(w: OfflineSyncLimit) -> (r: JsonValue)
    ensures
        jview(r) == window_json(w),
{
    match w {
        OfflineSyncLimit::All => jtext("all"),
        OfflineSyncLimit::Days(d) => {
            let mut es: Vec<(String, JsonValue)> = Vec::new();
            put(&mut es, "days", JsonValue::Number(JsonNumber::PosInt(d as u64)));
            assert(jentries(es@) =~= seq![("days"@, JsonView::Number(JsonNumber::PosInt(d as u64)))]);
            JsonValue::Object(es)
        },
    }
}

/// An account set up by hand, with its settings: a generic IMAP and SMTP
/// account named and addressed as the draft says, created at `now`. An
/// error when the address or IMAP server is blank.
pub fn generic_setup(draft: &GenericSetupDraft, window: OfflineSyncLimit, id: u128, now: i64) -> (r: Result<(Account, JsonValue), String>)
    ensures
        match r {
            Ok((a, s)) => !(blank(draft.email@) || blank(draft.imap_server@))
                && a.id == id && a.provider == Provider::Generic
                && a.protocols@ == seq![AccountProtocol::ImapSmtp]
                && a.display_name@ == draft.display_name@ && a.email_address@ == draft.email@
                && a.oauth_profile.is_none() && a.created_at == now && a.updated_at == now
                && jview(s) == hand_settings(*draft, window),
            Err(e) => (blank(draft.email@) || blank(draft.imap_server@)) && e@ == "Please fill out all required fields"@,
        },
{
    if !generic_setup_complete(draft) {
        return Err("Please fill out all required fields".to_owned());
    }
    let mut protocols: Vec<AccountProtocol> = Vec::new();
    protocols.push(AccountProtocol::ImapSmtp);
    let account = Account {
        id,
        provider: Provider::Generic,
        protocols,
        display_name: draft.display_name.clone(),
        email_address: draft.email.clone(),
        oauth_profile: None,
        created_at: now,
        updated_at: now,
    };
    let mut es: Vec<(String, JsonValue)> = Vec::new();
    put(&mut es, "imap_host", JsonValue::String(draft.imap_server.clone()));
    put(&mut es, "imap_port", JsonValue::Number(JsonNumber::PosInt(draft.imap_port as u64)));
    put(&mut es, "smtp_host", JsonValue::String(draft.smtp_server.clone()));
    put(&mut es, "smtp_port", JsonValue::Number(JsonNumber::PosInt(draft.smtp_port as u64)));
    put(&mut es, "endpoint", JsonValue::Null);
    put(&mut es, "username", JsonValue::String(draft.email.clone()));
    put(&mut es, "password", JsonValue::Null);
    put(&mut es, "access_token", JsonValue::Null);
    put(&mut es, "offline_sync_limit", window_value(window));
    let ghost ev = jentries(es@);
    let mut top: Vec<(String, JsonValue)> = Vec::new();
    put(&mut top, "email", JsonValue::Object(es));
    let ghost spec_top = hand_settings(*draft, window)->Object_0;
    assert(ev =~= spec_top[0].1->Object_0);
    assert(jentries(top@) =~= spec_top);
    Ok((account, JsonValue::Object(top)))
}

// ------------------------------------------------------------------ OAuth setup

/// The settings of an account added by OAuth sign-in: Gmail's IMAP and SMTP
/// servers with the address as user name, Google Calendar's primary calendar
/// and Google Tasks' default list, no secrets, and the sync window.
pub open spec fn oauth_settings(email: Seq<char>, w: OfflineSyncLimit) -> JsonView {
    JsonView::Object(seq![
        ("email"@, JsonView::Object(seq![
            ("imap_host"@, JsonView::Str("imap.gmail.com"@)),
            ("imap_port"@, JsonView::Number(JsonNumber::PosInt(993))),
            ("smtp_host"@, JsonView::Str("smtp.gmail.com"@)),
            ("smtp_port"@, JsonView::Number(JsonNumber::PosInt(465))),
            ("endpoint"@, JsonView::Null),
            ("username"@, JsonView::Str(email)),
            ("password"@, JsonView::Null),
            ("access_token"@, JsonView::Null),
            ("offline_sync_limit"@, window_json(w)),
        ])),
        ("calendar"@, JsonView::Object(seq![
            ("endpoint"@, JsonView::Str("https://www.googleapis.com/calendar/v3"@)),
            ("access_token"@, JsonView::Null),
            ("calendar_id"@, JsonView::Str("primary"@)),
        ])),
        ("tasks"@, JsonView::Object(seq![
            ("endpoint"@, JsonView::Str("https://tasks.googleapis.com/tasks/v1"@)),
            ("access_token"@, JsonView::Null),
            ("list_id"@, JsonView::Str("@default"@)),
        ])),
    ])
}

/// The account that a finished OAuth sign-in adds, with its settings: the
/// draft's provider, name and address, mail over IMAP and SMTP with Google
/// Calendar and Google Tasks, the sign-in's profile, created at `now`.
pub fn oauth_account_setup(
    draft_provider: Provider,
    display_name: &str,
    email: &str,
    window: OfflineSyncLimit,
    profile: OAuthProfile,
    id: u128,
    now: i64,
) -> (r: (Account, JsonValue))
    ensures
        r.0.id == id,
        r.0.provider == draft_provider,
        r.0.protocols@ == seq![AccountProtocol::ImapSmtp, AccountProtocol::GoogleCalendar, AccountProtocol::GoogleTasks],
        r.0.display_name@ == display_name@,
        r.0.email_address@ == email@,
        r.0.oauth_profile == Some(profile),
        r.0.created_at == now && r.0.updated_at == now,
        jview(r.1) == oauth_settings(email@, window),
{
    let mut protocols: Vec<AccountProtocol> = Vec::new();
    protocols.push(AccountProtocol::ImapSmtp);
    protocols.push(AccountProtocol::GoogleCalendar);
    protocols.push(AccountProtocol::GoogleTasks);
    let account = Account {
        id,
        provider: draft_provider,
        protocols,
        display_name: display_name.to_owned(),
        email_address: email.to_owned(),
        oauth_profile: Some(profile),
        created_at: now,
        updated_at: now,
    };
    let mut es: Vec<(String, JsonValue)> = Vec::new();
    put(&mut es, "imap_host", jtext("imap.gmail.com"));
    put(&mut es, "imap_port", JsonValue::Number(JsonNumber::PosInt(993)));
    put(&mut es, "smtp_host", jtext("smtp.gmail.com"));
    put(&mut es, "smtp_port", JsonValue::Number(JsonNumber::PosInt(465)));
    put(&mut es, "endpoint", JsonValue::Null);
    put(&mut es, "username", jtext(email));
    put(&mut es, "password", JsonValue::Null);
    put(&mut es, "access_token", JsonValue::Null);
    put(&mut es, "offline_sync_limit", window_value(window));
    let ghost ev = jentries(es@);
    let mut cs: Vec<(String, JsonValue)> = Vec::new();
    put(&mut cs, "endpoint", jtext("https://www.googleapis.com/calendar/v3"));
    put(&mut cs, "access_token", JsonValue::Null);
    put(&mut cs, "calendar_id", jtext("primary"));
    let ghost cv = jentries(cs@);
    let mut ts: Vec<(String, JsonValue)> = Vec::new();
    put(&mut ts, "endpoint", jtext("https://tasks.googleapis.com/tasks/v1"));
    put(&mut ts, "access_token", JsonValue::Null);
    put(&mut ts, "list_id", jtext("@default"));
    let ghost tv = jentries(ts@);
    let mut top: Vec<(String, JsonValue)> = Vec::new();
    put(&mut top, "email", JsonValue::Object(es));
    put(&mut top, "calendar", JsonValue::Object(cs));
    put(&mut top, "tasks", JsonValue::Object(ts));
    let ghost spec_top = oauth_settings(email@, window)->Object_0;
    assert(ev =~= spec_top[0].1->Object_0);
    assert(cv =~= spec_top[1].1->Object_0);
    assert(tv =~= spec_top[2].1->Object_0);
    assert(jentries(top@) =~= spec_top);
    (account, JsonValue::Object(top))
}

}
