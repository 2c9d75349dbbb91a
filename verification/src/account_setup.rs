//! The settings a new account starts with, per provider.
use vstd::prelude::*;
use crate::json::{jentries, jtext, jview, put, JsonNumber, JsonValue, JsonView};
use crate::model::Provider;

verus! {

pub open spec fn email_defaults(imap_host: Seq<char>, smtp_host: Seq<char>, smtp_port: u64, email: Seq<char>) -> JsonView {
    JsonView::Object(seq![
        ("imap_host"@, JsonView::Str(imap_host)),
        ("imap_port"@, JsonView::Number(JsonNumber::PosInt(993))),
        ("smtp_host"@, JsonView::Str(smtp_host)),
        ("smtp_port"@, JsonView::Number(JsonNumber::PosInt(smtp_port))),
        ("endpoint"@, JsonView::Null),
        ("username"@, JsonView::Str(email)),
        ("password"@, JsonView::Null),
        ("access_token"@, JsonView::Null),
    ])
}

pub open spec fn calendar_defaults(endpoint: Seq<char>, calendar_id: Seq<char>) -> JsonView {
    JsonView::Object(seq![
        ("endpoint"@, JsonView::Str(endpoint)),
        ("access_token"@, JsonView::Null),
        ("calendar_id"@, JsonView::Str(calendar_id)),
    ])
}

pub open spec fn tasks_defaults(endpoint: Seq<char>, list_id: Seq<char>) -> JsonView {
    JsonView::Object(seq![
        ("endpoint"@, JsonView::Str(endpoint)),
        ("access_token"@, JsonView::Null),
        ("list_id"@, JsonView::Str(list_id)),
    ])
}

/// The settings a Gmail or Microsoft account starts with: its mail servers
/// with the address as user name and no secrets, its calendar (the one
/// named, else the primary) and its task list (the one named, else the
/// provider's default list).
pub open spec fn provider_defaults(provider: Provider, email: Seq<char>, calendar_id: Option<Seq<char>>, list_id: Option<Seq<char>>) -> Option<JsonView> {
    let cal = match calendar_id {
        Some(c) => c,
        None => "primary"@,
    };
    match provider {
        Provider::Gmail => Some(JsonView::Object(seq![
            ("email"@, email_defaults("imap.gmail.com"@, "smtp.gmail.com"@, 465, email)),
            ("calendar"@, calendar_defaults("https://www.googleapis.com/calendar/v3"@, cal)),
            ("tasks"@, tasks_defaults("https://tasks.googleapis.com/tasks/v1"@, match list_id {
                Some(l) => l,
                None => "@default"@,
            })),
        ])),
        Provider::Outlook | Provider::Exchange => Some(JsonView::Object(seq![
            ("email"@, email_defaults("outlook.office365.com"@, "smtp.office365.com"@, 587, email)),
            ("calendar"@, calendar_defaults("https://graph.microsoft.com/v1.0"@, cal)),
            ("tasks"@, tasks_defaults("https://graph.microsoft.com/v1.0"@, match list_id {
                Some(l) => l,
                None => "Tasks"@,
            })),
        ])),
        _ => None,
    }
}

fn email_value(imap_host: &str, smtp_host: &str, smtp_port: u64, email: &str) -> (r: JsonValue)
    ensures
        jview(r) == email_defaults(imap_host@, smtp_host@, smtp_port, email@),
{
    let mut es: Vec<(String, JsonValue)> = Vec::new();
    put(&mut es, "imap_host", jtext(imap_host));
    put(&mut es, "imap_port", JsonValue::Number(JsonNumber::PosInt(993)));
    put(&mut es, "smtp_host", jtext(smtp_host));
    put(&mut es, "smtp_port", JsonValue::Number(JsonNumber::PosInt(smtp_port)));
    put(&mut es, "endpoint", JsonValue::Null);
    put(&mut es, "username", jtext(email));
    put(&mut es, "password", JsonValue::Null);
    put(&mut es, "access_token", JsonValue::Null);
    assert(jentries(es@) =~= seq![
        ("imap_host"@, JsonView::Str(imap_host@)),
        ("imap_port"@, JsonView::Number(JsonNumber::PosInt(993))),
        ("smtp_host"@, JsonView::Str(smtp_host@)),
        ("smtp_port"@, JsonView::Number(JsonNumber::PosInt(smtp_port))),
        ("endpoint"@, JsonView::Null),
        ("username"@, JsonView::Str(email@)),
        ("password"@, JsonView::Null),
        ("access_token"@, JsonView::Null),
    ]);
    JsonValue::Object(es)
}

fn endpoint_value(endpoint: &str, id_key: &str, id: &str) -> (r: JsonValue)
    ensures
        jview(r) == JsonView::Object(seq![
            ("endpoint"@, JsonView::Str(endpoint@)),
            ("access_token"@, JsonView::Null),
            (id_key@, JsonView::Str(id@)),
        ]),
{
    let mut es: Vec<(String, JsonValue)> = Vec::new();
    put(&mut es, "endpoint", jtext(endpoint));
    put(&mut es, "access_token", JsonValue::Null);
    put(&mut es, id_key, jtext(id));
    assert(jentries(es@) =~= seq![
        ("endpoint"@, JsonView::Str(endpoint@)),
        ("access_token"@, JsonView::Null),
        (id_key@, JsonView::Str(id@)),
    ]);
    JsonValue::Object(es)
}

/// The settings a new account of a provider starts with; an error for the
/// providers that have none.
pub fn default_settings_for_provider(provider: &Provider, email_address: &str, calendar_id: Option<String>, task_list_id: Option<String>) -> (r: Result<JsonValue, String>)
    ensures
        match provider_defaults(*provider, email_address@, crate::mail::opt_text(calendar_id), crate::mail::opt_text(task_list_id)) {
            Some(v) => r matches Ok(j) && jview(j) == v,
            None => r matches Err(m) && m@ == "Provider defaults not implemented"@,
        },
{
    let (imap_host, smtp_host, smtp_port, cal_endpoint, tasks_endpoint, default_list): (&str, &str, u64, &str, &str, &str) = match provider {
        Provider::Gmail => ("imap.gmail.com", "smtp.gmail.com", 465, "https://www.googleapis.com/calendar/v3",
            "https://tasks.googleapis.com/tasks/v1", "@default"),
        Provider::Outlook | Provider::Exchange => ("outlook.office365.com", "smtp.office365.com", 587,
            "https://graph.microsoft.com/v1.0", "https://graph.microsoft.com/v1.0", "Tasks"),
        _ => return Err("Provider defaults not implemented".to_owned()),
    };
    let cal = match calendar_id {
        Some(c) => c,
        None => "primary".to_owned(),
    };
    let list = match task_list_id {
        Some(l) => l,
        None => default_list.to_owned(),
    };
    let mut es: Vec<(String, JsonValue)> = Vec::new();
    put(&mut es, "email", email_value(imap_host, smtp_host, smtp_port, email_address));
    put(&mut es, "calendar", endpoint_value(cal_endpoint, "calendar_id", cal.as_str()));
    put(&mut es, "tasks", endpoint_value(tasks_endpoint, "list_id", list.as_str()));
    assert(jentries(es@) =~= seq![
        ("email"@, email_defaults(imap_host@, smtp_host@, smtp_port, email_address@)),
        ("calendar"@, calendar_defaults(cal_endpoint@, cal@)),
        ("tasks"@, tasks_defaults(tasks_endpoint@, list@)),
    ]);
    let ghost v = provider_defaults(*provider, email_address@, crate::mail::opt_text(calendar_id), crate::mail::opt_text(task_list_id))->0;
    assert(jentries(es@) =~= v->Object_0);
    let r = JsonValue::Object(es);
    Ok(r)
}

}
