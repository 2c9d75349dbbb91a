//! Keeping secrets out of stored account settings: the passwords and access
//! tokens found in a settings document are taken out of it and handed to the
//! keychain instead.
use vstd::prelude::*;
use crate::ids::{uuid_text, uuid_to_string};
use crate::json::{entries_get, entries_lookup, jview, JsonNumber, JsonValue, JsonView};
use crate::mail::opt_text;
use crate::security::{text_is, SecretKey};

verus! {

/// The members that hold secrets: `password` and `access_token`.
pub open spec fn secret_member(key: Seq<char>) -> bool {
    key == "password"@ || key == "access_token"@
}

/// The document with every `password` and `access_token` member removed, at
/// any depth.
pub open spec fn stripped(v: JsonValue) -> JsonView
    decreases v,
{
    match v {
        JsonValue::Array(items) => JsonView::Array(stripped_items(items@)),
        JsonValue::Object(es) => JsonView::Object(stripped_entries(es@)),
        _ => jview(v),
    }
}

pub open spec fn stripped_items(s: Seq<JsonValue>) -> Seq<JsonView>
    decreases s,
{
    if s.len() == 0 {
        Seq::empty()
    } else {
        stripped_items(s.drop_last()).push(stripped(s.last()))
    }
}

pub open spec fn stripped_entries(s: Seq<(String, JsonValue)>) -> Seq<(Seq<char>, JsonView)>
    decreases s,
{
    if s.len() == 0 {
        Seq::empty()
    } else if secret_member(s.last().0@) {
        stripped_entries(s.drop_last())
    } else {
        stripped_entries(s.drop_last()).push((s.last().0@, stripped(s.last().1)))
    }
}

/// The text an object holds under `key`, else `acc`.
pub open spec fn own_secret(es: Seq<(String, JsonValue)>, key: Seq<char>, acc: Option<Seq<char>>) -> Option<Seq<char>> {
    match entries_get(es, key) {
        Some(JsonValue::String(s)) => Some(s@),
        _ => acc,
    }
}

/// The last text found under `key` walking the document in order, an
/// object's own member before its other members, and nothing below a secret
/// member; `acc` when there is none.
pub open spec fn found_secret(v: JsonValue, key: Seq<char>, acc: Option<Seq<char>>) -> Option<Seq<char>>
    decreases v,
{
    match v {
        JsonValue::Array(items) => found_in_items(items@, key, acc),
        JsonValue::Object(es) => found_in_entries(es@, key, own_secret(es@, key, acc)),
        _ => acc,
    }
}

pub open spec fn found_in_items(s: Seq<JsonValue>, key: Seq<char>, acc: Option<Seq<char>>) -> Option<Seq<char>>
    decreases s,
{
    if s.len() == 0 {
        acc
    } else {
        found_secret(s.last(), key, found_in_items(s.drop_last(), key, acc))
    }
}

pub open spec fn found_in_entries(s: Seq<(String, JsonValue)>, key: Seq<char>, acc: Option<Seq<char>>) -> Option<Seq<char>>
    decreases s,
{
    if s.len() == 0 {
        acc
    } else if secret_member(s.last().0@) {
        found_in_entries(s.drop_last(), key, acc)
    } else {
        found_secret(s.last().1, key, found_in_entries(s.drop_last(), key, acc))
    }
}

/// No `password` or `access_token` member anywhere in a document.
pub open spec fn secret_free(v: JsonView) -> bool
    decreases v,
{
    match v {
        JsonView::Array(items) => secret_free_items(items),
        JsonView::Object(es) => secret_free_entries(es),
        _ => true,
    }
}

pub open spec fn secret_free_items(s: Seq<JsonView>) -> bool
    decreases s,
{
    s.len() == 0 || (secret_free_items(s.drop_last()) && secret_free(s.last()))
}

pub open spec fn secret_free_entries(s: Seq<(Seq<char>, JsonView)>) -> bool
    decreases s,
{
    s.len() == 0 || (secret_free_entries(s.drop_last()) && !secret_member(s.last().0) && secret_free(s.last().1))
}

/// A stripped settings document holds no secret member at any depth.
pub proof fn lemma_stripped_secret_free(v: JsonValue)
    ensures
        secret_free(stripped(v)),
    decreases v,
{
    match v {
        JsonValue::Array(items) => {
            lemma_stripped_items_free(items@);
        },
        JsonValue::Object(es) => {
            lemma_stripped_entries_free(es@);
        },
        _ => {},
    }
}

proof fn lemma_stripped_items_free(s: Seq<JsonValue>)
    ensures
        secret_free_items(stripped_items(s)),
    decreases s,
{
    if s.len() > 0 {
        lemma_stripped_items_free(s.drop_last());
        lemma_stripped_secret_free(s.last());
        assert(stripped_items(s).drop_last() =~= stripped_items(s.drop_last()));
    }
}

proof fn lemma_stripped_entries_free(s: Seq<(String, JsonValue)>)
    ensures
        secret_free_entries(stripped_entries(s)),
    decreases s,
{
    if s.len() > 0 {
        lemma_stripped_entries_free(s.drop_last());
        if !secret_member(s.last().0@) {
            lemma_stripped_secret_free(s.last().1);
            assert(stripped_entries(s).drop_last() =~= stripped_entries(s.drop_last()));
        }
    }
}

fn take_own(es: &Vec<(String, JsonValue)>, key: &str, out: &mut Option<String>)
    ensures
        opt_text(*final(out)) == own_secret(es@, key@, opt_text(*old(out))),
{
    match entries_lookup(es, key) {
        Some(JsonValue::String(s)) => {
            *out = Some(s.clone());
        },
        _ => {},
    }
}

fn is_secret_member(key: &String) -> (r: bool)
    ensures
        r == secret_member(key@),
{
    text_is(key.as_str(), "password") || text_is(key.as_str(), "access_token")
}

fn strip_copy(v: &JsonValue, password: &mut Option<String>, token: &mut Option<String>) -> (r: JsonValue)
    ensures
        jview(r) == stripped(*v),
        opt_text(*final(password)) == found_secret(*v, "password"@, opt_text(*old(password))),
        opt_text(*final(token)) == found_secret(*v, "access_token"@, opt_text(*old(token))),
    decreases v,
{
    match v {
        JsonValue::Array(items) => {
            let ghost pw0 = opt_text(*password);
            let ghost tk0 = opt_text(*token);
            let mut out: Vec<JsonValue> = Vec::new();
            let mut i: usize = 0;
            while i < items.len()
                invariant
                    i <= items.len(),
                    *v == JsonValue::Array(*items),
                    crate::json::jviews(out@) == stripped_items(items@.take(i as int)),
                    opt_text(*password) == found_in_items(items@.take(i as int), "password"@, pw0),
                    opt_text(*token) == found_in_items(items@.take(i as int), "access_token"@, tk0),
                decreases items.len() - i,
            {
                assert(items@.take(i + 1).drop_last() =~= items@.take(i as int));
                assert(items@.take(i + 1).last() == items@[i as int]);
                proof {
                    assert(decreases_to!(*v => v->Array_0));
                    assert(decreases_to!(*items => items@));
                    assert(decreases_to!(items@ => items@[i as int]));
                }
                let item = strip_copy(&items[i], password, token);
                crate::json::push_item(&mut out, item);
                i = i + 1;
            }
            assert(items@.take(items.len() as int) =~= items@);
            JsonValue::Array(out)
        },
        JsonValue::Object(es) => {
            take_own(es, "password", password);
            take_own(es, "access_token", token);
            let ghost pw0 = opt_text(*password);
            let ghost tk0 = opt_text(*token);
            let mut out: Vec<(String, JsonValue)> = Vec::new();
            let mut i: usize = 0;
            while i < es.len()
                invariant
                    i <= es.len(),
                    *v == JsonValue::Object(*es),
                    crate::json::jentries(out@) == stripped_entries(es@.take(i as int)),
                    opt_text(*password) == found_in_entries(es@.take(i as int), "password"@, pw0),
                    opt_text(*token) == found_in_entries(es@.take(i as int), "access_token"@, tk0),
                decreases es.len() - i,
            {
                assert(es@.take(i + 1).drop_last() =~= es@.take(i as int));
                assert(es@.take(i + 1).last() == es@[i as int]);
                if !is_secret_member(&es[i].0) {
                    proof {
                        assert(decreases_to!(*v => v->Object_0));
                        assert(decreases_to!(*es => es@));
                        assert(decreases_to!(es@ => es@[i as int]));
                        assert(decreases_to!(es@[i as int] => es@[i as int].1));
                    }
                    let item = strip_copy(&es[i].1, password, token);
                    crate::json::put(&mut out, es[i].0.as_str(), item);
                }
                i = i + 1;
            }
            assert(es@.take(es.len() as int) =~= es@);
            JsonValue::Object(out)
        },
        JsonValue::Null => JsonValue::Null,
        JsonValue::Bool(b) => JsonValue::Bool(*b),
        JsonValue::Number(n) => JsonValue::Number(match n {
            JsonNumber::PosInt(k) => JsonNumber::PosInt(*k),
            JsonNumber::NegInt(k) => JsonNumber::NegInt(*k),
            JsonNumber::Other(t) => JsonNumber::Other(t.clone()),
        }),
        JsonValue::String(s) => JsonValue::String(s.clone()),
    }
}

/// Removes every `password` and `access_token` member from a settings
/// document, at any depth, keeping in `password_out` and `access_token_out`
/// the last text value of each found walking the document in order (an
/// object's own members before those nested in it; what lies below a removed
/// member is not read). An output keeps its value when no text is found.
pub fn strip_secrets_from_value(value: &mut JsonValue, password_out: &mut Option<String>, access_token_out: &mut Option<String>)
    ensures
        jview(*final(value)) == stripped(*old(value)),
        opt_text(*final(password_out)) == found_secret(*old(value), "password"@, opt_text(*old(password_out))),
        opt_text(*final(access_token_out)) == found_secret(*old(value), "access_token"@, opt_text(*old(access_token_out))),
{
    let r = strip_copy(value, password_out, access_token_out);
    *value = r;
}

/// The keychain entries for the secrets of an account's settings: its
/// password under `account_password` and its access token under
/// `oauth_access_token`, each named by the account's id.
pub open spec fn secret_entries(account_id: u128, password: Option<Seq<char>>, token: Option<Seq<char>>) -> Seq<(Seq<char>, Seq<char>, Seq<char>)> {
    let a: Seq<(Seq<char>, Seq<char>, Seq<char>)> = match password {
        Some(p) => seq![("account_password"@, uuid_text(account_id), p)],
        None => Seq::empty(),
    };
    match token {
        Some(t) => a.push(("oauth_access_token"@, uuid_text(account_id), t)),
        None => a,
    }
}

pub open spec fn entry_view(e: (SecretKey, String)) -> (Seq<char>, Seq<char>, Seq<char>) {
    (e.0.namespace@, e.0.id@, e.1@)
}

/// Takes the secrets out of an account's settings document and returns them
/// as the keychain entries to store: the last password and the last access
/// token found (see `strip_secrets_from_value`).
pub fn extract_protocol_secrets(account_id: u128, settings: &mut JsonValue) -> (r: Vec<(SecretKey, String)>)
    ensures
        jview(*final(settings)) == stripped(*old(settings)),
        r@.map_values(|e: (SecretKey, String)| entry_view(e)) == secret_entries(
            account_id,
            found_secret(*old(settings), "password"@, None),
            found_secret(*old(settings), "access_token"@, None),
        ),
{
    let mut password: Option<String> = None;
    let mut token: Option<String> = None;
    strip_secrets_from_value(settings, &mut password, &mut token);
    let mut out: Vec<(SecretKey, String)> = Vec::new();
    let ghost start = out@;
    match password {
        Some(p) => {
            out.push((SecretKey { namespace: "account_password".to_owned(), id: uuid_to_string(account_id) }, p));
        },
        None => {},
    }
    match token {
        Some(t) => {
            let ghost before = out@;
            out.push((SecretKey { namespace: "oauth_access_token".to_owned(), id: uuid_to_string(account_id) }, t));
            assert(out@.map_values(|e: (SecretKey, String)| entry_view(e))
                =~= before.map_values(|e: (SecretKey, String)| entry_view(e)).push(entry_view(out@.last())));
        },
        None => {},
    }
    assert(out@.map_values(|e: (SecretKey, String)| entry_view(e)) =~= secret_entries(
        account_id,
        found_secret(*old(settings), "password"@, None),
        found_secret(*old(settings), "access_token"@, None),
    ));
    out
}

}
