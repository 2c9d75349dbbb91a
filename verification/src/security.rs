//! Secrets kept in the platform keychain, and the checks that guard them.
//!
//! The keychain itself is reached by the application; this module names the
//! entries and decides which secrets may be stored.
use vstd::prelude::*;
use crate::config::AppConfig;
use crate::text::{trim, trimmed, chars_of, seq_eq, utf8_len, utf8_length};

verus! {

/// The errors of the security features; errors of outside libraries are
/// kept as their message.
#[derive(Debug, Clone, PartialEq, Eq)]
pub enum SecurityError {
    Keychain(String),
    OAuth(String),
    Request(String),
    Url(String),
}

/// One secret in the keychain: a namespace such as `account_password` and an
/// id within it.
#[derive(Debug, Clone)]
pub struct SecretKey {
    pub namespace: String,
    pub id: String,
}

impl SecretKey {
    /// The keychain user name of the secret: `namespace:id`.
    pub open spec fn username(self) -> Seq<char> {
        self.namespace@ + seq![':'] + self.id@
    }

    pub fn as_username(&self) -> (r: String)
        ensures
            r@ == self.username(),
    {
        let mut out: Vec<char> = chars_of(self.namespace.as_str());
        out.push(':');
        let id = chars_of(self.id.as_str());
        crate::text::extend(&mut out, id.as_slice());
        crate::text::string_from_chars(out.as_slice())
    }
}

/// The keychain services under which secrets are kept: the current one, and
/// an older one from which secrets are still read.
#[derive(Debug, Clone)]
pub struct SecretStore {
    service_name: String,
    legacy_service_name: Option<String>,
}

impl SecretStore {
    pub closed spec fn service(&self) -> Seq<char> {
        self.service_name@
    }

    pub closed spec fn legacy_service(&self) -> Option<Seq<char>> {
        match self.legacy_service_name {
            Some(s) => Some(s@),
            None => None,
        }
    }

    pub fn new(service_name: &str) -> (r: SecretStore)
        ensures
            r.service() == service_name@,
            r.legacy_service().is_none(),
    {
        SecretStore { service_name: service_name.to_owned(), legacy_service_name: None }
    }

    pub fn new_with_legacy(service_name: &str, legacy_service_name: &str) -> (r: SecretStore)
        ensures
            r.service() == service_name@,
            r.legacy_service() == Some(legacy_service_name@),
    {
        SecretStore {
            service_name: service_name.to_owned(),
            legacy_service_name: Some(legacy_service_name.to_owned()),
        }
    }

    pub fn service_name(&self) -> (r: &str)
        ensures
            r@ == self.service(),
    {
        self.service_name.as_str()
    }

    pub fn legacy_service_name(&self) -> (r: Option<&str>)
        ensures
            match r {
                Some(s) => self.legacy_service() == Some(s@),
                None => self.legacy_service().is_none(),
            },
    {
        match &self.legacy_service_name {
            Some(s) => Some(s.as_str()),
            None => None,
        }
    }
}

// ------------------------------------------------------------------ secret checks

/// The characters a secret id may hold: ASCII letters and digits, `_`, `-`,
/// `.` and `:`.
pub open spec fn id_char(c: char) -> bool {
    ||| ('a' <= c && c <= 'z')
    ||| ('A' <= c && c <= 'Z')
    ||| ('0' <= c && c <= '9')
    ||| c == '_' || c == '-' || c == '.' || c == ':'
}

pub open spec fn valid_id_chars(s: Seq<char>) -> bool {
    forall|i: int| 0 <= i < s.len() ==> id_char(#[trigger] s[i])
}

pub open spec fn blank(s: Seq<char>) -> bool {
    trim(s).len() == 0
}

/// The AI providers whose keys may be stored.
pub open spec fn ai_provider_id(id: Seq<char>) -> bool {
    ||| id == "openai"@
    ||| id == "anthropic"@
    ||| id == "gemini"@
    ||| id == "mistral"@
    ||| id == "groq"@
    ||| id == "grok"@
    ||| id == "openrouter"@
}

/// The first problem that the checks find with a secret, or none. Namespace
/// and id must not be blank; the value must not be blank and must hold at
/// most 16384 bytes; the id at most 128 bytes of letters, digits and `_-.:`.
/// The namespace must be an account password or token (any id), an AI key
/// (a known provider's id), or the database key (id `sqlcipher_key`, at
/// least 16 bytes).
pub open spec fn secret_problem(namespace: Seq<char>, id: Seq<char>, value: Seq<char>) -> Option<Seq<char>> {
    if blank(namespace) || blank(id) {
        Some("secret namespace and id are required"@)
    } else if blank(value) {
        Some("secret value cannot be empty"@)
    } else if utf8_len(value) > 16384 {
        Some("secret value is too long"@)
    } else if utf8_len(id) > 128 || !valid_id_chars(id) {
        Some("secret id contains invalid characters"@)
    } else if namespace == "account_password"@ || namespace == "oauth_refresh_token"@ || namespace == "oauth_access_token"@ {
        None
    } else if namespace == "ai_api_key"@ {
        if ai_provider_id(id) { None } else { Some("invalid AI provider id"@) }
    } else if namespace == "database"@ {
        if id != "sqlcipher_key"@ {
            Some("invalid database secret id"@)
        } else if utf8_len(value) < 16 {
            Some("sqlcipher key must be at least 16 characters"@)
        } else {
            None
        }
    } else {
        Some("namespace is not allowed"@)
    }
}

pub fn is_blank(s: &str) -> (r: bool)
    ensures
        r == blank(s@),
{
    let c = chars_of(s);
    let t = trimmed(c.as_slice());
    t.len() == 0
}

pub fn is_id_char(c: char) -> (r: bool)
    ensures
        r == id_char(c),
{
    ('a' <= c && c <= 'z') || ('A' <= c && c <= 'Z') || ('0' <= c && c <= '9')
        || c == '_' || c == '-' || c == '.' || c == ':'
}

pub fn all_id_chars(s: &[char]) -> (r: bool)
    ensures
        r == valid_id_chars(s@),
{
    for i in 0..s.len()
        invariant
            forall|j: int| 0 <= j < i ==> id_char(#[trigger] s@[j]),
    {
        if !is_id_char(s[i]) {
            return false;
        }
    }
    true
}

pub fn text_is(s: &str, lit: &str) -> (r: bool)
    ensures
        r == (s@ == lit@),
{
    let a = chars_of(s);
    let b = chars_of(lit);
    seq_eq(a.as_slice(), b.as_slice())
}

fn err(msg: &str) -> (r: Result<(), String>)
    ensures
        r matches Err(e) && e@ == msg@,
{
    Err(msg.to_owned())
}

pub open spec fn check_result(problem: Option<Seq<char>>, r: Result<(), String>) -> bool {
    match problem {
        None => r is Ok,
        Some(msg) => r matches Err(e) && e@ == msg,
    }
}

/// Checks a secret before it is stored: `Ok` exactly when `secret_problem`
/// finds nothing, else its message.
pub fn validate_secret_key(key: &SecretKey, value: &str) -> (r: Result<(), String>)
    ensures
        check_result(secret_problem(key.namespace@, key.id@, value@), r),
{
    if is_blank(key.namespace.as_str()) || is_blank(key.id.as_str()) {
        return err("secret namespace and id are required");
    }
    if is_blank(value) {
        return err("secret value cannot be empty");
    }
    let value_chars = chars_of(value);
    let value_len = utf8_length(value_chars.as_slice());
    if value_len > 16384 {
        return err("secret value is too long");
    }
    let id_chars = chars_of(key.id.as_str());
    if utf8_length(id_chars.as_slice()) > 128 || !all_id_chars(id_chars.as_slice()) {
        return err("secret id contains invalid characters");
    }
    let ns = key.namespace.as_str();
    if text_is(ns, "account_password") || text_is(ns, "oauth_refresh_token") || text_is(ns, "oauth_access_token") {
        Ok(())
    } else if text_is(ns, "ai_api_key") {
        let id = key.id.as_str();
        if text_is(id, "openai") || text_is(id, "anthropic") || text_is(id, "gemini")
            || text_is(id, "mistral") || text_is(id, "groq") || text_is(id, "grok")
            || text_is(id, "openrouter") {
            Ok(())
        } else {
            err("invalid AI provider id")
        }
    } else if text_is(ns, "database") {
        if !text_is(key.id.as_str(), "sqlcipher_key") {
            err("invalid database secret id")
        } else if value_len < 16 {
            err("sqlcipher key must be at least 16 characters")
        } else {
            Ok(())
        }
    } else {
        err("namespace is not allowed")
    }
}

/// The database key that opening the store needs: none when encryption is
/// off; otherwise the keychain's key, which must exist and hold at least 16
/// bytes.
pub fn validate_sqlcipher_config(config: &AppConfig, db_key: Option<String>) -> (r: Result<Option<String>, String>)
    ensures
        !config.database.sqlcipher_enabled ==> r == Ok::<Option<String>, String>(None),
        config.database.sqlcipher_enabled ==> match db_key {
            None => r matches Err(e) && e@ == "sqlcipher is enabled but keychain secret `database/sqlcipher_key` is missing"@,
            Some(k) => if utf8_len(k@) < 16 {
                r matches Err(e) && e@ == "sqlcipher key must be at least 16 characters"@
            } else {
                r matches Ok(Some(v)) && v@ == k@
            },
        },
{
    if !config.database.sqlcipher_enabled {
        return Ok(None);
    }
    let key = match db_key {
        Some(k) => k,
        None => return Err("sqlcipher is enabled but keychain secret `database/sqlcipher_key` is missing".to_owned()),
    };
    let c = chars_of(key.as_str());
    if utf8_length(c.as_slice()) < 16 {
        return Err("sqlcipher key must be at least 16 characters".to_owned());
    }
    Ok(Some(key))
}

}
