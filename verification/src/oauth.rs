//! OAuth profiles of the mail providers and the checks a profile passes
//! before a sign-in starts.
use vstd::prelude::*;
use url::Url;
use oauth2::basic::BasicClient;
use oauth2::{AuthUrl, ClientId, CsrfToken, PkceCodeChallenge, RedirectUrl, Scope, TokenUrl};
use crate::model::Provider;
use crate::security::SecurityError;
use crate::text::{chars_of, seq_eq, to_lowercase, trim, trimmed, unicode_lower, utf8_len, utf8_length};

verus! {

/// What `Url::parse` makes of a text: its serialization, scheme and host
/// (`as_str`, `scheme`, `host_str`), or the parse error's message.
pub uninterp spec fn parsed_url(raw: Seq<char>) -> Result<(Seq<char>, Seq<char>, Option<Seq<char>>), Seq<char>>;

/// A parsed absolute URL: its text, its scheme and its host.
#[derive(Debug, Clone)]
pub struct WebUrl {
    text: String,
    scheme: String,
    host: Option<String>,
}

impl WebUrl {
    pub closed spec fn parts(&self) -> (Seq<char>, Seq<char>, Option<Seq<char>>) {
        (self.text@, self.scheme@, match self.host {
            Some(h) => Some(h@),
            None => None,
        })
    }

    /// Parses an absolute URL with `Url::parse`.
    pub fn parse(raw: &str) -> (r: Result<WebUrl, String>)
        ensures
            match parsed_url(raw@) {
                Ok(p) => r matches Ok(u) && u.parts() == p,
                Err(m) => r matches Err(e) && e@ == m,
            },
    {
        match url_parts(raw) {
            Ok((text, scheme, host)) => Ok(WebUrl { text, scheme, host }),
            Err(m) => Err(m),
        }
    }

    pub fn as_str(&self) -> (r: &str)
        ensures
            r@ == self.parts().0,
    {
        self.text.as_str()
    }

    pub fn scheme(&self) -> (r: &str)
        ensures
            r@ == self.parts().1,
    {
        self.scheme.as_str()
    }

    pub fn host_str(&self) -> (r: Option<&str>)
        ensures
            match r {
                Some(h) => self.parts().2 == Some(h@),
                None => self.parts().2.is_none(),
            },
    {
        match &self.host {
            Some(h) => Some(h.as_str()),
            None => None,
        }
    }
}

/// `Url::parse`, as the URL's serialization, scheme and host, or the error's
/// message.
#[verifier::external_body]
fn url_parts(raw: &str) -> (r: Result<(String, String, Option<String>), String>)
    ensures
        match r {
            Ok((t, s, h)) => parsed_url(raw@) == Ok::<(Seq<char>, Seq<char>, Option<Seq<char>>), Seq<char>>((t@, s@, match h {
                Some(h) => Some(h@),
                None => None,
            })),
            Err(m) => parsed_url(raw@) == Err::<(Seq<char>, Seq<char>, Option<Seq<char>>), Seq<char>>(m@),
        },
{
    match Url::parse(raw) {
        Ok(u) => Ok((u.as_str().to_string(), u.scheme().to_string(), u.host_str().map(|h| h.to_string()))),
        Err(e) => Err(e.to_string()),
    }
}

/// The OAuth endpoints and scopes of a provider, and the app's client id.
#[derive(Debug, Clone)]
pub struct OAuthProfile {
    pub client_id: String,
    pub auth_url: WebUrl,
    pub token_url: WebUrl,
    pub redirect_url: WebUrl,
    pub scopes: Vec<String>,
}

/// A started PKCE sign-in: where to send the user, and the secrets that
/// finishing it needs.
#[derive(Clone)]
pub struct OAuthPkceSession {
    pub authorization_url: String,
    pub csrf_state: String,
    pub pkce_verifier: String,
}

impl OAuthPkceSession {
    /// The debug text of the session, as `Debug` writes a struct, with the
    /// CSRF state and the PKCE verifier shown only as `[REDACTED]`.
    pub open spec fn redacted_text(&self) -> Seq<char> {
        "OAuthPkceSession { authorization_url: "@ + crate::text::debug_quoted(self.authorization_url@)
            + ", csrf_state: \"[REDACTED]\", pkce_verifier: \"[REDACTED]\" }"@
    }

    /// The debug text of the session, with no secret in it.
    pub fn redacted_debug(&self) -> (r: String)
        ensures
            r@ == self.redacted_text(),
    {
        let mut t = chars_of("OAuthPkceSession { authorization_url: ");
        let q = crate::text::debug_quote(self.authorization_url.as_str());
        crate::text::push_str(&mut t, q.as_str());
        crate::text::push_str(&mut t, ", csrf_state: \"[REDACTED]\", pkce_verifier: \"[REDACTED]\" }");
        assert(t@ =~= self.redacted_text());
        crate::text::string_from_chars(t.as_slice())
    }
}

/// The tokens that a finished sign-in yields.
#[derive(Clone)]
pub struct OAuthTokenResult {
    pub access_token: String,
    pub refresh_token: Option<String>,
    pub expires_in_secs: Option<u64>,
}

impl OAuthTokenResult {
    /// What the token result shows in logs: the field names, with both
    /// tokens hidden behind `[REDACTED]` and the lifetime as is, in the form
    /// `OAuthTokenResult { access_token: "[REDACTED]", refresh_token:
    /// Some("[REDACTED]"), expires_in_secs: Some(3600) }`.
    pub open spec fn redacted_text(&self) -> Seq<char> {
        "OAuthTokenResult { access_token: \"[REDACTED]\", refresh_token: "@
            + (if self.refresh_token.is_some() { "Some(\"[REDACTED]\")"@ } else { "None"@ })
            + ", expires_in_secs: "@
            + (match self.expires_in_secs {
                Some(n) => "Some("@ + crate::numbers::decimal(n as nat) + ")"@,
                None => "None"@,
            })
            + " }"@
    }

    /// The debug text of the token result, with no secret in it.
    pub fn redacted_debug(&self) -> (r: String)
        ensures
            r@ == self.redacted_text(),
    {
        let mut t = chars_of("OAuthTokenResult { access_token: \"[REDACTED]\", refresh_token: ");
        if self.refresh_token.is_some() {
            crate::text::push_str(&mut t, "Some(\"[REDACTED]\")");
        } else {
            crate::text::push_str(&mut t, "None");
        }
        crate::text::push_str(&mut t, ", expires_in_secs: ");
        match self.expires_in_secs {
            Some(n) => {
                crate::text::push_str(&mut t, "Some(");
                let d = crate::numbers::decimal_text(n);
                crate::text::extend(&mut t, d.as_slice());
                crate::text::push_str(&mut t, ")");
            },
            None => crate::text::push_str(&mut t, "None"),
        }
        crate::text::push_str(&mut t, " }");
        assert(t@ =~= self.redacted_text());
        crate::text::string_from_chars(t.as_slice())
    }
}

// ------------------------------------------------------------------ profile checks

/// Scopes too broad to ask for.
pub open spec fn dangerous_scope(lowered: Seq<char>) -> bool {
    lowered == "*"@ || lowered == "admin"@ || lowered == "root"@ || lowered == "full_access"@
}

/// The first scope of `scopes` that is too broad, in any case.
pub open spec fn first_dangerous(scopes: Seq<String>) -> Option<Seq<char>>
    decreases scopes.len(),
{
    if scopes.len() == 0 {
        None
    } else if dangerous_scope(unicode_lower(scopes[0]@)) {
        Some(scopes[0]@)
    } else {
        first_dangerous(scopes.drop_first())
    }
}

pub open spec fn local_host(h: Seq<char>) -> bool {
    h == "127.0.0.1"@ || h == "localhost"@ || h == "[::1]"@
}

/// The first problem the checks find with a profile, as its message:
/// endpoints over HTTPS, a redirect to this machine, a client id of 1 to
/// 512 bytes once trimmed, no scope too broad, and endpoints with a host.
pub open spec fn profile_problem(p: OAuthProfile) -> Option<Seq<char>> {
    let client = trim(p.client_id@);
    if p.auth_url.parts().1 != "https"@ {
        Some("Authorization URL must use HTTPS"@)
    } else if p.token_url.parts().1 != "https"@ {
        Some("Token URL must use HTTPS"@)
    } else if !local_host(match p.redirect_url.parts().2 {
        Some(h) => h,
        None => Seq::empty(),
    }) {
        Some("Redirect URL must point to localhost (127.0.0.1 or localhost) for desktop apps"@)
    } else if client.len() == 0 {
        Some("Client ID is required"@)
    } else if utf8_len(client) > 512 {
        Some("Client ID appears invalid (too long)"@)
    } else if first_dangerous(p.scopes@) is Some {
        Some("Scope '"@ + first_dangerous(p.scopes@)->0 + "' is too broad and not allowed"@)
    } else if p.auth_url.parts().2.is_none() {
        Some("Authorization URL must have a valid host"@)
    } else if p.token_url.parts().2.is_none() {
        Some("Token URL must have a valid host"@)
    } else {
        None
    }
}

fn is_text(s: &str, lit: &str) -> (r: bool)
    ensures
        r == (s@ == lit@),
{
    let a = chars_of(s);
    let b = chars_of(lit);
    seq_eq(a.as_slice(), b.as_slice())
}

fn oauth_error(msg: &str) -> (r: Result<(), SecurityError>)
    ensures
        r matches Err(SecurityError::OAuth(m)) && m@ == msg@,
{
    Err(SecurityError::OAuth(msg.to_owned()))
}

fn dangerous_scope_in(scopes: &Vec<String>) -> (r: Option<String>)
    ensures
        crate::mail::opt_text(r) == first_dangerous(scopes@),
{
    let mut i: usize = 0;
    assert(scopes@.skip(0) =~= scopes@);
    while i < scopes.len()
        invariant
            i <= scopes.len(),
            first_dangerous(scopes@) == first_dangerous(scopes@.skip(i as int)),
        decreases scopes.len() - i,
    {
        assert(scopes@.skip(i as int).drop_first() =~= scopes@.skip(i + 1));
        assert(scopes@.skip(i as int)[0] == scopes@[i as int]);
        let lower = to_lowercase(scopes[i].as_str());
        let l = lower.as_str();
        if is_text(l, "*") || is_text(l, "admin") || is_text(l, "root") || is_text(l, "full_access") {
            return Some(scopes[i].clone());
        }
        i = i + 1;
    }
    None
}

/// Checks a profile before use: `Ok` exactly when `profile_problem` finds
/// nothing, else an OAuth error with its message.
pub fn validate_profile(profile: &OAuthProfile) -> (r: Result<(), SecurityError>)
    ensures
        match profile_problem(*profile) {
            None => r is Ok,
            Some(m) => r matches Err(SecurityError::OAuth(e)) && e@ == m,
        },
{
    if !is_text(profile.auth_url.scheme(), "https") {
        return oauth_error("Authorization URL must use HTTPS");
    }
    if !is_text(profile.token_url.scheme(), "https") {
        return oauth_error("Token URL must use HTTPS");
    }
    let redirect_host = match profile.redirect_url.host_str() {
        Some(h) => h,
        None => "",
    };
    proof {
        reveal_strlit("");
        assert(""@ =~= Seq::<char>::empty());
    }
    if !(is_text(redirect_host, "127.0.0.1") || is_text(redirect_host, "localhost") || is_text(redirect_host, "[::1]")) {
        return oauth_error("Redirect URL must point to localhost (127.0.0.1 or localhost) for desktop apps");
    }
    let c = chars_of(profile.client_id.as_str());
    let client = trimmed(c.as_slice());
    if client.len() == 0 {
        return oauth_error("Client ID is required");
    }
    if utf8_length(client.as_slice()) > 512 {
        return oauth_error("Client ID appears invalid (too long)");
    }
    match dangerous_scope_in(&profile.scopes) {
        Some(scope) => {
            let mut m = chars_of("Scope '");
            let sc = chars_of(scope.as_str());
            crate::text::extend(&mut m, sc.as_slice());
            crate::text::push_str(&mut m, "' is too broad and not allowed");
            return Err(SecurityError::OAuth(crate::text::string_from_chars(m.as_slice())));
        },
        None => {},
    }
    if profile.auth_url.host_str().is_none() {
        return oauth_error("Authorization URL must have a valid host");
    }
    if profile.token_url.host_str().is_none() {
        return oauth_error("Token URL must have a valid host");
    }
    Ok(())
}

/// A sign-in flow for one provider profile.
#[derive(Debug, Clone)]
pub struct OAuthWorkflow {
    profile: OAuthProfile,
}

impl OAuthWorkflow {
    pub closed spec fn profile(&self) -> OAuthProfile {
        self.profile
    }

    /// A workflow for a profile that passes `validate_profile`.
    pub fn new(profile: OAuthProfile) -> (r: Result<OAuthWorkflow, SecurityError>)
        ensures
            match profile_problem(profile) {
                None => r matches Ok(w) && w.profile() == profile,
                Some(m) => r matches Err(SecurityError::OAuth(e)) && e@ == m,
            },
    {
        match validate_profile(&profile) {
            Ok(()) => Ok(OAuthWorkflow { profile }),
            Err(e) => Err(e),
        }
    }
}

// ------------------------------------------------------------------ provider profiles

pub open spec fn google_scopes() -> Seq<Seq<char>> {
    seq![
        "openid"@,
        "email"@,
        "profile"@,
        "https://mail.google.com/"@,
        "https://www.googleapis.com/auth/calendar"@,
        "https://www.googleapis.com/auth/tasks"@,
    ]
}

pub open spec fn microsoft_scopes() -> Seq<Seq<char>> {
    seq![
        "offline_access"@,
        "User.Read"@,
        "Mail.ReadWrite"@,
        "Mail.Send"@,
        "Calendars.ReadWrite"@,
        "Tasks.ReadWrite"@,
    ]
}

/// The authorization endpoint, token endpoint and scopes of a provider that
/// signs in with OAuth.
pub open spec fn provider_endpoints(provider: Provider, microsoft: bool) -> Option<(Seq<char>, Seq<char>, Seq<Seq<char>>)> {
    match provider {
        Provider::Gmail => Some(("https://accounts.google.com/o/oauth2/v2/auth"@, "https://oauth2.googleapis.com/token"@, google_scopes())),
        Provider::Outlook | Provider::Exchange => if microsoft {
            Some(("https://login.microsoftonline.com/common/oauth2/v2.0/authorize"@, "https://login.microsoftonline.com/common/oauth2/v2.0/token"@, microsoft_scopes()))
        } else {
            None
        },
        _ => None,
    }
}

/// `p` is the profile of those endpoints, with the given client id and the
/// parsed redirect URL.
pub open spec fn profile_of(p: OAuthProfile, client_id: Seq<char>, auth: Seq<char>, token: Seq<char>, scopes: Seq<Seq<char>>, redirect: Seq<char>) -> bool {
    &&& p.client_id@ == client_id
    &&& parsed_url(auth) == Ok::<(Seq<char>, Seq<char>, Option<Seq<char>>), Seq<char>>(p.auth_url.parts())
    &&& parsed_url(token) == Ok::<(Seq<char>, Seq<char>, Option<Seq<char>>), Seq<char>>(p.token_url.parts())
    &&& parsed_url(redirect) == Ok::<(Seq<char>, Seq<char>, Option<Seq<char>>), Seq<char>>(p.redirect_url.parts())
    &&& p.scopes@.map_values(|s: String| s@) == scopes
}

/// The first URL of the three that does not parse, as its error message.
pub open spec fn url_failure(auth: Seq<char>, token: Seq<char>, redirect: Seq<char>) -> Option<Seq<char>> {
    match parsed_url(auth) {
        Err(m) => Some(m),
        Ok(_) => match parsed_url(token) {
            Err(m) => Some(m),
            Ok(_) => match parsed_url(redirect) {
                Err(m) => Some(m),
                Ok(_) => None,
            },
        },
    }
}

fn google_scope_list() -> (r: Vec<String>)
    ensures
        r@.map_values(|s: String| s@) == google_scopes(),
{
    let mut v: Vec<String> = Vec::new();
    v.push("openid".to_owned());
    v.push("email".to_owned());
    v.push("profile".to_owned());
    v.push("https://mail.google.com/".to_owned());
    v.push("https://www.googleapis.com/auth/calendar".to_owned());
    v.push("https://www.googleapis.com/auth/tasks".to_owned());
    assert(v@.map_values(|s: String| s@) =~= google_scopes());
    v
}

fn microsoft_scope_list() -> (r: Vec<String>)
    ensures
        r@.map_values(|s: String| s@) == microsoft_scopes(),
{
    let mut v: Vec<String> = Vec::new();
    v.push("offline_access".to_owned());
    v.push("User.Read".to_owned());
    v.push("Mail.ReadWrite".to_owned());
    v.push("Mail.Send".to_owned());
    v.push("Calendars.ReadWrite".to_owned());
    v.push("Tasks.ReadWrite".to_owned());
    assert(v@.map_values(|s: String| s@) =~= microsoft_scopes());
    v
}

fn build_profile(client_id: &str, auth: &str, token: &str, redirect_url: &str, scopes: Vec<String>) -> (r: Result<OAuthProfile, String>)
    ensures
        match url_failure(auth@, token@, redirect_url@) {
            Some(m) => r matches Err(e) && e@ == m,
            None => r matches Ok(p) && profile_of(p, client_id@, auth@, token@, scopes@.map_values(|s: String| s@), redirect_url@),
        },
{
    let auth_url = WebUrl::parse(auth)?;
    let token_url = WebUrl::parse(token)?;
    let redirect = WebUrl::parse(redirect_url)?;
    Ok(OAuthProfile { client_id: client_id.to_owned(), auth_url, token_url, redirect_url: redirect, scopes })
}

/// The OAuth profile of a provider: Google for Gmail, Microsoft for Outlook
/// and Exchange; other providers do not sign in with OAuth.
pub fn oauth_profile_for_provider(provider: Provider, client_id: &str, redirect_url: &str) -> (r: Result<OAuthProfile, String>)
    ensures
        match provider_endpoints(provider, true) {
            None => r matches Err(e) && e@ == "OAuth flow is implemented for Gmail and Microsoft providers"@,
            Some((auth, token, scopes)) => match url_failure(auth, token, redirect_url@) {
                Some(m) => r matches Err(e) && e@ == m,
                None => r matches Ok(p) && profile_of(p, client_id@, auth, token, scopes, redirect_url@),
            },
        },
{
    match provider {
        Provider::Gmail => {
            let scopes = google_scope_list();
            build_profile(client_id, "https://accounts.google.com/o/oauth2/v2/auth", "https://oauth2.googleapis.com/token", redirect_url, scopes)
        },
        Provider::Outlook | Provider::Exchange => {
            let scopes = microsoft_scope_list();
            build_profile(client_id, "https://login.microsoftonline.com/common/oauth2/v2.0/authorize",
                "https://login.microsoftonline.com/common/oauth2/v2.0/token", redirect_url, scopes)
        },
        _ => Err("OAuth flow is implemented for Gmail and Microsoft providers".to_owned()),
    }
}

/// The OAuth profile of a provider in the native shell, which signs in to
/// Gmail only.
pub fn native_oauth_profile_for_provider(provider: Provider, client_id: &str, redirect_url: &str) -> (r: Result<OAuthProfile, String>)
    ensures
        match provider_endpoints(provider, false) {
            None => r matches Err(e) && e@ == "Only Gmail OAuth is enabled in native shell"@,
            Some((auth, token, scopes)) => match url_failure(auth, token, redirect_url@) {
                Some(m) => r matches Err(e) && e@ == m,
                None => r matches Ok(p) && profile_of(p, client_id@, auth, token, scopes, redirect_url@),
            },
        },
{
    match provider {
        Provider::Gmail => {
            let scopes = google_scope_list();
            build_profile(client_id, "https://accounts.google.com/o/oauth2/v2/auth", "https://oauth2.googleapis.com/token", redirect_url, scopes)
        },
        _ => Err("Only Gmail OAuth is enabled in native shell".to_owned()),
    }
}

}

verus! {

// ------------------------------------------------------------------ sign-in

/// The message of the first of the authorization, token and redirect
/// addresses that `Url::parse` refuses, in that order; none when all parse.
pub open spec fn first_url_error(auth: Seq<char>, token: Seq<char>, redirect: Seq<char>) -> Option<Seq<char>> {
    match parsed_url(auth) {
        Err(m) => Some(m),
        Ok(_) => match parsed_url(token) {
            Err(m) => Some(m),
            Ok(_) => match parsed_url(redirect) {
                Err(m) => Some(m),
                Ok(_) => None,
            },
        },
    }
}

/// A character of the URL-safe base64 alphabet.
pub open spec fn url_safe_char(c: char) -> bool {
    ('A' <= c && c <= 'Z') || ('a' <= c && c <= 'z') || ('0' <= c && c <= '9') || c == '-' || c == '_'
}

/// Unpadded URL-safe base64 of `len` characters, as random bytes encode.
pub open spec fn random_token(s: Seq<char>, len: nat) -> bool {
    s.len() == len && forall|i: int| 0 <= i < s.len() ==> url_safe_char(#[trigger] s[i])
}

/// `oauth2`: a `BasicClient` with the profile's client id and addresses
/// (`AuthUrl::new`, `TokenUrl::new`, `RedirectUrl::new`, each `Url::parse`
/// of its text, in that order), asked for an authorization address
/// (`authorize_url`, `add_scope`, `url`) with a fresh SHA-256 PKCE challenge
/// (`new_random_sha256`: 32 random bytes) and a fresh CSRF state
/// (`CsrfToken::new_random`: 16 random bytes), both unpadded URL-safe
/// base64. Claimed: the call fails exactly when an address does not parse,
/// with that parse error's message; on success the state has 22 and the
/// verifier 43 characters of that alphabet, and the address carries the
/// state as its `state` query pair (the alphabet needs no escaping). The
/// random values themselves are not stated, nor the rest of the address.
#[verifier::external_body]
fn pkce_authorization(client_id: &str, auth_url: &str, token_url: &str, redirect_url: &str, scopes: &Vec<String>) -> (r: Result<(String, String, String), String>)
    ensures
        match r {
            Err(m) => first_url_error(auth_url@, token_url@, redirect_url@) == Some(m@),
            Ok((url, state, verifier)) => first_url_error(auth_url@, token_url@, redirect_url@).is_none()
                && random_token(state@, 22) && random_token(verifier@, 43)
                && crate::text::contains(url@, "state="@ + state@),
        },
{
    let client = BasicClient::new(ClientId::new(client_id.to_string()))
        .set_auth_uri(AuthUrl::new(auth_url.to_string()).map_err(|e| e.to_string())?)
        .set_token_uri(TokenUrl::new(token_url.to_string()).map_err(|e| e.to_string())?)
        .set_redirect_uri(RedirectUrl::new(redirect_url.to_string()).map_err(|e| e.to_string())?);
    let (challenge, verifier) = PkceCodeChallenge::new_random_sha256();
    let mut request = client.authorize_url(CsrfToken::new_random).set_pkce_challenge(challenge);
    for scope in scopes {
        request = request.add_scope(Scope::new(scope.clone()));
    }
    let (url, state) = request.url();
    Ok((url.to_string(), state.secret().to_string(), verifier.secret().to_string()))
}

impl OAuthWorkflow {
    /// Starts a PKCE sign-in: the address to send the user to, and the
    /// state and verifier to keep. It fails, with a URL error naming the
    /// parse error, exactly when the profile's authorization, token or
    /// redirect address (checked in that order) does not parse again; else
    /// the state (22 characters) and verifier (43) are fresh random
    /// URL-safe base64, and the address carries the state.
    pub fn begin_pkce_session(&self) -> (r: Result<OAuthPkceSession, SecurityError>)
        ensures
            match r {
                Err(e) => e matches SecurityError::Url(m) && first_url_error(
                    self.profile().auth_url.parts().0, self.profile().token_url.parts().0, self.profile().redirect_url.parts().0) == Some(m@),
                Ok(s) => first_url_error(
                    self.profile().auth_url.parts().0, self.profile().token_url.parts().0, self.profile().redirect_url.parts().0).is_none()
                    && random_token(s.csrf_state@, 22) && random_token(s.pkce_verifier@, 43)
                    && crate::text::contains(s.authorization_url@, "state="@ + s.csrf_state@),
            },
    {
        let p = &self.profile;
        match pkce_authorization(p.client_id.as_str(), p.auth_url.as_str(), p.token_url.as_str(), p.redirect_url.as_str(), &p.scopes) {
            Ok((authorization_url, csrf_state, pkce_verifier)) => Ok(OAuthPkceSession { authorization_url, csrf_state, pkce_verifier }),
            Err(m) => Err(SecurityError::Url(m)),
        }
    }
}

/// How long a started sign-in may wait for its code: fifteen minutes.
pub const OAUTH_SESSION_SECS: i64 = 900;

/// The time from `started` to `now`, each given as whole seconds and the
/// nanoseconds past them, in nanoseconds.
pub open spec fn elapsed_nanos(started: i64, started_nanos: u32, now: i64, now_nanos: u32) -> int {
    (now - started) * 1_000_000_000 + now_nanos - started_nanos
}

/// Why a sign-in may not be finished: more than fifteen minutes passed since
/// it started, or the state that came back is not the one it was started
/// with.
pub open spec fn completion_problem(
    started_at: i64,
    started_nanos: u32,
    now: i64,
    now_nanos: u32,
    expected_state: Seq<char>,
    given_state: Seq<char>,
) -> Option<Seq<char>> {
    if elapsed_nanos(started_at, started_nanos, now, now_nanos) > 900_000_000_000 {
        Some("OAuth session expired; start again"@)
    } else if given_state != expected_state {
        Some("OAuth state mismatch"@)
    } else {
        None
    }
}

/// Checks a sign-in before its code is exchanged: not older than fifteen
/// minutes at `now` (to the nanosecond), and the state that came back is the
/// one it began with.
pub fn check_oauth_completion(
    started_at: i64,
    started_nanos: u32,
    now: i64,
    now_nanos: u32,
    expected_state: &str,
    given_state: &str,
) -> (r: Result<(), String>)
    ensures
        match completion_problem(started_at, started_nanos, now, now_nanos, expected_state@, given_state@) {
            None => r is Ok,
            Some(m) => r matches Err(e) && e@ == m,
        },
{
    let d: i128 = (now as i128) - (started_at as i128);
    assert(-0x1_0000_0000_0000_0000 < d < 0x1_0000_0000_0000_0000);
    assert(-0x1_0000_0000_0000_0000 * 1_000_000_000 <= d * 1_000_000_000 <= 0x1_0000_0000_0000_0000 * 1_000_000_000) by (nonlinear_arith)
        requires
            -0x1_0000_0000_0000_0000 < d < 0x1_0000_0000_0000_0000,
    ;
    let elapsed: i128 = d * 1_000_000_000 + (now_nanos as i128) - (started_nanos as i128);
    if elapsed > (OAUTH_SESSION_SECS as i128) * 1_000_000_000 {
        return Err("OAuth session expired; start again".to_owned());
    }
    if !seq_eq(chars_of(given_state).as_slice(), chars_of(expected_state).as_slice()) {
        return Err("OAuth state mismatch".to_owned());
    }
    Ok(())
}

/// A sign-in whose returned state differs from the one it began with is
/// refused, whenever it completes.
pub proof fn lemma_state_mismatch_refused(
    started_at: i64,
    started_nanos: u32,
    now: i64,
    now_nanos: u32,
    expected_state: Seq<char>,
    given_state: Seq<char>,
)
    requires
        given_state != expected_state,
    ensures
        completion_problem(started_at, started_nanos, now, now_nanos, expected_state, given_state).is_some(),
{
}

/// Why the desktop shell may not finish a sign-in: it has no state saved,
/// no state came back, or the returned state, trimmed, is not the saved one.
pub open spec fn callback_problem(expected_state: Seq<char>, callback_state: Seq<char>) -> Option<Seq<char>> {
    if trim(expected_state).len() == 0 {
        Some("OAuth session missing expected state; restart flow"@)
    } else if trim(callback_state).len() == 0 {
        Some("OAuth callback state is required"@)
    } else if trim(callback_state) != expected_state {
        Some("OAuth state mismatch"@)
    } else {
        None
    }
}

/// The desktop shell's checks of a sign-in callback before its code is
/// exchanged.
pub fn check_native_oauth_callback(expected_state: &str, callback_state: &str) -> (r: Result<(), String>)
    ensures
        match callback_problem(expected_state@, callback_state@) {
            None => r is Ok,
            Some(m) => r matches Err(e) && e@ == m,
        },
{
    let expected = chars_of(expected_state);
    if trimmed(expected.as_slice()).len() == 0 {
        return Err("OAuth session missing expected state; restart flow".to_owned());
    }
    let given = trimmed(chars_of(callback_state).as_slice());
    if given.len() == 0 {
        return Err("OAuth callback state is required".to_owned());
    }
    if !seq_eq(given.as_slice(), expected.as_slice()) {
        return Err("OAuth state mismatch".to_owned());
    }
    Ok(())
}

/// The name a signed-in account shows: the name given, trimmed, when it is
/// not blank; else its address.
pub open spec fn signed_in_name(display_name: Option<Seq<char>>, email: Seq<char>) -> Seq<char> {
    match display_name {
        Some(n) => if trim(n).len() > 0 { trim(n) } else { email },
        None => email,
    }
}

pub fn oauth_display_name(display_name: Option<&str>, email_address: &str) -> (r: String)
    ensures
        r@ == signed_in_name(match display_name {
            Some(n) => Some(n@),
            None => None,
        }, email_address@),
{
    match display_name {
        Some(n) => {
            let t = trimmed(chars_of(n).as_slice());
            if t.len() > 0 {
                crate::text::string_from_chars(t.as_slice())
            } else {
                email_address.to_owned()
            }
        },
        None => email_address.to_owned(),
    }
}

/// The profile a sign-in begins with: the provider's, for the trimmed
/// client id and redirect address; an error when the client id is blank.
pub fn begin_oauth_profile(provider: Provider, client_id: &str, redirect_url: &str) -> (r: Result<OAuthProfile, String>)
    ensures
        trim(client_id@).len() == 0 ==> (r matches Err(e) && e@ == "client_id is required"@),
        trim(client_id@).len() > 0 ==> match provider_endpoints(provider, true) {
            None => r matches Err(e) && e@ == "OAuth flow is implemented for Gmail and Microsoft providers"@,
            Some((auth, token, scopes)) => match url_failure(auth, token, trim(redirect_url@)) {
                Some(m) => r matches Err(e) && e@ == m,
                None => r matches Ok(p) && profile_of(p, trim(client_id@), auth, token, scopes, trim(redirect_url@)),
            },
        },
{
    let id = trimmed(chars_of(client_id).as_slice());
    if id.len() == 0 {
        return Err("client_id is required".to_owned());
    }
    let id_text = crate::text::string_from_chars(id.as_slice());
    let redirect = crate::text::string_from_chars(trimmed(chars_of(redirect_url).as_slice()).as_slice());
    oauth_profile_for_provider(provider, id_text.as_str(), redirect.as_str())
}

}
