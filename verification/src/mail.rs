//! Mail protocols, addresses and headers, folders, and the Exchange (EWS)
//! replies read from their XML text.
use vstd::prelude::*;
use crate::model::{MailAddress, MailFolder, OfflineSyncLimit, Provider};
use crate::markup::{unescape_xml_entities, xml_unescape};
use crate::pattern::{all_captures, captures_all, groups_view, matches_view};
use crate::text::{
    ascii_lower, chars_of, find, find_char, first_char, first_occurrence, last_char, lower,
    rfind_char, seq_eq, slice_range, split_char, split_on, starts_with, string_from_chars, trim,
    trim_char, trim_matches_char, trimmed, contains, occurs_at, push_str,
};

verus! {

// ------------------------------------------------------------------ errors

/// Why a mail operation failed.
#[derive(Debug, Clone, PartialEq, Eq)]
pub enum EmailError {
    Smtp(String),
    Build(String),
    Parse(String),
    Data(String),
    Unimplemented(String),
}

// ------------------------------------------------------------------ protocols

/// How an account reaches its mail server, with secrets filled in from the
/// keychain when a sync runs. Its debug text is `redacted_debug`, which
/// leaves the secrets out.
#[derive(Clone)]
pub struct ProtocolSettings {
    pub imap_host: Option<String>,
    pub imap_port: Option<u16>,
    pub smtp_host: Option<String>,
    pub smtp_port: Option<u16>,
    pub endpoint: Option<String>,
    pub username: String,
    pub access_token: Option<String>,
    pub password: Option<String>,
    pub offline_sync_limit: Option<OfflineSyncLimit>,
}

pub open spec fn debug_opt_text(o: Option<String>) -> Seq<char> {
    match o {
        Some(t) => "Some("@ + crate::text::debug_quoted(t@) + ")"@,
        None => "None"@,
    }
}

pub open spec fn debug_opt_port(o: Option<u16>) -> Seq<char> {
    match o {
        Some(p) => "Some("@ + crate::numbers::decimal(p as nat) + ")"@,
        None => "None"@,
    }
}

/// A secret shows as `Some("[REDACTED]")`, whatever it holds.
pub open spec fn debug_opt_secret(o: Option<String>) -> Seq<char> {
    match o {
        Some(_) => "Some(\"[REDACTED]\")"@,
        None => "None"@,
    }
}

pub open spec fn debug_opt_limit(o: Option<OfflineSyncLimit>) -> Seq<char> {
    match o {
        Some(OfflineSyncLimit::All) => "Some(All)"@,
        Some(OfflineSyncLimit::Days(n)) => "Some(Days("@ + crate::numbers::decimal(n as nat) + "))"@,
        None => "None"@,
    }
}

fn push_opt_text_debug(out: &mut Vec<char>, o: &Option<String>)
    ensures
        final(out)@ == old(out)@ + debug_opt_text(*o),
{
    match o {
        Some(t) => {
            push_str(out, "Some(");
            let q = crate::text::debug_quote(t.as_str());
            push_str(out, q.as_str());
            push_str(out, ")");
        },
        None => push_str(out, "None"),
    }
    assert(final(out)@ =~= old(out)@ + debug_opt_text(*o));
}

fn push_opt_port_debug(out: &mut Vec<char>, o: Option<u16>)
    ensures
        final(out)@ == old(out)@ + debug_opt_port(o),
{
    match o {
        Some(p) => {
            push_str(out, "Some(");
            let d = crate::numbers::decimal_text(p as u64);
            crate::text::extend(out, d.as_slice());
            push_str(out, ")");
        },
        None => push_str(out, "None"),
    }
    assert(final(out)@ =~= old(out)@ + debug_opt_port(o));
}

fn push_opt_secret_debug(out: &mut Vec<char>, o: &Option<String>)
    ensures
        final(out)@ == old(out)@ + debug_opt_secret(*o),
{
    match o {
        Some(_) => push_str(out, "Some(\"[REDACTED]\")"),
        None => push_str(out, "None"),
    }
}

fn push_opt_limit_debug(out: &mut Vec<char>, o: Option<OfflineSyncLimit>)
    ensures
        final(out)@ == old(out)@ + debug_opt_limit(o),
{
    match o {
        Some(OfflineSyncLimit::All) => push_str(out, "Some(All)"),
        Some(OfflineSyncLimit::Days(n)) => {
            push_str(out, "Some(Days(");
            let d = crate::numbers::decimal_text(n as u64);
            crate::text::extend(out, d.as_slice());
            push_str(out, "))");
        },
        None => push_str(out, "None"),
    }
    assert(final(out)@ =~= old(out)@ + debug_opt_limit(o));
}

impl ProtocolSettings {
    /// The debug text of the settings, as `Debug` writes a struct, with the
    /// access token and the password shown only as `[REDACTED]`.
    pub open spec fn redacted_text(&self) -> Seq<char> {
        "ProtocolSettings { imap_host: "@ + debug_opt_text(self.imap_host)
            + ", imap_port: "@ + debug_opt_port(self.imap_port)
            + ", smtp_host: "@ + debug_opt_text(self.smtp_host)
            + ", smtp_port: "@ + debug_opt_port(self.smtp_port)
            + ", endpoint: "@ + debug_opt_text(self.endpoint)
            + ", username: "@ + crate::text::debug_quoted(self.username@)
            + ", access_token: "@ + debug_opt_secret(self.access_token)
            + ", password: "@ + debug_opt_secret(self.password)
            + ", offline_sync_limit: "@ + debug_opt_limit(self.offline_sync_limit)
            + " }"@
    }

    /// The debug text of the settings, with no secret in it.
    pub fn redacted_debug(&self) -> (r: String)
        ensures
            r@ == self.redacted_text(),
    {
        let mut t: Vec<char> = Vec::new();
        push_str(&mut t, "ProtocolSettings { imap_host: ");
        push_opt_text_debug(&mut t, &self.imap_host);
        push_str(&mut t, ", imap_port: ");
        push_opt_port_debug(&mut t, self.imap_port);
        push_str(&mut t, ", smtp_host: ");
        push_opt_text_debug(&mut t, &self.smtp_host);
        push_str(&mut t, ", smtp_port: ");
        push_opt_port_debug(&mut t, self.smtp_port);
        push_str(&mut t, ", endpoint: ");
        push_opt_text_debug(&mut t, &self.endpoint);
        push_str(&mut t, ", username: ");
        let q = crate::text::debug_quote(self.username.as_str());
        push_str(&mut t, q.as_str());
        push_str(&mut t, ", access_token: ");
        push_opt_secret_debug(&mut t, &self.access_token);
        push_str(&mut t, ", password: ");
        push_opt_secret_debug(&mut t, &self.password);
        push_str(&mut t, ", offline_sync_limit: ");
        push_opt_limit_debug(&mut t, self.offline_sync_limit);
        push_str(&mut t, " }");
        assert(t@ =~= self.redacted_text());
        string_from_chars(t.as_slice())
    }
}

#[derive(Debug, Clone)]
pub struct OutgoingAttachment {
    pub file_name: String,
    pub mime_type: String,
    pub content_base64: String,
    pub inline: bool,
}

#[derive(Debug, Clone)]
pub struct OutgoingMail {
    pub from: MailAddress,
    pub to: Vec<MailAddress>,
    pub cc: Vec<MailAddress>,
    pub bcc: Vec<MailAddress>,
    pub reply_to: Vec<MailAddress>,
    pub subject: String,
    pub body_text: String,
    pub body_html: Option<String>,
    pub attachments: Vec<OutgoingAttachment>,
}

/// The IMAP and SMTP mail backend.
#[derive(Debug, Clone, Copy)]
pub struct ImapSmtpBackend;

pub open spec fn default_protocol(provider: Provider) -> Seq<char> {
    match provider {
        Provider::Exchange => "ews"@,
        Provider::FastMail => "jmap"@,
        _ => "imap_smtp"@,
    }
}

/// The mail protocol a provider's accounts use unless set otherwise:
/// Exchange Web Services for Exchange, JMAP for FastMail, IMAP and SMTP for
/// the rest.
pub fn default_protocol_for_provider(provider: &Provider) -> (r: &'static str)
    ensures
        r@ == default_protocol(*provider),
{
    match provider {
        Provider::Exchange => "ews",
        Provider::FastMail => "jmap",
        Provider::Generic | Provider::Gmail | Provider::Outlook | Provider::Yahoo | Provider::ICloud
        | Provider::ProtonBridge => "imap_smtp",
    }
}

// ------------------------------------------------------------------ addresses

pub open spec fn opt_text(o: Option<String>) -> Option<Seq<char>> {
    match o {
        Some(s) => Some(s@),
        None => None,
    }
}

/// A mail address as name and address text.
pub open spec fn address_view(a: MailAddress) -> (Option<Seq<char>>, Seq<char>) {
    (opt_text(a.name), a.address@)
}

pub open spec fn addresses_view(v: Seq<MailAddress>) -> Seq<(Option<Seq<char>>, Seq<char>)> {
    v.map_values(|a: MailAddress| address_view(a))
}

/// The position of the last `c` in `s`, if any.
pub open spec fn last_pos(s: Seq<char>, c: char) -> Option<int> {
    if s.contains(c) {
        Some(choose|i: int| last_char(s, c, i))
    } else {
        None
    }
}

/// The address that one comma-separated segment names: `Name <address>`
/// when a `<` comes before the last `>`, with the name's quotes dropped and
/// an empty name as none, and nothing when the brackets hold no address;
/// otherwise the whole segment without surrounding quotes. Blank segments
/// name nothing.
pub open spec fn segment_address(segment: Seq<char>) -> Option<(Option<Seq<char>>, Seq<char>)> {
    let value = trim(segment);
    if value.len() == 0 {
        None
    } else {
        match (last_pos(value, '<'), last_pos(value, '>')) {
            (Some(lt), Some(gt)) if lt < gt => {
                let name = trim(trim_char(trim(value.take(lt)), '"'));
                let address = trim(value.subrange(lt + 1, gt));
                if address.len() == 0 {
                    None
                } else {
                    Some((if name.len() == 0 { None } else { Some(name) }, address))
                }
            },
            _ => Some((None, trim_char(value, '"'))),
        }
    }
}

pub open spec fn segment_addresses(segments: Seq<Seq<char>>) -> Seq<(Option<Seq<char>>, Seq<char>)>
    decreases segments.len(),
{
    if segments.len() == 0 {
        Seq::empty()
    } else {
        let rest = segment_addresses(segments.drop_last());
        match segment_address(segments.last()) {
            Some(a) => rest.push(a),
            None => rest,
        }
    }
}

/// The addresses of a header such as `To`, split at commas.
pub open spec fn address_list(raw: Seq<char>) -> Seq<(Option<Seq<char>>, Seq<char>)> {
    segment_addresses(split_char(raw, ','))
}

fn last_index(s: &[char], c: char) -> (r: Option<usize>)
    ensures
        match r {
            Some(i) => last_pos(s@, c) == Some(i as int) && i < s@.len(),
            None => last_pos(s@, c).is_none(),
        },
{
    match rfind_char(s, c) {
        Some(i) => {
            proof {
                assert(s@[i as int] == c);
                let k = choose|k: int| last_char(s@, c, k);
                assert(k == i as int) by {
                    if k < i as int {
                        assert(s@[i as int] != c);
                    } else if k > i as int {
                        assert(s@[k] != c);
                    }
                }
            }
            Some(i)
        },
        None => {
            assert(!s@.contains(c)) by {
                if s@.contains(c) {
                    let k = choose|k: int| 0 <= k < s@.len() && s@[k] == c;
                    assert(s@[k] != c);
                }
            }
            None
        },
    }
}

fn address_of_segment(segment: &[char]) -> (r: Option<MailAddress>)
    ensures
        match r {
            Some(a) => segment_address(segment@) == Some(address_view(a)),
            None => segment_address(segment@).is_none(),
        },
{
    let value = trimmed(segment);
    if value.len() == 0 {
        return None;
    }
    let lt = last_index(value.as_slice(), '<');
    let gt = last_index(value.as_slice(), '>');
    match (lt, gt) {
        (Some(lt), Some(gt)) => {
            if lt < gt {
                let head = slice_range(value.as_slice(), 0, lt);
                assert(head@ =~= value@.take(lt as int));
                let t1 = trimmed(head.as_slice());
                let t2 = trim_matches_char(t1.as_slice(), '"');
                let name = trimmed(t2.as_slice());
                let inner = slice_range(value.as_slice(), lt + 1, gt);
                assert(inner@ =~= value@.subrange(lt + 1, gt as int));
                let address = trimmed(inner.as_slice());
                if address.len() == 0 {
                    return None;
                }
                let name = if name.len() == 0 { None } else { Some(string_from_chars(name.as_slice())) };
                return Some(MailAddress { name, address: string_from_chars(address.as_slice()) });
            }
        },
        _ => {},
    }
    let bare = trim_matches_char(value.as_slice(), '"');
    Some(MailAddress { name: None, address: string_from_chars(bare.as_slice()) })
}

/// The addresses of a header value; none when there is no header.
pub fn parse_address_list(raw: Option<String>) -> (r: Vec<MailAddress>)
    ensures
        match raw {
            Some(t) => addresses_view(r@) == address_list(t@),
            None => r@.len() == 0,
        },
{
    let raw = match raw {
        Some(t) => t,
        None => return Vec::new(),
    };
    let chars = chars_of(raw.as_str());
    let segments = split_on(chars.as_slice(), ',');
    let ghost segs = segments@.map_values(|p: Vec<char>| p@);
    let mut out: Vec<MailAddress> = Vec::new();
    for i in 0..segments.len()
        invariant
            segs == segments@.map_values(|p: Vec<char>| p@),
            addresses_view(out@) == segment_addresses(segs.take(i as int)),
    {
        assert(segs.take(i + 1).drop_last() =~= segs.take(i as int));
        assert(segs[i as int] == segments@[i as int]@);
        match address_of_segment(segments[i].as_slice()) {
            Some(a) => {
                out.push(a);
                assert(addresses_view(out@) =~= segment_addresses(segs.take(i as int)).push(address_view(a)));
            },
            None => {},
        }
    }
    assert(segs.take(segments.len() as int) =~= segs);
    out
}

// ------------------------------------------------------------------ headers

/// The file name that a `Content-Disposition` value gives after
/// `filename=`: the quoted text when the value opens with a quote (none
/// without a closing quote), else the text up to the next `;`, trimmed,
/// none when that is empty.
pub open spec fn disposition_filename(d: Seq<char>) -> Option<Seq<char>> {
    if !contains(d, "filename="@) {
        None
    } else {
        let idx = choose|i: int| first_occurrence(d, "filename="@, i);
        let raw = trim(d.skip(idx + 9));
        if raw.len() > 0 && raw[0] == '"' {
            let stripped = raw.skip(1);
            if stripped.contains('"') {
                let end = choose|i: int| first_char(stripped, '"', i);
                Some(stripped.take(end))
            } else {
                None
            }
        } else {
            let value = trim(split_char(raw, ';')[0]);
            if value.len() == 0 { None } else { Some(value) }
        }
    }
}

fn first_index(s: &[char], c: char) -> (r: Option<usize>)
    ensures
        match r {
            Some(i) => s@.contains(c) && (choose|k: int| first_char(s@, c, k)) == i as int && i < s@.len(),
            None => !s@.contains(c),
        },
{
    match find_char(s, c) {
        Some(i) => {
            proof {
                assert(s@[i as int] == c);
                let k = choose|k: int| first_char(s@, c, k);
                crate::text::lemma_first_char_unique(s@, c, i as int, k);
            }
            Some(i)
        },
        None => {
            assert(!s@.contains(c)) by {
                if s@.contains(c) {
                    let k = choose|k: int| 0 <= k < s@.len() && s@[k] == c;
                    assert(s@[k] != c);
                }
            }
            None
        },
    }
}

/// The text before the first `c`, or all of `s` without one.
fn before_first(s: &[char], c: char) -> (r: Vec<char>)
    ensures
        r@ == split_char(s@, c)[0],
{
    let parts = split_on(s, c);
    proof {
        crate::text::lemma_split_char_nonempty(s@, c);
    }
    assert(parts@.map_values(|p: Vec<char>| p@)[0] == parts@[0]@);
    crate::text::to_vec(parts[0].as_slice())
}

/// The file name of an attachment from its `Content-Disposition` value.
pub fn header_filename(disposition: &str) -> (r: Option<String>)
    ensures
        opt_text(r) == disposition_filename(disposition@),
{
    let d = chars_of(disposition);
    let key = chars_of("filename=");
    proof {
        reveal_strlit("filename=");
    }
    let idx = match find(d.as_slice(), key.as_slice()) {
        Some(i) => i,
        None => return None,
    };
    proof {
        let k = choose|k: int| first_occurrence(d@, "filename="@, k);
        assert(k == idx as int) by {
            if k < idx as int {
                assert(!occurs_at(d@, "filename="@, k));
            } else if k > idx as int {
                assert(!occurs_at(d@, "filename="@, idx as int));
            }
        }
    }
    assert(key@.len() == 9);
    assert(idx + 9 <= d.len());
    let rest = slice_range(d.as_slice(), idx + 9, d.len());
    assert(rest@ =~= d@.skip(idx + 9));
    let raw = trimmed(rest.as_slice());
    if raw.len() > 0 && raw[0] == '"' {
        let stripped = slice_range(raw.as_slice(), 1, raw.len());
        assert(stripped@ =~= raw@.skip(1));
        match first_index(stripped.as_slice(), '"') {
            Some(end) => {
                let name = slice_range(stripped.as_slice(), 0, end);
                assert(name@ =~= stripped@.take(end as int));
                Some(string_from_chars(name.as_slice()))
            },
            None => None,
        }
    } else {
        let head = before_first(raw.as_slice(), ';');
        let value = trimmed(head.as_slice());
        if value.len() == 0 {
            None
        } else {
            Some(string_from_chars(value.as_slice()))
        }
    }
}

/// The value of the first header named exactly `key`.
pub open spec fn header_lookup(headers: Seq<(String, String)>, key: Seq<char>) -> Option<Seq<char>>
    decreases headers.len(),
{
    if headers.len() == 0 {
        None
    } else if headers[0].0@ == key {
        Some(headers[0].1@)
    } else {
        header_lookup(headers.drop_first(), key)
    }
}

pub fn header_get(headers: &Vec<(String, String)>, key: &str) -> (r: Option<String>)
    ensures
        opt_text(r) == header_lookup(headers@, key@),
{
    let k = chars_of(key);
    let mut i: usize = 0;
    assert(headers@.skip(0) =~= headers@);
    while i < headers.len()
        invariant
            i <= headers.len(),
            k@ == key@,
            header_lookup(headers@, key@) == header_lookup(headers@.skip(i as int), key@),
        decreases headers.len() - i,
    {
        assert(headers@.skip(i as int).drop_first() =~= headers@.skip(i + 1));
        let name = chars_of(headers[i].0.as_str());
        if seq_eq(name.as_slice(), k.as_slice()) {
            return Some(headers[i].1.clone());
        }
        i = i + 1;
    }
    None
}

/// The thread of a message: its `References` header, else its
/// `In-Reply-To` header, else `fallback`.
pub fn thread_id_from_headers(headers: &Vec<(String, String)>, fallback: &str) -> (r: String)
    ensures
        r@ == match header_lookup(headers@, "References"@) {
            Some(v) => v,
            None => match header_lookup(headers@, "In-Reply-To"@) {
                Some(v) => v,
                None => fallback@,
            },
        },
{
    match header_get(headers, "References") {
        Some(v) => v,
        None => match header_get(headers, "In-Reply-To") {
            Some(v) => v,
            None => fallback.to_owned(),
        },
    }
}

// ------------------------------------------------------------------ folders

/// The remote id of a folder named `name`: lowered, spaces as underscores.
pub open spec fn folder_remote_id(name: Seq<char>) -> Seq<char> {
    ascii_lower(name).map_values(|c: char| if c == ' ' { '_' } else { c })
}

/// A folder of `account_id` known only by its name.
pub open spec fn named_folder(f: MailFolder, account_id: u128, name: Seq<char>) -> bool {
    &&& f.account_id == account_id
    &&& f.remote_id@ == folder_remote_id(name)
    &&& f.path@ == name
    &&& opt_text(f.delimiter) == Some("/"@)
    &&& f.unread_count == 0
    &&& f.total_count == 0
}

fn remote_id_of(name: &[char]) -> (r: Vec<char>)
    ensures
        r@ == folder_remote_id(name@),
{
    let lowered = lower(name);
    let mut out: Vec<char> = Vec::new();
    for i in 0..lowered.len()
        invariant
            out@ == lowered@.take(i as int).map_values(|c: char| if c == ' ' { '_' } else { c }),
    {
        let c = lowered[i];
        out.push(if c == ' ' { '_' } else { c });
        assert(lowered@.take(i + 1).map_values(|c: char| if c == ' ' { '_' } else { c })
            =~= lowered@.take(i as int).map_values(|c: char| if c == ' ' { '_' } else { c }).push(if c == ' ' { '_' } else { c }));
    }
    assert(lowered@.take(lowered.len() as int) =~= lowered@);
    out
}

/// A folder of `account_id` known only by its name.
pub fn folder_named(account_id: u128, name: &[char]) -> (r: MailFolder)
    ensures
        named_folder(r, account_id, name@),
{
    let rid = remote_id_of(name);
    MailFolder {
        account_id,
        remote_id: string_from_chars(rid.as_slice()),
        path: string_from_chars(name),
        delimiter: Some("/".to_owned()),
        unread_count: 0,
        total_count: 0,
    }
}

pub open spec fn ews_default_names() -> Seq<Seq<char>> {
    seq!["Inbox"@, "Sent Items"@, "Drafts"@, "Archive"@, "Deleted Items"@]
}

/// The folders an Exchange account starts with: Inbox, Sent Items, Drafts,
/// Archive and Deleted Items.
pub fn default_ews_folders(account_id: u128) -> (r: Vec<MailFolder>)
    ensures
        r@.len() == ews_default_names().len(),
        forall|i: int| 0 <= i < r@.len() ==> named_folder(#[trigger] r@[i], account_id, ews_default_names()[i]),
{
    let mut r: Vec<MailFolder> = Vec::new();
    r.push(folder_named(account_id, chars_of("Inbox").as_slice()));
    r.push(folder_named(account_id, chars_of("Sent Items").as_slice()));
    r.push(folder_named(account_id, chars_of("Drafts").as_slice()));
    r.push(folder_named(account_id, chars_of("Archive").as_slice()));
    r.push(folder_named(account_id, chars_of("Deleted Items").as_slice()));
    r
}

/// The well-known Exchange folder for a folder path.
pub open spec fn distinguished_folder(path: Seq<char>) -> Seq<char> {
    let p = ascii_lower(path);
    if p == "sent"@ || p == "sent items"@ {
        "sentitems"@
    } else if p == "drafts"@ {
        "drafts"@
    } else if p == "archive"@ {
        "archiveinbox"@
    } else if p == "trash"@ || p == "deleted items"@ {
        "deleteditems"@
    } else {
        "inbox"@
    }
}

pub fn ews_distinguished_folder(folder_path: &str) -> (r: &'static str)
    ensures
        r@ == distinguished_folder(folder_path@),
{
    let c = chars_of(folder_path);
    let p = lower(c.as_slice());
    let is = |lit: &str| -> (b: bool)
        ensures b == (p@ == lit@),
    {
        let l = chars_of(lit);
        seq_eq(p.as_slice(), l.as_slice())
    };
    if is("sent") || is("sent items") {
        "sentitems"
    } else if is("drafts") {
        "drafts"
    } else if is("archive") {
        "archiveinbox"
    } else if is("trash") || is("deleted items") {
        "deleteditems"
    } else {
        "inbox"
    }
}

pub open spec fn ews_folder_pattern() -> Seq<char> {
    "(?s)<t:DisplayName>(.*?)</t:DisplayName>"@
}

/// The display names of the matches of the folder pattern, unescaped; a
/// match without its group gives nothing.
pub open spec fn display_names(matches: Seq<Seq<Option<Seq<char>>>>) -> Seq<Seq<char>>
    decreases matches.len(),
{
    if matches.len() == 0 {
        Seq::empty()
    } else {
        let rest = display_names(matches.drop_last());
        let g = matches.last();
        if g.len() > 1 && g[1] is Some {
            rest.push(xml_unescape(g[1]->0))
        } else {
            rest
        }
    }
}

/// The folders that an Exchange `FindFolder` reply lists, by display name;
/// `None` when the folder pattern does not compile.
pub fn parse_ews_folders(account_id: u128, payload: &str) -> (r: Option<Vec<MailFolder>>)
    ensures
        match all_captures(ews_folder_pattern(), payload@) {
            None => r.is_none(),
            Some(m) => r matches Some(v) && v@.len() == display_names(m).len()
                && forall|i: int| 0 <= i < v@.len() ==> named_folder(#[trigger] v@[i], account_id, display_names(m)[i]),
        },
{
    let matches = match captures_all("(?s)<t:DisplayName>(.*?)</t:DisplayName>", payload) {
        Some(m) => m,
        None => return None,
    };
    let ghost mv = matches_view(matches@);
    let mut out: Vec<MailFolder> = Vec::new();
    for i in 0..matches.len()
        invariant
            mv == matches_view(matches@),
            out@.len() == display_names(mv.take(i as int)).len(),
            forall|j: int| 0 <= j < out@.len() ==> named_folder(#[trigger] out@[j], account_id, display_names(mv.take(i as int))[j]),
    {
        assert(mv.take(i + 1).drop_last() =~= mv.take(i as int));
        assert(mv[i as int] == groups_view(matches@[i as int]@));
        let g = &matches[i];
        if g.len() > 1 {
            match &g[1] {
                Some(text) => {
                    let c = chars_of(text.as_str());
                    let name = unescape_xml_entities(c.as_slice());
                    out.push(folder_named(account_id, name.as_slice()));
                },
                None => {},
            }
        }
    }
    assert(mv.take(matches.len() as int) =~= mv);
    Some(out)
}

}

verus! {

// ------------------------------------------------------------------ folder lists

/// `a` sorts before `b`, character by character, as `String`'s order does.
pub open spec fn text_lt(a: Seq<char>, b: Seq<char>) -> bool
    decreases a.len(),
{
    if a.len() == 0 {
        b.len() > 0
    } else if b.len() == 0 {
        false
    } else if a[0] != b[0] {
        a[0] < b[0]
    } else {
        text_lt(a.drop_first(), b.drop_first())
    }
}

pub proof fn lemma_text_lt_irreflexive(a: Seq<char>)
    ensures
        !text_lt(a, a),
    decreases a.len(),
{
    if a.len() > 0 {
        lemma_text_lt_irreflexive(a.drop_first());
    }
}

pub proof fn lemma_text_lt_total(a: Seq<char>, b: Seq<char>)
    ensures
        text_lt(a, b) || a == b || text_lt(b, a),
    decreases a.len(),
{
    if a.len() > 0 && b.len() > 0 && a[0] == b[0] {
        lemma_text_lt_total(a.drop_first(), b.drop_first());
        if a.drop_first() == b.drop_first() {
            assert(a =~= seq![a[0]] + a.drop_first());
            assert(b =~= seq![b[0]] + b.drop_first());
        }
    } else if a.len() == 0 && b.len() == 0 {
        assert(a =~= b);
    }
}

pub proof fn lemma_text_lt_asymmetric(a: Seq<char>, b: Seq<char>)
    requires
        text_lt(a, b),
    ensures
        !text_lt(b, a),
    decreases a.len(),
{
    if a.len() > 0 && b.len() > 0 && a[0] == b[0] {
        lemma_text_lt_asymmetric(a.drop_first(), b.drop_first());
    }
}

pub proof fn lemma_text_lt_transitive(a: Seq<char>, b: Seq<char>, c: Seq<char>)
    requires
        text_lt(a, b),
        text_lt(b, c),
    ensures
        text_lt(a, c),
    decreases a.len(),
{
    if a.len() > 0 && b.len() > 0 && c.len() > 0 && a[0] == b[0] && b[0] == c[0] {
        lemma_text_lt_transitive(a.drop_first(), b.drop_first(), c.drop_first());
    }
}

pub fn text_less(a: &[char], b: &[char]) -> (r: bool)
    ensures
        r == text_lt(a@, b@),
{
    let mut i: usize = 0;
    assert(a@.skip(0) =~= a@);
    assert(b@.skip(0) =~= b@);
    while i < a.len() && i < b.len() && a[i] == b[i]
        invariant
            i <= a.len(),
            i <= b.len(),
            text_lt(a@, b@) == text_lt(a@.skip(i as int), b@.skip(i as int)),
        decreases a.len() - i,
    {
        assert(a@.skip(i as int).drop_first() =~= a@.skip(i + 1));
        assert(b@.skip(i as int).drop_first() =~= b@.skip(i + 1));
        i = i + 1;
    }
    if i == a.len() {
        i < b.len()
    } else if i == b.len() {
        false
    } else {
        a[i] < b[i]
    }
}

/// The folder that comes last in `s` among those with path `p`.
pub open spec fn last_with_path(s: Seq<MailFolder>, p: Seq<char>) -> Option<MailFolder>
    decreases s.len(),
{
    if s.len() == 0 {
        None
    } else if s.last().path@ == p {
        Some(s.last())
    } else {
        last_with_path(s.drop_last(), p)
    }
}

/// `r` holds, in increasing order of path, one folder per path of `s`: the
/// last one of `s` with that path.
pub open spec fn merged_by_path(r: Seq<MailFolder>, s: Seq<MailFolder>) -> bool {
    &&& forall|i: int, j: int| 0 <= i < j < r.len() ==> text_lt(#[trigger] r[i].path@, #[trigger] r[j].path@)
    &&& forall|i: int| 0 <= i < r.len() ==> last_with_path(s, (#[trigger] r[i]).path@) == Some(r[i])
    &&& forall|j: int| 0 <= j < s.len() ==> exists|i: int| 0 <= i < r.len() && (#[trigger] r[i]).path@ == (#[trigger] s[j]).path@
}

proof fn lemma_last_with_path_push(s: Seq<MailFolder>, f: MailFolder, p: Seq<char>)
    ensures
        last_with_path(s.push(f), p) == if f.path@ == p { Some(f) } else { last_with_path(s, p) },
{
    assert(s.push(f).drop_last() =~= s);
}

proof fn lemma_last_with_path_some(s: Seq<MailFolder>, p: Seq<char>)
    requires
        last_with_path(s, p) is Some,
    ensures
        (last_with_path(s, p)->0).path@ == p,
    decreases s.len(),
{
    if s.len() > 0 && s.last().path@ != p {
        lemma_last_with_path_some(s.drop_last(), p);
    }
}

/// Adds `f` to a list merged from `s`, giving a list merged from `s` and `f`.
fn insert_by_path(r: &mut Vec<MailFolder>, f: MailFolder, Ghost(s): Ghost<Seq<MailFolder>>)
    requires
        merged_by_path(old(r)@, s),
    ensures
        merged_by_path(final(r)@, s.push(f)),
{
    let p = chars_of(f.path.as_str());
    let mut i: usize = 0;
    while i < r.len() && text_less(chars_of(r[i].path.as_str()).as_slice(), p.as_slice())
        invariant
            i <= r.len(),
            r@ == old(r)@,
            p@ == f.path@,
            merged_by_path(r@, s),
            forall|k: int| 0 <= k < i ==> text_lt(#[trigger] r@[k].path@, p@),
        decreases r.len() - i,
    {
        i = i + 1;
    }
    let ghost old_r = r@;
    let ghost t = s.push(f);
    let same = if i < r.len() {
        let q = chars_of(r[i].path.as_str());
        seq_eq(q.as_slice(), p.as_slice())
    } else {
        false
    };
    if same {
        r.set(i, f);
        proof {
            assert forall|a: int, b: int| 0 <= a < b < r@.len() implies text_lt(#[trigger] r@[a].path@, #[trigger] r@[b].path@) by {
                assert(old_r[a].path@ == r@[a].path@ || a == i);
                assert(old_r[b].path@ == r@[b].path@ || b == i);
            }
            assert forall|a: int| 0 <= a < r@.len() implies last_with_path(t, (#[trigger] r@[a]).path@) == Some(r@[a]) by {
                lemma_last_with_path_push(s, f, r@[a].path@);
                if a != i {
                    lemma_text_lt_irreflexive(f.path@);
                    if a < i {
                        assert(text_lt(old_r[a].path@, old_r[i as int].path@));
                    } else {
                        assert(text_lt(old_r[i as int].path@, old_r[a].path@));
                    }
                    lemma_text_lt_irreflexive(old_r[a].path@);
                }
            }
            assert forall|j: int| 0 <= j < t.len() implies exists|a: int| 0 <= a < r@.len() && (#[trigger] r@[a]).path@ == (#[trigger] t[j]).path@ by {
                if j < s.len() {
                    assert(t[j] == s[j]);
                    let a = choose|a: int| 0 <= a < old_r.len() && (#[trigger] old_r[a]).path@ == s[j].path@;
                    assert(r@[a].path@ == old_r[a].path@);
                } else {
                    assert(r@[i as int].path@ == t[j].path@);
                }
            }
        }
    } else {
        proof {
            if i < old_r.len() {
                lemma_text_lt_total(old_r[i as int].path@, p@);
            }
        }
        r.insert(i, f);
        proof {
            assert forall|a: int, b: int| 0 <= a < b < r@.len() implies text_lt(#[trigger] r@[a].path@, #[trigger] r@[b].path@) by {
                if a < i && b == i {
                } else if a < i && b > i {
                    assert(r@[b] == old_r[b - 1]);
                } else if a == i && b > i {
                    assert(r@[b] == old_r[b - 1]);
                    if b - 1 > i {
                        assert(text_lt(old_r[i as int].path@, old_r[b - 1].path@));
                        lemma_text_lt_transitive(p@, old_r[i as int].path@, old_r[b - 1].path@);
                    }
                } else if a > i {
                    assert(r@[a] == old_r[a - 1]);
                    assert(r@[b] == old_r[b - 1]);
                }
            }
            assert forall|a: int| 0 <= a < r@.len() implies last_with_path(t, (#[trigger] r@[a]).path@) == Some(r@[a]) by {
                lemma_last_with_path_push(s, f, r@[a].path@);
                if a < i {
                    lemma_text_lt_irreflexive(p@);
                    assert(r@[a] == old_r[a]);
                } else if a > i {
                    assert(r@[a] == old_r[a - 1]);
                    lemma_text_lt_irreflexive(p@);
                    if a - 1 > i {
                        assert(text_lt(old_r[i as int].path@, old_r[a - 1].path@));
                        lemma_text_lt_transitive(p@, old_r[i as int].path@, old_r[a - 1].path@);
                    }
                    lemma_text_lt_asymmetric(p@, old_r[a - 1].path@);
                }
            }
            assert forall|j: int| 0 <= j < t.len() implies exists|a: int| 0 <= a < r@.len() && (#[trigger] r@[a]).path@ == (#[trigger] t[j]).path@ by {
                if j < s.len() {
                    assert(t[j] == s[j]);
                    let a = choose|a: int| 0 <= a < old_r.len() && (#[trigger] old_r[a]).path@ == s[j].path@;
                    if a < i {
                        assert(r@[a] == old_r[a]);
                    } else {
                        assert(r@[a + 1] == old_r[a]);
                    }
                } else {
                    assert(r@[i as int] == f);
                }
            }
        }
    }
}

/// Merges freshly listed folders into the known ones: one folder per path,
/// the listed one where both have it, ordered by path.
pub fn merge_folders(target: &mut Vec<MailFolder>, remote: Vec<MailFolder>)
    ensures
        merged_by_path(final(target)@, old(target)@ + remote@),
{
    let mut queue: Vec<MailFolder> = Vec::new();
    std::mem::swap(&mut queue, target);
    let mut remote = remote;
    queue.append(&mut remote);
    let ghost all = queue@;
    let mut r: Vec<MailFolder> = Vec::new();
    let ghost mut done: int = 0;
    assert(all.take(0) =~= Seq::<MailFolder>::empty());
    assert(all.skip(0) =~= all);
    while queue.len() > 0
        invariant
            0 <= done <= all.len(),
            queue@ == all.skip(done),
            merged_by_path(r@, all.take(done)),
        decreases queue@.len(),
    {
        let f = queue.remove(0);
        proof {
            assert(all.take(done + 1) =~= all.take(done).push(f));
            assert(all.skip(done).remove(0) =~= all.skip(done + 1));
        }
        insert_by_path(&mut r, f, Ghost(all.take(done)));
        proof {
            done = done + 1;
        }
    }
    assert(all.take(done) =~= all);
    *target = r;
}

// ------------------------------------------------------------------ backends and sign-in

/// The mail backend that serves a provider's accounts.
#[derive(Debug, Clone, Copy, PartialEq, Eq, Structural)]
pub enum MailBackend {
    ImapSmtp,
    Ews,
    Jmap,
}

/// The backend of a provider's default protocol.
pub open spec fn mail_backend(provider: Provider) -> MailBackend {
    if default_protocol(provider) == "ews"@ {
        MailBackend::Ews
    } else if default_protocol(provider) == "jmap"@ {
        MailBackend::Jmap
    } else {
        MailBackend::ImapSmtp
    }
}

pub fn mail_backend_for(provider: &Provider) -> (r: MailBackend)
    ensures
        r == mail_backend(*provider),
{
    let p = default_protocol_for_provider(provider);
    if crate::security::text_is(p, "ews") {
        MailBackend::Ews
    } else if crate::security::text_is(p, "jmap") {
        MailBackend::Jmap
    } else {
        MailBackend::ImapSmtp
    }
}

/// The SASL `XOAUTH2` answer an IMAP server is given: the user and the
/// bearer token, each field ended by `^A`, and a final `^A`.
pub open spec fn xoauth2_text(user: Seq<char>, access_token: Seq<char>) -> Seq<char> {
    "user="@ + user + seq!['\x01'] + "auth=Bearer "@ + access_token + seq!['\x01', '\x01']
}

pub fn xoauth2_response(user: &str, access_token: &str) -> (r: String)
    ensures
        r@ == xoauth2_text(user@, access_token@),
{
    let mut t = chars_of("user=");
    crate::text::push_str(&mut t, user);
    t.push('\x01');
    crate::text::push_str(&mut t, "auth=Bearer ");
    crate::text::push_str(&mut t, access_token);
    t.push('\x01');
    t.push('\x01');
    assert(t@ =~= xoauth2_text(user@, access_token@));
    string_from_chars(t.as_slice())
}

}
