//! The AI assistant's local heuristics and its cloud settings. Talking to a
//! model is the application's part.
use vstd::prelude::*;
use crate::config::{AppConfig, CloudProviderConfig};
use crate::model::CloudAiProvider;
use crate::pattern::{first_group, first_group_text, opt_opt_view};
use crate::text::{
    ascii_lower, chars_of, contains, contains_seq, extend, lines, lines_of, lower, seq_eq,
    string_from_chars, strip_start, trim, trimmed,
};

verus! {

/// The errors of the AI features.
#[derive(Debug, Clone, PartialEq, Eq)]
pub enum AiError {
    Config(String),
    CloudOptInRequired(String),
    Process(String),
    Request(String),
}

/// How one cloud provider is reached.
#[derive(Debug, Clone)]
pub struct CloudProviderRuntime {
    pub enabled: bool,
    pub model: String,
    pub endpoint: Option<String>,
}

// ------------------------------------------------------------------ heuristics

/// The subject and body as one lower-case text.
pub open spec fn mail_text(subject: Seq<char>, body: Seq<char>) -> Seq<char> {
    ascii_lower(subject + seq![' '] + body)
}

pub open spec fn hit(text: Seq<char>, word: Seq<char>) -> nat {
    if contains(text, word) { 1 } else { 0 }
}

pub open spec fn high_hits(t: Seq<char>) -> nat {
    hit(t, "urgent"@) + hit(t, "asap"@) + hit(t, "deadline"@) + hit(t, "invoice"@) + hit(t, "security"@)
        + hit(t, "production"@)
}

pub open spec fn medium_hits(t: Seq<char>) -> nat {
    hit(t, "meeting"@) + hit(t, "review"@) + hit(t, "action"@) + hit(t, "follow up"@)
}

/// Thirty points per urgent word and fifteen per routine one, at most 100.
pub open spec fn importance(subject: Seq<char>, body: Seq<char>) -> nat {
    let t = mail_text(subject, body);
    let s = high_hits(t) * 30 + medium_hits(t) * 15;
    if s > 100 { 100 } else { s }
}

fn joined_lower(subject: &str, body: &str) -> (r: Vec<char>)
    ensures
        r@ == mail_text(subject@, body@),
{
    let mut t = chars_of(subject);
    t.push(' ');
    let b = chars_of(body);
    extend(&mut t, b.as_slice());
    lower(t.as_slice())
}

fn has(text: &[char], word: &str) -> (r: bool)
    ensures
        r == contains(text@, word@),
{
    let w = chars_of(word);
    contains_seq(text, w.as_slice())
}

fn hit_of(text: &[char], word: &str) -> (r: usize)
    ensures
        r == hit(text@, word@),
{
    if has(text, word) { 1 } else { 0 }
}

/// How important a mail looks, from 0 to 100, by the words in its subject
/// and body.
pub fn importance_score(subject: &str, body: &str) -> (r: u8)
    ensures
        r == importance(subject@, body@),
{
    let t = joined_lower(subject, body);
    let t = t.as_slice();
    let high = hit_of(t, "urgent") + hit_of(t, "asap") + hit_of(t, "deadline") + hit_of(t, "invoice")
        + hit_of(t, "security") + hit_of(t, "production");
    let medium = hit_of(t, "meeting") + hit_of(t, "review") + hit_of(t, "action") + hit_of(t, "follow up");
    let score = high * 30 + medium * 15;
    if score > 100 { 100 } else { score as u8 }
}

/// The labels of a mail: finance, calendar and action-required by their
/// words, general when none applies.
pub open spec fn labels_of(subject: Seq<char>, body: Seq<char>) -> Seq<Seq<char>> {
    let t = mail_text(subject, body);
    let a = if contains(t, "invoice"@) || contains(t, "payment"@) { seq!["finance"@] } else { Seq::empty() };
    let b = if contains(t, "meeting"@) || contains(t, "calendar"@) { seq!["calendar"@] } else { Seq::empty() };
    let c = if contains(t, "todo"@) || contains(t, "action"@) || contains(t, "follow up"@) {
        seq!["action-required"@]
    } else {
        Seq::empty()
    };
    let l = a + b + c;
    if l.len() == 0 { seq!["general"@] } else { l }
}

pub fn classify_email(subject: &str, body: &str) -> (r: Vec<String>)
    ensures
        r@.map_values(|s: String| s@) == labels_of(subject@, body@),
{
    let t = joined_lower(subject, body);
    let t = t.as_slice();
    let mut labels: Vec<String> = Vec::new();
    if has(t, "invoice") || has(t, "payment") {
        labels.push("finance".to_owned());
    }
    if has(t, "meeting") || has(t, "calendar") {
        labels.push("calendar".to_owned());
    }
    if has(t, "todo") || has(t, "action") || has(t, "follow up") {
        labels.push("action-required".to_owned());
    }
    if labels.len() == 0 {
        labels.push("general".to_owned());
    }
    assert(labels@.map_values(|s: String| s@) =~= labels_of(subject@, body@));
    labels
}

pub open spec fn sender_pattern() -> Seq<char> {
    "from\\s+([a-z0-9._%+-]+@[a-z0-9.-]+)"@
}

/// A search query from a request in words: `from:` the address after
/// "from", the last seven days for "last week", and the word "budget",
/// joined by AND; the lowered request itself when none applies. A sender
/// pattern that does not compile finds no sender.
pub open spec fn search_query(prompt: Seq<char>) -> Seq<char> {
    let n = ascii_lower(prompt);
    let from = match first_group(sender_pattern(), n) {
        Some(Some(a)) => seq!["from:"@ + a],
        _ => Seq::empty(),
    };
    let week = if contains(n, "last week"@) { seq!["received:last_7_days"@] } else { Seq::empty() };
    let budget = if contains(n, "budget"@) { seq!["budget"@] } else { Seq::empty() };
    let parts = from + week + budget;
    if parts.len() == 0 { n } else { joined(parts, " AND "@) }
}

/// The parts joined by `sep`.
pub open spec fn joined(parts: Seq<Seq<char>>, sep: Seq<char>) -> Seq<char>
    decreases parts.len(),
{
    if parts.len() == 0 {
        Seq::empty()
    } else if parts.len() == 1 {
        parts[0]
    } else {
        joined(parts.drop_last(), sep) + sep + parts.last()
    }
}

fn join_parts(parts: &Vec<Vec<char>>, sep: &str) -> (r: Vec<char>)
    ensures
        r@ == joined(parts@.map_values(|p: Vec<char>| p@), sep@),
{
    let ghost ps = parts@.map_values(|p: Vec<char>| p@);
    let mut out: Vec<char> = Vec::new();
    let s = chars_of(sep);
    for i in 0..parts.len()
        invariant
            ps == parts@.map_values(|p: Vec<char>| p@),
            s@ == sep@,
            out@ == joined(ps.take(i as int), sep@),
    {
        assert(ps.take(i + 1).drop_last() =~= ps.take(i as int));
        assert(ps[i as int] == parts@[i as int]@);
        if i > 0 {
            extend(&mut out, s.as_slice());
        }
        extend(&mut out, parts[i].as_slice());
        if i == 0 {
            assert(out@ =~= joined(ps.take(1), sep@));
        }
    }
    assert(ps.take(parts.len() as int) =~= ps);
    out
}

pub fn natural_language_search_to_query(prompt: &str) -> (r: String)
    ensures
        r@ == search_query(prompt@),
{
    let p = chars_of(prompt);
    let n = lower(p.as_slice());
    let normalized = string_from_chars(n.as_slice());
    let mut parts: Vec<Vec<char>> = Vec::new();
    match first_group_text("from\\s+([a-z0-9._%+-]+@[a-z0-9.-]+)", normalized.as_str()) {
        Some(Some(a)) => {
            let mut part = chars_of("from:");
            let ac = chars_of(a.as_str());
            extend(&mut part, ac.as_slice());
            parts.push(part);
        },
        _ => {},
    }
    if has(n.as_slice(), "last week") {
        parts.push(chars_of("received:last_7_days"));
    }
    if has(n.as_slice(), "budget") {
        parts.push(chars_of("budget"));
    }
    let ghost nn = ascii_lower(prompt@);
    assert(parts@.map_values(|p: Vec<char>| p@) =~= {
        let from = match first_group(sender_pattern(), nn) {
            Some(Some(a)) => seq!["from:"@ + a],
            _ => Seq::<Seq<char>>::empty(),
        };
        let week = if contains(nn, "last week"@) { seq!["received:last_7_days"@] } else { Seq::<Seq<char>>::empty() };
        let budget = if contains(nn, "budget"@) { seq!["budget"@] } else { Seq::<Seq<char>>::empty() };
        from + week + budget
    });
    if parts.len() == 0 {
        normalized
    } else {
        let j = join_parts(&parts, " AND ");
        string_from_chars(j.as_slice())
    }
}

/// One action item from one line of model output: trimmed, leading dashes
/// dropped, trimmed again.
pub open spec fn action_line(line: Seq<char>) -> Seq<char> {
    trim(strip_start(trim(line), '-'))
}

pub open spec fn action_lines(ls: Seq<Seq<char>>) -> Seq<Seq<char>>
    decreases ls.len(),
{
    if ls.len() == 0 {
        Seq::empty()
    } else {
        let rest = action_lines(ls.drop_last());
        let l = action_line(ls.last());
        if l.len() == 0 { rest } else { rest.push(l) }
    }
}

fn strip_dashes(s: &[char]) -> (r: Vec<char>)
    ensures
        r@ == strip_start(s@, '-'),
{
    let mut a: usize = 0;
    assert(s@.skip(0) =~= s@);
    while a < s.len() && s[a] == '-'
        invariant
            a <= s.len(),
            strip_start(s@, '-') == strip_start(s@.skip(a as int), '-'),
        decreases s.len() - a,
    {
        assert(s@.skip(a as int).drop_first() =~= s@.skip(a + 1));
        a = a + 1;
    }
    let r = crate::text::slice_range(s, a, s.len());
    assert(r@ =~= s@.skip(a as int));
    r
}

/// The action items in a model's answer: one per non-blank line, without
/// list dashes.
pub fn action_items(output: &str) -> (r: Vec<String>)
    ensures
        r@.map_values(|s: String| s@) == action_lines(lines_of(output@)),
{
    let c = chars_of(output);
    let ls = lines(c.as_slice());
    let ghost lv = ls@.map_values(|p: Vec<char>| p@);
    let mut out: Vec<String> = Vec::new();
    for i in 0..ls.len()
        invariant
            lv == ls@.map_values(|p: Vec<char>| p@),
            out@.map_values(|s: String| s@) == action_lines(lv.take(i as int)),
    {
        assert(lv.take(i + 1).drop_last() =~= lv.take(i as int));
        assert(lv[i as int] == ls@[i as int]@);
        let t = trimmed(ls[i].as_slice());
        let d = strip_dashes(t.as_slice());
        let l = trimmed(d.as_slice());
        if l.len() > 0 {
            out.push(string_from_chars(l.as_slice()));
            assert(out@.map_values(|s: String| s@) =~= action_lines(lv.take(i as int)).push(l@));
        }
    }
    assert(lv.take(ls.len() as int) =~= lv);
    out
}

/// The feature is among those opted in.
pub open spec fn opted_in(list: Seq<String>, feature: Seq<char>) -> bool {
    exists|i: int| 0 <= i < list.len() && (#[trigger] list[i])@ == feature
}

/// Cloud inference is allowed for a feature when cloud AI is on and the
/// feature was opted in.
pub fn ensure_cloud_allowed(cloud_enabled: bool, cloud_feature_opt_in: &Vec<String>, feature: &str) -> (r: Result<(), AiError>)
    ensures
        !cloud_enabled ==> (r matches Err(AiError::CloudOptInRequired(m)) && m@ == "cloud AI is globally disabled"@),
        cloud_enabled && !opted_in(cloud_feature_opt_in@, feature@) ==> (r matches Err(AiError::CloudOptInRequired(m))
            && m@ == "feature `"@ + feature@ + "` is not opted in for cloud"@),
        cloud_enabled && opted_in(cloud_feature_opt_in@, feature@) ==> r is Ok,
{
    if !cloud_enabled {
        return Err(AiError::CloudOptInRequired("cloud AI is globally disabled".to_owned()));
    }
    let f = chars_of(feature);
    for i in 0..cloud_feature_opt_in.len()
        invariant
            cloud_enabled,
            f@ == feature@,
            forall|j: int| 0 <= j < i ==> (#[trigger] cloud_feature_opt_in@[j])@ != feature@,
    {
        let c = chars_of(cloud_feature_opt_in[i].as_str());
        if seq_eq(c.as_slice(), f.as_slice()) {
            return Ok(());
        }
    }
    let mut m = chars_of("feature `");
    extend(&mut m, f.as_slice());
    let tail = chars_of("` is not opted in for cloud");
    extend(&mut m, tail.as_slice());
    Err(AiError::CloudOptInRequired(string_from_chars(m.as_slice())))
}

}
