//! Regular-expression matching through the `regex` crate.
use vstd::prelude::*;
use regex::Regex;

verus! {

/// What `Regex::new(pattern)` followed by `captures_iter(text)` yields: for
/// each match, the text of every capture group (group 0 is the whole match),
/// `None` for a group that did not take part. `None` when the pattern does not
/// compile.
pub uninterp spec fn all_captures(pattern: Seq<char>, text: Seq<char>) -> Option<Seq<Seq<Option<Seq<char>>>>>;

/// What `Regex::new(pattern)` followed by `captures(text)` yields: the groups
/// of the first match, if any. `None` when the pattern does not compile.
pub uninterp spec fn first_captures(pattern: Seq<char>, text: Seq<char>) -> Option<Option<Seq<Option<Seq<char>>>>>;

pub open spec fn groups_view(g: Seq<Option<String>>) -> Seq<Option<Seq<char>>> {
    g.map_values(|o: Option<String>| match o { Some(s) => Some(s@), None => None })
}

pub open spec fn matches_view(m: Seq<Vec<Option<String>>>) -> Seq<Seq<Option<Seq<char>>>> {
    m.map_values(|g: Vec<Option<String>>| groups_view(g@))
}

/// Compiles `pattern` with `Regex::new` and collects `captures_iter(text)`.
#[verifier::external_body]
pub(crate) fn captures_all(pattern: &str, text: &str) -> (r: Option<Vec<Vec<Option<String>>>>)
    ensures
        match r {
            Some(m) => all_captures(pattern@, text@) == Some(matches_view(m@)),
            None => all_captures(pattern@, text@).is_none(),
        },
{
    let re = Regex::new(pattern).ok()?;
    Some(re.captures_iter(text)
        .map(|c| c.iter().map(|g| g.map(|m| m.as_str().to_string())).collect())
        .collect())
}

/// Compiles `pattern` with `Regex::new` and returns the groups of `captures(text)`.
#[verifier::external_body]
pub(crate) fn captures_first(pattern: &str, text: &str) -> (r: Option<Option<Vec<Option<String>>>>)
    ensures
        match r {
            Some(Some(g)) => first_captures(pattern@, text@) == Some(Some(groups_view(g@))),
            Some(None) => first_captures(pattern@, text@) == Some(None::<Seq<Option<Seq<char>>>>),
            None => first_captures(pattern@, text@).is_none(),
        },
{
    let re = Regex::new(pattern).ok()?;
    Some(re.captures(text).map(|c| c.iter().map(|g| g.map(|m| m.as_str().to_string())).collect()))
}


/// The text of capture group `i`, when the match has such a group and it took part.
pub open spec fn group(g: Seq<Option<Seq<char>>>, i: int) -> Option<Seq<char>> {
    if 0 <= i < g.len() { g[i] } else { None }
}

/// The text of group 1 of the first match of `pattern` in `text`: `None`
/// when the pattern does not compile, `Some(None)` when nothing matches or
/// the group took no part.
pub open spec fn first_group(pattern: Seq<char>, text: Seq<char>) -> Option<Option<Seq<char>>> {
    match first_captures(pattern, text) {
        None => None,
        Some(None) => Some(None),
        Some(Some(g)) => Some(group(g, 1)),
    }
}

pub open spec fn opt_opt_view(o: Option<Option<String>>) -> Option<Option<Seq<char>>> {
    match o {
        None => None,
        Some(None) => Some(None),
        Some(Some(s)) => Some(Some(s@)),
    }
}

/// Group 1 of the first match of `pattern` in `text`.
pub fn first_group_text(pattern: &str, text: &str) -> (r: Option<Option<String>>)
    ensures
        opt_opt_view(r) == first_group(pattern@, text@),
{
    match captures_first(pattern, text) {
        None => None,
        Some(None) => Some(None),
        Some(Some(g)) => {
            if g.len() > 1 {
                match &g[1] {
                    Some(t) => Some(Some(t.clone())),
                    None => Some(None),
                }
            } else {
                Some(None)
            }
        },
    }
}


/// Group 1 of every match that has it, in order.
pub open spec fn group_ones(matches: Seq<Seq<Option<Seq<char>>>>) -> Seq<Seq<char>>
    decreases matches.len(),
{
    if matches.len() == 0 {
        Seq::empty()
    } else {
        let rest = group_ones(matches.drop_last());
        match group(matches.last(), 1) {
            Some(t) => rest.push(t),
            None => rest,
        }
    }
}

/// Group 1 of every match of `pattern` in `text` that has it; `None` when the
/// pattern does not compile.
pub fn all_group_ones(pattern: &str, text: &str) -> (r: Option<Vec<String>>)
    ensures
        match all_captures(pattern@, text@) {
            None => r.is_none(),
            Some(m) => r matches Some(v) && v@.map_values(|s: String| s@) == group_ones(m),
        },
{
    let matches = match captures_all(pattern, text) {
        Some(m) => m,
        None => return None,
    };
    let ghost mv = matches_view(matches@);
    let mut out: Vec<String> = Vec::new();
    for i in 0..matches.len()
        invariant
            mv == matches_view(matches@),
            out@.map_values(|s: String| s@) == group_ones(mv.take(i as int)),
    {
        assert(mv.take(i + 1).drop_last() =~= mv.take(i as int));
        assert(mv[i as int] == groups_view(matches@[i as int]@));
        let g = &matches[i];
        if g.len() > 1 {
            match &g[1] {
                Some(t) => {
                    out.push(t.clone());
                    assert(out@.map_values(|s: String| s@) =~= group_ones(mv.take(i as int)).push(t@));
                },
                None => {},
            }
        }
    }
    assert(mv.take(matches.len() as int) =~= mv);
    Some(out)
}

}
