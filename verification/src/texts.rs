//! Texts kept in order: sorted lists and sets of `String`s, ordered as
//! `String`'s `Ord` orders them (character by character).
use vstd::prelude::*;
use crate::mail::{lemma_text_lt_irreflexive, lemma_text_lt_total, lemma_text_lt_transitive, text_less, text_lt};
use crate::text::{chars_of, seq_eq};

verus! {

pub open spec fn text_views(s: Seq<String>) -> Seq<Seq<char>> {
    s.map_values(|x: String| x@)
}

/// The texts are strictly ascending, so each occurs once.
pub open spec fn strictly_ascending(s: Seq<String>) -> bool {
    forall|a: int, b: int| 0 <= a < b < s.len() ==> text_lt((#[trigger] s[a])@, (#[trigger] s[b])@)
}

/// The texts are ascending, equal ones side by side.
pub open spec fn ascending_texts(s: Seq<String>) -> bool {
    forall|a: int, b: int| 0 <= a < b < s.len() ==> !text_lt((#[trigger] s[b])@, (#[trigger] s[a])@)
}

/// Some text of `s` is `x`.
pub open spec fn has_text(s: Seq<String>, x: Seq<char>) -> bool {
    exists|i: int| 0 <= i < s.len() && (#[trigger] s[i])@ == x
}

/// Adds a text to a strictly ascending list, where it belongs, unless the
/// list already holds it: what a `BTreeSet::insert` does.
pub fn insert_text(set: &mut Vec<String>, x: String)
    requires
        strictly_ascending(old(set)@),
    ensures
        strictly_ascending(final(set)@),
        forall|y: Seq<char>| #[trigger] has_text(final(set)@, y) <==> (has_text(old(set)@, y) || y == x@),
{
    let k = chars_of(x.as_str());
    let mut i: usize = 0;
    while i < set.len() && text_less(chars_of(set[i].as_str()).as_slice(), k.as_slice())
        invariant
            i <= set@.len(),
            k@ == x@,
            forall|j: int| 0 <= j < i ==> text_lt((#[trigger] set@[j])@, k@),
        decreases set.len() - i,
    {
        i = i + 1;
    }
    let ghost before = set@;
    if i < set.len() && seq_eq(chars_of(set[i].as_str()).as_slice(), k.as_slice()) {
        assert forall|y: Seq<char>| #[trigger] has_text(set@, y) <==> (has_text(before, y) || y == x@) by {
            if y == x@ {
                assert(set@[i as int]@ == y);
            }
        }
        return;
    }
    proof {
        if i < set.len() {
            lemma_text_lt_total(k@, set@[i as int]@);
        }
    }
    set.insert(i, x);
    proof {
        assert forall|a: int, b: int| 0 <= a < b < set@.len() implies text_lt((#[trigger] set@[a])@, (#[trigger] set@[b])@) by {
            if b == i {
                assert(set@[a] == before[a]);
            } else if a == i {
                assert(set@[b] == before[b - 1]);
                if b - 1 > i {
                    lemma_text_lt_transitive(k@, before[i as int]@, before[b - 1]@);
                }
            } else if b < i {
                assert(set@[a] == before[a] && set@[b] == before[b]);
            } else if a < i {
                assert(set@[a] == before[a] && set@[b] == before[b - 1]);
            } else {
                assert(set@[a] == before[a - 1] && set@[b] == before[b - 1]);
            }
        }
        assert forall|y: Seq<char>| #[trigger] has_text(set@, y) <==> (has_text(before, y) || y == x@) by {
            if has_text(set@, y) {
                let j = choose|j: int| 0 <= j < set@.len() && (#[trigger] set@[j])@ == y;
                if j < i {
                    assert(set@[j] == before[j]);
                } else if j > i {
                    assert(set@[j] == before[j - 1]);
                }
            }
            if has_text(before, y) {
                let j = choose|j: int| 0 <= j < before.len() && (#[trigger] before[j])@ == y;
                if j < i {
                    assert(set@[j] == before[j]);
                } else {
                    assert(set@[j + 1] == before[j]);
                }
            }
            if y == x@ {
                assert(set@[i as int]@ == y);
            }
        }
    }
}

/// The texts as a set: strictly ascending, each once.
pub fn text_set(items: &Vec<String>) -> (r: Vec<String>)
    ensures
        strictly_ascending(r@),
        forall|y: Seq<char>| #[trigger] has_text(r@, y) <==> has_text(items@, y),
{
    let mut out: Vec<String> = Vec::new();
    for n in 0..items.len()
        invariant
            strictly_ascending(out@),
            forall|y: Seq<char>| #[trigger] has_text(out@, y) <==> has_text(items@.take(n as int), y),
    {
        let ghost before = items@.take(n as int);
        let ghost after = items@.take(n + 1);
        insert_text(&mut out, items[n].clone());
        proof {
            assert forall|y: Seq<char>| #[trigger] has_text(after, y) <==> (has_text(before, y) || y == items@[n as int]@) by {
                if has_text(after, y) {
                    let j = choose|j: int| 0 <= j < after.len() && (#[trigger] after[j])@ == y;
                    if j < n {
                        assert(before[j] == after[j]);
                    }
                }
                if has_text(before, y) {
                    let j = choose|j: int| 0 <= j < before.len() && (#[trigger] before[j])@ == y;
                    assert(after[j] == before[j]);
                }
                if y == items@[n as int]@ {
                    assert(after[n as int] == items@[n as int]);
                }
            }
        }
    }
    assert(items@.take(items@.len() as int) =~= items@);
    out
}

/// The texts in ascending order: what `sort` on a list of `String`s does.
pub fn sort_texts(items: Vec<String>) -> (r: Vec<String>)
    ensures
        ascending_texts(r@),
        text_views(r@).to_multiset() == text_views(items@).to_multiset(),
{
    let mut out: Vec<String> = Vec::new();
    let total: usize = items.len();
    let ghost all = items@;
    let mut rest = items;
    let mut n: usize = 0;
    assert(text_views(out@) =~= text_views(all.take(0)));
    while rest.len() > 0
        invariant
            n + rest@.len() == all.len(),
            all.len() == total,
            rest@ == all.skip(n as int),
            ascending_texts(out@),
            text_views(out@).to_multiset() == text_views(all.take(n as int)).to_multiset(),
        decreases rest@.len(),
    {
        let x = rest.remove(0);
        proof {
            assert(rest@ =~= all.skip(n + 1));
            assert(x == all[n as int]);
        }
        let k = chars_of(x.as_str());
        let mut i: usize = 0;
        while i < out.len() && !text_less(k.as_slice(), chars_of(out[i].as_str()).as_slice())
            invariant
                i <= out@.len(),
                k@ == x@,
                forall|j: int| 0 <= j < i ==> !text_lt(k@, (#[trigger] out@[j])@),
            decreases out.len() - i,
        {
            i = i + 1;
        }
        let ghost before = out@;
        out.insert(i, x);
        proof {
            assert(text_views(out@) =~= text_views(before).insert(i as int, x@));
            vstd::seq_lib::to_multiset_insert(text_views(before), i as int, x@);
            assert(text_views(all.take(n + 1)) =~= text_views(all.take(n as int)).push(x@));
            vstd::seq_lib::to_multiset_build(text_views(all.take(n as int)), x@);
            assert forall|a: int, b: int| 0 <= a < b < out@.len() implies !text_lt((#[trigger] out@[b])@, (#[trigger] out@[a])@) by {
                if b < i {
                    assert(out@[a] == before[a] && out@[b] == before[b]);
                } else if b == i {
                    assert(out@[a] == before[a]);
                } else if a < i {
                    assert(out@[a] == before[a] && out@[b] == before[b - 1]);
                    if text_lt(before[b - 1]@, before[a]@) {
                        assert(false);
                    }
                } else if a == i {
                    assert(out@[b] == before[b - 1]);
                    assert(text_lt(k@, before[i as int]@));
                    if text_lt(before[b - 1]@, k@) {
                        if b - 1 > i {
                            lemma_text_lt_transitive(before[b - 1]@, k@, before[i as int]@);
                        } else {
                            lemma_text_lt_irreflexive(k@);
                            lemma_text_lt_transitive(k@, before[i as int]@, k@);
                        }
                    }
                } else {
                    assert(out@[a] == before[a - 1] && out@[b] == before[b - 1]);
                }
            }
        }
        n = n + 1;
    }
    assert(all.take(n as int) =~= all);
    out
}

}
