//! Conversation views of a mailbox: messages grouped by thread, or by the
//! other party, newest group first.
use vstd::prelude::*;
use crate::mail::text_lt;
use crate::model::{ContactSummary, MailMessage, MailThreadSummary};
use crate::text::{chars_of, eq_ignore_ascii_case, eq_ignore_case, seq_eq, string_from_chars, to_lowercase, unicode_lower};

verus! {

// ------------------------------------------------------------------ grouping

/// The messages whose key is `k`, in order.
pub open spec fn members(ms: Seq<MailMessage>, keys: Seq<Seq<char>>, k: Seq<char>) -> Seq<MailMessage>
    decreases ms.len(),
{
    if ms.len() == 0 || keys.len() != ms.len() {
        Seq::empty()
    } else {
        let r = members(ms.drop_last(), keys.drop_last(), k);
        if keys.last() == k { r.push(ms.last()) } else { r }
    }
}

/// `groups` holds, once each, every key of `keys` with its members.
pub open spec fn grouped(groups: Seq<(Seq<char>, Seq<MailMessage>)>, ms: Seq<MailMessage>, keys: Seq<Seq<char>>) -> bool {
    &&& forall|g: int| 0 <= g < groups.len() ==> (#[trigger] groups[g]).1 == members(ms, keys, groups[g].0)
    &&& forall|g: int| 0 <= g < groups.len() ==> keys.contains((#[trigger] groups[g]).0)
    &&& forall|i: int| 0 <= i < keys.len() ==> has_key(groups, #[trigger] keys[i])
    &&& forall|a: int, b: int| 0 <= a < b < groups.len() ==> (#[trigger] groups[a]).0 != (#[trigger] groups[b]).0
}

pub open spec fn groups_view(v: Seq<(Vec<char>, Vec<MailMessage>)>) -> Seq<(Seq<char>, Seq<MailMessage>)> {
    v.map_values(|g: (Vec<char>, Vec<MailMessage>)| (g.0@, g.1@))
}

proof fn lemma_members_push(ms: Seq<MailMessage>, keys: Seq<Seq<char>>, m: MailMessage, key: Seq<char>, k: Seq<char>)
    requires
        keys.len() == ms.len(),
    ensures
        members(ms.push(m), keys.push(key), k) == if key == k { members(ms, keys, k).push(m) } else { members(ms, keys, k) },
{
    assert(ms.push(m).drop_last() =~= ms);
    assert(keys.push(key).drop_last() =~= keys);
}

proof fn lemma_members_absent(ms: Seq<MailMessage>, keys: Seq<Seq<char>>, k: Seq<char>)
    requires
        keys.len() == ms.len(),
        !keys.contains(k),
    ensures
        members(ms, keys, k) == Seq::<MailMessage>::empty(),
    decreases ms.len(),
{
    if ms.len() > 0 {
        assert(!keys.drop_last().contains(k)) by {
            if keys.drop_last().contains(k) {
                let i = choose|i: int| 0 <= i < keys.drop_last().len() && keys.drop_last()[i] == k;
                assert(keys[i] == k);
            }
        }
        lemma_members_absent(ms.drop_last(), keys.drop_last(), k);
    }
}

/// Groups the messages by their keys, in order of first appearance.
#[verifier::spinoff_prover]
fn group_by_key(ms: Vec<MailMessage>, keys: Vec<Vec<char>>) -> (r: Vec<(Vec<char>, Vec<MailMessage>)>)
    requires
        keys@.len() == ms@.len(),
    ensures
        grouped(groups_view(r@), ms@, keys@.map_values(|k: Vec<char>| k@)),
{
    let ghost all = ms@;
    let ghost kv = keys@.map_values(|k: Vec<char>| k@);
    let mut rest = ms;
    let mut groups: Vec<(Vec<char>, Vec<MailMessage>)> = Vec::new();
    let mut n: usize = 0;
    assert(all.skip(0) =~= all);
    assert(all.take(0) =~= Seq::<MailMessage>::empty());
    assert(kv.take(0) =~= Seq::<Seq<char>>::empty());
    while rest.len() > 0
        invariant
            n <= all.len(),
            kv.len() == all.len(),
            kv == keys@.map_values(|k: Vec<char>| k@),
            rest@ == all.skip(n as int),
            grouped(groups_view(groups@), all.take(n as int), kv.take(n as int)),
        decreases rest@.len(),
    {
        assert(n < all.len());
        assert(n < keys.len());
        let m = rest.remove(0);
        proof {
            assert(all.skip(n as int)[0] == all[n as int]);
            assert(rest@ =~= all.skip(n + 1));
        }
        let key = &keys[n];
        assert(kv[n as int] == key@);
        let ghost gv = groups_view(groups@);
        let ghost pm = all.take(n as int);
        let ghost pk = kv.take(n as int);
        assert(all.take(n + 1) =~= pm.push(m));
        assert(kv.take(n + 1) =~= pk.push(key@));
        let mut g: usize = 0;
        while g < groups.len() && !seq_eq(groups[g].0.as_slice(), key.as_slice())
            invariant
                g <= groups@.len(),
                forall|x: int| 0 <= x < g ==> (#[trigger] groups@[x]).0@ != key@,
            decreases groups.len() - g,
        {
            g = g + 1;
        }
        if g < groups.len() {
            let ghost og = groups@;
            let (gk, mut gm) = groups.remove(g);
            assert(gk@ == key@);
            let ghost old_gm = gm@;
            assert(old_gm == gv[g as int].1);
            gm.push(m);
            groups.insert(g, (gk, gm));
            proof {
                let nv = groups_view(groups@);
                assert(groups@ =~= og.update(g as int, groups@[g as int]));
                assert(nv[g as int].1 == old_gm.push(m));
                assert(nv[g as int].0 == key@);
                assert forall|x: int| 0 <= x < nv.len() implies (#[trigger] nv[x]).1 == members(pm.push(m), pk.push(key@), nv[x].0) by {
                    lemma_members_push(pm, pk, m, key@, nv[x].0);
                    if x != g { assert(nv[x] == gv[x]); }
                }
                assert forall|x: int| 0 <= x < nv.len() implies pk.push(key@).contains((#[trigger] nv[x]).0) by {
                    if x != g {
                        assert(nv[x] == gv[x]);
                        let w = choose|w: int| 0 <= w < pk.len() && pk[w] == gv[x].0;
                        assert(pk.push(key@)[w] == pk[w]);
                    } else {
                        assert(pk.push(key@)[pk.len() as int] == key@);
                    }
                }
                assert forall|i: int| 0 <= i < pk.push(key@).len() implies has_key(nv, #[trigger] pk.push(key@)[i]) by {
                    if i < pk.len() {
                        assert(pk.push(key@)[i] == pk[i]);
                        assert(has_key(gv, pk[i]));
                        let x = choose|x: int| 0 <= x < gv.len() && (#[trigger] gv[x]).0 == pk[i];
                        assert(nv[x].0 == gv[x].0);
                    } else {
                        assert(nv[g as int].0 == key@);
                    }
                }
                assert forall|a: int, b: int| 0 <= a < b < nv.len() implies (#[trigger] nv[a]).0 != (#[trigger] nv[b]).0 by {
                    assert(nv[a].0 == gv[a].0 && nv[b].0 == gv[b].0);
                }
            }
        } else {
            let mut gm: Vec<MailMessage> = Vec::new();
            gm.push(m);
            groups.push((crate::text::to_vec(key.as_slice()), gm));
            proof {
                let nv = groups_view(groups@);
                assert(!pk.contains(key@)) by {
                    if pk.contains(key@) {
                        let w = choose|w: int| 0 <= w < pk.len() && pk[w] == key@;
                        let x = choose|x: int| 0 <= x < gv.len() && (#[trigger] gv[x]).0 == pk[w];
                        assert(groups@[x].0@ == gv[x].0);
                    }
                }
                lemma_members_absent(pm, pk, key@);
                assert forall|x: int| 0 <= x < nv.len() implies (#[trigger] nv[x]).1 == members(pm.push(m), pk.push(key@), nv[x].0) by {
                    lemma_members_push(pm, pk, m, key@, nv[x].0);
                    if x < gv.len() {
                        assert(nv[x] == gv[x]);
                        assert(gv[x].0 != key@) by {
                            assert(groups@[x].0@ == gv[x].0);
                        }
                    } else {
                        assert(nv[x].1 =~= seq![m]);
                        assert(Seq::<MailMessage>::empty().push(m) =~= seq![m]);
                    }
                }
                assert forall|x: int| 0 <= x < nv.len() implies pk.push(key@).contains((#[trigger] nv[x]).0) by {
                    if x < gv.len() {
                        assert(nv[x] == gv[x]);
                        let w = choose|w: int| 0 <= w < pk.len() && pk[w] == gv[x].0;
                        assert(pk.push(key@)[w] == pk[w]);
                    } else {
                        assert(pk.push(key@)[pk.len() as int] == key@);
                    }
                }
                assert forall|i: int| 0 <= i < pk.push(key@).len() implies has_key(nv, #[trigger] pk.push(key@)[i]) by {
                    if i < pk.len() {
                        assert(pk.push(key@)[i] == pk[i]);
                        assert(has_key(gv, pk[i]));
                        let x = choose|x: int| 0 <= x < gv.len() && (#[trigger] gv[x]).0 == pk[i];
                        assert(nv[x] == gv[x]);
                    } else {
                        assert(nv[gv.len() as int].0 == key@);
                    }
                }
                assert forall|a: int, b: int| 0 <= a < b < nv.len() implies (#[trigger] nv[a]).0 != (#[trigger] nv[b]).0 by {
                    if b < gv.len() {
                        assert(nv[a] == gv[a] && nv[b] == gv[b]);
                    } else {
                        assert(nv[a] == gv[a]);
                        assert(groups@[a].0@ == gv[a].0);
                    }
                }
            }
        }
        n = n + 1;
    }
    assert(all.take(n as int) =~= all);
    assert(kv.take(n as int) =~= kv);
    groups
}

// ------------------------------------------------------------------ latest message

/// The position of the latest message by received time; of those received
/// last, the last in order (what a stable sort by received time puts last).
pub open spec fn latest(ms: Seq<MailMessage>) -> int
    decreases ms.len(),
{
    if ms.len() <= 1 {
        0
    } else {
        let k = latest(ms.drop_last());
        if ms.last().received_at >= ms[k].received_at { ms.len() - 1 } else { k }
    }
}

proof fn lemma_latest_bounds(ms: Seq<MailMessage>)
    requires
        ms.len() > 0,
    ensures
        0 <= latest(ms) < ms.len(),
        forall|j: int| 0 <= j < ms.len() ==> (#[trigger] ms[j]).received_at <= ms[latest(ms)].received_at,
    decreases ms.len(),
{
    if ms.len() > 1 {
        lemma_latest_bounds(ms.drop_last());
        assert forall|j: int| 0 <= j < ms.len() implies (#[trigger] ms[j]).received_at <= ms[latest(ms)].received_at by {
            if j < ms.len() - 1 {
                assert(ms[j] == ms.drop_last()[j]);
            }
        }
    }
}

fn latest_index(ms: &Vec<MailMessage>) -> (r: usize)
    requires
        ms@.len() > 0,
    ensures
        r == latest(ms@),
        r < ms@.len(),
{
    let mut k: usize = 0;
    let mut i: usize = 1;
    proof {
        lemma_latest_bounds(ms@.take(1));
    }
    assert(ms@.take(1).len() == 1);
    while i < ms.len()
        invariant
            1 <= i <= ms@.len(),
            k < i,
            k == latest(ms@.take(i as int)),
        decreases ms.len() - i,
    {
        assert(ms@.take(i + 1).drop_last() =~= ms@.take(i as int));
        assert(ms@.take(i + 1)[k as int] == ms@[k as int]);
        if ms[i].received_at >= ms[k].received_at {
            k = i;
        }
        i = i + 1;
    }
    assert(ms@.take(i as int) =~= ms@);
    k
}

pub open spec fn unread(ms: Seq<MailMessage>) -> nat
    decreases ms.len(),
{
    if ms.len() == 0 { 0 } else { unread(ms.drop_last()) + if ms.last().flags.seen { 0nat } else { 1nat } }
}

fn unread_count(ms: &Vec<MailMessage>) -> (r: usize)
    ensures
        r == unread(ms@),
{
    let mut n: usize = 0;
    for i in 0..ms.len()
        invariant
            n == unread(ms@.take(i as int)),
            n <= i,
    {
        assert(ms@.take(i + 1).drop_last() =~= ms@.take(i as int));
        if !ms[i].flags.seen {
            n = n + 1;
        }
    }
    assert(ms@.take(ms.len() as int) =~= ms@);
    n
}

// ------------------------------------------------------------------ participants

/// `p` lists, in increasing order and once each, the sender addresses of the
/// messages.
pub open spec fn sender_set(p: Seq<Seq<char>>, ms: Seq<MailMessage>) -> bool {
    &&& forall|a: int, b: int| 0 <= a < b < p.len() ==> text_lt(#[trigger] p[a], #[trigger] p[b])
    &&& forall|x: Seq<char>| p.contains(x) <==> exists|i: int, j: int| 0 <= i < ms.len() && 0 <= j < ms[i].from@.len()
        && (#[trigger] ms[i].from@[j]).address@ == x
}

pub open spec fn texts(p: Seq<Vec<char>>) -> Seq<Seq<char>> {
    p.map_values(|v: Vec<char>| v@)
}

/// Adds `x` to an increasing list without repeats.
fn insert_sorted(p: &mut Vec<Vec<char>>, x: Vec<char>)
    requires
        forall|a: int, b: int| 0 <= a < b < old(p)@.len() ==> text_lt(#[trigger] old(p)@[a]@, #[trigger] old(p)@[b]@),
    ensures
        forall|a: int, b: int| 0 <= a < b < final(p)@.len() ==> text_lt(#[trigger] final(p)@[a]@, #[trigger] final(p)@[b]@),
        forall|y: Seq<char>| #[trigger] texts(final(p)@).contains(y) <==> (texts(old(p)@).contains(y) || y == x@),
{
    let ghost before = p@;
    let mut i: usize = 0;
    while i < p.len() && crate::mail::text_less(p[i].as_slice(), x.as_slice())
        invariant
            i <= p@.len(),
            p@ == before,
            forall|k: int| 0 <= k < i ==> text_lt(#[trigger] p@[k]@, x@),
        decreases p.len() - i,
    {
        i = i + 1;
    }
    let ghost bv = texts(before);
    if i < p.len() && seq_eq(p[i].as_slice(), x.as_slice()) {
        assert(bv.contains(x@)) by { assert(bv[i as int] == x@); }
        return;
    }
    proof {
        if i < before.len() {
            crate::mail::lemma_text_lt_total(before[i as int]@, x@);
        }
    }
    p.insert(i, x);
    proof {
        let pv = texts(p@);
        assert(pv =~= bv.take(i as int).push(x@) + bv.skip(i as int));
        assert forall|a: int, b: int| 0 <= a < b < p@.len() implies text_lt(#[trigger] p@[a]@, #[trigger] p@[b]@) by {
            if a < i && b == i {
            } else if a < i && b > i {
                assert(p@[b] == before[b - 1]);
            } else if a == i && b > i {
                assert(p@[b] == before[b - 1]);
                if b - 1 > i {
                    assert(text_lt(before[i as int]@, before[b - 1]@));
                    crate::mail::lemma_text_lt_transitive(x@, before[i as int]@, before[b - 1]@);
                }
            } else if a > i {
                assert(p@[a] == before[a - 1] && p@[b] == before[b - 1]);
            }
        }
        assert forall|y: Seq<char>| #[trigger] pv.contains(y) <==> (bv.contains(y) || y == x@) by {
            if pv.contains(y) {
                let w = choose|w: int| 0 <= w < pv.len() && pv[w] == y;
                if w < i { assert(bv[w] == y); } else if w > i { assert(bv[w - 1] == y); }
            }
            if bv.contains(y) {
                let w = choose|w: int| 0 <= w < bv.len() && bv[w] == y;
                if w < i { assert(pv[w] == y); } else { assert(pv[w + 1] == y); }
            }
            if y == x@ {
                assert(pv[i as int] == y);
            }
        }
    }
}

/// The sender addresses of the messages, in increasing order, once each.
fn senders(ms: &Vec<MailMessage>) -> (r: Vec<String>)
    ensures
        sender_set(r@.map_values(|s: String| s@), ms@),
{
    let mut p: Vec<Vec<char>> = Vec::new();
    for i in 0..ms.len()
        invariant
            forall|a: int, b: int| 0 <= a < b < p@.len() ==> text_lt(#[trigger] p@[a]@, #[trigger] p@[b]@),
            forall|x: Seq<char>| #[trigger] texts(p@).contains(x) <==> exists|a: int, j: int| 0 <= a < i && 0 <= j < ms@[a].from@.len()
                && (#[trigger] ms@[a].from@[j]).address@ == x,
    {
        let m = &ms[i];
        for j in 0..m.from.len()
            invariant
                0 <= i < ms@.len(),
                m == &ms@[i as int],
                forall|a: int, b: int| 0 <= a < b < p@.len() ==> text_lt(#[trigger] p@[a]@, #[trigger] p@[b]@),
                forall|x: Seq<char>| #[trigger] texts(p@).contains(x) <==> (exists|a: int, j2: int| 0 <= a < i && 0 <= j2 < ms@[a].from@.len()
                    && (#[trigger] ms@[a].from@[j2]).address@ == x)
                    || (exists|j2: int| 0 <= j2 < j && (#[trigger] m.from@[j2]).address@ == x),
        {
            let a = chars_of(m.from[j].address.as_str());
            insert_sorted(&mut p, a);
            proof {
                assert forall|x: Seq<char>| #[trigger] texts(p@).contains(x) <==> (exists|a2: int, j2: int| 0 <= a2 < i && 0 <= j2 < ms@[a2].from@.len()
                    && (#[trigger] ms@[a2].from@[j2]).address@ == x)
                    || (exists|j2: int| 0 <= j2 < j + 1 && (#[trigger] m.from@[j2]).address@ == x) by {
                    if x == m.from@[j as int].address@ {
                        assert(m.from@[j as int].address@ == x);
                    }
                }
            }
        }
        proof {
            assert forall|x: Seq<char>| #[trigger] texts(p@).contains(x) <==> exists|a2: int, j2: int| 0 <= a2 < i + 1 && 0 <= j2 < ms@[a2].from@.len()
                && (#[trigger] ms@[a2].from@[j2]).address@ == x by {
                if exists|j2: int| 0 <= j2 < m.from@.len() && (#[trigger] m.from@[j2]).address@ == x {
                    let j2 = choose|j2: int| 0 <= j2 < m.from@.len() && (#[trigger] m.from@[j2]).address@ == x;
                    assert(ms@[i as int].from@[j2].address@ == x);
                }
                if exists|a2: int, j2: int| 0 <= a2 < i + 1 && 0 <= j2 < ms@[a2].from@.len() && (#[trigger] ms@[a2].from@[j2]).address@ == x {
                    let (a2, j2) = choose|a2: int, j2: int| 0 <= a2 < i + 1 && 0 <= j2 < ms@[a2].from@.len() && (#[trigger] ms@[a2].from@[j2]).address@ == x;
                    if a2 == i {
                        assert(m.from@[j2].address@ == x);
                    }
                }
            }
        }
    }
    let mut out: Vec<String> = Vec::new();
    for k in 0..p.len()
        invariant
            out@.len() == k,
            forall|z: int| 0 <= z < k ==> (#[trigger] out@[z])@ == p@[z]@,
    {
        out.push(string_from_chars(p[k].as_slice()));
    }
    assert(out@.map_values(|s: String| s@) =~= texts(p@));
    out
}

// ------------------------------------------------------------------ ordering groups

/// When a group last received mail.
pub open spec fn group_time(g: Seq<MailMessage>) -> i64 {
    g[latest(g)].received_at
}

pub open spec fn has_key(gs: Seq<(Seq<char>, Seq<MailMessage>)>, k: Seq<char>) -> bool {
    exists|a: int| 0 <= a < gs.len() && (#[trigger] gs[a]).0 == k
}

/// Groups that hold exactly the keys of a grouping are a grouping.
proof fn lemma_grouped_from_keys(gs: Seq<(Seq<char>, Seq<MailMessage>)>, all: Seq<(Seq<char>, Seq<MailMessage>)>, ms: Seq<MailMessage>, keys: Seq<Seq<char>>)
    requires
        grouped(all, ms, keys),
        forall|g: int| 0 <= g < gs.len() ==> (#[trigger] gs[g]).1 == members(ms, keys, gs[g].0) && keys.contains(gs[g].0),
        forall|k: Seq<char>| #[trigger] has_key(gs, k) <==> has_key(all, k),
        forall|a: int, b: int| 0 <= a < b < gs.len() ==> (#[trigger] gs[a]).0 != (#[trigger] gs[b]).0,
    ensures
        grouped(gs, ms, keys),
{
    assert forall|i: int| 0 <= i < keys.len() implies has_key(gs, #[trigger] keys[i]) by {
        assert(has_key(all, keys[i]));
    }
}

/// Orders groups by when they last received mail, newest first.
#[verifier::spinoff_prover]
fn sort_groups(groups: Vec<(Vec<char>, Vec<MailMessage>)>, Ghost(ms): Ghost<Seq<MailMessage>>, Ghost(keys): Ghost<Seq<Seq<char>>>) -> (r: Vec<(Vec<char>, Vec<MailMessage>)>)
    requires
        grouped(groups_view(groups@), ms, keys),
        forall|g: int| 0 <= g < groups@.len() ==> (#[trigger] groups@[g]).1@.len() > 0,
    ensures
        grouped(groups_view(r@), ms, keys),
        forall|g: int| 0 <= g < r@.len() ==> (#[trigger] r@[g]).1@.len() > 0,
        forall|a: int, b: int| 0 <= a < b < r@.len() ==> group_time((#[trigger] r@[a]).1@) >= group_time((#[trigger] r@[b]).1@),
{
    let ghost all = groups_view(groups@);
    let ghost n = all.len();
    let mut rest = groups;
    let mut out: Vec<(Vec<char>, Vec<MailMessage>)> = Vec::new();
    let ghost mut done: int = 0;
    assert(all.skip(0) =~= all);
    while rest.len() > 0
        invariant
            0 <= done <= n,
            n == all.len(),
            groups_view(rest@) == all.skip(done),
            forall|g: int| 0 <= g < rest@.len() ==> (#[trigger] rest@[g]).1@.len() > 0,
            forall|g: int| 0 <= g < out@.len() ==> (#[trigger] out@[g]).1@.len() > 0,
            forall|g: int| 0 <= g < out@.len() ==> (#[trigger] groups_view(out@)[g]).1 == members(ms, keys, groups_view(out@)[g].0)
                && keys.contains(groups_view(out@)[g].0),
            forall|k: Seq<char>| #[trigger] has_key(groups_view(out@), k) <==> has_key(all.take(done), k),
            forall|a: int, b: int| 0 <= a < b < out@.len() ==> (#[trigger] groups_view(out@)[a]).0 != (#[trigger] groups_view(out@)[b]).0,
            forall|a: int, b: int| 0 <= a < b < out@.len() ==> group_time((#[trigger] out@[a]).1@) >= group_time((#[trigger] out@[b]).1@),
            grouped(all, ms, keys),
        decreases rest@.len(),
    {
        let ghost ov = groups_view(out@);
        let ghost old_rest = rest@;
        assert(groups_view(old_rest).len() == old_rest.len());
        assert(done < n);
        let g = rest.remove(0);
        proof {
            assert(all.skip(done)[0] == all[done]);
            assert(groups_view(old_rest)[0] == (old_rest[0].0@, old_rest[0].1@));
            assert(groups_view(old_rest)[0] == all[done]);
            assert(rest@ =~= old_rest.remove(0));
            assert(groups_view(rest@) =~= groups_view(old_rest).drop_first());
            assert(all.skip(done).drop_first() =~= all.skip(done + 1));
            assert(groups_view(rest@) =~= all.skip(done + 1));
            assert(forall|x: int| 0 <= x < rest@.len() ==> rest@[x] == old_rest[x + 1]);
            assert(all.take(done + 1) =~= all.take(done).push(all[done]));
        }
        let ghost gv = (g.0@, g.1@);
        assert(gv == all[done]);
        proof {
            lemma_latest_bounds(g.1@);
        }
        let t = g.1[latest_index(&g.1)].received_at;
        let mut i: usize = 0;
        while i < out.len() && out[i].1[latest_index(&out[i].1)].received_at >= t
            invariant
                i <= out@.len(),
                forall|x: int| 0 <= x < out@.len() ==> (#[trigger] out@[x]).1@.len() > 0,
                forall|x: int| 0 <= x < i ==> group_time((#[trigger] out@[x]).1@) >= t,
            decreases out.len() - i,
        {
            i = i + 1;
        }
        assert(t == group_time(g.1@));
        let ghost before = out@;
        out.insert(i, g);
        proof {
            let nv = groups_view(out@);
            assert(nv =~= ov.take(i as int).push(gv) + ov.skip(i as int));
            assert(!has_key(all.take(done), gv.0)) by {
                if has_key(all.take(done), gv.0) {
                    let a = choose|a: int| 0 <= a < all.take(done).len() && (#[trigger] all.take(done)[a]).0 == gv.0;
                    assert(all.take(done)[a] == all[a]);
                    assert(all[a].0 != all[done].0);
                }
            }
            assert forall|x: int| 0 <= x < out@.len() implies (#[trigger] out@[x]).1@.len() > 0 by {
                if x < i { assert(out@[x] == before[x]); } else if x > i { assert(out@[x] == before[x - 1]); }
            }
            assert forall|x: int| 0 <= x < out@.len() implies (#[trigger] groups_view(out@)[x]).1 == members(ms, keys, groups_view(out@)[x].0)
                && keys.contains(groups_view(out@)[x].0) by {
                if x < i { assert(nv[x] == ov[x]); } else if x > i { assert(nv[x] == ov[x - 1]); } else { assert(nv[x] == all[done]); }
            }
            assert forall|k: Seq<char>| #[trigger] has_key(groups_view(out@), k) <==> has_key(all.take(done + 1), k) by {
                if has_key(nv, k) {
                    let a = choose|a: int| 0 <= a < nv.len() && (#[trigger] nv[a]).0 == k;
                    if a == i {
                        assert(all.take(done + 1)[done] == gv);
                    } else {
                        let a2 = if a < i { a } else { a - 1 };
                        assert(nv[a] == ov[a2]);
                        assert(has_key(ov, k));
                        let b = choose|b: int| 0 <= b < all.take(done).len() && (#[trigger] all.take(done)[b]).0 == k;
                        assert(all.take(done + 1)[b] == all.take(done)[b]);
                    }
                }
                if has_key(all.take(done + 1), k) {
                    let b = choose|b: int| 0 <= b < all.take(done + 1).len() && (#[trigger] all.take(done + 1)[b]).0 == k;
                    if b == done {
                        assert(nv[i as int].0 == k);
                    } else {
                        assert(all.take(done + 1)[b] == all.take(done)[b]);
                        assert(has_key(all.take(done), k));
                        assert(has_key(ov, k));
                        let a = choose|a: int| 0 <= a < ov.len() && (#[trigger] ov[a]).0 == k;
                        if a < i { assert(nv[a] == ov[a]); } else { assert(nv[a + 1] == ov[a]); }
                    }
                }
            }
            assert forall|a: int, b: int| 0 <= a < b < out@.len() implies (#[trigger] groups_view(out@)[a]).0 != (#[trigger] groups_view(out@)[b]).0 by {
                if a == i || b == i {
                    let o = if a == i { b } else { a };
                    let o2 = if o < i { o } else { o - 1 };
                    assert(nv[o] == ov[o2]);
                    assert(has_key(ov, ov[o2].0));
                } else {
                    let a2 = if a < i { a } else { a - 1 };
                    let b2 = if b < i { b } else { b - 1 };
                    assert(nv[a] == ov[a2] && nv[b] == ov[b2]);
                }
            }
            assert forall|a: int, b: int| 0 <= a < b < out@.len() implies group_time((#[trigger] out@[a]).1@) >= group_time((#[trigger] out@[b]).1@) by {
                if a < i && b == i {
                    assert(out@[a] == before[a]);
                } else if a < i && b > i {
                    assert(out@[a] == before[a] && out@[b] == before[b - 1]);
                } else if a == i && b > i {
                    assert(out@[b] == before[b - 1]);
                    if i < before.len() {
                        if b - 1 > i {
                            assert(group_time(before[i as int].1@) >= group_time(before[b - 1].1@));
                        }
                    }
                } else if a > i {
                    assert(out@[a] == before[a - 1] && out@[b] == before[b - 1]);
                }
            }
            done = done + 1;
        }
    }
    proof {
        assert(all.take(done) =~= all);
        let rv = groups_view(out@);
        lemma_grouped_from_keys(rv, all, ms, keys);
    }
    out
}

// ------------------------------------------------------------------ summaries

proof fn lemma_members_nonempty(ms: Seq<MailMessage>, keys: Seq<Seq<char>>, k: Seq<char>)
    requires
        keys.len() == ms.len(),
        keys.contains(k),
    ensures
        members(ms, keys, k).len() > 0,
    decreases ms.len(),
{
    if keys.last() != k {
        assert(keys.drop_last().contains(k)) by {
            let i = choose|i: int| 0 <= i < keys.len() && keys[i] == k;
            assert(i < keys.len() - 1);
            assert(keys.drop_last()[i] == k);
        }
        lemma_members_nonempty(ms.drop_last(), keys.drop_last(), k);
    }
}

/// Some summary in `rs` is of the thread `id`.
pub open spec fn has_thread(rs: Seq<MailThreadSummary>, id: Seq<char>) -> bool {
    exists|i: int| 0 <= i < rs.len() && (#[trigger] rs[i]).thread_id@ == id
}

pub open spec fn thread_keys(ms: Seq<MailMessage>) -> Seq<Seq<char>> {
    ms.map_values(|m: MailMessage| m.thread_id@)
}

/// `s` sums up the messages of its thread: their number and unread number,
/// their senders, and the subject and time of the latest one.
pub open spec fn thread_summary(s: MailThreadSummary, ms: Seq<MailMessage>) -> bool {
    let g = members(ms, thread_keys(ms), s.thread_id@);
    &&& g.len() > 0
    &&& s.subject@ == g[latest(g)].subject@
    &&& sender_set(s.participants@.map_values(|p: String| p@), g)
    &&& s.message_count == g.len()
    &&& s.unread_count == unread(g)
    &&& s.most_recent_at == g[latest(g)].received_at
}

fn key_list(ms: &Vec<MailMessage>) -> (r: Vec<Vec<char>>)
    ensures
        r@.map_values(|k: Vec<char>| k@) == thread_keys(ms@),
{
    let mut out: Vec<Vec<char>> = Vec::new();
    for i in 0..ms.len()
        invariant
            out@.len() == i,
            forall|j: int| 0 <= j < i ==> (#[trigger] out@[j])@ == ms@[j].thread_id@,
    {
        out.push(chars_of(ms[i].thread_id.as_str()));
    }
    assert(out@.map_values(|k: Vec<char>| k@) =~= thread_keys(ms@));
    out
}

/// The threads of the messages, one summary each, the most recently active
/// first.
pub fn list_threads(messages: Vec<MailMessage>) -> (r: Vec<MailThreadSummary>)
    ensures
        forall|i: int| 0 <= i < r@.len() ==> thread_summary(#[trigger] r@[i], messages@),
        forall|j: int| 0 <= j < messages@.len() ==> has_thread(r@, (#[trigger] messages@[j]).thread_id@),
        forall|a: int, b: int| 0 <= a < b < r@.len() ==> (#[trigger] r@[a]).thread_id@ != (#[trigger] r@[b]).thread_id@,
        forall|a: int, b: int| 0 <= a < b < r@.len() ==> (#[trigger] r@[a]).most_recent_at >= (#[trigger] r@[b]).most_recent_at,
{
    let ghost ms = messages@;
    let keys = key_list(&messages);
    let ghost kv = keys@.map_values(|k: Vec<char>| k@);
    let groups = group_by_key(messages, keys);
    proof {
        let gv = groups_view(groups@);
        assert forall|g: int| 0 <= g < groups@.len() implies (#[trigger] groups@[g]).1@.len() > 0 by {
            assert(gv[g] == (groups@[g].0@, groups@[g].1@));
            lemma_members_nonempty(ms, kv, gv[g].0);
        }
    }
    let groups = sort_groups(groups, Ghost(ms), Ghost(kv));
    let ghost gv = groups_view(groups@);
    let mut out: Vec<MailThreadSummary> = Vec::new();
    for g in 0..groups.len()
        invariant
            gv == groups_view(groups@),
            kv == thread_keys(ms),
            grouped(gv, ms, kv),
            forall|x: int| 0 <= x < groups@.len() ==> (#[trigger] groups@[x]).1@.len() > 0,
            forall|a: int, b: int| 0 <= a < b < groups@.len() ==> group_time((#[trigger] groups@[a]).1@) >= group_time((#[trigger] groups@[b]).1@),
            out@.len() == g,
            forall|x: int| 0 <= x < g ==> thread_summary(#[trigger] out@[x], ms) && out@[x].thread_id@ == gv[x].0
                && out@[x].most_recent_at == group_time(gv[x].1),
    {
        let items = &groups[g].1;
        assert(gv[g as int] == (groups@[g as int].0@, items@));
        assert(items@ == members(ms, kv, gv[g as int].0));
        let k = latest_index(items);
        let summary = MailThreadSummary {
            thread_id: string_from_chars(groups[g].0.as_slice()),
            subject: items[k].subject.clone(),
            participants: senders(items),
            message_count: items.len(),
            unread_count: unread_count(items),
            most_recent_at: items[k].received_at,
        };
        out.push(summary);
    }
    proof {
        assert forall|j: int| 0 <= j < ms.len() implies has_thread(out@, (#[trigger] ms[j]).thread_id@) by {
            assert(kv[j] == ms[j].thread_id@);
            assert(has_key(gv, kv[j]));
            let x = choose|x: int| 0 <= x < gv.len() && (#[trigger] gv[x]).0 == kv[j];
            assert(out@[x].thread_id@ == gv[x].0);
        }
        assert forall|a: int, b: int| 0 <= a < b < out@.len() implies (#[trigger] out@[a]).most_recent_at >= (#[trigger] out@[b]).most_recent_at by {
            assert(gv[a].1 == groups@[a].1@ && gv[b].1 == groups@[b].1@);
        }
    }
    out
}

// ------------------------------------------------------------------ contacts

/// The party of a message other than the account: its first sender, or its
/// first recipient when the account sent it; "unknown" when neither names
/// anyone.
pub open spec fn other_party(m: MailMessage, account_email: Seq<char>) -> Seq<char> {
    let first: Seq<char> = if m.from@.len() > 0 { m.from@[0].address@ } else { Seq::empty() };
    let p = if eq_ignore_case(first, account_email) && m.to@.len() > 0 { m.to@[0].address@ } else { first };
    if p.len() == 0 { "unknown"@ } else { p }
}

/// Some summary in `rs` is of the contact `key`.
pub open spec fn has_contact(rs: Seq<ContactSummary>, key: Seq<char>) -> bool {
    exists|i: int| 0 <= i < rs.len() && (#[trigger] rs[i]).email_address@ == key
}

pub open spec fn contact_keys(ms: Seq<MailMessage>, account_email: Seq<char>) -> Seq<Seq<char>> {
    ms.map_values(|m: MailMessage| unicode_lower(other_party(m, account_email)))
}

/// The name of the first address in `addrs` that is `key`, in any ASCII case.
pub open spec fn name_for(addrs: Seq<crate::model::MailAddress>, key: Seq<char>) -> Option<Seq<char>>
    decreases addrs.len(),
{
    if addrs.len() == 0 {
        None
    } else if eq_ignore_case(addrs[0].address@, key) {
        crate::mail::opt_text(addrs[0].name)
    } else {
        name_for(addrs.drop_first(), key)
    }
}

/// The name of a contact as the latest message gives it: its sender's name
/// when the sender is the contact, else the name of the contact among its
/// recipients.
pub open spec fn contact_name(m: MailMessage, key: Seq<char>) -> Option<Seq<char>> {
    let from_name = if m.from@.len() > 0 && eq_ignore_case(m.from@[0].address@, key) {
        crate::mail::opt_text(m.from@[0].name)
    } else {
        None
    };
    match from_name {
        Some(n) => Some(n),
        None => name_for(m.to@, key),
    }
}

/// `s` sums up the messages exchanged with its contact.
pub open spec fn contact_summary(s: ContactSummary, ms: Seq<MailMessage>, account_email: Seq<char>) -> bool {
    let g = members(ms, contact_keys(ms, account_email), s.email_address@);
    &&& g.len() > 0
    &&& s.latest_subject@ == g[latest(g)].subject@
    &&& crate::mail::opt_text(s.display_name) == contact_name(g[latest(g)], s.email_address@)
    &&& s.message_count == g.len()
    &&& s.unread_count == unread(g)
    &&& s.most_recent_at == g[latest(g)].received_at
}

fn other_party_of(m: &MailMessage, account_email: &str) -> (r: String)
    ensures
        r@ == other_party(*m, account_email@),
{
    let first: Vec<char> = if m.from.len() > 0 { chars_of(m.from[0].address.as_str()) } else { Vec::new() };
    let acct = chars_of(account_email);
    let p = if eq_ignore_ascii_case(first.as_slice(), acct.as_slice()) && m.to.len() > 0 {
        chars_of(m.to[0].address.as_str())
    } else {
        first
    };
    if p.len() == 0 {
        "unknown".to_owned()
    } else {
        string_from_chars(p.as_slice())
    }
}

fn contact_key_list(ms: &Vec<MailMessage>, account_email: &str) -> (r: Vec<Vec<char>>)
    ensures
        r@.map_values(|k: Vec<char>| k@) == contact_keys(ms@, account_email@),
{
    let mut out: Vec<Vec<char>> = Vec::new();
    for i in 0..ms.len()
        invariant
            out@.len() == i,
            forall|j: int| 0 <= j < i ==> (#[trigger] out@[j])@ == unicode_lower(other_party(ms@[j], account_email@)),
    {
        let p = other_party_of(&ms[i], account_email);
        let l = to_lowercase(p.as_str());
        out.push(chars_of(l.as_str()));
    }
    assert(out@.map_values(|k: Vec<char>| k@) =~= contact_keys(ms@, account_email@));
    out
}

fn name_for_key(addrs: &Vec<crate::model::MailAddress>, key: &[char]) -> (r: Option<String>)
    ensures
        crate::mail::opt_text(r) == name_for(addrs@, key@),
{
    let mut i: usize = 0;
    assert(addrs@.skip(0) =~= addrs@);
    while i < addrs.len()
        invariant
            i <= addrs.len(),
            name_for(addrs@, key@) == name_for(addrs@.skip(i as int), key@),
        decreases addrs.len() - i,
    {
        assert(addrs@.skip(i as int).drop_first() =~= addrs@.skip(i + 1));
        assert(addrs@.skip(i as int)[0] == addrs@[i as int]);
        let a = chars_of(addrs[i].address.as_str());
        if eq_ignore_ascii_case(a.as_slice(), key) {
            return crate::tasks::copy_opt(&addrs[i].name);
        }
        i = i + 1;
    }
    None
}

fn contact_name_of(m: &MailMessage, key: &[char]) -> (r: Option<String>)
    ensures
        crate::mail::opt_text(r) == contact_name(*m, key@),
{
    let from_name = if m.from.len() > 0 && eq_ignore_ascii_case(chars_of(m.from[0].address.as_str()).as_slice(), key) {
        crate::tasks::copy_opt(&m.from[0].name)
    } else {
        None
    };
    match from_name {
        Some(n) => Some(n),
        None => name_for_key(&m.to, key),
    }
}

/// The conversations of the account by the other party, one summary each,
/// the most recently active first.
pub fn list_conversations_by_contact(account_email: &str, messages: Vec<MailMessage>) -> (r: Vec<ContactSummary>)
    ensures
        forall|i: int| 0 <= i < r@.len() ==> contact_summary(#[trigger] r@[i], messages@, account_email@),
        forall|j: int| 0 <= j < messages@.len() ==> has_contact(r@, #[trigger] contact_keys(messages@, account_email@)[j]),
        forall|a: int, b: int| 0 <= a < b < r@.len() ==> (#[trigger] r@[a]).email_address@ != (#[trigger] r@[b]).email_address@,
        forall|a: int, b: int| 0 <= a < b < r@.len() ==> (#[trigger] r@[a]).most_recent_at >= (#[trigger] r@[b]).most_recent_at,
{
    let ghost ms = messages@;
    let keys = contact_key_list(&messages, account_email);
    let ghost kv = keys@.map_values(|k: Vec<char>| k@);
    let groups = group_by_key(messages, keys);
    proof {
        let gv = groups_view(groups@);
        assert forall|g: int| 0 <= g < groups@.len() implies (#[trigger] groups@[g]).1@.len() > 0 by {
            assert(gv[g] == (groups@[g].0@, groups@[g].1@));
            lemma_members_nonempty(ms, kv, gv[g].0);
        }
    }
    let groups = sort_groups(groups, Ghost(ms), Ghost(kv));
    let ghost gv = groups_view(groups@);
    let mut out: Vec<ContactSummary> = Vec::new();
    for g in 0..groups.len()
        invariant
            gv == groups_view(groups@),
            kv == contact_keys(ms, account_email@),
            grouped(gv, ms, kv),
            forall|x: int| 0 <= x < groups@.len() ==> (#[trigger] groups@[x]).1@.len() > 0,
            out@.len() == g,
            forall|x: int| 0 <= x < g ==> contact_summary(#[trigger] out@[x], ms, account_email@) && out@[x].email_address@ == gv[x].0
                && out@[x].most_recent_at == group_time(gv[x].1),
    {
        let items = &groups[g].1;
        let key = &groups[g].0;
        assert(gv[g as int] == (key@, items@));
        assert(items@ == members(ms, kv, gv[g as int].0));
        let k = latest_index(items);
        let latest_msg = &items[k];
        let summary = ContactSummary {
            email_address: string_from_chars(key.as_slice()),
            display_name: contact_name_of(latest_msg, key.as_slice()),
            latest_subject: latest_msg.subject.clone(),
            message_count: items.len(),
            unread_count: unread_count(items),
            most_recent_at: latest_msg.received_at,
        };
        out.push(summary);
    }
    proof {
        assert forall|j: int| 0 <= j < ms.len() implies has_contact(out@, #[trigger] contact_keys(ms, account_email@)[j]) by {
            assert(has_key(gv, kv[j]));
            let x = choose|x: int| 0 <= x < gv.len() && (#[trigger] gv[x]).0 == kv[j];
            assert(out@[x].email_address@ == gv[x].0);
        }
        assert forall|a: int, b: int| 0 <= a < b < out@.len() implies (#[trigger] out@[a]).most_recent_at >= (#[trigger] out@[b]).most_recent_at by {
            assert(gv[a].1 == groups@[a].1@ && gv[b].1 == groups@[b].1@);
        }
    }
    out
}

}
