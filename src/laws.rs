//! Properties of the runtime that relate several of its operations, stated
//! over the views and proved.
use vstd::prelude::*;

use crate::agent::AgentId;
use crate::context::{
    fan_out,
    farewells,
    find_target,
    is_first_at_path,
    onward,
    to_named_child,
    unwatched,
    watched,
    ContextView,
};
use crate::message::{notices, owes_notice, Letter};
use crate::path::{split_from, wildcard_segment};
use crate::payload::Payload;
use crate::stage::{root_replies, skip_root};

verus! {

/// How many of `ws` are registrations of the actor at path `p`.
pub open spec fn registrations(ws: Seq<AgentId>, p: Seq<char>) -> nat
    decreases ws.len(),
{
    if ws.len() == 0 {
        0
    } else {
        registrations(ws.drop_last(), p) + if ws.last().path == p {
            1nat
        } else {
            0nat
        }
    }
}

/// How many of `ds` tell the actor at path `p` that some actor terminated.
pub open spec fn terminations_to(ds: Seq<(AgentId, Letter)>, p: Seq<char>) -> nat
    decreases ds.len(),
{
    if ds.len() == 0 {
        0
    } else {
        terminations_to(ds.drop_last(), p) + if ds.last().0.path == p && ds.last().1 is Terminated {
            1nat
        } else {
            0nat
        }
    }
}

/// How many of `ds` ask their recipient to stop.
pub open spec fn kills(ds: Seq<(AgentId, Letter)>) -> nat
    decreases ds.len(),
{
    if ds.len() == 0 {
        0
    } else {
        kills(ds.drop_last()) + if ds.last().1 is Kill {
            1nat
        } else {
            0nat
        }
    }
}

proof fn lemma_registrations_concat(a: Seq<AgentId>, b: Seq<AgentId>, p: Seq<char>)
    ensures
        registrations(a + b, p) == registrations(a, p) + registrations(b, p),
    decreases b.len(),
{
    if b.len() == 0 {
        assert(a + b =~= a);
    } else {
        assert((a + b).drop_last() =~= a + b.drop_last());
        lemma_registrations_concat(a, b.drop_last(), p);
    }
}

proof fn lemma_registrations_remove(ws: Seq<AgentId>, k: int, p: Seq<char>)
    requires
        0 <= k < ws.len(),
        ws[k].path == p,
    ensures
        registrations(ws.remove(k), p) + 1 == registrations(ws, p),
{
    let front = ws.take(k);
    let back = ws.skip(k + 1);
    assert(ws =~= front + seq![ws[k]] + back);
    assert(ws.remove(k) =~= front + back);
    lemma_registrations_concat(front + seq![ws[k]], back, p);
    lemma_registrations_concat(front, seq![ws[k]], p);
    lemma_registrations_concat(front, back, p);
    assert(seq![ws[k]].drop_last() =~= Seq::<AgentId>::empty());
    assert(registrations(Seq::<AgentId>::empty(), p) == 0);
    assert(registrations(seq![ws[k]], p) == 1);
}

proof fn lemma_no_registration(ws: Seq<AgentId>, p: Seq<char>)
    requires
        forall|j: int| 0 <= j < ws.len() ==> ws[j].path != p,
    ensures
        registrations(ws, p) == 0,
    decreases ws.len(),
{
    if ws.len() > 0 {
        lemma_no_registration(ws.drop_last(), p);
    }
}

proof fn lemma_terminations_concat(a: Seq<(AgentId, Letter)>, b: Seq<(AgentId, Letter)>, p: Seq<char>)
    ensures
        terminations_to(a + b, p) == terminations_to(a, p) + terminations_to(b, p),
    decreases b.len(),
{
    if b.len() == 0 {
        assert(a + b =~= a);
    } else {
        assert((a + b).drop_last() =~= a + b.drop_last());
        lemma_terminations_concat(a, b.drop_last(), p);
    }
}

proof fn lemma_kills_concat(a: Seq<(AgentId, Letter)>, b: Seq<(AgentId, Letter)>)
    ensures
        kills(a + b) == kills(a) + kills(b),
    decreases b.len(),
{
    if b.len() == 0 {
        assert(a + b =~= a);
    } else {
        assert((a + b).drop_last() =~= a + b.drop_last());
        lemma_kills_concat(a, b.drop_last());
    }
}

proof fn lemma_farewell_parts(me: AgentId, ws: Seq<AgentId>, cs: Seq<AgentId>, p: Seq<char>)
    ensures
        terminations_to(ws.map_values(|w: AgentId| (w, Letter::Terminated(me))), p)
            == registrations(ws, p),
        kills(ws.map_values(|w: AgentId| (w, Letter::Terminated(me)))) == 0,
        terminations_to(cs.map_values(|c: AgentId| (c, Letter::Kill(me))), p) == 0,
        kills(cs.map_values(|c: AgentId| (c, Letter::Kill(me)))) == cs.len(),
    decreases ws.len() + cs.len(),
{
    if ws.len() > 0 {
        assert(ws.map_values(|w: AgentId| (w, Letter::Terminated(me))).drop_last()
            =~= ws.drop_last().map_values(|w: AgentId| (w, Letter::Terminated(me))));
        lemma_farewell_parts(me, ws.drop_last(), cs, p);
    }
    if cs.len() > 0 {
        assert(cs.map_values(|c: AgentId| (c, Letter::Kill(me))).drop_last()
            =~= cs.drop_last().map_values(|c: AgentId| (c, Letter::Kill(me))));
        lemma_farewell_parts(me, ws, cs.drop_last(), p);
    }
}

/// The segments of a path with no `/` followed by `tail`: just one.
proof fn lemma_split_plain(s: Seq<char>, tail: Seq<char>)
    requires
        !s.contains('/'),
    ensures
        split_from(s, tail) == seq![s + tail],
    decreases s.len(),
{
    if s.len() == 0 {
        assert(s + tail =~= tail);
    } else {
        assert(s.drop_last().len() < s.len());
        assert(!s.drop_last().contains('/')) by {
            if s.drop_last().contains('/') {
                let j = choose|j: int| 0 <= j < s.drop_last().len() && s.drop_last()[j] == '/';
                assert(s[j] == '/');
            }
        }
        assert(s[s.len() - 1] != '/');
        lemma_split_plain(s.drop_last(), seq![s.last()] + tail);
        assert(s.drop_last() + (seq![s.last()] + tail) =~= s + tail);
    }
}

/// A user message sent to an actor whose mailbox is closed comes back to its
/// sender as exactly one `Undelivered` notice naming that actor and carrying
/// the payload, and that notice owes nobody anything further.
pub proof fn law_undelivered_notice(target: AgentId, sender: AgentId, p: Payload)
    ensures
        notices(target, seq![Letter::UserMessage(p, sender)]) == seq![
            (sender, Letter::Undelivered(target, p)),
        ],
        !owes_notice(Letter::Undelivered(target, p)),
{
    let ms = seq![Letter::UserMessage(p, sender)];
    assert(ms.drop_last() =~= Seq::<Letter>::empty());
    assert(ms.last() == Letter::UserMessage(p, sender));
    assert(notices(target, Seq::<Letter>::empty()) == Seq::<(AgentId, Letter)>::empty());
    assert(Seq::<(AgentId, Letter)>::empty().push((sender, Letter::Undelivered(target, p)))
        =~= seq![(sender, Letter::Undelivered(target, p))]);
}

/// A watch request sent to an actor whose mailbox is closed comes back to the
/// watcher as exactly one `Terminated` notice naming that actor.
pub proof fn law_watch_of_stopped_actor(target: AgentId, watcher: AgentId)
    ensures
        notices(target, seq![Letter::Watch(watcher)]) == seq![
            (watcher, Letter::Terminated(target)),
        ],
        !owes_notice(Letter::Terminated(target)),
{
    let ms = seq![Letter::Watch(watcher)];
    assert(ms.drop_last() =~= Seq::<Letter>::empty());
    assert(ms.last() == Letter::Watch(watcher));
    assert(notices(target, Seq::<Letter>::empty()) == Seq::<(AgentId, Letter)>::empty());
    assert(Seq::<(AgentId, Letter)>::empty().push((watcher, Letter::Terminated(target)))
        =~= seq![(watcher, Letter::Terminated(target))]);
}

/// An actor that stops asks each of its direct children to stop exactly once:
/// the farewells hold as many `Kill` messages as it has children, the `i`-th
/// of them addressed to the `i`-th child.
pub proof fn law_kill_reaches_each_child(me: AgentId, ws: Seq<AgentId>, cs: Seq<AgentId>)
    ensures
        kills(farewells(me, ws, cs)) == cs.len(),
        forall|i: int|
            0 <= i < cs.len() ==> #[trigger] farewells(me, ws, cs)[ws.len() + i] == (
                cs[i],
                Letter::Kill(me),
            ),
{
    let p = Seq::<char>::empty();
    lemma_farewell_parts(me, ws, cs, p);
    lemma_kills_concat(
        ws.map_values(|w: AgentId| (w, Letter::Terminated(me))),
        cs.map_values(|c: AgentId| (c, Letter::Kill(me))),
    );
}

/// `find("../*", msg)` from an actor below the root goes to its parent with
/// the single segment `*` left, and there becomes one copy of `msg`, from the
/// issuer, for every child of that parent, the issuer's siblings among them.
pub proof fn law_siblings_fan_out(issuer: ContextView, parent: ContextView, msg: Payload)
    requires
        issuer.parent == parent.agent,
    ensures
        find_target(issuer, seq!['.', '.', '/', '*'], msg) == (
            parent.agent,
            Letter::Find(seq![wildcard_segment()], msg, issuer.agent),
        ),
        onward(parent.parent, parent.children, seq![wildcard_segment()], msg, issuer.agent)
            == fan_out(parent.children, msg, issuer.agent),
{
    let s = seq!['.', '.', '/', '*'];
    assert(s.drop_last() =~= seq!['.', '.', '/']);
    assert(s.drop_last().drop_last() =~= seq!['.', '.']);
    lemma_split_plain(seq!['.', '.'], Seq::empty());
    assert(seq!['.', '.'] + Seq::<char>::empty() =~= seq!['.', '.']);
    assert(seq!['*'] + Seq::<char>::empty() =~= seq!['*']);
    assert(split_from(s, Seq::empty()) == split_from(seq!['.', '.', '/'], seq!['*']));
    assert(split_from(seq!['.', '.', '/'], seq!['*']) == split_from(seq!['.', '.'], Seq::empty()).push(
        seq!['*'],
    ));
    let segs = seq![seq!['.', '.'], seq!['*']];
    assert(split_from(s, Seq::empty()) =~= segs);
    assert(segs.reverse() =~= seq![seq!['*'], seq!['.', '.']]);
    assert(seq![seq!['*'], seq!['.', '.']].drop_last() =~= seq![seq!['*']]);
    assert(seq![wildcard_segment()].drop_last() =~= Seq::<Seq<char>>::empty());
}

/// `find("/name", msg)` goes whole to the root, wherever the issuer stands,
/// and the root hands it to its first child called `name`, with no segment
/// left, so that this child receives it.
pub proof fn law_absolute_find(
    issuer: ContextView,
    root: ContextView,
    name: Seq<char>,
    msg: Payload,
    out: Seq<(AgentId, Letter)>,
)
    requires
        issuer.root == root.agent,
        name.len() > 0,
        !name.contains('/'),
        name != seq!['.', '.'],
        name != seq!['*'],
    ensures
        find_target(issuer, seq!['/'] + name, msg) == (
            root.agent,
            Letter::Find(seq![name, Seq::empty()], msg, issuer.agent),
        ),
        root_replies(root, Letter::Find(seq![name, Seq::empty()], msg, issuer.agent), out) <==> out
            == to_named_child(root.children, name, Seq::empty(), msg, issuer.agent),
{
    let s = seq!['/'] + name;
    lemma_split_plain(name, Seq::empty());
    assert(name + Seq::<char>::empty() =~= name);
    assert(!s.subrange(1, s.len() as int).contains('/')) by {
        assert(s.subrange(1, s.len() as int) =~= name);
    }
    lemma_split_from_after_slash(name);
    let segs = seq![Seq::<char>::empty(), name];
    assert(split_from(s, Seq::empty()) =~= segs);
    assert(segs.reverse() =~= seq![name, Seq::empty()]);
    let stack = seq![name, Seq::<char>::empty()];
    assert(stack.last() =~= Seq::<char>::empty());
    assert(stack.drop_last() =~= seq![name]);
    assert(skip_root(stack) == skip_root(seq![name]));
    assert(seq![name].drop_last() =~= Seq::<Seq<char>>::empty());
}

/// The segments of `/` followed by a name with no `/`: the empty one, then the name.
proof fn lemma_split_from_after_slash(name: Seq<char>)
    requires
        !name.contains('/'),
    ensures
        split_from(seq!['/'] + name, Seq::empty()) == seq![Seq::<char>::empty(), name],
    decreases name.len(),
{
    lemma_split_tail_plain(seq!['/'], name, Seq::empty());
    assert(name + Seq::<char>::empty() =~= name);
    assert(seq!['/'].drop_last() =~= Seq::<char>::empty());
    assert(seq!['/'].last() == '/');
    assert(split_from(seq!['/'], name) == split_from(Seq::<char>::empty(), Seq::empty()).push(name));
    assert(Seq::<Seq<char>>::empty().push(Seq::<char>::empty()) =~= seq![Seq::<char>::empty()]);
    assert(seq![Seq::<char>::empty()].push(name) =~= seq![Seq::<char>::empty(), name]);
}

/// Splitting `a` followed by a part with no `/` carries that part into the tail.
proof fn lemma_split_tail_plain(a: Seq<char>, b: Seq<char>, tail: Seq<char>)
    requires
        !b.contains('/'),
    ensures
        split_from(a + b, tail) == split_from(a, b + tail),
    decreases b.len(),
{
    if b.len() == 0 {
        assert(a + b =~= a);
        assert(b + tail =~= tail);
    } else {
        assert((a + b).drop_last() =~= a + b.drop_last());
        assert((a + b).last() == b.last());
        assert(b[b.len() - 1] != '/');
        assert(!b.drop_last().contains('/')) by {
            if b.drop_last().contains('/') {
                let j = choose|j: int| 0 <= j < b.drop_last().len() && b.drop_last()[j] == '/';
                assert(b[j] == '/');
            }
        }
        lemma_split_tail_plain(a, b.drop_last(), seq![b.last()] + tail);
        assert(b.drop_last() + (seq![b.last()] + tail) =~= b + tail);
    }
}

/// Watch requests are counted, not merged: two `Watch` messages from the same
/// actor add two registrations, and when the watched actor stops, that
/// watcher is told once per registration.
pub proof fn law_double_watch(me: AgentId, ws: Seq<AgentId>, cs: Seq<AgentId>, w: AgentId)
    ensures
        registrations(watched(watched(ws, Letter::Watch(w)), Letter::Watch(w)), w.path)
            == registrations(ws, w.path) + 2,
        terminations_to(
            farewells(me, watched(watched(ws, Letter::Watch(w)), Letter::Watch(w)), cs),
            w.path,
        ) == registrations(ws, w.path) + 2,
{
    let ws2 = ws.push(w).push(w);
    assert(ws2.drop_last() =~= ws.push(w));
    assert(ws.push(w).drop_last() =~= ws);
    assert(registrations(ws.push(w), w.path) == registrations(ws, w.path) + 1);
    assert(registrations(ws2, w.path) == registrations(ws.push(w), w.path) + 1);
    lemma_farewell_parts(me, ws2, cs, w.path);
    lemma_terminations_concat(
        ws2.map_values(|x: AgentId| (x, Letter::Terminated(me))),
        cs.map_values(|c: AgentId| (c, Letter::Kill(me))),
        w.path,
    );
}

/// One `Unwatch` removes at most one registration: exactly one of the
/// unwatching actor when it has any, none otherwise, and nothing else.
pub proof fn law_unwatch_removes_one(ws: Seq<AgentId>, w: AgentId)
    ensures
        registrations(watched(ws, Letter::Unwatch(w)), w.path) == if registrations(ws, w.path)
            > 0 {
            registrations(ws, w.path) - 1
        } else {
            0
        },
        watched(ws, Letter::Unwatch(w)).len() == if registrations(ws, w.path) > 0 {
            ws.len() - 1
        } else {
            ws.len() as int
        },
{
    let p = w.path;
    if exists|k: int| is_first_at_path(ws, p, k) {
        let k = choose|k: int| is_first_at_path(ws, p, k);
        lemma_registrations_remove(ws, k, p);
    } else {
        assert forall|j: int| 0 <= j < ws.len() implies ws[j].path != p by {
            if ws[j].path == p {
                lemma_first_at_path_exists(ws, p, j);
            }
        }
        lemma_no_registration(ws, p);
    }
}

proof fn lemma_first_at_path_exists(ws: Seq<AgentId>, p: Seq<char>, j: int)
    requires
        0 <= j < ws.len(),
        ws[j].path == p,
    ensures
        exists|k: int| is_first_at_path(ws, p, k),
    decreases j,
{
    if forall|i: int| 0 <= i < j ==> ws[i].path != p {
        assert(is_first_at_path(ws, p, j));
    } else {
        let i = choose|i: int| 0 <= i < j && ws[i].path == p;
        lemma_first_at_path_exists(ws, p, i);
    }
}

} // verus!
