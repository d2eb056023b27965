//! Contexts: the supervision record of one actor (itself, its parent, its
//! children and the root), the messages it formats, and the decisions its
//! task makes on each message: routing, death watch, draining and teardown.
use vstd::prelude::*;

use crate::agent::{Agent, AgentId, Mailbox};
use crate::message::{deliveries_view, notices, segments_view, CageMessage, Delivery, Letter};
use crate::path::{
    is_parent_segment,
    is_wildcard_segment,
    parent_segment,
    path_stack,
    segment_stack,
    wildcard_segment,
};
use crate::payload::Payload;

verus! {

pub open spec fn ids(v: Seq<Agent>) -> Seq<AgentId> {
    v.map_values(|a: Agent| a@)
}

pub open spec fn letters(v: Seq<CageMessage>) -> Seq<Letter> {
    v.map_values(|m: CageMessage| m@)
}

/// The view of a `Context`.
pub struct ContextView {
    pub agent: AgentId,
    pub parent: AgentId,
    pub children: Seq<AgentId>,
    pub root: AgentId,
}

/// The context of a child named `name` started by an actor whose context is `me`.
pub open spec fn child_view(me: ContextView, name: Seq<char>) -> ContextView {
    ContextView {
        agent: AgentId { path: me.agent.path + name, name },
        parent: me.agent,
        children: Seq::empty(),
        root: me.root,
    }
}

/// Where `find(path, msg)` sends its message: a path whose first segment is
/// `..` goes to the parent without that segment; any other path goes whole to
/// the root.
pub open spec fn find_target(me: ContextView, path: Seq<char>, msg: Payload) -> (AgentId, Letter) {
    let stack = path_stack(path);
    if stack.last() == parent_segment() {
        (me.parent, Letter::Find(stack.drop_last(), msg, me.agent))
    } else {
        (me.root, Letter::Find(stack, msg, me.agent))
    }
}

/// One copy of `msg` from `sender` to each of `cs`.
pub open spec fn fan_out(cs: Seq<AgentId>, msg: Payload, sender: AgentId) -> Seq<(AgentId, Letter)> {
    cs.map_values(|c: AgentId| (c, Letter::UserMessage(msg, sender)))
}

pub open spec fn is_first_named(cs: Seq<AgentId>, name: Seq<char>, k: int) -> bool {
    &&& 0 <= k < cs.len()
    &&& cs[k].name == name
    &&& forall|j: int| 0 <= j < k ==> cs[j].name != name
}

/// The routed message handed to the first of `cs` named `name`; nothing when
/// none is.
pub open spec fn to_named_child(
    cs: Seq<AgentId>,
    name: Seq<char>,
    rest: Seq<Seq<char>>,
    msg: Payload,
    sender: AgentId,
) -> Seq<(AgentId, Letter)> {
    if exists|k: int| is_first_named(cs, name, k) {
        let k = choose|k: int| is_first_named(cs, name, k);
        seq![(cs[k], Letter::Find(rest, msg, sender))]
    } else {
        Seq::empty()
    }
}

/// Where a routed message with pending segments `segs` goes from an actor
/// with the given parent and children: `*` fans out to every child, `..`
/// climbs to the parent, and any other segment descends to the first child of
/// that name.
pub open spec fn onward(
    parent: AgentId,
    cs: Seq<AgentId>,
    segs: Seq<Seq<char>>,
    msg: Payload,
    sender: AgentId,
) -> Seq<(AgentId, Letter)> {
    let top = segs.last();
    let rest = segs.drop_last();
    if top == wildcard_segment() {
        fan_out(cs, msg, sender)
    } else if top == parent_segment() {
        seq![(parent, Letter::Find(rest, msg, sender))]
    } else {
        to_named_child(cs, top, rest, msg, sender)
    }
}

pub open spec fn is_first_at_path(ws: Seq<AgentId>, p: Seq<char>, k: int) -> bool {
    &&& 0 <= k < ws.len()
    &&& ws[k].path == p
    &&& forall|j: int| 0 <= j < k ==> ws[j].path != p
}

/// The watchers `ws` less the first registration of the actor at path `p`.
pub open spec fn unwatched(ws: Seq<AgentId>, p: Seq<char>) -> Seq<AgentId> {
    if exists|k: int| is_first_at_path(ws, p, k) {
        ws.remove(choose|k: int| is_first_at_path(ws, p, k))
    } else {
        ws
    }
}

/// The watchers after the message `m` arrives: a watch request adds one
/// registration, a cancellation removes one.
pub open spec fn watched(ws: Seq<AgentId>, m: Letter) -> Seq<AgentId> {
    match m {
        Letter::Watch(w) => ws.push(w),
        Letter::Unwatch(w) => unwatched(ws, w.path),
        _ => ws,
    }
}

/// The messages an actor sends as it stops: `Terminated` to every watcher,
/// then `Kill` to every child.
pub open spec fn farewells(me: AgentId, ws: Seq<AgentId>, cs: Seq<AgentId>) -> Seq<(AgentId, Letter)> {
    ws.map_values(|w: AgentId| (w, Letter::Terminated(me))) + cs.map_values(
        |c: AgentId| (c, Letter::Kill(me)),
    )
}

/// What a routed message turns into at an actor.
pub enum Route {
    /// No segment is left: the message is for this actor.
    Here(Payload, Agent),
    /// The message travels on to these agents.
    Onward(Vec<Delivery>),
}

/// What the task running an actor does with one message from its mailbox.
pub enum Step {
    /// Hand the payload to the actor's `receive`.
    Receive(Payload, Agent),
    /// Tell the actor that a watched actor stopped.
    Terminated(Agent),
    /// Tell the actor that a message it sent caused a failure.
    Failed(Payload, Agent),
    /// Tell the actor that a message it sent did not arrive.
    Undelivered(Agent, Payload),
    /// Deliver these messages.
    Send(Vec<Delivery>),
    /// Drain the mailbox, tell the actor who killed it, and stop.
    Stop(Agent),
    /// Nothing more to do: the watchers were updated.
    Idle,
}

/// One copy of `msg` from `sender` to each agent of `children`, in order.
pub fn fan_out_to(children: &Vec<Agent>, msg: &Payload, sender: &Agent) -> (r: Vec<Delivery>)
    ensures
        deliveries_view(r@) == fan_out(ids(children@), *msg, sender@),
{
    let mut out: Vec<Delivery> = Vec::new();
    let mut i: usize = 0;
    while i < children.len()
        invariant
            i <= children@.len(),
            deliveries_view(out@) == fan_out(ids(children@).take(i as int), *msg, sender@),
        decreases children@.len() - i,
    {
        let d = Delivery {
            to: children[i].copy(),
            msg: CageMessage::UserMessage(msg.copy(), sender.copy()),
        };
        let ghost before = out@;
        out.push(d);
        proof {
            assert(ids(children@).take(i + 1) =~= ids(children@).take(i as int).push(
                children@[i as int]@,
            ));
            assert(deliveries_view(out@) =~= deliveries_view(before).push(d@));
            assert(fan_out(ids(children@).take(i + 1), *msg, sender@) =~= fan_out(
                ids(children@).take(i as int),
                *msg,
                sender@,
            ).push(d@));
        }
        i = i + 1;
    }
    assert(ids(children@).take(children@.len() as int) =~= ids(children@));
    out
}

/// The routed message `Find(rest, msg, sender)` for the first agent of
/// `children` named `name`; nothing when none is.
pub fn to_first_named(
    children: &Vec<Agent>,
    name: &String,
    rest: Vec<String>,
    msg: Payload,
    sender: Agent,
) -> (r: Vec<Delivery>)
    ensures
        deliveries_view(r@) == to_named_child(
            ids(children@),
            name@,
            segments_view(rest@),
            msg,
            sender@,
        ),
{
    let ghost cs = ids(children@);
    let mut i: usize = 0;
    while i < children.len()
        invariant
            i <= children@.len(),
            cs == ids(children@),
            forall|j: int| 0 <= j < i ==> cs[j].name != name@,
        decreases children@.len() - i,
    {
        let child_name = children[i].name();
        if child_name == *name {
            let mut out: Vec<Delivery> = Vec::new();
            let d = Delivery {
                to: children[i].copy(),
                msg: CageMessage::Find(rest, msg, sender),
            };
            out.push(d);
            proof {
                assert(is_first_named(cs, name@, i as int));
                let k = choose|k: int| is_first_named(cs, name@, k);
                assert(k == i);
                assert(deliveries_view(out@) =~= seq![d@]);
            }
            return out;
        }
        i = i + 1;
    }
    let out: Vec<Delivery> = Vec::new();
    assert(deliveries_view(out@) =~= Seq::empty());
    out
}

/// Drops the first of `watchers` whose path is that of `p`, when there is one.
fn remove_first_at_path(watchers: &mut Vec<Agent>, p: &Agent)
    ensures
        ids(final(watchers)@) == unwatched(ids(old(watchers)@), p@.path),
{
    let ghost ws = ids(watchers@);
    let mut i: usize = 0;
    while i < watchers.len()
        invariant
            i <= watchers@.len(),
            ws == ids(watchers@),
            ws == ids(old(watchers)@),
            forall|j: int| 0 <= j < i ==> ws[j].path != p@.path,
        decreases watchers@.len() - i,
    {
        if watchers[i].same(p) {
            let ghost before = watchers@;
            watchers.remove(i);
            proof {
                assert(is_first_at_path(ws, p@.path, i as int));
                let k = choose|k: int| is_first_at_path(ws, p@.path, k);
                assert(k == i);
                assert(ids(watchers@) =~= ws.remove(i as int));
            }
            return;
        }
        i = i + 1;
    }
}

/// The supervision record of one actor.
pub struct Context {
    agent: Agent,
    parent: Agent,
    children: Vec<Agent>,
    root: Agent,
}

impl View for Context {
    type V = ContextView;

    closed spec fn view(&self) -> ContextView {
        ContextView {
            agent: self.agent@,
            parent: self.parent@,
            children: ids(self.children@),
            root: self.root@,
        }
    }
}

impl Context {
    /// A user message from this actor.
    pub fn send(&self, msg: Payload) -> (r: CageMessage)
        ensures
            r@ == Letter::UserMessage(msg, self@.agent),
    {
        CageMessage::UserMessage(msg, self.agent.copy())
    }

    /// A user message that appears to come from `from` rather than this actor.
    pub fn forward(&self, msg: Payload, from: &Agent) -> (r: CageMessage)
        ensures
            r@ == Letter::UserMessage(msg, from@),
    {
        CageMessage::UserMessage(msg, from.copy())
    }

    /// A report that processing a message failed here.
    pub fn failure(&self, err: Payload) -> (r: CageMessage)
        ensures
            r@ == Letter::Failure(err, self@.agent),
    {
        CageMessage::Failure(err, self.agent.copy())
    }

    /// A request to be told of the receiver's death.
    pub fn watch(&self) -> (r: CageMessage)
        ensures
            r@ == Letter::Watch(self@.agent),
    {
        CageMessage::Watch(self.agent.copy())
    }

    /// A cancellation of an earlier `watch`.
    pub fn unwatch(&self) -> (r: CageMessage)
        ensures
            r@ == Letter::Unwatch(self@.agent),
    {
        CageMessage::Unwatch(self.agent.copy())
    }

    /// A request that the receiver stop.
    pub fn kill(&self) -> (r: CageMessage)
        ensures
            r@ == Letter::Kill(self@.agent),
    {
        CageMessage::Kill(self.agent.copy())
    }

    pub fn agent(&self) -> (r: Agent)
        ensures
            r@ == self@.agent,
    {
        self.agent.copy()
    }

    pub fn parent(&self) -> (r: Agent)
        ensures
            r@ == self@.parent,
    {
        self.parent.copy()
    }

    /// A snapshot of the children, in the order they were started.
    pub fn children(&self) -> (r: Vec<Agent>)
        ensures
            ids(r@) == self@.children,
    {
        let mut out: Vec<Agent> = Vec::new();
        let mut i: usize = 0;
        while i < self.children.len()
            invariant
                i <= self.children@.len(),
                ids(out@) == ids(self.children@).take(i as int),
            decreases self.children@.len() - i,
        {
            let a = self.children[i].copy();
            let ghost before = out@;
            out.push(a);
            assert(ids(out@) =~= ids(before).push(a@));
            assert(ids(out@) =~= ids(self.children@).take(i + 1));
            i = i + 1;
        }
        assert(ids(out@) =~= ids(self.children@));
        out
    }

    /// The context of the root of a tree: its agent is named `/`, has the path
    /// `/`, and is its own root.
    pub fn root(sender: Mailbox, parent: Agent) -> (r: Context)
        ensures
            r@.agent == (AgentId { path: seq!['/'], name: seq!['/'] }),
            r@.parent == parent@,
            r@.children == Seq::<AgentId>::empty(),
            r@.root == r@.agent,
    {
        let root_agent = Agent::new(sender, String::new(), "/".to_string());
        proof {
            reveal_strlit("/");
            assert(Seq::<char>::empty() + "/"@ =~= seq!['/']);
        }
        let root = root_agent.copy();
        let r = Context { agent: root_agent, parent, children: Vec::new(), root };
        assert(ids(r.children@) =~= Seq::<AgentId>::empty());
        r
    }

    /// The context of a child of this actor named `name`, whose mailbox is fed
    /// by `sender`.
    pub fn child(&self, sender: Mailbox, name: String) -> (r: Context)
        ensures
            r@ == child_view(self@, name@),
    {
        let r = Context {
            agent: Agent::new(sender, self.agent.path(), name),
            parent: self.agent.copy(),
            children: Vec::new(),
            root: self.root.copy(),
        };
        assert(ids(r.children@) =~= Seq::<AgentId>::empty());
        r
    }

    /// Registers a new child named `name`: opens its mailbox, appends its agent
    /// to the children, and returns its context with the receiving side of its
    /// mailbox, for a task to run.
    pub fn enroll_child(&mut self, name: String) -> (r: (Context, std::sync::mpsc::Receiver<CageMessage>))
        ensures
            r.0@ == child_view(old(self)@, name@),
            final(self)@.children == old(self)@.children.push(r.0@.agent),
            final(self)@.agent == old(self)@.agent,
            final(self)@.parent == old(self)@.parent,
            final(self)@.root == old(self)@.root,
    {
        let (sender, receiver) = Mailbox::open();
        let context = self.child(sender, name);
        let agent = context.agent();
        let ghost before = self.children@;
        self.children.push(agent);
        assert(ids(self.children@) =~= ids(before).push(context@.agent));
        (context, receiver)
    }

    /// The delivery that `find(path, msg)` makes.
    pub fn find_delivery(&self, path: &str, msg: Payload) -> (r: Delivery)
        ensures
            r@ == find_target(self@, path@, msg),
    {
        let mut stack = segment_stack(path);
        let ghost whole = stack@;
        let top = stack.pop().unwrap();
        assert(whole =~= stack@.push(top));
        assert(segments_view(stack@) =~= segments_view(whole).drop_last());
        if is_parent_segment(top.as_str()) {
            Delivery { to: self.parent.copy(), msg: CageMessage::Find(stack, msg, self.agent.copy()) }
        } else {
            stack.push(top);
            assert(stack@ =~= whole);
            Delivery { to: self.root.copy(), msg: CageMessage::Find(stack, msg, self.agent.copy()) }
        }
    }

    /// Sends `msg` through the tree to the actors that `path` designates:
    /// segments are separated by `/`, `..` climbs one level, `*` reaches every
    /// child, and any other segment names a child. Unless the path starts with
    /// `..`, resolution starts at the root.
    pub fn find(&self, path: String, msg: Payload) {
        let d = self.find_delivery(path.as_str(), msg);
        d.to.deliver(d.msg);
    }

    /// Where a routed message with pending segments `segs` goes from here.
    pub fn route(&self, segs: Vec<String>, msg: Payload, sender: Agent) -> (r: Route)
        ensures
            segs@.len() == 0 <==> r is Here,
            r matches Route::Here(m, s) ==> m == msg && s@ == sender@,
            r matches Route::Onward(ds) ==> deliveries_view(ds@) == onward(
                self@.parent,
                self@.children,
                segments_view(segs@),
                msg,
                sender@,
            ),
    {
        let mut rest = segs;
        let ghost whole = rest@;
        match rest.pop() {
            None => Route::Here(msg, sender),
            Some(top) => {
                assert(whole =~= rest@.push(top));
                assert(segments_view(rest@) =~= segments_view(whole).drop_last());
                if is_wildcard_segment(top.as_str()) {
                    Route::Onward(fan_out_to(&self.children, &msg, &sender))
                } else if is_parent_segment(top.as_str()) {
                    let d = Delivery { to: self.parent.copy(), msg: CageMessage::Find(rest, msg, sender) };
                    let mut out: Vec<Delivery> = Vec::new();
                    out.push(d);
                    assert(deliveries_view(out@) =~= seq![d@]);
                    Route::Onward(out)
                } else {
                    Route::Onward(to_first_named(&self.children, &top, rest, msg, sender))
                }
            },
        }
    }

    /// Drops the first registration of `unwatcher` from `watchers`, if any.
    pub fn remove_unwatcher(watchers: &mut Vec<Agent>, unwatcher: Agent)
        ensures
            ids(final(watchers)@) == unwatched(ids(old(watchers)@), unwatcher@.path),
    {
        remove_first_at_path(watchers, &unwatcher);
    }

    /// Decides what the task running this actor does with `msg`, keeping the
    /// registered watchers in `watchers`.
    pub fn step(&self, watchers: &mut Vec<Agent>, msg: CageMessage) -> (r: Step)
        ensures
            ids(final(watchers)@) == watched(ids(old(watchers)@), msg@),
            match msg@ {
                Letter::UserMessage(p, s) => r matches Step::Receive(p2, s2) && p2 == p && s2@ == s,
                Letter::Find(segs, p, s) => if segs.len() == 0 {
                    r matches Step::Receive(p2, s2) && p2 == p && s2@ == s
                } else {
                    r matches Step::Send(ds) && deliveries_view(ds@) == onward(
                        self@.parent,
                        self@.children,
                        segs,
                        p,
                        s,
                    )
                },
                Letter::Terminated(a) => r matches Step::Terminated(a2) && a2@ == a,
                Letter::Failure(e, f) => r matches Step::Failed(e2, f2) && e2 == e && f2@ == f,
                Letter::Undelivered(t, m) => r matches Step::Undelivered(t2, m2) && t2@ == t && m2
                    == m,
                Letter::Watch(_) => r is Idle,
                Letter::Unwatch(_) => r is Idle,
                Letter::Kill(k) => r matches Step::Stop(k2) && k2@ == k,
            },
    {
        match msg {
            CageMessage::UserMessage(m, s) => Step::Receive(m, s),
            CageMessage::Find(segs, m, s) => match self.route(segs, m, s) {
                Route::Here(m, s) => Step::Receive(m, s),
                Route::Onward(ds) => Step::Send(ds),
            },
            CageMessage::Terminated(a) => Step::Terminated(a),
            CageMessage::Failure(e, f) => Step::Failed(e, f),
            CageMessage::Undelivered(t, m) => Step::Undelivered(t, m),
            CageMessage::Watch(w) => {
                let ghost before = watchers@;
                watchers.push(w);
                assert(ids(watchers@) =~= ids(before).push(w@));
                Step::Idle
            },
            CageMessage::Unwatch(w) => {
                Context::remove_unwatcher(watchers, w);
                Step::Idle
            },
            CageMessage::Kill(k) => Step::Stop(k),
        }
    }

    /// The notices owed for messages still buffered in this actor's mailbox
    /// when it stops, in order.
    pub fn drain_recv(&self, buffered: Vec<CageMessage>) -> (r: Vec<Delivery>)
        ensures
            deliveries_view(r@) == notices(self@.agent, letters(buffered@)),
    {
        let ghost all = buffered@;
        let ghost n = all.len();
        let mut rest = buffered;
        let mut out: Vec<Delivery> = Vec::new();
        let ghost mut i: int = 0;
        while rest.len() > 0
            invariant
                0 <= i <= n,
                n == all.len(),
                rest@ == all.subrange(i, n as int),
                deliveries_view(out@) == notices(self@.agent, letters(all.take(i))),
            decreases rest@.len(),
        {
            let m = rest.remove(0);
            proof {
                assert(m == all[i]);
                assert(letters(all.take(i + 1)).drop_last() =~= letters(all.take(i)));
                assert(letters(all.take(i + 1)).last() == m@);
            }
            let ghost before = out@;
            match self.agent.compensation(m) {
                Some(d) => {
                    out.push(d);
                    assert(deliveries_view(out@) =~= deliveries_view(before).push(d@));
                },
                None => {},
            }
            proof {
                i = i + 1;
                assert(rest@ =~= all.subrange(i, n as int));
            }
        }
        assert(all.take(i) =~= all);
        out
    }

    /// The messages this actor sends as it stops, given its watchers.
    pub fn stop_notices(&self, watchers: Vec<Agent>) -> (r: Vec<Delivery>)
        ensures
            deliveries_view(r@) == farewells(self@.agent, ids(watchers@), self@.children),
    {
        let ghost me = self@.agent;
        let ghost ws = ids(watchers@);
        let ghost cs = self@.children;
        let mut out: Vec<Delivery> = Vec::new();
        let mut i: usize = 0;
        while i < watchers.len()
            invariant
                i <= watchers@.len(),
                me == self@.agent,
                ws == ids(watchers@),
                deliveries_view(out@) == ws.take(i as int).map_values(
                    |w: AgentId| (w, Letter::Terminated(me)),
                ),
            decreases watchers@.len() - i,
        {
            let d = Delivery { to: watchers[i].copy(), msg: CageMessage::Terminated(self.agent.copy()) };
            let ghost before = out@;
            out.push(d);
            assert(deliveries_view(out@) =~= deliveries_view(before).push(d@));
            assert(deliveries_view(out@) =~= ws.take(i + 1).map_values(
                |w: AgentId| (w, Letter::Terminated(me)),
            ));
            i = i + 1;
        }
        assert(ws.take(watchers@.len() as int) =~= ws);
        let ghost first = deliveries_view(out@);
        let mut j: usize = 0;
        while j < self.children.len()
            invariant
                j <= self.children@.len(),
                me == self@.agent,
                cs == ids(self.children@),
                deliveries_view(out@) == first + cs.take(j as int).map_values(
                    |c: AgentId| (c, Letter::Kill(me)),
                ),
            decreases self.children@.len() - j,
        {
            let d = Delivery { to: self.children[j].copy(), msg: CageMessage::Kill(self.agent.copy()) };
            let ghost before = out@;
            out.push(d);
            assert(deliveries_view(out@) =~= deliveries_view(before).push(d@));
            assert(deliveries_view(out@) =~= first + cs.take(j + 1).map_values(
                |c: AgentId| (c, Letter::Kill(me)),
            ));
            j = j + 1;
        }
        assert(cs.take(self.children@.len() as int) =~= cs);
        out
    }
}

} // verus!
