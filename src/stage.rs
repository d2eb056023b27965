//! The root supervisor's decisions. Nothing sits above the root, so messages
//! that would need a parent, a death or a reply from it are answered with a
//! `StageError`; routed messages are passed down as any actor would.
use vstd::prelude::*;

use crate::agent::{Agent, AgentId};
use crate::context::{fan_out, fan_out_to, to_first_named, to_named_child, Context, ContextView};
use crate::message::{deliveries_view, segments_view, CageMessage, Delivery, Letter};
use crate::path::{is_parent_segment, is_wildcard_segment, parent_segment, wildcard_segment};
use crate::payload::{Payload, StageError};

verus! {

pub const MESSAGE_ERROR: &'static str = "ERROR: Tried to deliver a message to Stage.";

pub const PARENT_ERROR: &'static str = "ERROR: Tried to access parent of Stage.";

pub const FAILURE_ERROR: &'static str = "ERROR: Tried to deliver failure message to Stage.";

pub const WATCH_ERROR: &'static str = "ERROR: Tried to watch the Stage.";

pub const UNWATCH_ERROR: &'static str = "ERROR: Tried to unwatch the Stage.";

pub const KILL_ERROR: &'static str = "ERROR: Tried to kill the Stage.";

/// `segs` without the empty segments on top: a path that starts with `/`
/// names the root itself first, and the root consumes that.
pub open spec fn skip_root(segs: Seq<Seq<char>>) -> Seq<Seq<char>>
    decreases segs.len(),
{
    if segs.len() > 0 && segs.last().len() == 0 {
        skip_root(segs.drop_last())
    } else {
        segs
    }
}

/// Whether `d` is a `Failure` carrying a `StageError` with text `err`, from
/// `root`, addressed to `to`.
pub open spec fn is_stage_failure(d: (AgentId, Letter), to: AgentId, err: Seq<char>, root: AgentId) -> bool {
    &&& d.0 == to
    &&& d.1 matches Letter::Failure(Payload::Stage(e), from) && e.err@ == err && from == root
}

/// Whether `out` is the single stage failure with text `err` for `to`.
pub open spec fn refused(out: Seq<(AgentId, Letter)>, to: AgentId, err: Seq<char>, root: AgentId) -> bool {
    out.len() == 1 && is_stage_failure(out[0], to, err, root)
}

/// What the root with context `me` sends when `m` arrives in its mailbox.
pub open spec fn root_replies(me: ContextView, m: Letter, out: Seq<(AgentId, Letter)>) -> bool {
    match m {
        Letter::UserMessage(_, s) => refused(out, s, MESSAGE_ERROR@, me.agent),
        Letter::Find(segs, p, s) => {
            let segs = skip_root(segs);
            if segs.len() == 0 {
                refused(out, s, MESSAGE_ERROR@, me.agent)
            } else if segs.last() == wildcard_segment() {
                out == fan_out(me.children, p, s)
            } else if segs.last() == parent_segment() {
                refused(out, s, PARENT_ERROR@, me.agent)
            } else {
                out == to_named_child(me.children, segs.last(), segs.drop_last(), p, s)
            }
        },
        Letter::Terminated(_) => out.len() == 0,
        Letter::Undelivered(_, _) => out.len() == 0,
        Letter::Failure(_, f) => refused(out, f, FAILURE_ERROR@, me.agent),
        Letter::Watch(w) => refused(out, w, WATCH_ERROR@, me.agent),
        Letter::Unwatch(w) => refused(out, w, UNWATCH_ERROR@, me.agent),
        Letter::Kill(k) => refused(out, k, KILL_ERROR@, me.agent),
    }
}

/// A `Failure` carrying a `StageError` with text `err`, from `root`.
pub fn stage_failure(err: &str, root: &Agent) -> (r: CageMessage)
    ensures
        r@ matches Letter::Failure(Payload::Stage(e), from) && e.err@ == err@ && from == root@,
{
    CageMessage::Failure(Payload::Stage(StageError::new(err)), root.copy())
}

fn refuse(to: Agent, err: &str, root: &Context) -> (r: Vec<Delivery>)
    ensures
        refused(deliveries_view(r@), to@, err@, root@.agent),
{
    let d = Delivery { to, msg: stage_failure(err, &root.agent()) };
    let mut out: Vec<Delivery> = Vec::new();
    out.push(d);
    assert(deliveries_view(out@) =~= seq![d@]);
    out
}

/// Pops the empty segments on top of `segs`.
fn skip_root_segments(segs: &mut Vec<String>)
    ensures
        segments_view(final(segs)@) == skip_root(segments_view(old(segs)@)),
{
    loop
        invariant_except_break
            skip_root(segments_view(segs@)) == skip_root(segments_view(old(segs)@)),
        ensures
            segments_view(segs@) == skip_root(segments_view(old(segs)@)),
        decreases segs@.len(),
    {
        if segs.len() == 0 {
            break;
        }
        let k = segs.len() - 1;
        if segs[k].as_str().unicode_len() != 0 {
            break;
        }
        let ghost before = segs@;
        segs.pop();
        assert(segments_view(segs@) =~= segments_view(before).drop_last());
    }
}

/// What the root sends when `msg` arrives in its mailbox.
pub fn root_reply(root: &Context, msg: CageMessage) -> (r: Vec<Delivery>)
    ensures
        root_replies(root@, msg@, deliveries_view(r@)),
{
    let empty: Vec<Delivery> = Vec::new();
    assert(deliveries_view(empty@) =~= Seq::empty());
    match msg {
        CageMessage::UserMessage(_, s) => refuse(s, MESSAGE_ERROR, root),
        CageMessage::Find(segs, p, s) => {
            let mut rest = segs;
            skip_root_segments(&mut rest);
            let ghost skipped = rest@;
            match rest.pop() {
                None => refuse(s, MESSAGE_ERROR, root),
                Some(top) => {
                    assert(skipped =~= rest@.push(top));
                    assert(segments_view(rest@) =~= segments_view(skipped).drop_last());
                    if is_wildcard_segment(top.as_str()) {
                        fan_out_to(&root.children(), &p, &s)
                    } else if is_parent_segment(top.as_str()) {
                        refuse(s, PARENT_ERROR, root)
                    } else {
                        to_first_named(&root.children(), &top, rest, p, s)
                    }
                },
            }
        },
        CageMessage::Terminated(_) => empty,
        CageMessage::Undelivered(_, _) => empty,
        CageMessage::Failure(_, f) => refuse(f, FAILURE_ERROR, root),
        CageMessage::Watch(w) => refuse(w, WATCH_ERROR, root),
        CageMessage::Unwatch(w) => refuse(w, UNWATCH_ERROR, root),
        CageMessage::Kill(k) => refuse(k, KILL_ERROR, root),
    }
}

} // verus!
