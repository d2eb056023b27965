//! The `Actor` capability, and the verified part of the task that runs one:
//! what happens to each message taken from its mailbox, and how it stops.
use vstd::prelude::*;

use crate::agent::{deliver_all, Agent};
use crate::context::{ids, watched, Context, Step};
use crate::message::{CageMessage, Letter};
use crate::payload::Payload;

verus! {

/// A unit of state that reacts to messages. The runtime builds it with `new`
/// inside its own task, so it owns everything it holds.
pub trait Actor: Sized {
    fn new() -> Self;

    /// Reacts to a payload sent by `sender`.
    fn receive(&mut self, context: &mut Context, msg: Payload, sender: Agent);

    /// A watched actor stopped.
    fn terminated(&mut self, context: &mut Context, terminated: Agent) {
    }

    /// A message this actor sent made `failed` report the failure `err`.
    fn failed(&mut self, context: &mut Context, err: Payload, failed: Agent) {
    }

    /// A message this actor sent could not reach `target`.
    fn undelivered(&mut self, context: &mut Context, target: Agent, orig_msg: Payload) {
    }

    /// Runs once, before the first message is taken.
    fn pre_start(&mut self) {
    }

    /// This actor was asked to stop by `killer`; its mailbox has been drained.
    fn killed(&mut self, context: &mut Context, killer: Agent) {
    }

    /// Runs last, after watchers and children have been told.
    fn post_stop(&mut self) {
    }
}

/// Handles one message taken from the mailbox of `actor`: hands it to the
/// matching callback, routes it, or updates the watchers. Returns the killer
/// when the message asks the actor to stop, and `None` otherwise.
pub fn handle<T: Actor>(
    actor: &mut T,
    context: &mut Context,
    watchers: &mut Vec<Agent>,
    msg: CageMessage,
) -> (stop: Option<Agent>)
    ensures
        ids(final(watchers)@) == watched(ids(old(watchers)@), msg@),
        match msg@ {
            Letter::Kill(k) => stop matches Some(a) && a@ == k,
            _ => stop is None,
        },
{
    match context.step(watchers, msg) {
        Step::Receive(m, s) => {
            actor.receive(context, m, s);
            None
        },
        Step::Terminated(a) => {
            actor.terminated(context, a);
            None
        },
        Step::Failed(e, f) => {
            actor.failed(context, e, f);
            None
        },
        Step::Undelivered(t, m) => {
            actor.undelivered(context, t, m);
            None
        },
        Step::Send(ds) => {
            deliver_all(ds);
            None
        },
        Step::Stop(k) => Some(k),
        Step::Idle => None,
    }
}

/// Stops `actor` after `killer` asked it to: sends the notices owed for the
/// messages still `buffered` in its closed mailbox, calls `killed`, tells
/// every watcher that it terminated, asks every child to stop, and calls
/// `post_stop`.
pub fn finish<T: Actor>(
    actor: &mut T,
    context: &mut Context,
    watchers: Vec<Agent>,
    killer: Agent,
    buffered: Vec<CageMessage>,
) {
    deliver_all(context.drain_recv(buffered));
    actor.killed(context, killer);
    deliver_all(context.stop_notices(watchers));
    actor.post_stop();
}

} // verus!
