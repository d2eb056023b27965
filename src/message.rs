//! The closed vocabulary exchanged between agents, its mathematical view, and
//! the compensation rule for a message whose mailbox is closed.
use vstd::prelude::*;

use crate::agent::{Agent, AgentId};
use crate::payload::Payload;

verus! {

/// Every message that travels between mailboxes.
pub enum CageMessage {
    /// An ordinary application message and its sender.
    UserMessage(Payload, Agent),
    /// Routed delivery: the pending path segments (next one last), the payload
    /// and the sender.
    Find(Vec<String>, Payload, Agent),
    /// The given actor has stopped.
    Terminated(Agent),
    /// An application-level error, and the actor reporting it.
    Failure(Payload, Agent),
    /// The payload could not reach the given actor.
    Undelivered(Agent, Payload),
    /// The given actor wants to hear of the receiver's death.
    Watch(Agent),
    /// The given actor no longer wants to hear of the receiver's death.
    Unwatch(Agent),
    /// The given actor asks the receiver to stop.
    Kill(Agent),
}

/// The view of a `CageMessage`: agents by their identity, text as characters.
pub enum Letter {
    UserMessage(Payload, AgentId),
    Find(Seq<Seq<char>>, Payload, AgentId),
    Terminated(AgentId),
    Failure(Payload, AgentId),
    Undelivered(AgentId, Payload),
    Watch(AgentId),
    Unwatch(AgentId),
    Kill(AgentId),
}

pub open spec fn segments_view(v: Seq<String>) -> Seq<Seq<char>> {
    v.map_values(|s: String| s@)
}

impl View for CageMessage {
    type V = Letter;

    open spec fn view(&self) -> Letter {
        match self {
            CageMessage::UserMessage(p, s) => Letter::UserMessage(*p, s@),
            CageMessage::Find(segs, p, s) => Letter::Find(segments_view(segs@), *p, s@),
            CageMessage::Terminated(a) => Letter::Terminated(a@),
            CageMessage::Failure(p, s) => Letter::Failure(*p, s@),
            CageMessage::Undelivered(t, p) => Letter::Undelivered(t@, *p),
            CageMessage::Watch(w) => Letter::Watch(w@),
            CageMessage::Unwatch(w) => Letter::Unwatch(w@),
            CageMessage::Kill(k) => Letter::Kill(k@),
        }
    }
}

/// A message together with the agent it is addressed to.
pub struct Delivery {
    pub to: Agent,
    pub msg: CageMessage,
}

impl View for Delivery {
    type V = (AgentId, Letter);

    open spec fn view(&self) -> (AgentId, Letter) {
        (self.to@, self.msg@)
    }
}

pub open spec fn deliveries_view(v: Seq<Delivery>) -> Seq<(AgentId, Letter)> {
    v.map_values(|d: Delivery| d@)
}

/// Whether losing this message owes its sender a notice.
pub open spec fn owes_notice(m: Letter) -> bool {
    m is UserMessage || m is Find || m is Watch
}

/// The notice owed when `m` cannot reach the mailbox of `target`: a user
/// message or a routed one comes back as `Undelivered` to its sender, a watch
/// request as `Terminated` to the watcher; any other message is dropped.
pub open spec fn notice(target: AgentId, m: Letter) -> Option<(AgentId, Letter)> {
    match m {
        Letter::UserMessage(p, s) => Some((s, Letter::Undelivered(target, p))),
        Letter::Find(_, p, s) => Some((s, Letter::Undelivered(target, p))),
        Letter::Watch(w) => Some((w, Letter::Terminated(target))),
        _ => None,
    }
}

/// The notices owed, in order, for messages that never reached `target`.
pub open spec fn notices(target: AgentId, ms: Seq<Letter>) -> Seq<(AgentId, Letter)>
    decreases ms.len(),
{
    if ms.len() == 0 {
        Seq::empty()
    } else {
        let rest = notices(target, ms.drop_last());
        match notice(target, ms.last()) {
            Some(n) => rest.push(n),
            None => rest,
        }
    }
}

} // verus!
