//! Agents: cloneable handles to an actor's mailbox, identified by path.
use vstd::prelude::*;
use vstd::string::*;

use crate::message::{notice, owes_notice, CageMessage, Delivery, Letter};
use crate::payload::Payload;

verus! {

/// `std::sync::mpsc::Receiver`, the receiving side of a mailbox, carried
/// through opaquely.
#[verifier::external_type_specification]
#[verifier::external_body]
#[verifier::reject_recursive_types(T)]
pub struct ExReceiver<T>(std::sync::mpsc::Receiver<T>);

/// The sending side of an actor's mailbox. Every clone feeds the same queue;
/// the single receiving side stays with the task that runs the actor.
///
/// The `Sender` is held in a field that Verus does not see: `Agent` holds a
/// mailbox and `CageMessage` holds agents, and Verus refuses a declared
/// `Sender<CageMessage>` in that cycle.
#[verifier::external_body]
pub struct Mailbox {
    tx: std::sync::mpsc::Sender<CageMessage>,
}

impl Mailbox {
    /// Relies on `std::sync::mpsc::Sender::send`: when the receiving side is
    /// gone, the message is handed back unsent in the error.
    #[verifier::external_body]
    fn post(&self, msg: CageMessage) -> (r: Result<(), CageMessage>)
        ensures
            r matches Err(back) ==> back == msg,
    {
        self.tx.send(msg).map_err(|e| e.0)
    }

    /// Relies on `Sender::clone`: another handle to the same queue.
    #[verifier::external_body]
    fn duplicate(&self) -> Mailbox {
        Mailbox { tx: self.tx.clone() }
    }
}

impl Mailbox {
    /// A new, empty mailbox, and its receiving side.
    pub fn open() -> (r: (Mailbox, std::sync::mpsc::Receiver<CageMessage>)) {
        channel()
    }
}

/// Relies on `std::sync::mpsc::channel`: a new, empty queue with one sending
/// and one receiving side.
#[verifier::external_body]
fn channel() -> (Mailbox, std::sync::mpsc::Receiver<CageMessage>) {
    let (tx, rx) = std::sync::mpsc::channel();
    (Mailbox { tx }, rx)
}

/// Relies on `std::sync::mpsc::Receiver::recv`: blocks until a message
/// arrives, and fails once the queue is empty and every sender is gone.
#[verifier::external_body]
fn receive_one(inbox: &std::sync::mpsc::Receiver<CageMessage>) -> Option<CageMessage> {
    inbox.recv().ok()
}

/// The value a request resolves to, given the reply it got: the payload of a
/// user message, the error payload of a failure, and nothing otherwise.
pub open spec fn reply_payload(reply: Option<Letter>) -> Option<Payload> {
    match reply {
        Some(Letter::UserMessage(p, _)) => Some(p),
        Some(Letter::Failure(e, _)) => Some(e),
        _ => None,
    }
}

/// What a request resolves to, given the reply it got, if any.
pub fn reply_value(reply: Option<CageMessage>) -> (r: Option<Payload>)
    ensures
        r == reply_payload(
            match reply {
                Some(m) => Some(m@),
                None => None,
            },
        ),
{
    match reply {
        Some(CageMessage::UserMessage(p, _)) => Some(p),
        Some(CageMessage::Failure(e, _)) => Some(e),
        _ => None,
    }
}

/// The pending answer to `Agent::request`.
pub struct Reply {
    inbox: std::sync::mpsc::Receiver<CageMessage>,
}

impl Reply {
    /// Waits for the one reply to the request. Resolves to nothing when the
    /// reply is neither a user message nor a failure, or when none can come.
    pub fn wait(self) -> (r: Option<Payload>) {
        reply_value(receive_one(&self.inbox))
    }
}

/// How many characters a generated actor name has.
pub const NAME_LENGTH: usize = 20;

/// The characters a generated actor name is made of.
pub const NAME_CHARS: &'static str = "abcdefghijklmnopqrstuvwxyzABCDEFGHIJKLMNOPQRSTUVWXYZ0123456789";

/// An actor name built from `draws`, one number per character: the `i`-th
/// character is the one of `NAME_CHARS` at `draws[i]` modulo their count.
/// Given uniformly random draws, the name is a random alphanumeric string.
pub fn random_name(draws: &Vec<u64>) -> (r: String)
    requires
        draws@.len() == NAME_LENGTH,
    ensures
        r@.len() == NAME_LENGTH,
        forall|i: int| 0 <= i < NAME_LENGTH ==> r@[i] == NAME_CHARS@[(draws@[i] % 62) as int],
{
    proof {
        reveal_strlit("abcdefghijklmnopqrstuvwxyzABCDEFGHIJKLMNOPQRSTUVWXYZ0123456789");
    }
    assert(NAME_CHARS@.len() == 62);
    let mut name = String::new();
    let mut i: usize = 0;
    while i < NAME_LENGTH
        invariant
            i <= NAME_LENGTH,
            draws@.len() == NAME_LENGTH,
            NAME_CHARS@.len() == 62,
            name@.len() == i,
            forall|j: int| 0 <= j < i ==> name@[j] == NAME_CHARS@[(draws@[j] % 62) as int],
        decreases NAME_LENGTH - i,
    {
        let k = (draws[i] % 62) as usize;
        let c = NAME_CHARS.substring_char(k, k + 1);
        name = name.concat(c);
        i = i + 1;
    }
    name
}

/// What identifies an agent: its path, and its name within its parent.
pub struct AgentId {
    pub path: Seq<char>,
    pub name: Seq<char>,
}

/// A handle to an actor's mailbox. Two agents denote the same actor exactly
/// when their paths are equal.
pub struct Agent {
    inbox: Mailbox,
    path: String,
    name: String,
}

impl View for Agent {
    type V = AgentId;

    closed spec fn view(&self) -> AgentId {
        AgentId { path: self.path@, name: self.name@ }
    }
}

impl Agent {
    /// An agent named `name` under the directory `dir`: its path is `dir`
    /// followed by `name`.
    pub fn new(sender: Mailbox, dir: String, name: String) -> (r: Agent)
        ensures
            r@.path == dir@ + name@,
            r@.name == name@,
    {
        let path = dir.concat(name.as_str());
        Agent { inbox: sender, path, name }
    }

    /// A new mailbox, with an agent for it as `new` builds one, and the
    /// receiving side of the mailbox.
    pub fn open(dir: String, name: String) -> (r: (Agent, std::sync::mpsc::Receiver<CageMessage>))
        ensures
            r.0@.path == dir@ + name@,
            r.0@.name == name@,
    {
        let (sender, receiver) = Mailbox::open();
        (Agent::new(sender, dir, name), receiver)
    }

    pub fn path(&self) -> (r: String)
        ensures
            r@ == self@.path,
    {
        self.path.clone()
    }

    pub fn name(&self) -> (r: String)
        ensures
            r@ == self@.name,
    {
        self.name.clone()
    }

    /// Another handle to the same mailbox.
    pub fn copy(&self) -> (r: Agent)
        ensures
            r@ == self@,
    {
        Agent { inbox: self.inbox.duplicate(), path: self.path.clone(), name: self.name.clone() }
    }

    /// Whether `self` and `other` denote the same actor.
    pub fn same(&self, other: &Agent) -> (r: bool)
        ensures
            r == (self@.path == other@.path),
    {
        self.path == other.path
    }

    /// The notice owed to a sender when `rejected` could not be put in this
    /// agent's mailbox.
    pub fn compensation(&self, rejected: CageMessage) -> (r: Option<Delivery>)
        ensures
            match r {
                Some(d) => notice(self@, rejected@) == Some(d@),
                None => notice(self@, rejected@) is None,
            },
    {
        match rejected {
            CageMessage::UserMessage(orig, sender) => Some(
                Delivery { to: sender, msg: CageMessage::Undelivered(self.copy(), orig) },
            ),
            CageMessage::Find(_, orig, sender) => Some(
                Delivery { to: sender, msg: CageMessage::Undelivered(self.copy(), orig) },
            ),
            CageMessage::Watch(watcher) => Some(
                Delivery { to: watcher, msg: CageMessage::Terminated(self.copy()) },
            ),
            _ => None,
        }
    }

    /// Sends `msg` to this agent from outside any actor: the sender is an
    /// anonymous agent, with an empty path, whose mailbox awaits the reply.
    pub fn request(&self, msg: Payload) -> Reply {
        let (anonymous, inbox) = Agent::open(String::new(), String::new());
        self.deliver(CageMessage::UserMessage(msg, anonymous));
        Reply { inbox }
    }

    /// Puts `msg` in this agent's mailbox without blocking. When the mailbox is
    /// closed, the notice that `compensation` gives is delivered instead; the
    /// caller never sees a failure.
    pub fn deliver(&self, msg: CageMessage)
        decreases
            if owes_notice(msg@) {
                1nat
            } else {
                0nat
            },
    {
        match self.inbox.post(msg) {
            Ok(()) => {},
            Err(back) => {
                if let Some(d) = self.compensation(back) {
                    d.to.deliver(d.msg);
                }
            },
        }
    }
}

/// Delivers each of `ds`, in order.
pub fn deliver_all(ds: Vec<Delivery>) {
    let mut rest = ds;
    while rest.len() > 0
        decreases rest@.len(),
    {
        let d = rest.remove(0);
        d.to.deliver(d.msg);
    }
}

impl Clone for Agent {
    fn clone(&self) -> Agent {
        self.copy()
    }
}

impl PartialEq for Agent {
    fn eq(&self, other: &Agent) -> (r: bool) {
        self.same(other)
    }
}

impl vstd::std_specs::cmp::PartialEqSpecImpl for Agent {
    open spec fn obeys_eq_spec() -> bool {
        true
    }

    open spec fn eq_spec(&self, other: &Agent) -> bool {
        self@.path == other@.path
    }
}

impl Eq for Agent {

}

} // verus!
