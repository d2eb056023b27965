//! Payloads carried by messages: a closed set of runtime-tagged values, and
//! the `Message` capability that lets a concrete type travel as one.
use vstd::prelude::*;

verus! {

/// What an application-level error reported by the root supervisor holds.
pub struct StageError {
    pub err: String,
}

impl StageError {
    pub fn new(err: &str) -> (r: StageError)
        ensures
            r.err@ == err@,
    {
        StageError { err: err.to_string() }
    }

    pub fn copy(&self) -> (r: StageError)
        ensures
            r == *self,
    {
        StageError { err: self.err.clone() }
    }
}

/// A dynamically typed message payload. Its variant is the runtime type tag;
/// `Message::from_payload` is the checked downcast.
pub enum Payload {
    Unit,
    Bool(bool),
    Int(i64),
    Text(String),
    Stage(StageError),
}

impl Payload {
    /// An independent copy: nothing is shared with `self`.
    pub fn copy(&self) -> (r: Payload)
        ensures
            r == *self,
    {
        match self {
            Payload::Unit => Payload::Unit,
            Payload::Bool(b) => Payload::Bool(*b),
            Payload::Int(i) => Payload::Int(*i),
            Payload::Text(s) => Payload::Text(s.clone()),
            Payload::Stage(e) => Payload::Stage(e.copy()),
        }
    }

    /// Whether this payload holds a value of the concrete type `T`.
    pub fn is<T: Message>(&self) -> (r: bool)
        ensures
            r == (exists|v: T| v.packed() == *self),
    {
        let r = T::from_payload(self);
        r.is_some()
    }
}

/// A type whose values can travel as a payload, and be recovered from one.
pub trait Message: Sized {
    /// The payload that carries this value.
    spec fn packed(&self) -> Payload;

    fn into_payload(self) -> (p: Payload)
        ensures
            p == self.packed(),
    ;

    /// The checked downcast: `Some` exactly when `p` carries a value of this type.
    fn from_payload(p: &Payload) -> (r: Option<Self>)
        ensures
            r matches Some(v) ==> v.packed() == *p,
            r is None ==> forall|v: Self| v.packed() != *p,
    ;
}

impl Message for bool {
    open spec fn packed(&self) -> Payload {
        Payload::Bool(*self)
    }

    fn into_payload(self) -> (p: Payload) {
        Payload::Bool(self)
    }

    fn from_payload(p: &Payload) -> (r: Option<bool>) {
        match p {
            Payload::Bool(b) => Some(*b),
            _ => None,
        }
    }
}

impl Message for i64 {
    open spec fn packed(&self) -> Payload {
        Payload::Int(*self)
    }

    fn into_payload(self) -> (p: Payload) {
        Payload::Int(self)
    }

    fn from_payload(p: &Payload) -> (r: Option<i64>) {
        match p {
            Payload::Int(i) => Some(*i),
            _ => None,
        }
    }
}

impl Message for String {
    open spec fn packed(&self) -> Payload {
        Payload::Text(*self)
    }

    fn into_payload(self) -> (p: Payload) {
        Payload::Text(self)
    }

    fn from_payload(p: &Payload) -> (r: Option<String>) {
        match p {
            Payload::Text(s) => Some(s.clone()),
            _ => None,
        }
    }
}

impl Message for StageError {
    open spec fn packed(&self) -> Payload {
        Payload::Stage(*self)
    }

    fn into_payload(self) -> (p: Payload) {
        Payload::Stage(self)
    }

    fn from_payload(p: &Payload) -> (r: Option<StageError>) {
        match p {
            Payload::Stage(e) => Some(e.copy()),
            _ => None,
        }
    }
}

} // verus!
