//! An actor runtime: isolated actors exchanging messages through mailboxes,
//! arranged in a supervision tree with path-based routing and death watch.
pub mod actor;
pub mod agent;
pub mod context;
pub mod laws;
pub mod message;
pub mod path;
pub mod payload;
pub mod stage;
