//! A slash-command interaction context layer: contexts wrapping an HTTP
//! client, and a registry of predicate-based waiters that lets a command
//! handler wait for the first future interaction event matching a predicate.

pub mod context;
pub mod event;
pub mod parse;
pub mod predicate;
pub mod registry;
