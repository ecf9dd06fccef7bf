//! Poll lifecycle and vote integrity engine.
//!
//! A single operator publishes polls with at least two options and a
//! deadline; independent clients each cast at most one vote per poll, and
//! results are tallied per option. The store keeps every rule the system
//! depends on: well-formed polls, at most one vote per `(poll, voter)`
//! pair, expiry enforced at submission time, and a tally aligned
//! one-to-one with the poll's options. Each operation's contract equates
//! its outcome with a transition of a mathematical store model, and the
//! global guarantees are proved once over those transitions.

pub mod clock;
pub mod laws;
pub mod model;
pub mod prices;
pub mod store;
pub mod tally;
