//! A local message relay: clients connect over a stream socket and exchange
//! opaque byte messages with every other connected client, excluding
//! themselves. This crate holds the verified core: the message type and its
//! size bound, the client registry, the per-connection session state
//! machine, and a verified model of the fan-out bus — per-subscriber bounded
//! backlogs with lag detection — stating the broadcast-channel contract the
//! session logic assumes. The surrounding process (socket handling, task
//! spawning, signal handling) drives the registry and the sessions, performs
//! the I/O they decide on, and runs the real broadcast channel to that
//! contract; the tests exercise the model in its place.

pub mod bus;
pub mod message;
pub mod registry;
pub mod session;
