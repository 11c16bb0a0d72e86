//! A single-threaded cooperative I/O runtime core.
//!
//! The crate verifies the safety-critical heart of a reactor/executor pair:
//! an arena that owns all live tasks and outstanding wake capabilities
//! ([`LeakStorage`]), and the reactor state machine that turns oneshot
//! readiness events into task resumptions. Actual sockets, the OS readiness
//! multiplexer and the polling of user futures live outside this crate; they
//! drive the verified core through plain values.

pub mod adapters;
pub mod laws;
pub mod leak_storage;
pub mod reactor;

pub use crate::leak_storage::Key;
pub use crate::leak_storage::LeakStorage;
pub use crate::leak_storage::StorageModel;
pub use crate::reactor::Reactor;
