//! The per-connection session loop of a directory-protocol server, as a
//! verified state machine.
//!
//! A connection reads framed messages, hands each operation to a handler,
//! writes the handler's responses tagged with the request's correlation
//! identifier, and flushes after each batch. `SessionLoop` makes every
//! decision of that loop; the driver around it performs the I/O that each
//! `Action` asks for and reports the outcome back as an `Event`.
use vstd::prelude::*;

pub mod message;
pub mod session;
pub mod laws;

pub use message::{Message, Phase, Reply, SessionError};
pub use session::{Action, Event, SessionLoop};
