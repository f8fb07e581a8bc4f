//! A verified core for a bidirectional TCP byte-stream relay.
//!
//! The library covers the logic of the relay that can be checked ahead of
//! time: endpoint resolution (turning host, port and IP-version preferences
//! into a bindable or dialable endpoint), the cancellation-scope discipline,
//! the broadcast bus that fans standard input out to every session, and the
//! state machines that drive the connect and listen modes.  The asynchronous
//! runtime, sockets and standard streams live outside the library and are
//! driven by the decisions made here.

pub mod addr;
pub mod bus;
pub mod cli;
pub mod parse;
pub mod relay;
pub mod resolve;
pub mod scope;
pub mod text;
