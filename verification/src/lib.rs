//! A single-connection-at-a-time session server, modelled and verified.
//!
//! The server fans local and remote input into one ordered stream and echoes
//! a fixed acknowledgment back to the connected peer.  The verified library
//! holds the message pipeline itself: the two bounded channels, the decisions
//! the reader, router and writer make on each event, and the session
//! lifecycle that hands the channel endpoints from one connection to the
//! next.  The sockets, the standard input and the task runtime live outside
//! the library and feed it plain events.

pub mod queue;
pub mod codec;
pub mod server;
