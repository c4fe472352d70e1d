//! Forwarding of byte streams between the local machine, containers and pods.
//!
//! The crate holds the decisions of the forwarder: the frame format of the
//! stream multiplexer, the table of logical streams, the per-stream pumps, the
//! coupling of the two directions of a forwarded connection, the commands that
//! are run at the far end, and the grammar of endpoint strings. Every function
//! carries a contract over a mathematical model of its data. Sockets, pipes and
//! tasks live outside the crate and drive these functions with plain values.

pub mod cli;
pub mod endpoint;
pub mod mux;
pub mod text;
