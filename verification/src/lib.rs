//! Decision logic of a poll-mode packet forwarder between two network ports.
//!
//! The library holds everything the forwarder decides: the order of the
//! driver calls that bring a port up and tear it down, the four steps of a
//! forwarding round and what they do to the per-port counters, and the
//! two-state shutdown protocol. The driver calls themselves are made by the
//! program around the library, which reports each outcome back as a plain
//! value.

pub mod forwarder;
pub mod lifecycle;
pub mod session;
pub mod shutdown;
pub mod stats;
