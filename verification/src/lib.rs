//! AES67 packet capture library.
//!
//! Decodes RTP datagrams, runs the capture state machine that filters,
//! decodes and numbers incoming datagrams, and models the two sinks
//! (persistent store and raw payload redirection).

pub mod capture;
pub mod model;
pub mod rtp;
pub mod sink;
pub mod workers;
