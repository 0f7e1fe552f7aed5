//! Verified core of the nesquic measurement tools.
//!
//! * `latency` — the three-pass scan over client and server qlog records that
//!   picks the two client events whose time difference is the handshake latency.
//! * `latency_laws` — what a measured span means, and when one is owed.
//! * `qlog_file` — from the bytes of the two qlog files (parsed by qlog's
//!   reader) to the span and the time bits of its two client events.
//! * `metrics` — the qlog file pattern and the line-protocol record.
//! * `client` — the decisions of the neqo perf client: handshake events, the
//!   request stream, the response transfer, and the shutdown drain.
//! * `drive` — the state machine that drives a poll-based QUIC connection.
pub mod client;
pub mod drive;
pub mod latency;
pub mod latency_laws;
pub mod metrics;
pub mod qlog_file;
