//! Core logic of a low-interaction TCP honeypot's reporting pipeline.
//!
//! The library holds the decision and data logic: classifying remote
//! addresses, composing report comments, the time-windowed report cache
//! with single-flight collapsing, the shared rate-limit state for the
//! webhook sink, and the webhook retry state machine. Network I/O, the
//! accept loop and logging live outside the library and hand it plain
//! values.

pub mod abusedb;
pub mod addr;
pub mod cache;
pub mod comment;
pub mod dispatch;
pub mod ratelimit;
pub mod settings;
pub mod textnum;
pub mod webhook;

pub use addr::IpAddress;
