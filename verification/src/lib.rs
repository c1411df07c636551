//! A verified core for a transparent process supervisor: it relays bytes
//! between an operator and a supervised child program while recording a
//! byte-exact, line-oriented transcript of everything exchanged.
//!
//! This crate holds the pure, verified logic: line encoding (printable text
//! or hex fallback), the per-direction relay state machine that segments a
//! byte stream into transcript lines, the lifecycle marker lines, and the
//! environment allow-list applied when spawning the child. The surrounding
//! process, thread and file plumbing lives outside the library.

pub mod clock;
pub mod encoder;
pub mod envfilter;
pub mod hexfmt;
pub mod marker;
pub mod relay;
pub mod transcript;
pub mod utf8;
