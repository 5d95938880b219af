//! An in-process mock HTTP server for testing HTTP clients.
//!
//! The library is organised around three ideas:
//! * composable matchers that decide whether a request satisfies an
//!   expectation,
//! * expectations that pair a matcher with a cardinality contract and a
//!   responder, and
//! * a registry that dispatches each incoming request to the first matching
//!   expectation (most recently added first) and verifies all cardinality
//!   contracts at teardown.
//!
//! The network listener that feeds requests into the registry is not part of
//! this crate's verified core; it hands in fully buffered requests and sends
//! back the responses the registry decides on.

pub mod http_types;
pub mod input;
pub mod json;
pub mod mappers;
pub mod matchers;
pub mod responders;
pub mod server;
pub mod times;
pub mod urlenc;

pub use server::{Expectation, ExpectationBuilder, ServerState};
pub use times::IntoTimes;
