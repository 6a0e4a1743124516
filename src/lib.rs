//! Discovery and classification of network-attached devices.
//!
//! The library holds the verified core of a subnet scanner: expanding a
//! wildcard address pattern, classifying HTTP response bodies against an
//! ordered fingerprint table, deciding what each probing worker reports, and
//! the consumer state machines that render progress and persist results.
pub mod args;
pub mod devices;
pub mod elements;
pub mod scanner;
pub mod text;
pub mod threads;
pub mod util;
