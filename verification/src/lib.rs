//! Turns the bursty stream of live-chat poll responses into a steady,
//! evenly paced stream of chat comments.
//!
//! The crate holds the decision logic only: which responses matter and how
//! long to keep polling for their bodies, how a response body is read into
//! comments, how the polling period is estimated, and how a batch is spread
//! over that period. Driving a browser, sleeping and drawing are left to the
//! caller, which performs the actions these types ask for.

pub mod comment;
pub mod config;
pub mod correlator;
pub mod json;
pub mod listener;
pub mod pacer;
pub mod parser;
pub mod rate;
pub mod sequence;
pub mod text;
