//! A word-boundary content filter.
//!
//! One regular expression is assembled from a list of prefix fragments and a
//! list of suffix fragments; a text is then split on whitespace, each token is
//! lower-cased and tested against the compiled expression, and the first token
//! that matches is reported together with its capture groups.

pub mod engine;
pub mod matcher;
pub mod pattern;
pub mod report;
pub mod tokens;
