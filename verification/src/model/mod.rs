//! The typed model of headers and frames.
pub mod frames;
pub mod grammar;
pub mod headers;
