//! A codec for the frames of the STOMP messaging protocol.
//!
//! A frame is a command line, a section of `name:value` header lines that a
//! blank line ends, an optional body and a closing zero octet. This crate
//! turns a buffer of bytes into a typed frame and a typed frame back into
//! bytes. Both directions are stated over mathematical models of the wire
//! format and of the frames, and proved against them.
pub mod error;
pub mod model;
pub mod parser;
pub mod text;

pub use model::frames::client;
pub use model::frames::server;
pub use model::headers;
