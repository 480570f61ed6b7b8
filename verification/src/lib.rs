//! Parsing of AV1 elementary bitstreams: bit-level reading, OBU headers,
//! sequence and frame headers, and the length-prefixed framing around them.

pub mod bits;
pub mod error;
pub mod obu;
pub mod state;
pub mod parser;
