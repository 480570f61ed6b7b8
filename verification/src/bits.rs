//! Bit-level access to an in-memory buffer.

pub mod bitstream;
