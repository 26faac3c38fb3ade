//! Sequential file-read throughput measurement: byte streams are interpreted
//! as consecutive 8-byte little-endian unsigned words and folded into a
//! wraparound 64-bit accumulator, the stream's signature.

pub mod args;
pub mod errors;
pub mod fold;
pub mod reader;
