//! Decoder and statistics for the append-only operation log of a clipboard
//! history: a byte stream of one-byte opcodes, NUL-terminated texts and
//! little-endian 32-bit item ids.

pub mod decode;
pub mod entries;
pub mod format;
pub mod laws;
pub mod order;
pub mod pass;
pub mod record;
pub mod report;
pub mod stats;
pub mod synth;
