//! Typed access to the memory of a process: little-endian codecs, allocation
//! handles as plain machine words, and the decision logic of pointer-chain
//! walks and chunked writes.

pub mod le;
pub mod allocation;
pub mod chain;
pub mod buffered;
