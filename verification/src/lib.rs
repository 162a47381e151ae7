//! Decoder for the BRSAR sound-archive container and the Patricia trie
//! name index embedded in its SYMB block.
//!
//! The format is a graph of absolute and relative 32-bit pointers over a
//! byte buffer.  Every decoder here takes the buffer, a position and the
//! origin that in-file offsets are measured against, and its contract
//! states the decoded value exactly, byte by byte, together with the
//! error returned for every rejected input.

pub mod brsar;
pub mod byte_order;
pub mod bytes;
pub mod common;
pub mod error;
pub mod file_block;
pub mod info;
pub mod patricia;
pub mod symbol;
