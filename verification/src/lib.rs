//! A Rust implementation of the Laboratory Control Protocol (LECO):
//! wire codecs for the control and data protocols, a JSON-RPC envelope
//! codec, and the Coordinator routing core.

use vstd::prelude::*;

pub mod base;
pub mod control_protocol;
pub mod data_protocol;
pub mod directory;
pub mod coordinator;
pub mod json;

verus! {

/// LECO protocol version carried in the first frame of every control message.
pub const VERSION: u8 = 0;

} // verus!
