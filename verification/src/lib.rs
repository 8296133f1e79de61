//! Verified core of a memory-reading radar for CS2: offset-table parsing,
//! the pointer-chasing scan of the game's entity list as a state machine,
//! and the STOMP framing spoken to browser clients.

pub mod bytes;
pub mod text;
pub mod hex;
pub mod offsets;
pub mod stomp;
pub mod scan;
pub mod snapshot;
pub mod verbosity;
