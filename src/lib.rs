//! A record store for reviews kept at program-derived addresses: an
//! instruction codec, a record codec, address derivation and the processor
//! that checks every precondition before it writes a record.

pub mod error;
pub mod wire;
pub mod instruction;
pub mod state;
pub mod address;
pub mod processor;

pub use processor::{add_review, process_instruction, update_review};
