//! Stack unwinding with DWARF call frame information.
//!
//! The unwind rules of one frame (how to compute the canonical frame
//! address, and where each register of the caller is saved) are handed in
//! as an [`UnwindRow`]; from them the caller's registers are restored.

pub mod unwinder;

pub use unwinder::{calculate_cfa, read_stack_u64, restore_registers, UserRegisters};

use vstd::prelude::*;

verus! {

/// Name of the section that holds the call frame information.
pub const EH_FRAME_NAME: &'static str = ".eh_frame";

/// Name of the section that indexes the call frame information.
pub const EH_FRAME_HDR_NAME: &'static str = ".eh_frame_hdr";

/// Name of the code section.
pub const TEXT_NAME: &'static str = ".text";

/// Name of the global offset table section.
pub const GOT_NAME: &'static str = ".got";

} // verus!
