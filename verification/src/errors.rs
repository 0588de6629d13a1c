//! Failure values surfaced to the host driver.
//!
//! The reference instruction set leaves out-of-range addressing and call-stack
//! overflow or underflow undefined. This machine makes both an explicit,
//! deterministic fault: the offending `step` fails with a [`Fault`] and leaves
//! the whole machine unchanged. A program too large to load is rejected before
//! the machine is constructed with a [`LoadError`].

use vstd::prelude::*;

verus! {

/// A program image that cannot be loaded.
#[derive(Clone, Copy, Debug, PartialEq, Eq, Structural)]
pub enum LoadError {
    /// The program is longer than the memory capacity minus the load offset.
    ProgramTooLong,
}

/// A runtime fault of the instruction stream.
///
/// A fault is fatal to the instruction stream, not to the host: the step that
/// raises it changes nothing, and the host may stop calling `step`.
#[derive(Clone, Copy, Debug, PartialEq, Eq, Structural)]
pub enum Fault {
    /// A memory access (instruction fetch, sprite read, BCD or register
    /// spill/fill) lies outside the 4096-byte address space.
    AddressOutOfRange,
    /// A call was executed with the 16-entry stack already full.
    StackOverflow,
    /// A return was executed with the stack empty.
    StackUnderflow,
}

} // verus!
