//! The core of a debugger for elfcode, a machine of sixteen opcodes and six
//! registers, one of which holds the instruction pointer.
//!
//! - [`op_code`], [`instruction`], [`registers`] and [`device`] are the
//!   machine: what each opcode computes, how a program is read, and what one
//!   step does.
//! - [`hook`] and [`parser`] are the breakpoints: predicates over the state of
//!   the machine, and the language in which the user writes them.
//! - [`tui`] is the debugger session: what each key and each command does, and
//!   what the screen shows.
//! - [`round_trip`] proves that a hook that is written out is read back as the
//!   same hook.
//!
//! Every executable function states in its contract what it returns and
//! changes, over the mathematical views that the modules define.
use vstd::prelude::*;

pub mod device;
pub mod error;
pub mod events;
pub mod hook;
pub mod instruction;
pub mod op_code;
pub mod parser;
pub mod registers;
pub mod round_trip;
pub mod sets;
pub mod text;
pub mod tui;
pub mod visuals;

verus! {

/// The type of a register cell.
pub type Reg = i64;

/// Values that can name a register.
pub trait AsReg: Sized {
    /// The register index that the value names.
    spec fn as_reg_spec(self) -> usize;

    /// Converts the value into a register index.
    fn as_reg(self) -> (r: usize)
        ensures
            r == self.as_reg_spec(),
    ;
}

impl AsReg for usize {
    open spec fn as_reg_spec(self) -> usize {
        self
    }

    fn as_reg(self) -> (r: usize) {
        self
    }
}

impl AsReg for i32 {
    open spec fn as_reg_spec(self) -> usize {
        self as usize
    }

    fn as_reg(self) -> (r: usize) {
        #[verifier::truncate]
        (self as usize)
    }
}

impl AsReg for i64 {
    open spec fn as_reg_spec(self) -> usize {
        self as usize
    }

    fn as_reg(self) -> (r: usize) {
        #[verifier::truncate]
        (self as usize)
    }
}

} // verus!
