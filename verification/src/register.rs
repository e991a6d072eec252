//! One per-cycle snapshot of the virtual machine's registers, the input unit
//! of the memory-table derivation.

use vstd::prelude::*;
use crate::field::Bfe;

verus! {

/// A per-cycle register snapshot of the virtual machine.
#[derive(Clone, Copy, Debug, PartialEq, Eq, Structural)]
pub struct Register {
    /// The clock cycle the snapshot was taken at.
    pub cycle: Bfe,
    /// The memory cell the machine points at.
    pub memory_pointer: Bfe,
    /// The value of that memory cell.
    pub memory_value: Bfe,
    /// The instruction executed this cycle; zero only in padding rows, which
    /// the derivation refuses.
    pub current_instruction: Bfe,
}

impl Register {
    /// A snapshot with the given register values.
    pub fn new(cycle: Bfe, memory_pointer: Bfe, memory_value: Bfe, current_instruction: Bfe) -> (r:
        Self)
        ensures
            r.cycle == cycle,
            r.memory_pointer == memory_pointer,
            r.memory_value == memory_value,
            r.current_instruction == current_instruction,
    {
        Register { cycle, memory_pointer, memory_value, current_instruction }
    }
}

} // verus!
