//! The fixed-size extension-field tuples shared across all tables of the
//! proof system: the verifier's challenges, and the initial and terminal
//! values of the two permutation arguments. Raw positional tuples are turned
//! into named structures once, at the system boundary.

use vstd::prelude::*;
use crate::xfield::Xfe;

verus! {

/// Number of extension challenges shared across the whole proof system.
pub const EXTENSION_CHALLENGE_COUNT: usize = 11;

/// Number of permutation arguments gluing tables together.
pub const PERMUTATION_ARGUMENTS_COUNT: usize = 2;

/// Number of terminal values shared across tables.
pub const TERMINAL_COUNT: usize = 2;

/// The verifier's challenges, one named field per semantically distinct
/// position of the shared tuple. The memory table reads only `d`, `e`, `f`
/// and `beta`.
#[derive(Clone, Copy, Debug)]
pub struct Challenges {
    pub a: Xfe,
    pub b: Xfe,
    pub c: Xfe,
    /// Weight of the cycle column in the memory permutation argument.
    pub d: Xfe,
    /// Weight of the memory-pointer column in the memory permutation
    /// argument.
    pub e: Xfe,
    /// Weight of the memory-value column in the memory permutation argument.
    pub f: Xfe,
    pub alpha: Xfe,
    /// The memory permutation argument's own challenge.
    pub beta: Xfe,
    pub gamma: Xfe,
    pub delta: Xfe,
    pub eta: Xfe,
}

impl Challenges {
    /// Names the positions of the raw challenge tuple.
    pub fn new(raw: [Xfe; 11]) -> (r: Self)
        ensures
            r.a == raw@[0] && r.b == raw@[1] && r.c == raw@[2] && r.d == raw@[3],
            r.e == raw@[4] && r.f == raw@[5] && r.alpha == raw@[6] && r.beta == raw@[7],
            r.gamma == raw@[8] && r.delta == raw@[9] && r.eta == raw@[10],
    {
        Challenges {
            a: raw[0],
            b: raw[1],
            c: raw[2],
            d: raw[3],
            e: raw[4],
            f: raw[5],
            alpha: raw[6],
            beta: raw[7],
            gamma: raw[8],
            delta: raw[9],
            eta: raw[10],
        }
    }
}

/// The seed values the permutation arguments start from, one per argument.
#[derive(Clone, Copy, Debug)]
pub struct Initials {
    /// Seed of the processor/instruction permutation argument.
    pub processor_instruction_permutation: Xfe,
    /// Seed of the processor/memory permutation argument, the one this
    /// table's running product starts from.
    pub processor_memory_permutation: Xfe,
}

impl Initials {
    /// Names the positions of the raw initials tuple.
    pub fn new(raw: [Xfe; 2]) -> (r: Self)
        ensures
            r.processor_instruction_permutation == raw@[0],
            r.processor_memory_permutation == raw@[1],
    {
        Initials {
            processor_instruction_permutation: raw[0],
            processor_memory_permutation: raw[1],
        }
    }
}

/// The values the permutation arguments must terminate at, one per argument.
#[derive(Clone, Copy, Debug)]
pub struct Terminals {
    /// Terminal of the processor/instruction permutation argument.
    pub processor_instruction_permutation: Xfe,
    /// Terminal of the processor/memory permutation argument, the one this
    /// table's terminal constraint compares against.
    pub processor_memory_permutation: Xfe,
}

impl Terminals {
    /// Names the positions of the raw terminals tuple.
    pub fn new(raw: [Xfe; 2]) -> (r: Self)
        ensures
            r.processor_instruction_permutation == raw@[0],
            r.processor_memory_permutation == raw@[1],
    {
        Terminals {
            processor_instruction_permutation: raw[0],
            processor_memory_permutation: raw[1],
        }
    }
}

} // verus!
