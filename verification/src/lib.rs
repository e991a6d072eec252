//! Arithmetization of a virtual machine's memory accesses: the base-field
//! trace table, its derivation from the processor trace, padding to a
//! power-of-two height, the transition/boundary/terminal constraints of the
//! memory table, and the extension-field lift with its running
//! permutation-product column.

pub mod challenges;
pub mod field;
pub mod laws;
pub mod memory_table;
pub mod register;
pub mod table;
pub mod xfield;
