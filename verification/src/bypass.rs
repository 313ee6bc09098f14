//! Symbolic bypass: reconstructs the expression tree of the operations a
//! polling loop performs on an unmodeled peripheral register, detects the
//! loop, and drives an external constraint solver to fabricate a register
//! value that lets the firmware proceed.

pub mod dummy_peripheral;
pub mod expr;
pub mod solver;
