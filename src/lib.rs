//! Cycle-level simulator for AYU, a 16-bit word-addressed processor with
//! sixteen registers and 65,536 words of unified memory.
//!
//! The engine steps a micro-architectural state machine one clock at a time;
//! every clock applies the control signals of the current state to the
//! datapath (ALU, register file, memory ports and pipeline latches).

pub mod alu;
pub mod instructions;
pub mod laws;
pub mod processor;
pub mod statemachine;
pub mod types;
