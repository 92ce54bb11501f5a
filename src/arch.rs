//! Architecture-level pieces: the register set saved at a cooperative
//! switch, and the per-CPU state that owns a scheduler.
pub mod context;
pub mod cpu;
