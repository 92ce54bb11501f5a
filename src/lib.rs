//! Hydroxide: the multitasking core of a small x86-64 kernel, with the
//! decoding and encoding parts of its device drivers.
//!
//! Two scheduling policies are provided. The per-CPU queue policy
//! (`arch::cpu::Local`, `context::scheduler`) keeps threads in an arena
//! owned by the CPU, addressed by index; the run queue holds indices, and
//! an idle thread that is never queued guarantees progress. The
//! registry-scan policy (`context::context_list`) gives contexts unique
//! identities below a ceiling and round-robins over them by identity.
//!
//! Saved stack and frame pointers are offsets into the owning context's
//! stack buffer; the machine registers a switch reads and writes are
//! passed in as values. The instructions that move them, port I/O and
//! memory-mapped registers belong to the kernel binary.
pub mod ansi;
pub mod arch;
pub mod bga;
pub mod cmos;
pub mod context;
pub mod hal;
pub mod heap;
pub mod keyboard;
pub mod pci;
pub mod ps2kbd;
pub mod serial;
pub mod vgaterm;
