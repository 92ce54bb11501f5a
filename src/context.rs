//! Execution contexts, their registry and the two scheduling policies.
pub mod arch;
pub mod context;
pub mod context_list;
pub mod mpsc;
pub mod scheduler;
pub mod switch;
pub mod thread;
