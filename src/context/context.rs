use vstd::prelude::*;

use super::arch;
use super::arch::{zeroed_snapshot, CPUSnapshot};
use crate::arch::context::word_written;

verus! {

/// Lifecycle of a context in the registry-scan model.
#[derive(Debug, Copy, Clone, PartialEq, Eq, Structural)]
pub enum Status {
    Runnable,
    Blocked,
    Stopped(usize),
}

/// An execution context owned by the registry: saved state, an owned
/// stack, the address of the function it runs, its status, whether it is
/// executing now, and its identity.
pub struct Context {
    pub ctx: arch::Context,
    pub stack: Vec<u8>,
    pub func: u64,
    pub status: Status,
    pub running: bool,
    pub id: usize,
}

impl Context {
    /// A blocked context with a zeroed stack of `stack_size` bytes whose
    /// first resumption enters `trampoline`, which then runs `func`.
    pub fn new(id: usize, stack_size: usize, trampoline: u64, func: u64) -> (r: Context)
        requires
            8 <= stack_size,
        ensures
            r.id == id,
            r.func == func,
            r.status == Status::Blocked,
            !r.running,
            r.stack@.len() == stack_size,
            r.ctx.rip == 0 && r.ctx.rflags == 0,
            r.ctx.snapshot == (CPUSnapshot { rsp: (stack_size - 8) as u64, ..zeroed_snapshot() }),
            word_written(Seq::new(stack_size as nat, |i: int| 0u8), r.stack@, stack_size - 8, trampoline),
    {
        let mut stack: Vec<u8> = vec![0u8; stack_size];
        proof {
            assert(stack@ =~= Seq::new(stack_size as nat, |i: int| 0u8));
        }
        let mut ctx = arch::Context::new(CPUSnapshot::zeroed());
        ctx.set_stack(stack_size as u64);
        ctx.push_stack(&mut stack, trampoline);
        Context { ctx, stack, func, status: Status::Blocked, running: false, id }
    }

    /// Suspends a runnable context.
    pub fn block(&mut self) -> (r: bool)
        ensures
            r == (old(self).status == Status::Runnable),
            r ==> *final(self) == (Context { status: Status::Blocked, ..*old(self) }),
            !r ==> *final(self) == *old(self),
    {
        if self.status == Status::Runnable {
            self.status = Status::Blocked;
            true
        } else {
            false
        }
    }

    /// Makes a blocked context runnable.
    pub fn unblock(&mut self) -> (r: bool)
        ensures
            r == (old(self).status == Status::Blocked),
            r ==> *final(self) == (Context { status: Status::Runnable, ..*old(self) }),
            !r ==> *final(self) == *old(self),
    {
        if self.status == Status::Blocked {
            self.status = Status::Runnable;
            true
        } else {
            false
        }
    }
}

} // verus!
