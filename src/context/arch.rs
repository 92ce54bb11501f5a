use vstd::prelude::*;

use crate::arch::context::{word_written, write_word, INTERRUPT_FLAG};

verus! {

/// The flag bits the architecture defines; the others read as zero and
/// are dropped before flags are loaded.
pub const DEFINED_FLAGS: u64 = 0x3F_7FD5;

/// The general-purpose registers of an execution flow.
#[derive(Debug, Clone, Copy, PartialEq, Eq)]
pub struct CPUSnapshot {
    pub rax: u64,
    pub rbx: u64,
    pub rcx: u64,
    pub rdx: u64,
    pub rbp: u64,
    pub rsp: u64,
    pub rsi: u64,
    pub rdi: u64,
    pub r8: u64,
    pub r9: u64,
    pub r10: u64,
    pub r11: u64,
    pub r12: u64,
    pub r13: u64,
    pub r14: u64,
    pub r15: u64,
}

pub open spec fn zeroed_snapshot() -> CPUSnapshot {
    CPUSnapshot {
        rax: 0, rbx: 0, rcx: 0, rdx: 0, rbp: 0, rsp: 0, rsi: 0, rdi: 0,
        r8: 0, r9: 0, r10: 0, r11: 0, r12: 0, r13: 0, r14: 0, r15: 0,
    }
}

impl CPUSnapshot {
    /// A snapshot with every register zero.
    pub fn zeroed() -> (r: CPUSnapshot)
        ensures
            r == zeroed_snapshot(),
    {
        CPUSnapshot {
            rax: 0, rbx: 0, rcx: 0, rdx: 0, rbp: 0, rsp: 0, rsi: 0, rdi: 0,
            r8: 0, r9: 0, r10: 0, r11: 0, r12: 0, r13: 0, r14: 0, r15: 0,
        }
    }
}

/// The two fields of a trapped interrupt frame that a switch rewrites.
#[derive(Debug, Clone, Copy, PartialEq, Eq)]
pub struct InterruptFrame {
    pub instruction_pointer: u64,
    pub stack_pointer: u64,
}

/// The live machine registers a switch inside an interrupt handler
/// reads and writes directly.
#[derive(Debug, Clone, Copy, PartialEq, Eq)]
pub struct LiveRegisters {
    pub rsp: u64,
    pub rbp: u64,
    pub rflags: u64,
}

/// The flags a context resumes with: its own, or the outgoing flow's when
/// it has none yet, restricted to the defined bits and with interrupts
/// enabled.
pub open spec fn resume_flags(stored: u64, outgoing: u64) -> u64 {
    let f = if stored == 0 { outgoing } else { stored };
    (f & DEFINED_FLAGS) | INTERRUPT_FLAG
}

/// The saved state of a context of the registry-scan model.
#[derive(Debug, Clone, Copy, PartialEq, Eq)]
pub struct Context {
    pub rip: u64,
    pub rflags: u64,
    pub snapshot: CPUSnapshot,
}

impl Context {
    pub fn new(snapshot: CPUSnapshot) -> (r: Context)
        ensures
            r == (Context { rip: 0, rflags: 0, snapshot }),
    {
        Context { rflags: 0, rip: 0, snapshot }
    }

    /// Pushes one word onto the stack the saved stack pointer points into.
    pub fn push_stack(&mut self, stack: &mut Vec<u8>, value: u64)
        requires
            8 <= old(self).snapshot.rsp <= old(stack)@.len(),
        ensures
            *final(self) == (Context {
                snapshot: CPUSnapshot { rsp: (old(self).snapshot.rsp - 8) as u64, ..old(self).snapshot },
                ..*old(self)
            }),
            word_written(old(stack)@, final(stack)@, final(self).snapshot.rsp as int, value),
    {
        let n = stack.len();
        self.snapshot.rsp = self.snapshot.rsp - 8;
        assert(self.snapshot.rsp < n);
        write_word(stack, self.snapshot.rsp as usize, value);
    }

    pub fn set_stack(&mut self, address: u64)
        ensures
            *final(self) == (Context { snapshot: CPUSnapshot { rsp: address, ..old(self).snapshot }, ..*old(self) }),
    {
        self.snapshot.rsp = address;
    }

    /// Switches from inside an interrupt handler. The outgoing context
    /// saves the live stack and frame pointers, the flags, and the trapped
    /// instruction pointer, which is also pushed onto the incoming stack.
    /// The trapped frame is rewritten so that returning from the
    /// interrupt resumes the incoming context, whose frame pointer and
    /// flags are loaded with interrupts enabled.
    pub fn switch_to(
        &mut self,
        next: &mut Context,
        next_stack: &mut Vec<u8>,
        frame: &mut InterruptFrame,
        live: &mut LiveRegisters,
    )
        requires
            8 <= old(next).snapshot.rsp <= old(next_stack)@.len(),
        ensures
            final(self).rip == old(frame).instruction_pointer,
            final(self).rflags == old(live).rflags,
            final(self).snapshot == (CPUSnapshot {
                rsp: old(live).rsp,
                rbp: old(live).rbp,
                ..old(self).snapshot
            }),
            final(next).rip == old(next).rip,
            final(next).rflags == resume_flags(old(next).rflags, old(live).rflags),
            final(next).snapshot == (CPUSnapshot {
                rsp: (old(next).snapshot.rsp - 8) as u64,
                ..old(next).snapshot
            }),
            word_written(old(next_stack)@, final(next_stack)@, final(next).snapshot.rsp as int,
                old(frame).instruction_pointer),
            *final(frame) == (InterruptFrame {
                instruction_pointer: old(next).rip,
                stack_pointer: final(next).snapshot.rsp,
            }),
            *final(live) == (LiveRegisters {
                rsp: old(live).rsp,
                rbp: old(next).snapshot.rbp,
                rflags: final(next).rflags,
            }),
    {
        self.snapshot.rsp = live.rsp;
        self.rip = frame.instruction_pointer;
        next.push_stack(next_stack, self.rip);
        frame.instruction_pointer = next.rip;
        frame.stack_pointer = next.snapshot.rsp;
        self.snapshot.rbp = live.rbp;
        live.rbp = next.snapshot.rbp;
        self.rflags = live.rflags;
        if next.rflags == 0 {
            next.rflags = self.rflags;
        }
        next.rflags = (next.rflags & DEFINED_FLAGS) | INTERRUPT_FLAG;
        live.rflags = next.rflags;
    }
}

} // verus!
