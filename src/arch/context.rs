use vstd::prelude::*;

verus! {

/// The interrupt-enable bit of the flags register.
pub const INTERRUPT_FLAG: u64 = 0x200;

/// Byte `i` (little-endian) of the 64-bit word `v`.
pub open spec fn le_byte(v: u64, i: int) -> u8 {
    ((v >> ((8 * i) as u64)) & 0xff) as u8
}

/// `after` is `before` with the little-endian bytes of `v` written at
/// offsets `at .. at + 8`, and nothing else changed.
pub open spec fn word_written(before: Seq<u8>, after: Seq<u8>, at: int, v: u64) -> bool {
    &&& after.len() == before.len()
    &&& 0 <= at && at + 8 <= before.len()
    &&& forall|i: int| 0 <= i < before.len() && !(at <= i < at + 8) ==> after[i] == before[i]
    &&& forall|i: int| 0 <= i < 8 ==> #[trigger] after[at + i] == le_byte(v, i)
}

/// Writes the eight little-endian bytes of `v` into `stack` at `at`.
pub fn write_word(stack: &mut Vec<u8>, at: usize, v: u64)
    requires
        at + 8 <= old(stack)@.len(),
    ensures
        word_written(old(stack)@, final(stack)@, at as int, v),
{
    let n = stack.len();
    let mut i: usize = 0;
    while i < 8
        invariant
            0 <= i <= 8,
            n == stack@.len(),
            at + 8 <= old(stack)@.len(),
            stack@.len() == old(stack)@.len(),
            forall|j: int|
                0 <= j < old(stack)@.len() && !(at <= j < at + i) ==> stack@[j] == old(stack)@[j],
            forall|j: int| 0 <= j < i ==> #[trigger] stack@[at + j] == le_byte(v, j),
        decreases 8 - i,
    {
        stack.set(at + i, #[verifier::truncate] (((v >> ((8 * i) as u64)) & 0xff) as u8));
        i = i + 1;
    }
}

/// The callee-saved register set that a cooperative switch stores and
/// loads. Stack addresses are offsets into the owning thread's stack
/// buffer.
#[derive(Debug, Clone, Copy, PartialEq, Eq)]
pub struct Context {
    pub rflags: u64,
    pub rbx: u64,
    pub r12: u64,
    pub r13: u64,
    pub r14: u64,
    pub r15: u64,
    pub rbp: u64,
    pub rsp: u64,
}

impl Context {
    /// A fresh register set for a stack of `stack.len()` bytes: interrupts
    /// enabled, frame and stack pointer at the top, with `entry` pushed so
    /// that the first switch returns into it.
    pub fn new(stack: &mut Vec<u8>, entry: u64) -> (ctx: Context)
        requires
            8 <= old(stack)@.len(),
        ensures
            ctx.rflags == INTERRUPT_FLAG,
            ctx.rbx == 0 && ctx.r12 == 0 && ctx.r13 == 0 && ctx.r14 == 0 && ctx.r15 == 0,
            ctx.rbp == old(stack)@.len(),
            ctx.rsp == old(stack)@.len() - 8,
            word_written(old(stack)@, final(stack)@, ctx.rsp as int, entry),
    {
        let top = stack.len() as u64;
        let mut ctx = Context {
            rflags: INTERRUPT_FLAG,
            rbx: 0,
            r12: 0,
            r13: 0,
            r14: 0,
            r15: 0,
            rbp: top,
            rsp: top,
        };
        ctx.push_stack(stack, entry);
        ctx
    }

    /// The register half of a cooperative switch: the live registers are
    /// saved into `self` and `next`'s are loaded, so that execution goes
    /// on where `next` last left off.
    pub fn swap(&mut self, next: &Context, live: &mut Context)
        ensures
            *final(self) == *old(live),
            *final(live) == *next,
    {
        *self = *live;
        *live = *next;
    }

    /// Pushes one word onto the stack that `rsp` points into.
    pub fn push_stack(&mut self, stack: &mut Vec<u8>, item: u64)
        requires
            8 <= old(self).rsp <= old(stack)@.len(),
        ensures
            *final(self) == (Context { rsp: (old(self).rsp - 8) as u64, ..*old(self) }),
            word_written(old(stack)@, final(stack)@, final(self).rsp as int, item),
    {
        let n = stack.len();
        self.rsp = self.rsp - 8;
        assert(self.rsp < n);
        write_word(stack, self.rsp as usize, item);
    }
}

} // verus!
