use vstd::prelude::*;

use crate::arch::context::{word_written, Context, INTERRUPT_FLAG};

verus! {

/// Lifecycle of a thread in the queue-based scheduling model.
#[derive(Copy, Clone, Debug, PartialEq, Eq, Structural)]
pub enum State {
    Initial,
    Ready,
    Running,
    Suspended,
    Blocked,
    Killable,
    Dead,
}

/// The single-step transitions a thread may take.
pub open spec fn is_edge(from: State, to: State) -> bool {
    ||| from == State::Initial && to == State::Ready
    ||| from == State::Ready && to == State::Running
    ||| from == State::Running && to == State::Ready
    ||| from == State::Running && to == State::Blocked
    ||| from == State::Blocked && to == State::Ready
    ||| from == State::Ready && to == State::Killable
    ||| from == State::Blocked && to == State::Killable
    ||| from == State::Killable && to == State::Dead
    ||| from == State::Running && to == State::Dead
}

/// A change of state made of at most two edges that pass through
/// `Killable` (a thread that is joined is killed and reaped at once).
pub open spec fn is_path(from: State, to: State) -> bool {
    ||| from == to
    ||| is_edge(from, to)
    ||| (is_edge(from, State::Killable) && is_edge(State::Killable, to))
}

/// The state `start` moves a thread to, if it may.
pub open spec fn after_start(s: State) -> Option<State> {
    if s == State::Initial { Some(State::Ready) } else { None }
}

/// The state `resume` moves a thread to, if it may.
pub open spec fn after_resume(s: State) -> Option<State> {
    if s == State::Blocked || s == State::Suspended { Some(State::Ready) } else { None }
}

/// The state `kill` moves a thread to, if it may.
pub open spec fn after_kill(s: State, is_current: bool, queued: bool) -> Option<State> {
    if !is_current && queued && (s == State::Ready || s == State::Blocked) {
        Some(State::Killable)
    } else {
        None
    }
}

/// The state `join` moves a thread to, if it may.
pub open spec fn after_join(s: State, is_current: bool) -> Option<State> {
    if !is_current && (s == State::Ready || s == State::Blocked || s == State::Killable) {
        Some(State::Dead)
    } else {
        None
    }
}

/// The state `exit` moves a thread to, if it may.
pub open spec fn after_exit(s: State, queued: bool) -> Option<State> {
    if s == State::Running && !queued { Some(State::Dead) } else { None }
}

/// Every change of state that a thread operation allows follows the
/// lifecycle's edges (joining goes through `Killable` to `Dead`); any
/// other request is refused and changes nothing.
pub proof fn lemma_transitions_follow_edges(s: State, is_current: bool, queued: bool)
    ensures
        after_start(s) matches Some(t) ==> is_edge(s, t),
        after_resume(s) matches Some(t) ==> s == State::Suspended || is_edge(s, t),
        after_kill(s, is_current, queued) matches Some(t) ==> is_edge(s, t),
        after_join(s, is_current) matches Some(t) ==> is_path(s, t),
        after_exit(s, queued) matches Some(t) ==> is_edge(s, t),
{
}

/// A thread that was created and never started cannot be joined: `join`
/// refuses it and leaves it as it was.
pub proof fn lemma_join_unstarted(is_current: bool)
    ensures
        after_join(State::Initial, is_current).is_none(),
{
}

/// An execution context of the queue-based model: saved registers, an
/// owned stack, the address of the function the trampoline will run, a
/// queue-membership link and a lifecycle state.
pub struct Thread {
    pub ctx: Context,
    pub stack: Vec<u8>,
    pub func: u64,
    pub queued: bool,
    pub state: State,
}

impl Thread {
    /// Allocates a zeroed stack of `stack_size` bytes and seeds it so that
    /// the first switch into the thread enters `trampoline`, which then
    /// runs `func`. The stack must hold at least the seeded word.
    pub fn new(stack_size: usize, trampoline: u64, func: u64) -> (r: Result<Thread, &'static str>)
        ensures
            stack_size < 8 <==> r.is_err(),
            r matches Ok(t) ==> {
                &&& t.state == State::Initial
                &&& !t.queued
                &&& t.func == func
                &&& t.stack@.len() == stack_size
                &&& t.ctx.rflags == INTERRUPT_FLAG
                &&& t.ctx.rbx == 0 && t.ctx.r12 == 0 && t.ctx.r13 == 0 && t.ctx.r14 == 0 && t.ctx.r15 == 0
                &&& t.ctx.rbp == stack_size
                &&& t.ctx.rsp == stack_size - 8
                &&& word_written(Seq::new(stack_size as nat, |i: int| 0u8), t.stack@, stack_size - 8, trampoline)
            },
    {
        if stack_size < 8 {
            return Err("stack too small to hold the entry address");
        }
        let mut stack: Vec<u8> = vec![0u8; stack_size];
        proof {
            assert(stack@ =~= Seq::new(stack_size as nat, |i: int| 0u8));
        }
        let ctx = Context::new(&mut stack, trampoline);
        Ok(Thread { ctx, stack, func, queued: false, state: State::Initial })
    }

    /// Marks a freshly created thread runnable. Legal only from `Initial`.
    /// The run queue belongs to the CPU: `Local::start_thread` starts a
    /// thread and queues it.
    pub fn start(&mut self) -> (r: bool)
        ensures
            r == after_start(old(self).state).is_some(),
            r ==> *final(self) == (Thread { state: after_start(old(self).state).unwrap(), ..*old(self) }),
            !r ==> *final(self) == *old(self),
    {
        if self.state == State::Initial {
            self.state = State::Ready;
            true
        } else {
            false
        }
    }

    pub fn state(&self) -> (r: State)
        ensures
            r == self.state,
    {
        self.state
    }

    /// Stores a state unconditionally; the scheduler uses it for the
    /// transitions it owns.
    pub fn set_state(&mut self, state: State)
        ensures
            *final(self) == (Thread { state, ..*old(self) }),
    {
        self.state = state;
    }

    /// Makes a blocked or suspended thread runnable again;
    /// `Local::resume_thread` also queues it.
    pub fn resume(&mut self) -> (r: bool)
        ensures
            r == after_resume(old(self).state).is_some(),
            r ==> *final(self) == (Thread { state: after_resume(old(self).state).unwrap(), ..*old(self) }),
            !r ==> *final(self) == *old(self),
    {
        if self.state == State::Blocked || self.state == State::Suspended {
            self.state = State::Ready;
            true
        } else {
            false
        }
    }

    /// Terminates a thread other than the caller's own. A thread that was
    /// never started, is running, or has already been reaped cannot be
    /// joined.
    pub fn join(&mut self, is_current: bool) -> (r: Result<(), &'static str>)
        ensures
            r.is_ok() == after_join(old(self).state, is_current).is_some(),
            r.is_ok() ==> *final(self) == (Thread { state: after_join(old(self).state, is_current).unwrap(), ..*old(self) }),
            r.is_err() ==> *final(self) == *old(self),
    {
        if is_current {
            return Err("Cannot join with the current thread");
        }
        if self.state == State::Ready || self.state == State::Blocked || self.state == State::Killable {
            self.state = State::Dead;
            Ok(())
        } else {
            Err("Only a started thread that is not running can be joined")
        }
    }

    /// Marks a queued thread, other than the caller's own, for reclamation:
    /// the scheduler discards it instead of resuming it.
    pub fn kill(&mut self, is_current: bool) -> (r: bool)
        ensures
            r == after_kill(old(self).state, is_current, old(self).queued).is_some(),
            r ==> *final(self) == (Thread {
                state: after_kill(old(self).state, is_current, old(self).queued).unwrap(),
                ..*old(self)
            }),
            !r ==> *final(self) == *old(self),
    {
        if is_current || !self.queued {
            return false;
        }
        if self.state == State::Ready || self.state == State::Blocked {
            self.state = State::Killable;
            true
        } else {
            false
        }
    }

    /// Ends the running thread; `Local::exit_current` then switches away
    /// from it for good.
    pub fn exit(&mut self) -> (r: bool)
        ensures
            r == after_exit(old(self).state, old(self).queued).is_some(),
            r ==> *final(self) == (Thread { state: after_exit(old(self).state, old(self).queued).unwrap(), ..*old(self) }),
            !r ==> *final(self) == *old(self),
    {
        if self.state == State::Running && !self.queued {
            self.state = State::Dead;
            true
        } else {
            false
        }
    }
}

} // verus!
