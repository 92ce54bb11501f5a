use vstd::prelude::*;

use crate::context::scheduler::{
    drained, queue_after_switch, same_but_state, sched_wf, state_after_switch, switch_target, Scheduler,
};
use crate::arch::context::Context;
use crate::context::thread::{State, Thread};

verus! {

pub type CpuID = u32;

/// Size of the stacks of the threads a CPU creates for itself.
pub const THREAD_STACK_SIZE: usize = 4096;

/// A logical CPU.
pub struct Cpu {
    cpu_id: CpuID,
}

impl Cpu {
    pub closed spec fn spec_id(&self) -> CpuID {
        self.cpu_id
    }

    pub fn new(cpu_id: CpuID) -> (r: Cpu)
        ensures
            r.spec_id() == cpu_id,
    {
        Cpu { cpu_id }
    }

    pub fn id(&self) -> (r: CpuID)
        ensures
            r == self.spec_id(),
    {
        self.cpu_id
    }
}

/// A thread keeps its stack and function across a switch.
pub open spec fn same_memory(a: Thread, b: Thread) -> bool {
    a.stack == b.stack && a.func == b.func
}

/// The register swap of a switch from `p` to `n`: `p`'s saved registers
/// are the live ones, and the live registers become `n`'s (unchanged when
/// `p` is `n`). Without a switch nothing moves.
pub open spec fn regs_swapped(t0: Seq<Thread>, t1: Seq<Thread>, live0: Context, live1: Context, r: Option<(usize, usize)>) -> bool {
    match r {
        Some((p, n)) => {
            &&& t1[p as int].ctx == live0
            &&& live1 == t1[n as int].ctx
            &&& forall|i: int| 0 <= i < t0.len() && i != p ==> (#[trigger] t1[i]).ctx == t0[i].ctx
        },
        None => {
            &&& live1 == live0
            &&& forall|i: int| 0 <= i < t0.len() ==> (#[trigger] t1[i]).ctx == t0[i].ctx
        },
    }
}

/// Per-CPU state: the CPU, its scheduler, the threads it owns (a thread's
/// handle is its index) and the thread now running on it.
pub struct Local {
    pub cpu: Cpu,
    pub scheduler: Scheduler,
    pub threads: Vec<Thread>,
    pub current_thread: usize,
}

impl Local {
    pub open spec fn wf(&self) -> bool {
        sched_wf(self.threads@, self.scheduler.queue(), self.current_thread, self.scheduler.idle())
    }

    /// Sets up a CPU with its idle thread, ready and never queued, and a
    /// thread that stands for the boot flow now running. The boot thread
    /// is marked `Dead`: once switched away from it is never resumed.
    pub fn new(cpu: Cpu, trampoline: u64, idle_func: u64, boot_func: u64) -> (r: Local)
        ensures
            r.wf(),
            r.threads@.len() == 2,
            r.scheduler.idle() == 0,
            r.current_thread == 1,
            r.threads@[0].state == State::Ready,
            r.threads@[0].func == idle_func,
            r.threads@[1].state == State::Dead,
            r.threads@[1].func == boot_func,
            r.scheduler.queue() == Seq::<usize>::empty(),
    {
        let mut idle = Thread::new(THREAD_STACK_SIZE, trampoline, idle_func).unwrap();
        let mut boot = Thread::new(THREAD_STACK_SIZE, trampoline, boot_func).unwrap();
        idle.set_state(State::Ready);
        boot.set_state(State::Dead);
        let mut threads: Vec<Thread> = Vec::new();
        threads.push(idle);
        threads.push(boot);
        Local { cpu, scheduler: Scheduler::new(0), threads, current_thread: 1 }
    }

    /// Creates a thread on this CPU, not yet runnable. Its handle is
    /// returned.
    pub fn spawn(&mut self, stack_size: usize, trampoline: u64, func: u64) -> (r: Result<usize, &'static str>)
        requires
            old(self).wf(),
        ensures
            final(self).wf(),
            final(self).scheduler == old(self).scheduler,
            final(self).current_thread == old(self).current_thread,
            r.is_err() <==> stack_size < 8,
            r.is_err() ==> final(self).threads@ == old(self).threads@,
            r matches Ok(h) ==> {
                &&& h == old(self).threads@.len()
                &&& final(self).threads@.len() == h + 1
                &&& final(self).threads@.take(h as int) == old(self).threads@
                &&& final(self).threads@[h as int].state == State::Initial
                &&& !final(self).threads@[h as int].queued
                &&& final(self).threads@[h as int].func == func
                &&& final(self).threads@[h as int].stack@.len() == stack_size
            },
    {
        match Thread::new(stack_size, trampoline, func) {
            Ok(t) => {
                let h = self.threads.len();
                self.threads.push(t);
                proof {
                    assert(self.threads@.take(h as int) =~= old(self).threads@);
                    assert forall|i: int| 0 <= i < self.threads@.len() implies (#[trigger] self.threads@[i].queued
                        <==> self.scheduler.queue().contains(i as usize)) by {
                        if i == h as int {
                            assert(!self.scheduler.queue().contains(i as usize)) by {
                                if self.scheduler.queue().contains(i as usize) {
                                    let j = choose|j: int| 0 <= j < self.scheduler.queue().len()
                                        && self.scheduler.queue()[j] == i as usize;
                                }
                            }
                        } else {
                            assert(self.threads@[i] == old(self).threads@[i]);
                        }
                    }
                }
                Ok(h)
            },
            Err(e) => Err(e),
        }
    }

    /// Queues a thread for this CPU's scheduler. The running thread, the
    /// idle thread and a thread already queued are never pushed.
    pub fn schedule_thread(&mut self, thread: usize) -> (r: bool)
        requires
            old(self).wf(),
        ensures
            final(self).wf(),
            r == (thread < old(self).threads@.len() && thread != old(self).current_thread
                && thread != old(self).scheduler.idle() && !old(self).threads@[thread as int].queued),
            final(self).current_thread == old(self).current_thread,
            final(self).scheduler.idle() == old(self).scheduler.idle(),
            r ==> final(self).scheduler.queue() == old(self).scheduler.queue().push(thread),
            r ==> final(self).threads@ == old(self).threads@.update(
                thread as int,
                Thread { queued: true, ..old(self).threads@[thread as int] },
            ),
            !r ==> final(self).threads@ == old(self).threads@ && final(self).scheduler == old(self).scheduler,
    {
        if thread >= self.threads.len() || thread == self.current_thread
            || thread == self.scheduler.idle_thread() || self.threads[thread].queued {
            return false;
        }
        let ghost q0 = self.scheduler.queue();
        self.scheduler.schedule_thread(&mut self.threads, thread);
        proof {
            let q1 = self.scheduler.queue();
            assert(!q0.contains(thread));
            assert forall|a: int, b: int| 0 <= a < b < q1.len() implies q1[a] != q1[b] by {
                if b == q0.len() {
                    assert(q1[a] == q0[a]);
                }
            }
            assert forall|i: int| 0 <= i < self.threads@.len() implies (#[trigger] self.threads@[i].queued
                <==> q1.contains(i as usize)) by {
                if q1.contains(i as usize) && i != thread as int {
                    let j = choose|j: int| 0 <= j < q1.len() && q1[j] == i as usize;
                    assert(q0[j] == i as usize);
                }
                if i != thread as int && q0.contains(i as usize) {
                    let j = choose|j: int| 0 <= j < q0.len() && q0[j] == i as usize;
                    assert(q1[j] == i as usize);
                }
                if i == thread as int {
                    assert(q1[q0.len() as int] == thread);
                }
            }
        }
        true
    }

    /// Makes a freshly created thread runnable and queues it.
    pub fn start_thread(&mut self, thread: usize) -> (r: bool)
        requires
            old(self).wf(),
        ensures
            final(self).wf(),
            r == (thread < old(self).threads@.len() && thread != old(self).current_thread
                && thread != old(self).scheduler.idle() && !old(self).threads@[thread as int].queued
                && old(self).threads@[thread as int].state == State::Initial),
            final(self).current_thread == old(self).current_thread,
            final(self).scheduler.idle() == old(self).scheduler.idle(),
            r ==> final(self).scheduler.queue() == old(self).scheduler.queue().push(thread),
            r ==> final(self).threads@ == old(self).threads@.update(
                thread as int,
                Thread { queued: true, state: State::Ready, ..old(self).threads@[thread as int] },
            ),
            !r ==> final(self).threads@ == old(self).threads@ && final(self).scheduler == old(self).scheduler,
    {
        if thread >= self.threads.len() || thread == self.current_thread
            || thread == self.scheduler.idle_thread() || self.threads[thread].queued
            || self.threads[thread].state() != State::Initial {
            return false;
        }
        self.threads[thread].start();
        proof {
            assert forall|i: int| 0 <= i < self.threads@.len() implies (#[trigger] self.threads@[i].queued
                <==> self.scheduler.queue().contains(i as usize)) by {
                assert(self.threads@[i].queued == old(self).threads@[i].queued);
            }
        }
        self.schedule_thread(thread);
        proof {
            assert(self.threads@ =~= old(self).threads@.update(
                thread as int,
                Thread { queued: true, state: State::Ready, ..old(self).threads@[thread as int] },
            ));
        }
        true
    }

    /// Makes a blocked or suspended thread runnable again and queues it.
    pub fn resume_thread(&mut self, thread: usize) -> (r: bool)
        requires
            old(self).wf(),
        ensures
            final(self).wf(),
            r == (thread < old(self).threads@.len() && thread != old(self).current_thread
                && thread != old(self).scheduler.idle() && !old(self).threads@[thread as int].queued
                && (old(self).threads@[thread as int].state == State::Blocked
                || old(self).threads@[thread as int].state == State::Suspended)),
            final(self).current_thread == old(self).current_thread,
            final(self).scheduler.idle() == old(self).scheduler.idle(),
            r ==> final(self).scheduler.queue() == old(self).scheduler.queue().push(thread),
            r ==> final(self).threads@ == old(self).threads@.update(
                thread as int,
                Thread { queued: true, state: State::Ready, ..old(self).threads@[thread as int] },
            ),
            !r ==> final(self).threads@ == old(self).threads@ && final(self).scheduler == old(self).scheduler,
    {
        if thread >= self.threads.len() || thread == self.current_thread
            || thread == self.scheduler.idle_thread() || self.threads[thread].queued {
            return false;
        }
        if !self.threads[thread].resume() {
            return false;
        }
        proof {
            assert forall|i: int| 0 <= i < self.threads@.len() implies (#[trigger] self.threads@[i].queued
                <==> self.scheduler.queue().contains(i as usize)) by {
                assert(self.threads@[i].queued == old(self).threads@[i].queued);
            }
        }
        self.schedule_thread(thread);
        proof {
            assert(self.threads@ =~= old(self).threads@.update(
                thread as int,
                Thread { queued: true, state: State::Ready, ..old(self).threads@[thread as int] },
            ));
        }
        true
    }

    /// Marks a queued thread other than the running one for reclamation.
    pub fn kill_thread(&mut self, thread: usize) -> (r: bool)
        requires
            old(self).wf(),
        ensures
            final(self).wf(),
            r == (thread < old(self).threads@.len() && thread != old(self).current_thread
                && old(self).threads@[thread as int].queued
                && (old(self).threads@[thread as int].state == State::Ready
                || old(self).threads@[thread as int].state == State::Blocked)),
            final(self).current_thread == old(self).current_thread,
            final(self).scheduler == old(self).scheduler,
            r ==> final(self).threads@ == old(self).threads@.update(
                thread as int,
                Thread { state: State::Killable, ..old(self).threads@[thread as int] },
            ),
            !r ==> final(self).threads@ == old(self).threads@ && final(self).scheduler == old(self).scheduler,
    {
        if thread >= self.threads.len() {
            return false;
        }
        let is_current = thread == self.current_thread;
        let r = self.threads[thread].kill(is_current);
        proof {
            assert forall|i: int| 0 <= i < self.threads@.len() implies (#[trigger] self.threads@[i].queued
                <==> self.scheduler.queue().contains(i as usize)) by {
                assert(self.threads@[i].queued == old(self).threads@[i].queued);
            }
            if r {
                assert(self.threads@ =~= old(self).threads@.update(
                    thread as int,
                    Thread { state: State::Killable, ..old(self).threads@[thread as int] },
                ));
            } else {
                assert(self.threads@ =~= old(self).threads@);
            }
        }
        r
    }

    /// Terminates a thread other than the running one and the idle one.
    /// It must have been started and not yet reaped.
    pub fn join_thread(&mut self, thread: usize) -> (r: Result<(), &'static str>)
        requires
            old(self).wf(),
        ensures
            final(self).wf(),
            r.is_ok() == (thread < old(self).threads@.len() && thread != old(self).current_thread
                && thread != old(self).scheduler.idle()
                && (old(self).threads@[thread as int].state == State::Ready
                || old(self).threads@[thread as int].state == State::Blocked
                || old(self).threads@[thread as int].state == State::Killable)),
            final(self).current_thread == old(self).current_thread,
            final(self).scheduler == old(self).scheduler,
            r.is_ok() ==> final(self).threads@ == old(self).threads@.update(
                thread as int,
                Thread { state: State::Dead, ..old(self).threads@[thread as int] },
            ),
            r.is_err() ==> final(self).threads@ == old(self).threads@,
    {
        if thread >= self.threads.len() || thread == self.scheduler.idle_thread() {
            return Err("No such thread, or the idle thread");
        }
        let is_current = thread == self.current_thread;
        let r = self.threads[thread].join(is_current);
        proof {
            assert forall|i: int| 0 <= i < self.threads@.len() implies (#[trigger] self.threads@[i].queued
                <==> self.scheduler.queue().contains(i as usize)) by {
                assert(self.threads@[i].queued == old(self).threads@[i].queued);
            }
            if r.is_ok() {
                assert(self.threads@ =~= old(self).threads@.update(
                    thread as int,
                    Thread { state: State::Dead, ..old(self).threads@[thread as int] },
                ));
            } else {
                assert(self.threads@ =~= old(self).threads@);
            }
        }
        r
    }

    /// Runs the scheduler and swaps registers: the live registers are
    /// saved into the outgoing thread and the incoming thread's are
    /// loaded. Returns the outgoing and the incoming thread, or `None`
    /// when the running thread keeps the CPU.
    pub fn context_switch(&mut self, regs: &mut Context) -> (r: Option<(usize, usize)>)
        requires
            old(self).wf(),
        ensures
            final(self).wf(),
            r == (match switch_target(old(self).threads@, old(self).scheduler.queue(),
                old(self).current_thread, old(self).scheduler.idle()) {
                Some(n) => Some((old(self).current_thread, n)),
                None => None,
            }),
            final(self).current_thread == (match r { Some((_, n)) => n, None => old(self).current_thread }),
            final(self).scheduler.idle() == old(self).scheduler.idle(),
            final(self).scheduler.queue() == queue_after_switch(old(self).threads@,
                old(self).scheduler.queue(), old(self).current_thread, old(self).scheduler.idle()),
            final(self).threads@.len() == old(self).threads@.len(),
            forall|i: int| 0 <= i < old(self).threads@.len() ==> {
                &&& same_memory(#[trigger] final(self).threads@[i], old(self).threads@[i])
                &&& final(self).threads@[i].state == state_after_switch(old(self).threads@,
                    old(self).scheduler.queue(), old(self).current_thread, old(self).scheduler.idle(), i)
            },
            regs_swapped(old(self).threads@, final(self).threads@, *old(regs), *final(regs), r),
    {
        let prev = self.current_thread;
        let ghost t0 = self.threads@;
        let r = self.scheduler.switch(&mut self.threads, prev);
        match r {
            Some(next) => {
                let ghost t1 = self.threads@;
                if next != prev {
                    let next_regs = self.threads[next].ctx;
                    self.threads[prev].ctx.swap(&next_regs, regs);
                } else {
                    self.threads[prev].ctx = *regs;
                }
                proof {
                    assert forall|i: int| 0 <= i < t0.len() && i != prev implies (#[trigger] self.threads@[i]).ctx
                        == t0[i].ctx by {
                        assert(self.threads@[i] == t1[i]);
                        assert(same_but_state(t1[i], t0[i]));
                    }
                    assert forall|i: int| 0 <= i < t0.len() implies (#[trigger] self.threads@[i]).queued == t1[i].queued
                        && self.threads@[i].state == t1[i].state && same_memory(self.threads@[i], t1[i]) by {}
                }
                self.current_thread = next;
                Some((prev, next))
            },
            None => {
                proof {
                    assert forall|i: int| 0 <= i < t0.len() implies (#[trigger] self.threads@[i]).ctx == t0[i].ctx by {
                        assert(same_but_state(self.threads@[i], t0[i]));
                    }
                }
                None
            },
        }
    }

    /// Voluntarily gives up the CPU.
    pub fn yield_now(&mut self, regs: &mut Context) -> (r: Option<(usize, usize)>)
        requires
            old(self).wf(),
        ensures
            final(self).wf(),
            r == (match switch_target(old(self).threads@, old(self).scheduler.queue(),
                old(self).current_thread, old(self).scheduler.idle()) {
                Some(n) => Some((old(self).current_thread, n)),
                None => None,
            }),
            final(self).current_thread == (match r { Some((_, n)) => n, None => old(self).current_thread }),
            final(self).scheduler.idle() == old(self).scheduler.idle(),
            final(self).scheduler.queue() == queue_after_switch(old(self).threads@,
                old(self).scheduler.queue(), old(self).current_thread, old(self).scheduler.idle()),
            final(self).threads@.len() == old(self).threads@.len(),
            forall|i: int| 0 <= i < old(self).threads@.len() ==> {
                &&& same_memory(#[trigger] final(self).threads@[i], old(self).threads@[i])
                &&& final(self).threads@[i].state == state_after_switch(old(self).threads@,
                    old(self).scheduler.queue(), old(self).current_thread, old(self).scheduler.idle(), i)
            },
            regs_swapped(old(self).threads@, final(self).threads@, *old(regs), *final(regs), r),
    {
        self.context_switch(regs)
    }

    /// Ends the running thread, which must not be the idle thread, and
    /// switches away from it for good.
    pub fn exit_current(&mut self, regs: &mut Context) -> (r: Option<(usize, usize)>)
        requires
            old(self).wf(),
        ensures
            final(self).wf(),
            r.is_some() == (old(self).current_thread != old(self).scheduler.idle()
                && old(self).threads@[old(self).current_thread as int].state == State::Running),
            r.is_none() ==> *final(self) == *old(self) && *final(regs) == *old(regs),
            r matches Some((p, n)) ==> {
                &&& p == old(self).current_thread
                &&& n != p
                &&& final(self).threads@[p as int].ctx == *old(regs)
                &&& *final(regs) == final(self).threads@[n as int].ctx
                &&& final(self).current_thread == n
                &&& final(self).threads@[p as int].state == State::Dead
                &&& final(self).threads@[n as int].state == State::Running
            },
    {
        let cur = self.current_thread;
        if cur == self.scheduler.idle_thread() || self.threads[cur].state() != State::Running {
            return None;
        }
        self.threads[cur].exit();
        proof {
            assert forall|i: int| 0 <= i < self.threads@.len() implies (#[trigger] self.threads@[i].queued
                <==> self.scheduler.queue().contains(i as usize)) by {
                assert(self.threads@[i].queued == old(self).threads@[i].queued);
            }
        }
        let ghost t1 = self.threads@;
        let ghost q1 = self.scheduler.queue();
        let r = self.context_switch(regs);
        proof {
            assert(self.threads@[cur as int].state == state_after_switch(
                t1, q1, cur, self.scheduler.idle(), cur as int));
            assert(!q1.contains(cur));
            assert(!q1.take(drained(t1, q1) as int).contains(cur)) by {
                if q1.take(drained(t1, q1) as int).contains(cur) {
                    let k = choose|k: int| 0 <= k < drained(t1, q1)
                        && q1.take(drained(t1, q1) as int)[k] == cur;
                    assert(q1[k] == cur);
                }
            }
        }
        r
    }
}

/// At any moment at most one thread of a CPU is running.
pub proof fn lemma_one_running(l: &Local, i: int, j: int)
    requires
        l.wf(),
        0 <= i < l.threads@.len(),
        0 <= j < l.threads@.len(),
        l.threads@[i].state == State::Running,
        l.threads@[j].state == State::Running,
    ensures
        i == j,
{
}

} // verus!
