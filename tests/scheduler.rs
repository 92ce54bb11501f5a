use hydroxide::arch::context::{Context as SwitchFrame, INTERRUPT_FLAG};
use hydroxide::arch::cpu::{Cpu, Local};
use hydroxide::context::mpsc::IntrusiveMpsc;
use hydroxide::context::scheduler::Scheduler;
use hydroxide::context::thread::{State, Thread};

const TRAMPOLINE: u64 = 0x1122_3344_5566_7788;

fn local() -> Local {
    Local::new(Cpu::new(0), TRAMPOLINE, 0x1000, 0x2000)
}

fn regs() -> SwitchFrame {
    SwitchFrame { rflags: 0x202, rbx: 0, r12: 0, r13: 0, r14: 0, r15: 0, rbp: 0, rsp: 0 }
}

fn running_count(l: &Local) -> usize {
    l.threads.iter().filter(|t| t.state() == State::Running).count()
}

#[test]
fn switch_frame_seeds_entry_on_stack() {
    let mut stack = vec![0u8; 32];
    let ctx = SwitchFrame::new(&mut stack, 0x0102_0304_0506_0708);
    assert_eq!(ctx.rflags, INTERRUPT_FLAG);
    assert_eq!(ctx.rbp, 32);
    assert_eq!(ctx.rsp, 24);
    assert_eq!(&stack[24..32], &[8, 7, 6, 5, 4, 3, 2, 1]);
    assert!(stack[..24].iter().all(|b| *b == 0));
}

#[test]
fn thread_new_seeds_trampoline() {
    let t = Thread::new(64, TRAMPOLINE, 7).unwrap();
    assert_eq!(t.state(), State::Initial);
    assert_eq!(t.stack.len(), 64);
    assert_eq!(t.ctx.rsp, 56);
    assert_eq!(&t.stack[56..64], &TRAMPOLINE.to_le_bytes());
    assert_eq!(t.func, 7);
    assert!(!t.queued);
}

#[test]
fn thread_new_rejects_tiny_stack() {
    assert!(Thread::new(4, TRAMPOLINE, 7).is_err());
    assert!(Thread::new(8, TRAMPOLINE, 7).is_ok());
}

#[test]
fn start_only_from_initial() {
    let mut t = Thread::new(64, TRAMPOLINE, 7).unwrap();
    assert!(t.start());
    assert_eq!(t.state(), State::Ready);
    assert!(!t.start());
    assert_eq!(t.state(), State::Ready);
}

#[test]
fn resume_only_from_blocked_or_suspended() {
    let mut t = Thread::new(64, TRAMPOLINE, 7).unwrap();
    assert!(!t.resume());
    assert_eq!(t.state(), State::Initial);
    t.set_state(State::Blocked);
    assert!(t.resume());
    assert_eq!(t.state(), State::Ready);
    t.set_state(State::Suspended);
    assert!(t.resume());
    assert_eq!(t.state(), State::Ready);
}

#[test]
fn illegal_transitions_leave_state() {
    let mut t = Thread::new(64, TRAMPOLINE, 7).unwrap();
    assert!(!t.exit());
    assert!(!t.kill(false));
    assert!(t.join(false).is_err());
    assert_eq!(t.state(), State::Initial);
    t.set_state(State::Running);
    assert!(t.join(true).is_err());
    assert!(t.join(false).is_err());
    assert!(t.exit());
    assert_eq!(t.state(), State::Dead);
}

#[test]
fn join_without_start_is_refused() {
    let mut l = local();
    let h = l.spawn(256, TRAMPOLINE, 0x3000).unwrap();
    assert!(l.join_thread(h).is_err());
    assert_eq!(l.threads[h].state(), State::Initial);
    assert_eq!(l.threads.len(), 3);
    assert!(l.start_thread(h));
    assert!(l.join_thread(h).is_ok());
    assert_eq!(l.threads[h].state(), State::Dead);
}

#[test]
fn join_current_is_refused() {
    let mut l = local();
    let h = l.spawn(256, TRAMPOLINE, 0x3000).unwrap();
    assert!(l.start_thread(h));
    assert_eq!(l.context_switch(&mut regs()), Some((1, h)));
    assert!(l.join_thread(h).is_err());
    assert_eq!(l.threads[h].state(), State::Running);
}

#[test]
fn push_then_pop_once() {
    let mut q = IntrusiveMpsc::new();
    assert!(q.is_empty());
    q.push(3);
    assert!(!q.is_empty());
    assert_eq!(q.pop(), Some(3));
    assert_eq!(q.pop(), None);
    assert!(q.is_empty());
}

#[test]
fn queue_batches_pop_oldest_first() {
    let mut q = IntrusiveMpsc::new();
    q.push(1);
    q.push(2);
    q.push(3);
    assert_eq!(q.pop(), Some(1));
    q.push(4);
    assert_eq!(q.pop(), Some(2));
    assert_eq!(q.pop(), Some(3));
    assert_eq!(q.pop(), Some(4));
    assert_eq!(q.pop(), None);
}

#[test]
fn many_producers_every_item_popped_once() {
    let mut q = IntrusiveMpsc::new();
    let mut popped = Vec::new();
    for round in 0..10usize {
        for producer in 0..4usize {
            q.push(round * 4 + producer);
        }
        if round % 3 == 0 {
            while let Some(x) = q.pop() {
                popped.push(x);
            }
        } else if let Some(x) = q.pop() {
            popped.push(x);
        }
    }
    while let Some(x) = q.pop() {
        popped.push(x);
    }
    assert_eq!(popped, (0..40).collect::<Vec<usize>>());
}

#[test]
fn idle_fallback_when_nothing_ready() {
    let mut l = local();
    assert_eq!(l.context_switch(&mut regs()), Some((1, 0)));
    assert_eq!(l.current_thread, 0);
    assert_eq!(l.threads[0].state(), State::Running);
    assert_eq!(l.context_switch(&mut regs()), None);
    assert_eq!(l.current_thread, 0);
    assert_eq!(running_count(&l), 1);
}

#[test]
fn scheduler_new_has_empty_queue() {
    let s = Scheduler::new(5);
    assert_eq!(s.idle_thread(), 5);
}

#[test]
fn killed_thread_is_reaped_not_resumed() {
    let mut l = local();
    let a = l.spawn(256, TRAMPOLINE, 0xA).unwrap();
    let b = l.spawn(256, TRAMPOLINE, 0xB).unwrap();
    assert!(l.start_thread(a));
    assert!(l.start_thread(b));
    assert!(l.kill_thread(a));
    assert_eq!(l.threads[a].state(), State::Killable);
    assert_eq!(l.context_switch(&mut regs()), Some((1, b)));
    assert_eq!(l.threads[a].state(), State::Dead);
    assert_eq!(l.threads[b].state(), State::Running);
    for _ in 0..5 {
        l.context_switch(&mut regs());
        assert_ne!(l.current_thread, a);
    }
}

#[test]
fn kill_needs_queued_and_not_current() {
    let mut l = local();
    let a = l.spawn(256, TRAMPOLINE, 0xA).unwrap();
    assert!(!l.kill_thread(a));
    assert!(l.start_thread(a));
    assert_eq!(l.context_switch(&mut regs()), Some((1, a)));
    assert!(!l.kill_thread(a));
    assert!(!l.kill_thread(0));
    assert!(!l.kill_thread(99));
}

#[test]
fn round_robin_between_two_threads() {
    let mut l = local();
    let a = l.spawn(256, TRAMPOLINE, 0xA).unwrap();
    let b = l.spawn(256, TRAMPOLINE, 0xB).unwrap();
    assert!(l.start_thread(a));
    assert!(l.start_thread(b));
    let mut seen = Vec::new();
    for _ in 0..6 {
        let (_, next) = l.context_switch(&mut regs()).unwrap();
        seen.push(next);
        assert_eq!(running_count(&l), 1);
    }
    assert_eq!(seen, vec![a, b, a, b, a, b]);
}

#[test]
fn exit_switches_away_for_good() {
    let mut l = local();
    let a = l.spawn(256, TRAMPOLINE, 0xA).unwrap();
    assert!(l.start_thread(a));
    assert_eq!(l.context_switch(&mut regs()), Some((1, a)));
    assert_eq!(l.exit_current(&mut regs()), Some((a, 0)));
    assert_eq!(l.threads[a].state(), State::Dead);
    assert_eq!(l.current_thread, 0);
    assert_eq!(l.exit_current(&mut regs()), None);
}

#[test]
fn resume_requeues_blocked_thread() {
    let mut l = local();
    let a = l.spawn(256, TRAMPOLINE, 0xA).unwrap();
    l.threads[a].set_state(State::Blocked);
    assert!(l.resume_thread(a));
    assert_eq!(l.threads[a].state(), State::Ready);
    assert!(!l.resume_thread(a));
    assert_eq!(l.yield_now(&mut regs()), Some((1, a)));
}

#[test]
fn schedule_refuses_double_push() {
    let mut l = local();
    let a = l.spawn(256, TRAMPOLINE, 0xA).unwrap();
    assert!(l.schedule_thread(a));
    assert!(!l.schedule_thread(a));
    assert!(!l.schedule_thread(0));
    assert!(!l.schedule_thread(1));
}

#[test]
fn cpu_id_is_kept() {
    assert_eq!(Cpu::new(3).id(), 3);
    assert_eq!(local().cpu.id(), 0);
}

#[test]
fn idle_thread_cannot_be_joined() {
    let mut l = local();
    assert!(l.join_thread(0).is_err());
    assert!(l.join_thread(42).is_err());
    assert_eq!(l.threads[0].state(), State::Ready);
}

#[test]
fn cooperative_swap_saves_and_loads() {
    let mut stack = vec![0u8; 16];
    let mut prev = SwitchFrame::new(&mut stack, 1);
    let next = SwitchFrame { rflags: 0x202, rbx: 1, r12: 2, r13: 3, r14: 4, r15: 5, rbp: 6, rsp: 7 };
    let mut live = SwitchFrame { rflags: 0x46, rbx: 9, r12: 9, r13: 9, r14: 9, r15: 9, rbp: 9, rsp: 9 };
    let saved = live;
    prev.swap(&next, &mut live);
    assert_eq!(prev, saved);
    assert_eq!(live, next);
}

#[test]
fn context_switch_swaps_registers() {
    let mut l = local();
    let a = l.spawn(256, TRAMPOLINE, 0xA).unwrap();
    assert!(l.start_thread(a));
    let saved_a = l.threads[a].ctx;
    let mut live = SwitchFrame { rflags: 0x246, rbx: 1, r12: 2, r13: 3, r14: 4, r15: 5, rbp: 6, rsp: 7 };
    let before = live;
    assert_eq!(l.context_switch(&mut live), Some((1, a)));
    assert_eq!(l.threads[1].ctx, before);
    assert_eq!(live, saved_a);
    assert_eq!(live.rflags, INTERRUPT_FLAG);
    let mut same = live;
    assert_eq!(l.context_switch(&mut same), None);
    assert_eq!(same, live);
}
