use hydroxide::context::arch::{CPUSnapshot, Context as SavedState, InterruptFrame, LiveRegisters, DEFINED_FLAGS};
use hydroxide::context::context::{Context, Status};
use hydroxide::context::context_list::{ContextList, CONTEXT_MAX_CONTEXTS};
use hydroxide::context::switch::{next_runnable, runnable};

const TRAMPOLINE: u64 = 0xAABB_CCDD_0011_2233;

fn frame() -> InterruptFrame {
    InterruptFrame { instruction_pointer: 0x4000, stack_pointer: 0x5000 }
}

fn live() -> LiveRegisters {
    LiveRegisters { rsp: 40, rbp: 0x5100, rflags: 0x46 }
}

#[test]
fn context_new_is_blocked_and_seeded() {
    let c = Context::new(4, 64, TRAMPOLINE, 9);
    assert_eq!(c.id, 4);
    assert_eq!(c.status, Status::Blocked);
    assert!(!c.running);
    assert_eq!(c.ctx.snapshot.rsp, 56);
    assert_eq!(&c.stack[56..64], &TRAMPOLINE.to_le_bytes());
}

#[test]
fn block_and_unblock_are_checked() {
    let mut c = Context::new(1, 64, TRAMPOLINE, 9);
    assert!(!c.block());
    assert!(c.unblock());
    assert_eq!(c.status, Status::Runnable);
    assert!(!c.unblock());
    assert!(c.block());
    assert_eq!(c.status, Status::Blocked);
    c.status = Status::Stopped(3);
    assert!(!c.block());
    assert!(!c.unblock());
}

#[test]
fn identities_are_handed_out_in_order() {
    let mut l = ContextList::new();
    assert_eq!(l.new_context(64, TRAMPOLINE, 1), Ok(0));
    assert_eq!(l.new_context(64, TRAMPOLINE, 2), Ok(1));
    assert_eq!(l.new_context(64, TRAMPOLINE, 3), Ok(2));
    assert_eq!(l.len(), 3);
    assert!(l.contains_id(2));
    assert!(!l.contains_id(3));
    assert_eq!(l.get(1).unwrap().func, 2);
}

#[test]
fn registry_full_reports_capacity_error() {
    let max = 4;
    let mut l = ContextList::with_max(max);
    for expected in 0..max {
        assert_eq!(l.new_context(64, TRAMPOLINE, 0), Ok(expected));
    }
    assert!(l.new_context(64, TRAMPOLINE, 0).is_err());
    assert_eq!(l.len(), max);
    assert!(l.new_context(64, TRAMPOLINE, 0).is_err());
}

#[test]
fn identities_stay_unique() {
    let mut l = ContextList::with_max(16);
    let mut ids = Vec::new();
    for _ in 0..16 {
        if let Ok(id) = l.new_context(32, TRAMPOLINE, 0) {
            assert!(!ids.contains(&id));
            ids.push(id);
        }
    }
    assert_eq!(ids.len(), 16);
}

#[test]
fn default_ceiling() {
    assert_eq!(CONTEXT_MAX_CONTEXTS, (isize::MAX as usize) - 1);
}

#[test]
fn current_is_boot_context() {
    let mut l = ContextList::new();
    assert!(l.current().is_none());
    l.new_context(64, TRAMPOLINE, 0).unwrap();
    assert_eq!(l.current().unwrap().id, 0);
    assert_eq!(l.current_id(), 0);
}

#[test]
fn scan_prefers_above_then_wraps() {
    let mut cs = Vec::new();
    for id in [5usize, 2, 9, 7] {
        let mut c = Context::new(id, 64, TRAMPOLINE, 0);
        c.status = Status::Runnable;
        cs.push(c);
    }
    assert!(runnable(&cs[0]));
    assert_eq!(next_runnable(&cs, 5), Some(3));
    assert_eq!(next_runnable(&cs, 7), Some(2));
    assert_eq!(next_runnable(&cs, 9), Some(1));
    cs[1].running = true;
    assert_eq!(next_runnable(&cs, 9), Some(0));
    for c in cs.iter_mut() {
        c.status = Status::Blocked;
    }
    assert_eq!(next_runnable(&cs, 9), None);
}

#[test]
fn switch_with_nothing_runnable_is_noop() {
    let mut l = ContextList::new();
    l.new_context(64, TRAMPOLINE, 0).unwrap();
    l.new_context(64, TRAMPOLINE, 0).unwrap();
    let mut f = frame();
    let mut r = live();
    assert!(!l.switch(&mut f, &mut r));
    assert_eq!(f, frame());
    assert_eq!(r, live());
    assert_eq!(l.current_id(), 0);
}

#[test]
fn switch_rewrites_frame_and_forces_interrupts() {
    let mut l = ContextList::new();
    l.new_context(64, TRAMPOLINE, 0).unwrap();
    l.new_context(64, TRAMPOLINE, 0).unwrap();
    assert!(l.unblock(1));
    let mut f = frame();
    let mut r = live();
    assert!(l.switch(&mut f, &mut r));
    assert_eq!(l.current_id(), 1);
    let to = l.get(1).unwrap();
    assert!(to.running);
    assert_eq!(to.ctx.snapshot.rsp, 48);
    assert_eq!(&to.stack[48..56], &0x4000u64.to_le_bytes());
    assert_eq!(f, InterruptFrame { instruction_pointer: 0, stack_pointer: 48 });
    assert_eq!(r.rflags, (0x46 & DEFINED_FLAGS) | 0x200);
    assert_eq!(to.ctx.rflags, r.rflags);
    let from = l.get(0).unwrap();
    assert!(!from.running);
    assert_eq!(from.ctx.rip, 0x4000);
    assert_eq!(from.ctx.snapshot.rsp, 40);
    assert_eq!(from.ctx.snapshot.rbp, 0x5100);
    assert_eq!(from.ctx.rflags, 0x46);
}

#[test]
fn saved_state_keeps_set_stack() {
    let mut s = SavedState::new(CPUSnapshot::zeroed());
    s.set_stack(0x1234);
    assert_eq!(s.snapshot.rsp, 0x1234);
    assert_eq!(s.rip, 0);
    let mut stack = vec![0u8; 16];
    s.set_stack(16);
    s.push_stack(&mut stack, 0xFF);
    assert_eq!(s.snapshot.rsp, 8);
    assert_eq!(stack[8], 0xFF);
}

#[test]
fn two_contexts_interleave_under_timer_ticks() {
    let mut l = ContextList::new();
    let boot = l.new_context(256, TRAMPOLINE, 0).unwrap();
    let a = l.new_context(256, TRAMPOLINE, 0xA).unwrap();
    let b = l.new_context(256, TRAMPOLINE, 0xB).unwrap();
    assert!(l.unblock(a));
    assert!(l.unblock(b));
    let mut output = String::new();
    let mut current = l.current_id();
    assert_eq!(current, boot);
    let mut f = frame();
    let mut r = live();
    for _ in 0..100 {
        let id = l.current_id();
        if id == a {
            output.push('A');
        } else if id == b {
            output.push('B');
        }
        // The running context's stack pointer, as an offset into its stack.
        r.rsp = 200;
        let switched = l.switch(&mut f, &mut r);
        if !switched {
            assert_eq!(l.current_id(), current);
        } else {
            assert_ne!(l.current_id(), current);
        }
        current = l.current_id();
    }
    assert!(output.contains('A'));
    assert!(output.contains('B'));
    assert!(output.contains("AB") || output.contains("BA"));
}

#[test]
fn exit_stops_context_and_switches() {
    let mut l = ContextList::new();
    l.new_context(64, TRAMPOLINE, 0).unwrap();
    let a = l.new_context(64, TRAMPOLINE, 0xA).unwrap();
    assert!(l.unblock(a));
    let mut f = frame();
    let mut r = live();
    assert!(l.switch(&mut f, &mut r));
    assert_eq!(l.current_id(), a);
    assert!(!l.exit(&mut f, &mut r));
    assert_eq!(l.get(a).unwrap().status, Status::Stopped(0));
    assert!(l.unblock(0) && l.block(0));
    let b = l.new_context(64, TRAMPOLINE, 0xB).unwrap();
    assert!(l.unblock(b));
    assert!(l.exit(&mut f, &mut r));
    assert_eq!(l.current_id(), b);
}

#[test]
fn identities_wrap_around_to_free_ones() {
    let mut l = ContextList::with_max(3);
    assert_eq!(l.new_context(64, TRAMPOLINE, 0), Ok(0));
    assert_eq!(l.new_context(64, TRAMPOLINE, 0), Ok(1));
    assert_eq!(l.new_context(64, TRAMPOLINE, 0), Ok(2));
    assert!(l.new_context(64, TRAMPOLINE, 0).is_err());
    assert!(l.unblock(1));
    let mut f = frame();
    let mut r = live();
    assert!(l.switch(&mut f, &mut r));
    assert_eq!(l.current_id(), 1);
    assert!(!l.reclaim(1));
    r.rsp = 40;
    assert!(!l.exit(&mut f, &mut r));
    assert!(l.unblock(2));
    assert!(l.exit(&mut f, &mut r));
    assert_eq!(l.current_id(), 2);
    assert!(!l.reclaim(0));
    assert!(l.reclaim(1));
    assert!(!l.contains_id(1));
    assert_eq!(l.new_context(64, TRAMPOLINE, 0), Ok(1));
    assert!(l.new_context(64, TRAMPOLINE, 0).is_err());
    // The counter is now 2 and identity 2 is taken: a free 1 is still found.
    assert!(l.unblock(1));
    assert!(l.switch(&mut f, &mut r));
    assert_eq!(l.current_id(), 1);
    assert!(l.exit(&mut f, &mut r));
    assert_eq!(l.current_id(), 2);
    assert!(l.reclaim(1));
    assert_eq!(l.new_context(64, TRAMPOLINE, 0), Ok(1));
}
