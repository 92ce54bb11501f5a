use vstd::prelude::*;

use super::arch;
use super::arch::{resume_flags, CPUSnapshot, InterruptFrame, LiveRegisters};
use crate::arch::context::word_written;
use super::context::{Context, Status};
use super::switch::{any_other_runnable, is_next_runnable, next_runnable, runnable_spec};

verus! {

/// The default ceiling on context identities.
pub const CONTEXT_MAX_CONTEXTS: usize = usize::MAX / 2 - 1;

/// Some context in `s` has identity `id`.
pub open spec fn has_id(s: Seq<Context>, id: usize) -> bool {
    exists|i: int| 0 <= i < s.len() && (#[trigger] s[i]).id == id
}

/// Where the search for a free identity starts: the next identity, or 1
/// once the counter has reached the ceiling.
pub open spec fn scan_start(next_id: usize, max: usize) -> usize {
    if next_id >= max { 1 } else { next_id }
}

/// Every identity in `[from, to)` is taken.
pub open spec fn all_taken(s: Seq<Context>, from: int, to: int) -> bool {
    forall|k: usize| from <= k < to ==> #[trigger] has_id(s, k)
}

/// The saved stack pointer of a context that is not executing lies in its
/// stack, with room for the word a switch pushes onto it.
pub open spec fn stack_ok(c: Context) -> bool {
    8 <= c.ctx.snapshot.rsp <= c.stack@.len()
}

/// The live stack pointer lies in the stack of the executing context `cur`,
/// with room for one word.
pub open spec fn live_ok(s: Seq<Context>, cur: usize, lv: LiveRegisters) -> bool {
    forall|i: int| 0 <= i < s.len() && (#[trigger] s[i]).id == cur ==> 8 <= lv.rsp <= s[i].stack@.len()
}

/// The registry `s` with the context `cur` marked stopped.
pub open spec fn stopped(s: Seq<Context>, cur: usize) -> Seq<Context> {
    Seq::new(s.len(), |i: int| if s[i].id == cur { Context { status: Status::Stopped(0), ..s[i] } } else { s[i] })
}

/// The CPU went from `s[f]`, the executing context `cur`, to `s[t]`: the
/// outgoing context saved the trapped instruction pointer and the live
/// stack pointer, frame pointer and flags; the incoming one had the
/// trapped instruction pointer pushed onto its stack, and the frame and
/// live registers now resume it with interrupts enabled.
pub open spec fn handed_over(
    s: Seq<Context>,
    cur: usize,
    fr: InterruptFrame,
    lv: LiveRegisters,
    s2: Seq<Context>,
    cur2: usize,
    fr2: InterruptFrame,
    lv2: LiveRegisters,
    f: int,
    t: int,
) -> bool {
    let from = s[f];
    let to = s[t];
    let flags = resume_flags(to.ctx.rflags, lv.rflags);
    let rsp = (to.ctx.snapshot.rsp - 8) as u64;
    &&& 0 <= f < s.len()
    &&& from.id == cur
    &&& is_next_runnable(s, cur, t)
    &&& s2.len() == s.len()
    &&& cur2 == to.id
    &&& s2[f] == (Context {
        running: false,
        ctx: arch::Context {
            rip: fr.instruction_pointer,
            rflags: lv.rflags,
            snapshot: CPUSnapshot { rsp: lv.rsp, rbp: lv.rbp, ..from.ctx.snapshot },
        },
        ..from
    })
    &&& s2[t].ctx == (arch::Context { rip: to.ctx.rip, rflags: flags, snapshot: CPUSnapshot { rsp, ..to.ctx.snapshot } })
    &&& word_written(to.stack@, s2[t].stack@, rsp as int, fr.instruction_pointer)
    &&& s2[t].running && s2[t].id == to.id && s2[t].status == to.status && s2[t].func == to.func
    &&& fr2 == (InterruptFrame { instruction_pointer: to.ctx.rip, stack_pointer: rsp })
    &&& lv2 == (LiveRegisters { rsp: lv.rsp, rbp: to.ctx.snapshot.rbp, rflags: flags })
    &&& forall|k: int| 0 <= k < s.len() && k != f && k != t ==> #[trigger] s2[k] == s[k]
}

/// What the registry-scan switch does: with another context runnable it
/// hands the CPU over to the next one by identity; otherwise nothing
/// changes.
pub open spec fn switch_outcome(
    s: Seq<Context>,
    cur: usize,
    fr: InterruptFrame,
    lv: LiveRegisters,
    s2: Seq<Context>,
    cur2: usize,
    fr2: InterruptFrame,
    lv2: LiveRegisters,
    r: bool,
) -> bool {
    &&& r == any_other_runnable(s, cur)
    &&& !r ==> s2 == s && cur2 == cur && fr2 == fr && lv2 == lv
    &&& r ==> exists|f: int, t: int|
        #![trigger s[f], is_next_runnable(s, cur, t)]
        handed_over(s, cur, fr, lv, s2, cur2, fr2, lv2, f, t)
}

/// The registry: the contexts it owns, the identity counter, the ceiling
/// and the identity of the context now executing.
pub struct ContextList {
    map: Vec<Context>,
    next_id: usize,
    max: usize,
    current_id: usize,
}

impl ContextList {
    pub closed spec fn contexts(&self) -> Seq<Context> {
        self.map@
    }

    pub closed spec fn next_id_spec(&self) -> usize {
        self.next_id
    }

    pub closed spec fn max_spec(&self) -> usize {
        self.max
    }

    pub closed spec fn current_spec(&self) -> usize {
        self.current_id
    }

    /// Identities are unique and below the ceiling, and only the current
    /// context is marked as executing.
    pub open spec fn wf(&self) -> bool {
        &&& forall|i: int, j: int| 0 <= i < j < self.contexts().len() ==> self.contexts()[i].id != self.contexts()[j].id
        &&& forall|i: int| 0 <= i < self.contexts().len() ==> (#[trigger] self.contexts()[i]).id < self.max_spec()
        &&& forall|i: int| 0 <= i < self.contexts().len() && (#[trigger] self.contexts()[i]).running
            ==> self.contexts()[i].id == self.current_spec()
        &&& forall|i: int| 0 <= i < self.contexts().len() && (#[trigger] self.contexts()[i]).id != self.current_spec()
            ==> stack_ok(self.contexts()[i])
    }

    /// An empty registry with the default ceiling.
    pub fn new() -> (r: ContextList)
        ensures
            r.wf(),
            r.contexts() == Seq::<Context>::empty(),
            r.next_id_spec() == 0,
            r.current_spec() == 0,
            r.max_spec() == CONTEXT_MAX_CONTEXTS,
    {
        ContextList::with_max(CONTEXT_MAX_CONTEXTS)
    }

    /// An empty registry whose identities stay below `max`.
    pub fn with_max(max: usize) -> (r: ContextList)
        ensures
            r.wf(),
            r.contexts() == Seq::<Context>::empty(),
            r.next_id_spec() == 0,
            r.current_spec() == 0,
            r.max_spec() == max,
    {
        ContextList { map: Vec::new(), next_id: 0, max, current_id: 0 }
    }

    pub fn len(&self) -> (r: usize)
        ensures
            r == self.contexts().len(),
    {
        self.map.len()
    }

    /// The identity of the executing context.
    pub fn current_id(&self) -> (r: usize)
        ensures
            r == self.current_spec(),
    {
        self.current_id
    }

    /// Position of the context with identity `id`.
    fn find(&self, id: usize) -> (r: Option<usize>)
        ensures
            r.is_none() <==> !has_id(self.contexts(), id),
            r matches Some(i) ==> i < self.contexts().len() && self.contexts()[i as int].id == id,
    {
        let n = self.map.len();
        let mut i: usize = 0;
        while i < n
            invariant
                n == self.map@.len(),
                0 <= i <= n,
                forall|j: int| 0 <= j < i ==> (#[trigger] self.map@[j]).id != id,
            decreases n - i,
        {
            if self.map[i].id == id {
                return Some(i);
            }
            i = i + 1;
        }
        None
    }

    pub fn contains_id(&self, id: usize) -> (r: bool)
        ensures
            r == has_id(self.contexts(), id),
    {
        self.find(id).is_some()
    }

    /// The context with identity `id`.
    pub fn get(&self, id: usize) -> (r: Option<&Context>)
        ensures
            r.is_none() <==> !has_id(self.contexts(), id),
            r matches Some(c) ==> c.id == id && self.contexts().contains(*c),
    {
        match self.find(id) {
            Some(i) => {
                assert(self.contexts()[i as int] == self.map@[i as int]);
                Some(&self.map[i])
            },
            None => None,
        }
    }

    /// The context now executing.
    pub fn current(&self) -> (r: Option<&Context>)
        ensures
            r.is_none() <==> !has_id(self.contexts(), self.current_spec()),
            r matches Some(c) ==> c.id == self.current_spec() && self.contexts().contains(*c),
    {
        self.get(self.current_id)
    }

    /// Registers a new, blocked context under the first free identity at
    /// or after the counter (which restarts at 1 once it reaches the
    /// ceiling), wrapping around to 1 when none is free up to the ceiling.
    /// Fails only when that full scan finds every identity taken.
    pub fn new_context(&mut self, stack_size: usize, trampoline: u64, func: u64) -> (r: Result<usize, &'static str>)
        requires
            old(self).wf(),
            16 <= stack_size,
        ensures
            final(self).wf(),
            final(self).max_spec() == old(self).max_spec(),
            final(self).current_spec() == old(self).current_spec(),
            r.is_err() <==> ({
                let start = scan_start(old(self).next_id_spec(), old(self).max_spec());
                &&& all_taken(old(self).contexts(), start as int, old(self).max_spec() as int)
                &&& all_taken(old(self).contexts(), 1, start as int)
            }),
            r.is_err() ==> final(self).contexts() == old(self).contexts(),
            r matches Ok(id) ==> {
                let start = scan_start(old(self).next_id_spec(), old(self).max_spec());
                &&& id < old(self).max_spec()
                &&& !has_id(old(self).contexts(), id)
                &&& ({
                    ||| start <= id && all_taken(old(self).contexts(), start as int, id as int)
                    ||| (all_taken(old(self).contexts(), start as int, old(self).max_spec() as int) && 1 <= id < start
                        && all_taken(old(self).contexts(), 1, id as int))
                })
                &&& final(self).next_id_spec() == id + 1
                &&& final(self).contexts().len() == old(self).contexts().len() + 1
                &&& final(self).contexts().take(old(self).contexts().len() as int) == old(self).contexts()
                &&& final(self).contexts().last().id == id
                &&& final(self).contexts().last().status == Status::Blocked
                &&& !final(self).contexts().last().running
                &&& final(self).contexts().last().func == func
                &&& final(self).contexts().last().stack@.len() == stack_size
            },
    {
        if self.next_id >= self.max {
            self.next_id = 1;
        }
        let start = self.next_id;
        while self.next_id < self.max && self.contains_id(self.next_id)
            invariant
                self.wf(),
                self.map@ == old(self).map@,
                self.max == old(self).max,
                self.current_id == old(self).current_id,
                start == scan_start(old(self).next_id, old(self).max),
                start <= self.next_id,
                self.next_id <= self.max || self.next_id == start,
                all_taken(self.map@, start as int, self.next_id as int),
            decreases self.max - self.next_id,
        {
            proof {
                let i = choose|i: int| 0 <= i < self.map@.len() && (#[trigger] self.map@[i]).id == self.next_id;
                assert forall|k: usize| start <= k < self.next_id + 1 implies #[trigger] has_id(self.map@, k) by {
                    if k == self.next_id {
                        assert(self.map@[i].id == k);
                    }
                }
            }
            self.next_id = self.next_id + 1;
        }
        if self.next_id >= self.max {
            proof {
                assert forall|k: usize| start <= k < self.max implies #[trigger] has_id(self.map@, k) by {
                    assert(k < self.next_id);
                }
            }
            self.next_id = 1;
            while self.next_id < start && self.contains_id(self.next_id)
                invariant
                    self.wf(),
                    self.map@ == old(self).map@,
                    self.max == old(self).max,
                    self.current_id == old(self).current_id,
                    start == scan_start(old(self).next_id, old(self).max),
                    all_taken(self.map@, start as int, self.max as int),
                    1 <= self.next_id,
                    self.next_id <= start || self.next_id == 1,
                    all_taken(self.map@, 1, self.next_id as int),
                decreases start - self.next_id,
            {
                proof {
                    let i = choose|i: int| 0 <= i < self.map@.len() && (#[trigger] self.map@[i]).id == self.next_id;
                    assert forall|k: usize| 1 <= k < self.next_id + 1 implies #[trigger] has_id(self.map@, k) by {
                        if k == self.next_id {
                            assert(self.map@[i].id == k);
                        }
                    }
                }
                self.next_id = self.next_id + 1;
            }
            if self.next_id >= start {
                proof {
                    assert forall|k: usize| 1 <= k < start implies #[trigger] has_id(self.map@, k) by {
                        assert(k < self.next_id);
                    }
                }
                return Err("Could not create context");
            }
        }
        let id = self.next_id;
        proof {
            assert(id < self.max);
            assert(!has_id(self.map@, id));
        }
        self.next_id = self.next_id + 1;
        let ctx = Context::new(id, stack_size, trampoline, func);
        let ghost m0 = self.map@;
        self.map.push(ctx);
        proof {
            assert(self.map@.take(m0.len() as int) =~= m0);
            assert forall|i: int, j: int| 0 <= i < j < self.map@.len() implies self.map@[i].id != self.map@[j].id by {
                if j == m0.len() {
                    assert(self.map@[i] == m0[i]);
                }
            }
            assert forall|i: int| 0 <= i < self.map@.len() && (#[trigger] self.map@[i]).id != self.current_id
                implies stack_ok(self.map@[i]) by {
                if i < m0.len() {
                    assert(self.map@[i] == m0[i]);
                }
            }
        }
        Ok(id)
    }

    /// Removes a stopped context other than the executing one, freeing
    /// its identity for reuse.
    pub fn reclaim(&mut self, id: usize) -> (r: bool)
        requires
            old(self).wf(),
        ensures
            final(self).wf(),
            final(self).next_id_spec() == old(self).next_id_spec(),
            final(self).max_spec() == old(self).max_spec(),
            final(self).current_spec() == old(self).current_spec(),
            r == (id != old(self).current_spec() && exists|i: int| 0 <= i < old(self).contexts().len()
                && (#[trigger] old(self).contexts()[i]).id == id && old(self).contexts()[i].status is Stopped),
            r ==> exists|i: int| 0 <= i < old(self).contexts().len() && (#[trigger] old(self).contexts()[i]).id == id
                && final(self).contexts() == old(self).contexts().remove(i),
            !r ==> final(self).contexts() == old(self).contexts(),
            !has_id(final(self).contexts(), id) || !r,
    {
        if id == self.current_id {
            return false;
        }
        match self.find(id) {
            Some(i) => {
                if matches!(self.map[i].status, Status::Stopped(_)) {
                    let ghost s0 = self.map@;
                    let _ = self.map.remove(i);
                    proof {
                        assert(self.map@ == s0.remove(i as int));
                        assert forall|a: int, b: int| 0 <= a < b < self.map@.len() implies self.map@[a].id != self.map@[b].id by {
                            let a0 = if a < i { a } else { a + 1 };
                            let b0 = if b < i { b } else { b + 1 };
                            assert(self.map@[a] == s0[a0] && self.map@[b] == s0[b0]);
                        }
                        assert forall|k: int| 0 <= k < self.map@.len() implies #[trigger] s0.contains(self.map@[k]) by {
                            let k0 = if k < i { k } else { k + 1 };
                            assert(self.map@[k] == s0[k0]);
                        }
                        if has_id(self.map@, id) {
                            let k = choose|k: int| 0 <= k < self.map@.len() && (#[trigger] self.map@[k]).id == id;
                            let k0 = if k < i { k } else { k + 1 };
                            assert(self.map@[k] == s0[k0]);
                            if k0 < i {
                                assert(s0[k0].id != s0[i as int].id);
                            } else {
                                assert(s0[i as int].id != s0[k0].id);
                            }
                        }
                    }
                    true
                } else {
                    proof {
                        assert forall|k: int| 0 <= k < self.map@.len() && (#[trigger] self.map@[k]).id == id
                            implies !(self.map@[k].status is Stopped) by {
                            if k != i {
                                if k < i {
                                    assert(self.map@[k].id != self.map@[i as int].id);
                                } else {
                                    assert(self.map@[i as int].id != self.map@[k].id);
                                }
                            }
                        }
                    }
                    false
                }
            },
            None => false,
        }
    }

    /// Suspends the runnable context with identity `id`.
    pub fn block(&mut self, id: usize) -> (r: bool)
        requires
            old(self).wf(),
        ensures
            final(self).wf(),
            final(self).next_id_spec() == old(self).next_id_spec(),
            final(self).max_spec() == old(self).max_spec(),
            final(self).current_spec() == old(self).current_spec(),
            final(self).contexts().len() == old(self).contexts().len(),
            r == exists|i: int| 0 <= i < old(self).contexts().len() && (#[trigger] old(self).contexts()[i]).id == id
                && old(self).contexts()[i].status == Status::Runnable,
            forall|i: int| 0 <= i < old(self).contexts().len() ==> (#[trigger] final(self).contexts()[i]) == (
                if r && old(self).contexts()[i].id == id {
                    Context { status: Status::Blocked, ..old(self).contexts()[i] }
                } else {
                    old(self).contexts()[i]
                }),
    {
        match self.find(id) {
            Some(i) => {
                let r = self.map[i].block();
                proof {
                    if r {
                        assert(old(self).contexts()[i as int].status == Status::Runnable);
                    } else {
                        assert forall|k: int| 0 <= k < old(self).contexts().len()
                            && (#[trigger] old(self).contexts()[k]).id == id
                            implies old(self).contexts()[k].status != Status::Runnable by {
                            assert(k == i);
                        }
                    }
                }
                r
            },
            None => false,
        }
    }

    /// Makes the blocked context with identity `id` runnable.
    pub fn unblock(&mut self, id: usize) -> (r: bool)
        requires
            old(self).wf(),
        ensures
            final(self).wf(),
            final(self).next_id_spec() == old(self).next_id_spec(),
            final(self).max_spec() == old(self).max_spec(),
            final(self).current_spec() == old(self).current_spec(),
            final(self).contexts().len() == old(self).contexts().len(),
            r == exists|i: int| 0 <= i < old(self).contexts().len() && (#[trigger] old(self).contexts()[i]).id == id
                && old(self).contexts()[i].status == Status::Blocked,
            forall|i: int| 0 <= i < old(self).contexts().len() ==> (#[trigger] final(self).contexts()[i]) == (
                if r && old(self).contexts()[i].id == id {
                    Context { status: Status::Runnable, ..old(self).contexts()[i] }
                } else {
                    old(self).contexts()[i]
                }),
    {
        match self.find(id) {
            Some(i) => {
                let r = self.map[i].unblock();
                proof {
                    if r {
                        assert(old(self).contexts()[i as int].status == Status::Blocked);
                    } else {
                        assert forall|k: int| 0 <= k < old(self).contexts().len()
                            && (#[trigger] old(self).contexts()[k]).id == id
                            implies old(self).contexts()[k].status != Status::Blocked by {
                            assert(k == i);
                        }
                    }
                }
                r
            },
            None => false,
        }
    }

    /// The registry-scan switch, run from the timer interrupt. Picks the
    /// runnable context with the smallest identity above the current one,
    /// else the smallest below it, and hands the CPU over by rewriting the
    /// trapped frame. Nothing changes when no other context is runnable.
    pub fn switch(&mut self, frame: &mut InterruptFrame, live: &mut LiveRegisters) -> (r: bool)
        requires
            old(self).wf(),
            has_id(old(self).contexts(), old(self).current_spec()),
            live_ok(old(self).contexts(), old(self).current_spec(), *old(live)),
        ensures
            final(self).wf(),
            final(self).next_id_spec() == old(self).next_id_spec(),
            final(self).max_spec() == old(self).max_spec(),
            switch_outcome(old(self).contexts(), old(self).current_spec(), *old(frame), *old(live),
                final(self).contexts(), final(self).current_spec(), *final(frame), *final(live), r),
    {
        let f = self.find(self.current_id).unwrap();
        let t = match next_runnable(&self.map, self.current_id) {
            Some(t) => t,
            None => {
                return false;
            },
        };
        let ghost s = self.map@;
        let ghost fr0 = *frame;
        let ghost lv0 = *live;
        proof {
            assert(s[t as int].id != self.current_id);
            assert(stack_ok(s[t as int]));
        }
        self.map[f].running = false;
        self.map[t].running = true;
        self.current_id = self.map[t].id;
        let mut from_ctx = self.map[f].ctx;
        let mut to_ctx = self.map[t].ctx;
        from_ctx.switch_to(&mut to_ctx, &mut self.map[t].stack, frame, live);
        self.map[f].ctx = from_ctx;
        self.map[t].ctx = to_ctx;
        proof {
            assert(f != t);
            assert forall|k: int| 0 <= k < s.len() && k != f && k != t implies #[trigger] self.map@[k] == s[k] by {}
            assert forall|k: int| 0 <= k < self.map@.len() && (#[trigger] self.map@[k]).running
                implies self.map@[k].id == self.current_id by {
                if k != f && k != t {
                    assert(self.map@[k] == s[k]);
                    assert(s[k].id == s[f as int].id);
                }
            }
            assert forall|k: int| 0 <= k < self.map@.len() && (#[trigger] self.map@[k]).id != self.current_id
                implies stack_ok(self.map@[k]) by {
                if k == f {
                    assert(s[f as int].id == old(self).current_id);
                } else if k != t {
                    assert(self.map@[k] == s[k]);
                    if s[k].id == old(self).current_id {
                        assert(s[k].id == s[f as int].id);
                    }
                }
            }
            assert(handed_over(s, old(self).current_id, fr0, lv0, self.map@, self.current_id, *frame, *live,
                f as int, t as int));
        }
        true
    }

    /// Ends the executing context: it is marked stopped, then the CPU is
    /// handed over as `switch` does. Returns whether a switch happened.
    pub fn exit(&mut self, frame: &mut InterruptFrame, live: &mut LiveRegisters) -> (r: bool)
        requires
            old(self).wf(),
            has_id(old(self).contexts(), old(self).current_spec()),
            live_ok(old(self).contexts(), old(self).current_spec(), *old(live)),
        ensures
            final(self).wf(),
            final(self).next_id_spec() == old(self).next_id_spec(),
            final(self).max_spec() == old(self).max_spec(),
            switch_outcome(stopped(old(self).contexts(), old(self).current_spec()), old(self).current_spec(),
                *old(frame), *old(live), final(self).contexts(), final(self).current_spec(), *final(frame),
                *final(live), r),
    {
        let f = self.find(self.current_id).unwrap();
        let ghost s0 = self.map@;
        self.map[f].status = Status::Stopped(0);
        proof {
            assert forall|i: int| 0 <= i < s0.len() && s0[i].id == self.current_id implies i == f by {
                if i != f {
                    if i < f {
                        assert(s0[i].id != s0[f as int].id);
                    } else {
                        assert(s0[f as int].id != s0[i].id);
                    }
                }
            }
            assert(self.map@ =~= stopped(s0, self.current_id));
            assert forall|i: int, j: int| 0 <= i < j < self.map@.len() implies self.map@[i].id != self.map@[j].id by {
                assert(s0[i].id != s0[j].id);
            }
            assert(has_id(self.map@, self.current_id)) by {
                assert(self.map@[f as int].id == self.current_id);
            }
            assert forall|i: int| 0 <= i < self.map@.len() && (#[trigger] self.map@[i]).id == self.current_id
                implies 8 <= live.rsp <= self.map@[i].stack@.len() by {
                assert(s0[i].id == self.current_id);
            }
            assert forall|i: int| 0 <= i < self.map@.len() && (#[trigger] self.map@[i]).id != self.current_id
                implies stack_ok(self.map@[i]) by {
                assert(s0[i].id != self.current_id);
            }
        }
        self.switch(frame, live)
    }
}

/// No two contexts the registry holds at once share an identity; every
/// identity `new_context` hands out is one no live context holds.
pub proof fn lemma_identities_unique(l: &ContextList, i: int, j: int)
    requires
        l.wf(),
        0 <= i < l.contexts().len(),
        0 <= j < l.contexts().len(),
        i != j,
    ensures
        l.contexts()[i].id != l.contexts()[j].id,
{
    if i > j {
        assert(l.contexts()[j].id != l.contexts()[i].id);
    }
}

/// At any moment at most one registered context is marked as executing.
pub proof fn lemma_one_executing(l: &ContextList, i: int, j: int)
    requires
        l.wf(),
        0 <= i < l.contexts().len(),
        0 <= j < l.contexts().len(),
        l.contexts()[i].running,
        l.contexts()[j].running,
    ensures
        i == j,
{
    if i != j {
        lemma_identities_unique(l, i, j);
    }
}

} // verus!
