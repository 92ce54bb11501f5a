use vstd::prelude::*;

use super::mpsc::IntrusiveMpsc;
use super::thread::{is_edge, State, Thread};

verus! {

/// Position in `q` of the first thread that is `Ready`, or `q.len()`.
pub open spec fn ready_pos(threads: Seq<Thread>, q: Seq<usize>) -> nat
    decreases q.len(),
{
    if q.len() == 0 {
        0
    } else if threads[q[0] as int].state == State::Ready {
        0
    } else {
        1 + ready_pos(threads, q.drop_first())
    }
}

/// How many entries a switch takes off the queue.
pub open spec fn drained(threads: Seq<Thread>, q: Seq<usize>) -> nat {
    let k = ready_pos(threads, q);
    if k < q.len() { k + 1 } else { q.len() }
}

/// The thread a switch hands the CPU to: the first queued `Ready` thread;
/// with none, nothing when the current thread is still running, else the
/// idle thread.
pub open spec fn switch_target(threads: Seq<Thread>, q: Seq<usize>, current: usize, idle: usize) -> Option<usize> {
    let k = ready_pos(threads, q);
    if k < q.len() {
        Some(q[k as int])
    } else if threads[current as int].state == State::Running {
        None
    } else {
        Some(idle)
    }
}

/// The state of thread `i` after a switch.
pub open spec fn state_after_switch(threads: Seq<Thread>, q: Seq<usize>, current: usize, idle: usize, i: int) -> State {
    let t = switch_target(threads, q, current, idle);
    if t == Some(i as usize) {
        State::Running
    } else if i == current && t.is_some() && threads[current as int].state == State::Running {
        State::Ready
    } else if q.take(drained(threads, q) as int).contains(i as usize) && threads[i].state == State::Killable {
        State::Dead
    } else {
        threads[i].state
    }
}

/// The run queue after a switch: what was not drained, then the outgoing
/// thread when it was running and is not the idle thread.
pub open spec fn queue_after_switch(threads: Seq<Thread>, q: Seq<usize>, current: usize, idle: usize) -> Seq<usize> {
    let rest = q.skip(drained(threads, q) as int);
    if switch_target(threads, q, current, idle).is_some() && threads[current as int].state == State::Running
        && current != idle {
        rest.push(current)
    } else {
        rest
    }
}

/// The threads, the run queue, the running thread and the idle thread
/// agree: queue links match queue membership, no thread is queued twice,
/// the running and the idle thread are not queued, only the current
/// thread runs, and the idle thread is ready whenever it is not running.
pub open spec fn sched_wf(threads: Seq<Thread>, q: Seq<usize>, current: usize, idle: usize) -> bool {
    &&& current < threads.len()
    &&& idle < threads.len()
    &&& forall|j: int| 0 <= j < q.len() ==> q[j] < threads.len()
    &&& q.no_duplicates()
    &&& forall|i: int| 0 <= i < threads.len() ==> (#[trigger] threads[i].queued <==> q.contains(i as usize))
    &&& !threads[current as int].queued
    &&& !threads[idle as int].queued
    &&& forall|i: int| 0 <= i < threads.len() && #[trigger] threads[i].state == State::Running ==> i == current
    &&& (threads[idle as int].state == State::Ready
        || (idle == current && threads[idle as int].state == State::Running))
}

/// Everything but the state and the queue link is left alone.
pub open spec fn same_but_state(a: Thread, b: Thread) -> bool {
    a.ctx == b.ctx && a.stack == b.stack && a.func == b.func
}

proof fn lemma_push_contains(s: Seq<usize>, h: usize, x: usize)
    ensures
        s.push(h).contains(x) == (s.contains(x) || x == h),
{
    if x == h {
        assert(s.push(h)[s.len() as int] == h);
    }
    if s.contains(x) {
        let m = choose|m: int| 0 <= m < s.len() && s[m] == x;
        assert(s.push(h)[m] == x);
    }
    if s.push(h).contains(x) {
        let m = choose|m: int| 0 <= m < s.len() + 1 && s.push(h)[m] == x;
        if m < s.len() {
            assert(s[m] == x);
        }
    }
}

proof fn lemma_ready_pos_props(threads: Seq<Thread>, q: Seq<usize>)
    ensures
        ready_pos(threads, q) <= q.len(),
        forall|m: int| 0 <= m < ready_pos(threads, q) ==> threads[#[trigger] q[m] as int].state != State::Ready,
        ready_pos(threads, q) < q.len() ==> threads[q[ready_pos(threads, q) as int] as int].state == State::Ready,
    decreases q.len(),
{
    if q.len() > 0 && threads[q[0] as int].state != State::Ready {
        let t = q.drop_first();
        lemma_ready_pos_props(threads, t);
        assert forall|m: int| 0 <= m < ready_pos(threads, q) implies threads[#[trigger] q[m] as int].state
            != State::Ready by {
            if m > 0 {
                assert(q[m] == t[m - 1]);
            }
        }
    }
}

proof fn lemma_push_no_dup(s: Seq<usize>, h: usize)
    requires
        s.no_duplicates(),
        !s.contains(h),
    ensures
        s.push(h).no_duplicates(),
{
    assert forall|a: int, b: int| 0 <= a < b < s.len() + 1 implies s.push(h)[a] != s.push(h)[b] by {
        if b == s.len() {
            assert(s[a] == s.push(h)[a]);
        }
    }
}

/// Splitting a queue without duplicates: what follows the first `d`
/// entries holds exactly the entries that are not among them.
proof fn lemma_skip_split(q: Seq<usize>, d: int)
    requires
        q.no_duplicates(),
        0 <= d <= q.len(),
    ensures
        q.skip(d).no_duplicates(),
        forall|x: usize| #[trigger] q.skip(d).contains(x) <==> (q.contains(x) && !q.take(d).contains(x)),
        forall|x: usize| #[trigger] q.take(d).contains(x) ==> q.contains(x),
{
    assert forall|a: int, b: int| 0 <= a < b < q.skip(d).len() implies q.skip(d)[a] != q.skip(d)[b] by {
        assert(q.skip(d)[a] == q[a + d] && q.skip(d)[b] == q[b + d]);
    }
    assert forall|x: usize| #[trigger] q.skip(d).contains(x) <==> (q.contains(x) && !q.take(d).contains(x)) by {
        if q.skip(d).contains(x) {
            let m = choose|m: int| 0 <= m < q.skip(d).len() && q.skip(d)[m] == x;
            assert(q[m + d] == x);
            if q.take(d).contains(x) {
                let k = choose|k: int| 0 <= k < d && q.take(d)[k] == x;
                assert(q[k] == x);
            }
        }
        if q.contains(x) && !q.take(d).contains(x) {
            let m = choose|m: int| 0 <= m < q.len() && q[m] == x;
            if m < d {
                assert(q.take(d)[m] == x);
            } else {
                assert(q.skip(d)[m - d] == x);
            }
        }
    }
    assert forall|x: usize| #[trigger] q.take(d).contains(x) implies q.contains(x) by {
        let k = choose|k: int| 0 <= k < d && q.take(d)[k] == x;
        assert(q[k] == x);
    }
}

proof fn lemma_ready_pos_skip(threads: Seq<Thread>, q: Seq<usize>, j: int)
    requires
        0 <= j <= q.len(),
        forall|m: int| 0 <= m < j ==> threads[q[m] as int].state != State::Ready,
    ensures
        ready_pos(threads, q) == j + ready_pos(threads, q.skip(j)),
    decreases j,
{
    if j > 0 {
        let t = q.drop_first();
        assert forall|m: int| 0 <= m < j - 1 implies threads[t[m] as int].state != State::Ready by {
            assert(t[m] == q[m + 1]);
        }
        lemma_ready_pos_skip(threads, t, j - 1);
        assert(t.skip(j - 1) =~= q.skip(j));
    } else {
        assert(q.skip(0) =~= q);
    }
}

/// The per-CPU policy: a run queue and a dedicated idle thread that is
/// never queued and always available.
pub struct Scheduler {
    thread_queue: IntrusiveMpsc,
    idle_thread: usize,
}

impl Scheduler {
    pub closed spec fn queue(&self) -> Seq<usize> {
        self.thread_queue@
    }

    pub closed spec fn idle(&self) -> usize {
        self.idle_thread
    }

    pub fn new(idle_thread: usize) -> (r: Scheduler)
        ensures
            r.queue() == Seq::<usize>::empty(),
            r.idle() == idle_thread,
    {
        Scheduler { thread_queue: IntrusiveMpsc::new(), idle_thread }
    }

    pub fn idle_thread(&self) -> (r: usize)
        ensures
            r == self.idle(),
    {
        self.idle_thread
    }

    /// Hands a thread to the run queue and marks it queued. A thread that
    /// is already queued must not be pushed again.
    pub fn schedule_thread(&mut self, threads: &mut Vec<Thread>, thread: usize)
        requires
            thread < old(threads)@.len(),
            !old(threads)@[thread as int].queued,
            !old(self).queue().contains(thread),
        ensures
            final(self).queue() == old(self).queue().push(thread),
            final(self).idle() == old(self).idle(),
            final(threads)@ == old(threads)@.update(
                thread as int,
                Thread { queued: true, ..old(threads)@[thread as int] },
            ),
    {
        threads[thread].queued = true;
        self.thread_queue.push(thread);
        assert(threads@ =~= old(threads)@.update(
            thread as int,
            Thread { queued: true, ..old(threads)@[thread as int] },
        ));
    }

    /// Chooses the thread to run next on this CPU and updates states and
    /// the queue accordingly. Queued threads are popped in order: the
    /// first `Ready` one is chosen, `Killable` ones are marked `Dead` and
    /// dropped, any others are dropped. With the queue exhausted, a
    /// still-running current thread keeps the CPU (`None`); otherwise the
    /// idle thread is chosen. A running outgoing thread becomes `Ready`
    /// and, unless it is the idle thread, is queued again. The chosen
    /// thread becomes `Running`.
    pub fn switch(&mut self, threads: &mut Vec<Thread>, current: usize) -> (next: Option<usize>)
        requires
            sched_wf(old(threads)@, old(self).queue(), current, old(self).idle()),
        ensures
            next == switch_target(old(threads)@, old(self).queue(), current, old(self).idle()),
            final(self).idle() == old(self).idle(),
            final(self).queue() == queue_after_switch(old(threads)@, old(self).queue(), current, old(self).idle()),
            final(threads)@.len() == old(threads)@.len(),
            forall|i: int| 0 <= i < old(threads)@.len() ==> {
                &&& final(threads)@[i].state == state_after_switch(
                    old(threads)@, old(self).queue(), current, old(self).idle(), i)
                &&& same_but_state(#[trigger] final(threads)@[i], old(threads)@[i])
                &&& (final(threads)@[i].state != old(threads)@[i].state
                    ==> is_edge(old(threads)@[i].state, final(threads)@[i].state))
            },
            sched_wf(final(threads)@, final(self).queue(), match next { Some(n) => n, None => current }, final(self).idle()),
    {
        let ghost t0 = threads@;
        let ghost q0 = self.thread_queue@;
        let ghost idle = self.idle_thread;
        let _ = threads.len();
        let found = self.pop_ready(threads);
        let ghost t1 = threads@;
        let ghost d = drained(t0, q0) as int;
        proof {
            lemma_skip_split(q0, d);
            assert(!q0.contains(current)) by {
                assert(!t0[current as int].queued);
            }
            assert(!q0.take(d).contains(current)) by {
                lemma_skip_split(q0, d);
            }
            assert(!q0.take(d).contains(idle)) by {
                assert(!t0[idle as int].queued);
            }
        }
        let next = match found {
            Some(h) => h,
            None => {
                if threads[current].state == State::Running {
                    proof {
                        assert(q0.take(d) =~= q0);
                        assert(self.thread_queue@ =~= queue_after_switch(t0, q0, current, idle));
                        assert forall|i: int| 0 <= i < t0.len() implies #[trigger] threads@[i].state
                            == state_after_switch(t0, q0, current, idle, i) by {}
                        assert forall|i: int| 0 <= i < t0.len() implies (#[trigger] threads@[i].queued
                            <==> self.thread_queue@.contains(i as usize)) by {
                            lemma_skip_split(q0, d);
                        }
                    }
                    return None;
                }
                self.idle_thread
            },
        };
        let ghost running = t0[current as int].state == State::Running;
        proof {
            lemma_ready_pos_props(t0, q0);
            assert(switch_target(t0, q0, current, idle) == Some(next));
            assert(t0[next as int].state == State::Ready);
            assert(next != current || !running);
        }
        if threads[current].state == State::Running {
            threads[current].state = State::Ready;
            if current != self.idle_thread {
                threads[current].queued = true;
                self.thread_queue.push(current);
            }
        }
        let ghost t2 = threads@;
        threads[next].state = State::Running;
        proof {
            let rest = q0.skip(d);
            let qn = self.thread_queue@;
            assert(next != current || !running);
            assert(qn == queue_after_switch(t0, q0, current, idle));
            assert forall|i: int| 0 <= i < t0.len() implies {
                &&& #[trigger] threads@[i].state == state_after_switch(t0, q0, current, idle, i)
                &&& same_but_state(threads@[i], t0[i])
                &&& (threads@[i].state != t0[i].state ==> is_edge(t0[i].state, threads@[i].state))
                &&& (threads@[i].queued <==> qn.contains(i as usize))
            } by {
                lemma_skip_split(q0, d);
                lemma_push_contains(rest, current, i as usize);
                let popped = q0.take(d);
                assert(same_but_state(t1[i], t0[i]));
                assert(t1[i].state == (if popped.contains(i as usize) && t0[i].state == State::Killable {
                    State::Dead
                } else {
                    t0[i].state
                }));
                assert(t1[i].queued == (t0[i].queued && !popped.contains(i as usize)));
                assert(t0[i].queued == q0.contains(i as usize));
                if i == next as int {
                } else if i == current as int {
                } else {
                    assert(threads@[i] == t1[i]);
                }
            }
            assert(qn.no_duplicates()) by {
                lemma_skip_split(q0, d);
                if running && current != idle {
                    lemma_push_no_dup(rest, current);
                }
            }
            assert forall|j: int| 0 <= j < qn.len() implies qn[j] < t0.len() by {
                if j < rest.len() {
                    assert(rest[j] == q0[j + d]);
                }
            }
            assert(!threads@[next as int].queued) by {
                assert(threads@[next as int].state == state_after_switch(t0, q0, current, idle, next as int));
                assert(threads@[next as int].queued <==> qn.contains(next));
                lemma_push_contains(rest, current, next);
            }
            assert(!threads@[idle as int].queued) by {
                assert(threads@[idle as int].state == state_after_switch(t0, q0, current, idle, idle as int));
                assert(threads@[idle as int].queued <==> qn.contains(idle));
                lemma_push_contains(rest, current, idle);
            }
            assert forall|i: int| 0 <= i < t0.len() && #[trigger] threads@[i].state == State::Running
                implies i == next by {
                assert(threads@[i].state == state_after_switch(t0, q0, current, idle, i));
            }
            assert(threads@[idle as int].state == State::Ready || idle == next) by {
                assert(threads@[idle as int].state == state_after_switch(t0, q0, current, idle, idle as int));
            }
        }
        Some(next)
    }

    /// Pops queued threads up to and including the first `Ready` one,
    /// clearing their queue links and marking popped `Killable` threads
    /// `Dead`. Returns that `Ready` thread, if any.
    fn pop_ready(&mut self, threads: &mut Vec<Thread>) -> (r: Option<usize>)
        requires
            forall|j: int| 0 <= j < old(self).queue().len() ==> old(self).queue()[j] < old(threads)@.len(),
            old(self).queue().no_duplicates(),
        ensures
            r == (if ready_pos(old(threads)@, old(self).queue()) < old(self).queue().len() {
                Some(old(self).queue()[ready_pos(old(threads)@, old(self).queue()) as int])
            } else {
                None
            }),
            final(self).idle() == old(self).idle(),
            final(self).queue() == old(self).queue().skip(drained(old(threads)@, old(self).queue()) as int),
            final(threads)@.len() == old(threads)@.len(),
            forall|i: int| 0 <= i < old(threads)@.len() ==> {
                let popped = old(self).queue().take(drained(old(threads)@, old(self).queue()) as int);
                &&& same_but_state(#[trigger] final(threads)@[i], old(threads)@[i])
                &&& final(threads)@[i].queued == (old(threads)@[i].queued && !popped.contains(i as usize))
                &&& final(threads)@[i].state == (if popped.contains(i as usize) && old(threads)@[i].state
                    == State::Killable { State::Dead } else { old(threads)@[i].state })
            },
    {
        let ghost t0 = threads@;
        let ghost q0 = self.thread_queue@;
        let _ = threads.len();
        let ghost mut j: int = 0;
        let mut found: Option<usize> = None;
        while found.is_none() && !self.thread_queue.is_empty()
            invariant
                forall|m: int| 0 <= m < q0.len() ==> q0[m] < t0.len(),
                t0.len() <= usize::MAX,
                q0.no_duplicates(),
                self.idle_thread == old(self).idle_thread,
                0 <= j <= q0.len(),
                self.thread_queue@ == q0.skip(j as int),
                threads@.len() == t0.len(),
                forall|m: int| 0 <= m < (if found.is_some() { j - 1 } else { j as int })
                    ==> t0[#[trigger] q0[m] as int].state != State::Ready,
                found.is_some() ==> j >= 1 && found == Some(q0[j - 1]) && t0[q0[j - 1] as int].state == State::Ready,
                forall|i: int| 0 <= i < t0.len() ==> {
                    &&& same_but_state(#[trigger] threads@[i], t0[i])
                    &&& threads@[i].queued == (t0[i].queued && !q0.take(j as int).contains(i as usize))
                    &&& threads@[i].state == (if q0.take(j as int).contains(i as usize) && t0[i].state
                        == State::Killable { State::Dead } else { t0[i].state })
                },
            decreases q0.len() - j,
        {
            let h = self.thread_queue.pop().unwrap();
            proof {
                assert(q0.skip(j as int)[0] == q0[j as int]);
                assert(q0.take(j as int + 1) =~= q0.take(j as int).push(h));
                assert(!q0.take(j as int).contains(h)) by {
                    if q0.take(j as int).contains(h) {
                        let m = choose|m: int| 0 <= m < j && q0.take(j as int)[m] == h;
                        assert(q0[m] == q0[j as int]);
                    }
                }
                assert(self.thread_queue@ =~= q0.skip(j as int + 1));
            }
            let ghost tb = threads@;
            let ghost jb = j;
            threads[h].queued = false;
            let st = threads[h].state;
            proof {
                j = j + 1;
            }
            if st == State::Ready {
                found = Some(h);
            } else if st == State::Killable {
                threads[h].state = State::Dead;
            }
            proof {
                let tk = q0.take(jb);
                assert(q0.take(j) == tk.push(h));
                assert forall|i: int| 0 <= i < t0.len() implies {
                    &&& same_but_state(#[trigger] threads@[i], t0[i])
                    &&& threads@[i].queued == (t0[i].queued && !q0.take(j as int).contains(i as usize))
                    &&& threads@[i].state == (if q0.take(j as int).contains(i as usize) && t0[i].state
                        == State::Killable { State::Dead } else { t0[i].state })
                } by {
                    lemma_push_contains(tk, h, i as usize);
                    assert(same_but_state(tb[i], t0[i]));
                    if i != h as int {
                        assert(threads@[i] == tb[i]);
                    } else {
                        assert(st == t0[i].state);
                        assert(q0.take(j as int).contains(i as usize));
                        assert(same_but_state(threads@[i], t0[i]));
                        assert(threads@[i].queued == (t0[i].queued && !q0.take(j as int).contains(i as usize)));
                    }
                }
            }
        }
        proof {
            if found.is_some() {
                lemma_ready_pos_skip(t0, q0, j - 1);
                assert(q0.skip(j - 1)[0] == q0[j - 1]);
            } else {
                assert(q0.skip(j as int).len() == 0);
                lemma_ready_pos_skip(t0, q0, j as int);
            }
        }
        found
    }
}

/// With no queued thread ready and the outgoing thread not running, a
/// switch always lands on the idle thread.
pub proof fn lemma_idle_fallback(threads: Seq<Thread>, q: Seq<usize>, current: usize, idle: usize)
    requires
        sched_wf(threads, q, current, idle),
        forall|j: int| 0 <= j < q.len() ==> threads[q[j] as int].state != State::Ready,
        threads[current as int].state != State::Running,
    ensures
        switch_target(threads, q, current, idle) == Some(idle),
        threads[idle as int].state == State::Ready,
{
    lemma_ready_pos_skip(threads, q, q.len() as int);
}

/// A queued thread that was killed is never chosen: when a switch drains
/// it from the queue it becomes `Dead`, and otherwise it stays queued and
/// `Killable`.
pub proof fn lemma_killed_is_reaped(threads: Seq<Thread>, q: Seq<usize>, current: usize, idle: usize, h: usize)
    requires
        sched_wf(threads, q, current, idle),
        h < threads.len(),
        threads[h as int].queued,
        threads[h as int].state == State::Killable,
    ensures
        switch_target(threads, q, current, idle) != Some(h),
        q.take(drained(threads, q) as int).contains(h) ==> state_after_switch(threads, q, current, idle, h as int) == State::Dead,
        !q.take(drained(threads, q) as int).contains(h) ==> {
            &&& queue_after_switch(threads, q, current, idle).contains(h)
            &&& state_after_switch(threads, q, current, idle, h as int) == State::Killable
        },
{
    lemma_ready_pos_props(threads, q);
    let d = drained(threads, q) as int;
    lemma_skip_split(q, d);
    assert(q.contains(h));
    assert(h != current);
    assert(h != idle);
    if ready_pos(threads, q) < q.len() {
        assert(q[ready_pos(threads, q) as int] != h);
    }
    if !q.take(d).contains(h) {
        assert(q.skip(d).contains(h));
        lemma_push_contains(q.skip(d), current, h);
    }
}

} // verus!
