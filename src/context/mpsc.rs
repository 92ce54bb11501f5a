use vstd::prelude::*;

verus! {

/// A multiple-producer, single-consumer queue of thread handles.
///
/// Producers push onto `pushlist`; the consumer pops from `poplist`, and
/// when that is empty takes the whole push batch at once, serving its
/// oldest entry and reversing the rest into `poplist` (its top is the
/// vector's last element). The combined order is first-in, first-out.
/// Producers and the consumer reach the queue through `&mut`; the kernel
/// serializes them by masking interrupts around each operation.
pub struct IntrusiveMpsc {
    pushlist: Vec<usize>,
    poplist: Vec<usize>,
}

/// The queue after `item` is pushed.
pub open spec fn pushed(q: Seq<usize>, item: usize) -> Seq<usize> {
    q.push(item)
}

/// What a pop returns, and the queue after it.
pub open spec fn popped(q: Seq<usize>) -> (Option<usize>, Seq<usize>) {
    if q.len() == 0 {
        (None, q)
    } else {
        (Some(q[0]), q.drop_first())
    }
}

/// One step of a run of queue operations: `Some(x)` pushes `x`, `None`
/// pops.
pub open spec fn step(q: Seq<usize>, op: Option<usize>) -> (Option<usize>, Seq<usize>) {
    match op {
        Some(x) => (None, pushed(q, x)),
        None => popped(q),
    }
}

/// Runs `ops` from `q`: the items popped, in order, and the final queue.
pub open spec fn run(q: Seq<usize>, ops: Seq<Option<usize>>) -> (Seq<usize>, Seq<usize>)
    decreases ops.len(),
{
    if ops.len() == 0 {
        (Seq::empty(), q)
    } else {
        let (out, q1) = step(q, ops[0]);
        let (rest, q2) = run(q1, ops.drop_first());
        match out {
            Some(x) => (seq![x].add(rest), q2),
            None => (rest, q2),
        }
    }
}

/// The items that `ops` pushes, in order.
pub open spec fn pushes(ops: Seq<Option<usize>>) -> Seq<usize>
    decreases ops.len(),
{
    if ops.len() == 0 {
        Seq::empty()
    } else {
        match ops[0] {
            Some(x) => seq![x].add(pushes(ops.drop_first())),
            None => pushes(ops.drop_first()),
        }
    }
}

impl View for IntrusiveMpsc {
    type V = Seq<usize>;

    /// Entries in the order they will be popped.
    closed spec fn view(&self) -> Seq<usize> {
        self.poplist@.reverse().add(self.pushlist@)
    }
}

impl IntrusiveMpsc {
    pub fn new() -> (r: IntrusiveMpsc)
        ensures
            r@ == Seq::<usize>::empty(),
    {
        let r = IntrusiveMpsc { pushlist: Vec::new(), poplist: Vec::new() };
        assert(r@ =~= Seq::<usize>::empty());
        r
    }

    pub fn is_empty(&self) -> (r: bool)
        ensures
            r == (self@.len() == 0),
    {
        self.poplist.len() == 0 && self.pushlist.len() == 0
    }

    /// Queues `item`. An item already queued must not be pushed again.
    pub fn push(&mut self, item: usize)
        requires
            !old(self)@.contains(item),
        ensures
            final(self)@ == pushed(old(self)@, item),
    {
        self.pushlist.push(item);
        assert(self@ =~= pushed(old(self)@, item));
    }

    pub fn pop(&mut self) -> (r: Option<usize>)
        ensures
            (r, final(self)@) == popped(old(self)@),
    {
        let n = self.poplist.len();
        if n > 0 {
            let item = self.poplist.pop().unwrap();
            proof {
                let p = old(self).poplist@;
                assert(p.reverse()[0] == item);
                assert(self@ =~= old(self)@.drop_first());
            }
            return Some(item);
        }
        let m = self.pushlist.len();
        if m == 0 {
            return None;
        }
        let first = self.pushlist[0];
        let mut i: usize = m - 1;
        while i > 0
            invariant
                0 <= i < m,
                m == self.pushlist@.len(),
                self.pushlist@ == old(self).pushlist@,
                old(self).poplist@.len() == 0,
                self.poplist@.reverse() =~= self.pushlist@.subrange(i + 1, m as int),
            decreases i,
        {
            let item = self.pushlist[i];
            let ghost before = self.poplist@;
            self.poplist.push(item);
            proof {
                let after = self.poplist@;
                assert(after.reverse() =~= seq![item].add(before.reverse())) by {
                    assert forall|k: int| 0 <= k < after.len() implies #[trigger] after.reverse()[k]
                        == seq![item].add(before.reverse())[k] by {
                        if k > 0 {
                            assert(after.reverse()[k] == after[after.len() - 1 - k]);
                            assert(before.reverse()[k - 1] == before[before.len() - 1 - (k - 1)]);
                        }
                    }
                }
                assert(self.poplist@.reverse() =~= self.pushlist@.subrange(i as int, m as int));
            }
            i = i - 1;
        }
        self.pushlist.clear();
        assert(self@ =~= old(self)@.drop_first());
        Some(first)
    }
}

/// A pushed item that is never popped stays queued exactly once: pushing
/// onto an empty queue and popping returns that item, and a further pop
/// finds nothing.
pub proof fn lemma_push_then_pop(item: usize)
    ensures
        popped(pushed(Seq::empty(), item)) == (Some(item), Seq::<usize>::empty()),
        popped(popped(pushed(Seq::empty(), item)).1).0 == None::<usize>,
{
    assert(pushed(Seq::empty(), item).drop_first() =~= Seq::<usize>::empty());
}

/// Over any run of pushes and pops, every pushed item is popped exactly
/// once, in order, or is still queued: the popped items followed by the
/// final queue are the initial queue followed by everything pushed.
pub proof fn lemma_no_loss_no_duplication(q: Seq<usize>, ops: Seq<Option<usize>>)
    ensures
        run(q, ops).0.add(run(q, ops).1) == q.add(pushes(ops)),
    decreases ops.len(),
{
    if ops.len() == 0 {
        assert(run(q, ops).0.add(run(q, ops).1) =~= q.add(pushes(ops)));
    } else {
        let q1 = step(q, ops[0]).1;
        lemma_no_loss_no_duplication(q1, ops.drop_first());
        match ops[0] {
            Some(x) => {
                assert(run(q, ops).0.add(run(q, ops).1) =~= q.add(pushes(ops)));
            },
            None => {
                if q.len() == 0 {
                    assert(run(q, ops).0.add(run(q, ops).1) =~= q.add(pushes(ops)));
                } else {
                    let rest = run(q1, ops.drop_first()).0;
                    let q2 = run(q1, ops.drop_first()).1;
                    assert(run(q, ops).0 == seq![q[0]].add(rest));
                    assert(pushes(ops) == pushes(ops.drop_first()));
                    assert(seq![q[0]].add(rest).add(q2) =~= seq![q[0]].add(rest.add(q2)));
                    assert(seq![q[0]].add(q.drop_first()) =~= q);
                    assert(seq![q[0]].add(q.drop_first().add(pushes(ops))) =~= q.add(pushes(ops)));
                }
            },
        }
    }
}

} // verus!
