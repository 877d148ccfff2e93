//! Per-priority FIFO run queues of the scheduler.
//!
//! There is one queue per priority level. A higher `RunqueueId` means a higher priority; the
//! next thread to run is the head of the highest non-empty queue.

use vstd::prelude::*;

verus! {

/// Number of priority levels (one run queue each).
pub const SCHED_PRIO_LEVELS: usize = 16;

/// Maximum number of concurrent threads.
pub const THREAD_COUNT: usize = 16;

/// Identifier of a thread, between 0 and `THREAD_COUNT`.
#[derive(Clone, Copy, Debug, PartialEq, Eq, Structural)]
pub struct ThreadId(pub u8);

/// Identifier of a run queue, i.e. a priority level, between 0 and `SCHED_PRIO_LEVELS`.
#[derive(Clone, Copy, Debug, PartialEq, Eq, Structural)]
pub struct RunqueueId(pub u8);

impl ThreadId {
    /// Creates a thread identifier.
    pub fn new(value: u8) -> (r: Self)
        ensures
            r.0 == value,
    {
        ThreadId(value)
    }

    /// The identifier as an index.
    pub fn as_usize(self) -> (r: usize)
        ensures
            r == self.0,
    {
        self.0 as usize
    }
}

impl RunqueueId {
    /// Creates a run queue identifier.
    pub fn new(value: u8) -> (r: Self)
        ensures
            r.0 == value,
    {
        RunqueueId(value)
    }

    /// The identifier as an index.
    pub fn as_usize(self) -> (r: usize)
        ensures
            r == self.0,
    {
        self.0 as usize
    }
}

/// The run queues: one FIFO queue of thread identifiers per priority level.
pub struct RunQueue {
    queues: Vec<Vec<ThreadId>>,
}

/// The queue `q` with its element at index `i` taken out.
pub open spec fn seq_without(q: Seq<ThreadId>, i: int) -> Seq<ThreadId> {
    q.remove(i)
}

/// The highest priority level whose queue is non-empty, if any.
pub open spec fn highest_nonempty(qs: Seq<Seq<ThreadId>>) -> Option<int> {
    if exists|p: int| 0 <= p < qs.len() && qs[p].len() > 0 {
        Some(choose|p: int| 0 <= p < qs.len() && qs[p].len() > 0
            && forall|p2: int| p < p2 < qs.len() ==> qs[p2].len() == 0)
    } else {
        None
    }
}

/// The thread that runs next: the head of the highest non-empty queue.
pub open spec fn next_thread(qs: Seq<Seq<ThreadId>>) -> Option<ThreadId> {
    match highest_nonempty(qs) {
        Some(p) => Some(qs[p][0]),
        None => None,
    }
}

/// `p` is the highest priority level with a non-empty queue.
pub open spec fn is_highest_nonempty(qs: Seq<Seq<ThreadId>>, p: int) -> bool {
    0 <= p < qs.len() && qs[p].len() > 0 && forall|p2: int| p < p2 < qs.len() ==> qs[p2].len() == 0
}

/// The highest non-empty level is unique.
pub proof fn lemma_highest_nonempty(qs: Seq<Seq<ThreadId>>, p: int)
    requires
        is_highest_nonempty(qs, p),
    ensures
        highest_nonempty(qs) == Some(p),
        next_thread(qs) == Some(qs[p][0]),
{
    let c = choose|p1: int| 0 <= p1 < qs.len() && qs[p1].len() > 0
        && forall|p2: int| p1 < p2 < qs.len() ==> qs[p2].len() == 0;
    assert(0 <= p < qs.len() && qs[p].len() > 0);
    assert(is_highest_nonempty(qs, c));
    if c < p {
        assert(qs[p].len() == 0);
    } else if c > p {
        assert(qs[c].len() == 0);
    }
}

impl View for RunQueue {
    type V = Seq<Seq<ThreadId>>;

    closed spec fn view(&self) -> Seq<Seq<ThreadId>> {
        Seq::new(self.queues.len() as nat, |i: int| self.queues[i]@)
    }
}

impl RunQueue {
    /// Well-formedness: one queue per level, thread identifiers in range, none twice in a queue.
    pub open spec fn wf(&self) -> bool {
        &&& self@.len() == SCHED_PRIO_LEVELS
        &&& forall|p: int, i: int|
            0 <= p < self@.len() && 0 <= i < self@[p].len() ==> (#[trigger] self@[p][i]).0
                < THREAD_COUNT
        &&& forall|p: int| 0 <= p < self@.len() ==> (#[trigger] self@[p]).no_duplicates()
    }

    /// Creates the run queues, all empty.
    pub fn new() -> (r: Self)
        ensures
            r.wf(),
            forall|p: int| 0 <= p < SCHED_PRIO_LEVELS ==> (#[trigger] r@[p]).len() == 0,
    {
        let mut queues: Vec<Vec<ThreadId>> = Vec::new();
        let mut k: usize = 0;
        while k < SCHED_PRIO_LEVELS
            invariant
                k <= SCHED_PRIO_LEVELS,
                queues.len() == k,
                forall|p: int| 0 <= p < k ==> (#[trigger] queues[p]@).len() == 0,
            decreases SCHED_PRIO_LEVELS - k,
        {
            queues.push(Vec::new());
            k = k + 1;
        }
        let r = RunQueue { queues };
        assert forall|p: int| 0 <= p < r@.len() implies (#[trigger] r@[p]).no_duplicates() by {
            assert(r@[p] == r.queues[p]@);
        }
        r
    }

    /// Appends thread `n` at the tail of queue `rq`.
    pub fn add(&mut self, n: ThreadId, rq: RunqueueId)
        requires
            old(self).wf(),
            n.0 < THREAD_COUNT,
            rq.0 < SCHED_PRIO_LEVELS,
            !old(self)@[rq.0 as int].contains(n),
        ensures
            final(self).wf(),
            final(self)@ == old(self)@.update(rq.0 as int, old(self)@[rq.0 as int].push(n)),
    {
        let r = rq.0 as usize;
        let mut q: Vec<ThreadId> = Vec::new();
        std::mem::swap(&mut q, &mut self.queues[r]);
        assert(q@ == old(self)@[r as int]);
        q.push(n);
        self.queues.set(r, q);
        assert(self@ =~= old(self)@.update(rq.0 as int, old(self)@[rq.0 as int].push(n)));
        assert forall|p: int| 0 <= p < self@.len() implies (#[trigger] self@[p]).no_duplicates() by {
            if p != r {
                assert(self@[p] == old(self)@[p]);
            } else {
                assert forall|i: int, j: int| 0 <= i < j < self@[p].len() implies self@[p][i]
                    != self@[p][j] by {
                    if j == self@[p].len() - 1 {
                        assert(old(self)@[p][i] == self@[p][i]);
                    }
                }
            }
        }
    }

    /// The head of queue `rq`, if it is not empty.
    pub fn peek_head(&self, rq: RunqueueId) -> (r: Option<ThreadId>)
        requires
            self.wf(),
            rq.0 < SCHED_PRIO_LEVELS,
        ensures
            r == (if self@[rq.0 as int].len() > 0 {
                Some(self@[rq.0 as int][0])
            } else {
                None
            }),
    {
        let r = rq.0 as usize;
        assert(self.queues[r as int]@ == self@[r as int]);
        if self.queues[r].len() > 0 {
            Some(self.queues[r][0])
        } else {
            None
        }
    }

    /// Whether queue `rq` is empty.
    pub fn is_empty(&self, rq: RunqueueId) -> (r: bool)
        requires
            self.wf(),
            rq.0 < SCHED_PRIO_LEVELS,
        ensures
            r == (self@[rq.0 as int].len() == 0),
    {
        let r = rq.0 as usize;
        assert(self.queues[r as int]@ == self@[r as int]);
        self.queues[r].len() == 0
    }

    /// Removes the head of queue `rq`, which is thread `n`.
    pub fn pop_head(&mut self, n: ThreadId, rq: RunqueueId)
        requires
            old(self).wf(),
            rq.0 < SCHED_PRIO_LEVELS,
            old(self)@[rq.0 as int].len() > 0,
            old(self)@[rq.0 as int][0] == n,
        ensures
            final(self).wf(),
            final(self)@ == old(self)@.update(rq.0 as int, old(self)@[rq.0 as int].drop_first()),
    {
        let r = rq.0 as usize;
        let mut q: Vec<ThreadId> = Vec::new();
        std::mem::swap(&mut q, &mut self.queues[r]);
        assert(q@ == old(self)@[r as int]);
        q.remove(0);
        self.queues.set(r, q);
        assert(self@ =~= old(self)@.update(rq.0 as int, old(self)@[rq.0 as int].drop_first()));
        assert forall|p: int| 0 <= p < self@.len() implies (#[trigger] self@[p]).no_duplicates() by {
            if p != r {
                assert(self@[p] == old(self)@[p]);
            } else {
                assert forall|i: int, j: int| 0 <= i < j < self@[p].len() implies self@[p][i]
                    != self@[p][j] by {
                    assert(self@[p][i] == old(self)@[p][i + 1]);
                    assert(self@[p][j] == old(self)@[p][j + 1]);
                }
            }
        }
        assert forall|p: int, i: int|
            0 <= p < self@.len() && 0 <= i < self@[p].len() implies (#[trigger] self@[p][i]).0
            < THREAD_COUNT by {
            if p == r {
                assert(self@[p][i] == old(self)@[p][i + 1]);
            } else {
                assert(self@[p][i] == old(self)@[p][i]);
            }
        }
    }

    /// Moves the head of queue `rq` to its tail.
    ///
    /// Returns `false`, leaving the queue as it was, when it holds fewer than two threads.
    pub fn advance(&mut self, rq: RunqueueId) -> (r: bool)
        requires
            old(self).wf(),
            rq.0 < SCHED_PRIO_LEVELS,
        ensures
            final(self).wf(),
            r == (old(self)@[rq.0 as int].len() > 1),
            r ==> final(self)@ == old(self)@.update(
                rq.0 as int,
                old(self)@[rq.0 as int].drop_first().push(old(self)@[rq.0 as int][0]),
            ),
            !r ==> final(self)@ == old(self)@,
    {
        let r = rq.0 as usize;
        assert(self.queues[r as int]@ == self@[r as int]);
        if self.queues[r].len() <= 1 {
            return false;
        }
        let head = self.queues[r][0];
        self.pop_head(head, rq);
        proof {
            assert(!self@[rq.0 as int].contains(head)) by {
                if self@[rq.0 as int].contains(head) {
                    let j = choose|j: int| 0 <= j < self@[rq.0 as int].len() && self@[rq.0 as int][j] == head;
                    assert(old(self)@[rq.0 as int][j + 1] == head);
                }
            }
        }
        self.add(head, rq);
        true
    }

    /// Removes thread `n` from whichever queue holds it.
    pub fn del(&mut self, n: ThreadId)
        requires
            old(self).wf(),
        ensures
            final(self).wf(),
            final(self)@.len() == old(self)@.len(),
            forall|p: int| 0 <= p < old(self)@.len() ==> #[trigger] final(self)@[p] == (if old(
                self,
            )@[p].contains(n) {
                old(self)@[p].remove(old(self)@[p].index_of(n))
            } else {
                old(self)@[p]
            }),
    {
        let mut k: usize = 0;
        while k < SCHED_PRIO_LEVELS
            invariant
                k <= SCHED_PRIO_LEVELS,
                self.wf(),
                self@.len() == old(self)@.len(),
                forall|p: int| k <= p < SCHED_PRIO_LEVELS ==> #[trigger] self@[p] == old(self)@[p],
                forall|p: int| 0 <= p < k ==> #[trigger] self@[p] == (if old(self)@[p].contains(n) {
                    old(self)@[p].remove(old(self)@[p].index_of(n))
                } else {
                    old(self)@[p]
                }),
            decreases SCHED_PRIO_LEVELS - k,
        {
            assert(self@[k as int] == self.queues[k as int]@);
            let ghost preq = self@;
            let mut q: Vec<ThreadId> = Vec::new();
            std::mem::swap(&mut q, &mut self.queues[k]);
            proof {
                assert(q@ == old(self)@[k as int]);
            }
            let ghost oq = q@;
            let mut i: usize = 0;
            let mut found = false;
            while i < q.len() && !found
                invariant
                    i <= q.len(),
                    q@ == oq,
                    found ==> i < q.len() && q@[i as int] == n,
                    forall|j: int| 0 <= j < i ==> q@[j] != n,
                decreases q.len() - i, (if found { 0int } else { 1int }),
            {
                if q[i] == n {
                    found = true;
                } else {
                    i = i + 1;
                }
            }
            proof {
                if found {
                    assert(oq[i as int] == n);
                    assert(oq.contains(n));
                    assert(oq.no_duplicates());
                    let c = oq.index_of(n);
                    assert(0 <= c < oq.len() && oq[c] == n);
                    assert(c == i);
                } else {
                    assert(!oq.contains(n));
                }
            }
            if found {
                q.remove(i);
            }
            let ghost nq = q@;
            self.queues.set(k, q);
            proof {
                assert(self@ =~= preq.update(k as int, nq));
                assert forall|a: int, b: int| 0 <= a < b < nq.len() implies nq[a] != nq[b] by {
                    if found {
                        let ia = if a < i { a } else { a + 1 };
                        let ib = if b < i { b } else { b + 1 };
                        assert(nq[a] == oq[ia]);
                        assert(nq[b] == oq[ib]);
                    }
                }
                assert forall|j: int| 0 <= j < nq.len() implies (#[trigger] nq[j]).0 < THREAD_COUNT by {
                    if found {
                        if j < i {
                            assert(nq[j] == oq[j]);
                        } else {
                            assert(nq[j] == oq[j + 1]);
                        }
                    } else {
                        assert(nq[j] == oq[j]);
                    }
                }
            }
            k = k + 1;
        }
    }

    /// The thread to run next: the head of the highest non-empty queue.
    pub fn get_next(&self) -> (r: Option<ThreadId>)
        requires
            self.wf(),
        ensures
            r == next_thread(self@),
            match r {
                Some(n) => exists|p: int| is_highest_nonempty(self@, p) && self@[p][0] == n,
                None => forall|p: int| 0 <= p < SCHED_PRIO_LEVELS ==> (#[trigger] self@[p]).len() == 0,
            },
    {
        let mut k: usize = SCHED_PRIO_LEVELS;
        while k > 0
            invariant
                k <= SCHED_PRIO_LEVELS,
                self.wf(),
                forall|p: int| k <= p < SCHED_PRIO_LEVELS ==> (#[trigger] self@[p]).len() == 0,
            decreases k,
        {
            let p = k - 1;
            assert(self.queues[p as int]@ == self@[p as int]);
            if self.queues[p].len() > 0 {
                proof {
                    lemma_highest_nonempty(self@, p as int);
                    assert(self@[p as int][0] == self.queues[p as int]@[0]);
                }
                return Some(self.queues[p][0]);
            }
            k = p;
        }
        proof {
            assert(!exists|p: int| 0 <= p < self@.len() && self@[p].len() > 0) by {
                if exists|p: int| 0 <= p < self@.len() && self@[p].len() > 0 {
                    let p = choose|p: int| 0 <= p < self@.len() && self@[p].len() > 0;
                    assert(self@[p].len() == 0);
                }
            }
        }
        None
    }
}

} // verus!
