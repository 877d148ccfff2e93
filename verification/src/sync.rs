//! Synchronization primitives built on the scheduler's wait lists: a counting semaphore, a
//! recursive lock and a wait queue.
//!
//! Every operation takes the scheduler explicitly: holding it mutably stands for being inside
//! the system's critical section.

use vstd::prelude::*;
use crate::runqueue::{ThreadId, SCHED_PRIO_LEVELS, THREAD_COUNT};
use crate::scheduler::{insert_pos, Scheduler, Thread, ThreadList, ThreadState};

verus! {

/// The counter and wait list of a [`Semaphore`].
pub struct SemaphoreInner {
    current: usize,
    max: usize,
    wait_list: ThreadList,
}

impl SemaphoreInner {
    /// The available resources.
    pub closed spec fn count(&self) -> usize {
        self.current
    }

    /// The maximum number of available resources.
    pub closed spec fn max_count(&self) -> usize {
        self.max
    }

    /// The threads waiting to take the semaphore, in the order they will get it.
    pub closed spec fn waiters(&self) -> Seq<ThreadId> {
        self.wait_list@
    }

    /// The wait list is consistent with the scheduler, and threads only wait while no resource
    /// is available.
    pub closed spec fn wf(&self, s: Scheduler) -> bool {
        &&& self.wait_list.wf(s)
        &&& self.wait_list@.len() > 0 ==> self.current == 0
    }

    /// The wait list of this semaphore.
    pub closed spec fn list(&self) -> ThreadList {
        self.wait_list
    }

    /// Creates a semaphore with `initial` available resources out of `max`.
    pub fn new(initial: usize, max: usize) -> (r: Self)
        ensures
            r.count() == initial,
            r.max_count() == max,
            r.waiters().len() == 0,
            forall|s: Scheduler| r.wf(s),
    {
        SemaphoreInner { current: initial, max, wait_list: ThreadList::new() }
    }

    /// Returns the currently available resources.
    pub fn current_count(&self) -> (r: usize)
        ensures
            r == self.count(),
    {
        self.current
    }

    /// Adds a resource unless the maximum is reached. Returns whether it was added.
    pub fn try_give(&mut self) -> (r: bool)
        ensures
            r == (old(self).count() < old(self).max_count()),
            final(self).count() == (if r { old(self).count() + 1 } else { old(self).count() as int }),
            final(self).max_count() == old(self).max_count(),
            final(self).list() == old(self).list(),
    {
        if self.current < self.max {
            self.current = self.current + 1;
            true
        } else {
            false
        }
    }

    /// Takes a resource if one is available. Returns whether it was taken.
    pub fn try_take(&mut self) -> (r: bool)
        ensures
            r == (old(self).count() > 0),
            final(self).count() == (if r { old(self).count() - 1 } else { old(self).count() as int }),
            final(self).max_count() == old(self).max_count(),
            final(self).list() == old(self).list(),
    {
        if self.current > 0 {
            self.current = self.current - 1;
            true
        } else {
            false
        }
    }
}

/// A counting semaphore.
pub struct Semaphore {
    inner: SemaphoreInner,
}

impl Semaphore {
    /// The available resources.
    pub closed spec fn count(&self) -> usize {
        self.inner.count()
    }

    /// The maximum number of available resources.
    pub closed spec fn max_count(&self) -> usize {
        self.inner.max_count()
    }

    /// The threads waiting to take the semaphore, in the order they will get it.
    pub closed spec fn waiters(&self) -> Seq<ThreadId> {
        self.inner.waiters()
    }

    /// The semaphore is consistent with the scheduler.
    pub closed spec fn wf(&self, s: Scheduler) -> bool {
        self.inner.wf(s)
    }

    /// A semaphore never has both an available resource and a waiting thread.
    pub proof fn lemma_no_waiters_while_available(&self, s: Scheduler)
        requires
            self.wf(s),
            self.count() > 0,
        ensures
            self.waiters().len() == 0,
    {
    }

    /// Creates a semaphore with `initial` available resources out of `max`.
    pub fn new(initial: usize, max: usize) -> (r: Self)
        ensures
            r.count() == initial,
            r.max_count() == max,
            r.waiters().len() == 0,
            forall|s: Scheduler| r.wf(s),
            initial <= max ==> r.count() <= r.max_count(),
    {
        Semaphore { inner: SemaphoreInner::new(initial, max) }
    }

    /// Returns the currently available resources.
    pub fn current_count(&self) -> (r: usize)
        ensures
            r == self.count(),
    {
        self.inner.current_count()
    }

    /// Releases a resource: if a thread waits, the first waiter gets it and becomes `Running`
    /// (the count does not change); otherwise a resource is added unless the maximum is reached.
    ///
    /// Returns `false` only if nobody waits and the maximum is reached.
    pub fn give(&mut self, sched: &mut Scheduler) -> (r: bool)
        requires
            old(self).wf(*old(sched)),
            old(sched).wf(),
        ensures
            old(self).count() <= old(self).max_count() ==> final(self).count() <= final(self).max_count(),
            final(sched).wf(),
            final(self).wf(*final(sched)),
            final(self).max_count() == old(self).max_count(),
            final(sched).current() == old(sched).current(),
            old(self).waiters().len() > 0 ==> {
                let h = old(self).waiters()[0];
                &&& r
                &&& final(self).count() == old(self).count()
                &&& final(self).waiters() == old(self).waiters().drop_first()
                &&& final(sched).state_of(h) == ThreadState::Running
                &&& final(sched).threads_view() == old(sched).threads_view().update(
                    h.0 as int,
                    (Thread { state: ThreadState::Running, ..old(sched).threads_view()[h.0 as int] }),
                )
                &&& final(sched).queues() == old(sched).queues().update(
                    old(sched).prio_of(h),
                    old(sched).queues()[old(sched).prio_of(h)].push(h),
                )
            },
            old(self).waiters().len() == 0 ==> {
                &&& r == (old(self).count() < old(self).max_count())
                &&& final(self).count() == (if r { old(self).count() + 1 } else { old(self).count() as int })
                &&& final(self).waiters() == old(self).waiters()
                &&& final(sched).threads_view() == old(sched).threads_view()
                &&& final(sched).queues() == old(sched).queues()
                &&& final(sched).blocklist() == old(sched).blocklist()
                &&& final(sched).schedule_pending() == old(sched).schedule_pending()
            },
    {
        let woke = self.inner.wait_list.pop(sched);
        if woke.is_some() {
            true
        } else {
            self.inner.try_give()
        }
    }

    /// Takes a resource if one is available (non-blocking). Returns whether it was taken.
    pub fn try_take(&mut self, sched: &Scheduler) -> (r: bool)
        requires
            old(self).wf(*sched),
        ensures
            old(self).count() <= old(self).max_count() ==> final(self).count() <= final(self).max_count(),
            final(self).wf(*sched),
            r == (old(self).count() > 0),
            final(self).count() == (if r { old(self).count() - 1 } else { old(self).count() as int }),
            final(self).max_count() == old(self).max_count(),
            final(self).waiters() == old(self).waiters(),
    {
        self.inner.try_take()
    }

    /// Takes a resource, blocking the current thread in the wait list if none is available.
    pub fn take(&mut self, sched: &mut Scheduler)
        requires
            old(self).wf(*old(sched)),
            old(sched).wf(),
            old(sched).current_at_head(),
            old(sched).current() is Some,
            old(sched).state_of(old(sched).current()->0) == ThreadState::Running,
        ensures
            old(self).count() <= old(self).max_count() ==> final(self).count() <= final(self).max_count(),
            final(sched).wf(),
            final(self).wf(*final(sched)),
            final(self).max_count() == old(self).max_count(),
            final(sched).current() == old(sched).current(),
            old(self).count() > 0 ==> {
                &&& final(self).count() == old(self).count() - 1
                &&& final(self).waiters() == old(self).waiters()
                &&& final(sched).same_as(*old(sched))
            },
            old(self).count() == 0 ==> {
                let t = old(sched).current()->0;
                &&& final(self).count() == 0
                &&& final(self).waiters().contains(t)
                &&& final(self).waiters().len() == old(self).waiters().len() + 1
                &&& final(sched).state_of(t) == ThreadState::SemaphoreBlocked
                &&& final(sched).schedule_pending()
            },
    {
        if !self.inner.try_take() {
            let ghost w = self.inner.wait_list@;
            let ghost s0 = *sched;
            self.inner.wait_list.put_current(sched, ThreadState::SemaphoreBlocked);
            proof {
                let t = s0.current()->0;
                let k = crate::scheduler::insert_pos(s0, w, s0.prio_of(t));
                assert(self.inner.wait_list@ == w.insert(k, t));
                assert(self.inner.wait_list@[k] == t);
            }
        }
    }
}

/// The owner, recursion count and wait list of a [`RecursiveLock`].
pub struct RecursiveLockInner {
    owner: Option<ThreadId>,
    count: usize,
    wait_list: ThreadList,
}

impl RecursiveLockInner {
    /// The thread holding the lock, if any.
    pub closed spec fn owner_view(&self) -> Option<ThreadId> {
        self.owner
    }

    /// How many times the owner holds the lock.
    pub closed spec fn count_view(&self) -> usize {
        self.count
    }

    /// The threads waiting for the lock, in the order they will get it.
    pub closed spec fn waiters(&self) -> Seq<ThreadId> {
        self.wait_list@
    }

    /// The lock is held exactly when it has an owner, and threads only wait while it is held.
    pub closed spec fn wf(&self, s: Scheduler) -> bool {
        &&& self.wait_list.wf(s)
        &&& (self.count == 0 <==> self.owner is None)
        &&& self.wait_list@.len() > 0 ==> self.count > 0
    }

    /// Creates an unlocked lock.
    pub fn new() -> (r: Self)
        ensures
            r.owner_view() is None,
            r.count_view() == 0,
            r.waiters().len() == 0,
            forall|s: Scheduler| r.wf(s),
    {
        RecursiveLockInner { owner: None, count: 0, wait_list: ThreadList::new() }
    }

    /// How many times the owner holds the lock.
    pub fn current_count(&self) -> (r: usize)
        ensures
            r == self.count_view(),
    {
        self.count
    }

    /// Tries to acquire the lock for the current thread: succeeds if the lock is free or already
    /// held by it, incrementing the recursion count.
    pub fn try_acquire(&mut self, sched: &Scheduler) -> (r: bool)
        requires
            old(self).wf(*sched),
            sched.current() is Some,
            old(self).count_view() < usize::MAX,
        ensures
            final(self).wf(*sched),
            final(self).waiters() == old(self).waiters(),
            r == (old(self).count_view() == 0 || old(self).owner_view() == sched.current()),
            r ==> final(self).owner_view() == sched.current() && final(self).count_view()
                == old(self).count_view() + 1,
            !r ==> final(self).owner_view() == old(self).owner_view() && final(self).count_view()
                == old(self).count_view(),
    {
        let current_thread_id = sched.current_tid().unwrap();
        if self.count > 0 {
            if self.owner == Some(current_thread_id) {
                self.count = self.count + 1;
                true
            } else {
                false
            }
        } else {
            self.owner = Some(current_thread_id);
            self.count = self.count + 1;
            true
        }
    }

    /// Releases the lock once, if the current thread holds it.
    ///
    /// On the last release, the lock passes to the first waiter (which becomes `Running`) or
    /// becomes free. Returns `true` when the lock was passed on or freed, or was not held at
    /// all; `false` when the current thread does not own it or still holds it.
    pub fn try_release(&mut self, sched: &mut Scheduler) -> (r: bool)
        requires
            old(self).wf(*old(sched)),
            old(sched).wf(),
            old(self).count_view() > 0 ==> old(sched).current() is Some,
        ensures
            final(sched).wf(),
            final(self).wf(*final(sched)),
            final(sched).current() == old(sched).current(),
            old(self).count_view() == 0 ==> r && *final(self) == *old(self) && final(sched).same_as(*old(sched)),
            old(self).count_view() > 0 && old(self).owner_view() != old(sched).current() ==> !r
                && *final(self) == *old(self) && final(sched).same_as(*old(sched)),
            old(self).count_view() > 1 && old(self).owner_view() == old(sched).current() ==> {
                &&& !r
                &&& final(self).count_view() == old(self).count_view() - 1
                &&& final(self).owner_view() == old(self).owner_view()
                &&& final(self).waiters() == old(self).waiters()
                &&& final(sched).same_as(*old(sched))
            },
            old(self).count_view() == 1 && old(self).owner_view() == old(sched).current() ==> {
                &&& r
                &&& old(self).waiters().len() > 0 ==> {
                    let h = old(self).waiters()[0];
                    &&& final(self).owner_view() == Some(h)
                    &&& final(self).count_view() == 1
                    &&& final(self).waiters() == old(self).waiters().drop_first()
                    &&& final(sched).state_of(h) == ThreadState::Running
                }
                &&& old(self).waiters().len() == 0 ==> {
                    &&& final(self).owner_view() is None
                    &&& final(self).count_view() == 0
                    &&& final(self).waiters() == old(self).waiters()
                    &&& final(sched).same_as(*old(sched))
                }
            },
    {
        if self.count > 0 {
            if self.owner == Some(sched.current_tid().unwrap()) {
                if self.count == 1 {
                    match self.wait_list.pop(sched) {
                        Some((thread_id, _)) => {
                            self.owner = Some(thread_id);
                            return true;
                        },
                        None => {},
                    }
                }
                self.count = self.count - 1;
                if self.count == 0 {
                    self.owner = None;
                    return true;
                }
            }
            false
        } else {
            true
        }
    }
}

/// A recursive lock: the owner may acquire it again, and holds it until it released it as many
/// times.
pub struct RecursiveLock {
    inner: RecursiveLockInner,
}

impl RecursiveLock {
    /// The thread holding the lock, if any.
    pub closed spec fn owner_view(&self) -> Option<ThreadId> {
        self.inner.owner_view()
    }

    /// How many times the owner holds the lock.
    pub closed spec fn count_view(&self) -> usize {
        self.inner.count_view()
    }

    /// The threads waiting for the lock.
    pub closed spec fn waiters(&self) -> Seq<ThreadId> {
        self.inner.waiters()
    }

    /// The lock is consistent with the scheduler.
    pub closed spec fn wf(&self, s: Scheduler) -> bool {
        self.inner.wf(s)
    }

    /// Creates an unlocked lock.
    pub fn new() -> (r: Self)
        ensures
            r.owner_view() is None,
            r.count_view() == 0,
            r.waiters().len() == 0,
            forall|s: Scheduler| r.wf(s),
    {
        RecursiveLock { inner: RecursiveLockInner::new() }
    }

    /// Releases the lock once (see [`RecursiveLockInner::try_release`]).
    pub fn release(&mut self, sched: &mut Scheduler) -> (r: bool)
        requires
            old(self).wf(*old(sched)),
            old(sched).wf(),
            old(self).count_view() > 0 ==> old(sched).current() is Some,
        ensures
            final(sched).wf(),
            final(self).wf(*final(sched)),
            final(sched).current() == old(sched).current(),
            old(self).count_view() == 0 ==> r && final(self).count_view() == 0,
            old(self).count_view() > 0 && old(self).owner_view() != old(sched).current() ==> !r
                && final(self).count_view() == old(self).count_view() && final(self).owner_view()
                == old(self).owner_view(),
            old(self).count_view() > 1 && old(self).owner_view() == old(sched).current() ==> !r
                && final(self).count_view() == old(self).count_view() - 1 && final(self).owner_view()
                == old(self).owner_view(),
            old(self).count_view() == 1 && old(self).owner_view() == old(sched).current() ==> r && (
            if old(self).waiters().len() > 0 {
                final(self).owner_view() == Some(old(self).waiters()[0]) && final(self).count_view() == 1
            } else {
                final(self).owner_view() is None && final(self).count_view() == 0
            }),
    {
        self.inner.try_release(sched)
    }

    /// Tries to acquire the lock for the current thread (non-blocking).
    pub fn try_acquire(&mut self, sched: &Scheduler) -> (r: bool)
        requires
            old(self).wf(*sched),
            sched.current() is Some,
            old(self).count_view() < usize::MAX,
        ensures
            final(self).wf(*sched),
            final(self).waiters() == old(self).waiters(),
            r == (old(self).count_view() == 0 || old(self).owner_view() == sched.current()),
            r ==> final(self).owner_view() == sched.current() && final(self).count_view()
                == old(self).count_view() + 1,
            !r ==> final(self).owner_view() == old(self).owner_view() && final(self).count_view()
                == old(self).count_view(),
    {
        self.inner.try_acquire(sched)
    }

    /// Acquires the lock, blocking the current thread in the wait list if another thread holds
    /// it.
    pub fn acquire(&mut self, sched: &mut Scheduler)
        requires
            old(self).wf(*old(sched)),
            old(sched).wf(),
            old(sched).current_at_head(),
            old(sched).current() is Some,
            old(sched).state_of(old(sched).current()->0) == ThreadState::Running,
            old(self).count_view() < usize::MAX,
        ensures
            final(sched).wf(),
            final(self).wf(*final(sched)),
            final(sched).current() == old(sched).current(),
            old(self).count_view() == 0 || old(self).owner_view() == old(sched).current() ==> {
                &&& final(self).owner_view() == old(sched).current()
                &&& final(self).count_view() == old(self).count_view() + 1
                &&& final(sched).same_as(*old(sched))
            },
            !(old(self).count_view() == 0 || old(self).owner_view() == old(sched).current()) ==> {
                &&& final(self).owner_view() == old(self).owner_view()
                &&& final(self).count_view() == old(self).count_view()
                &&& final(self).waiters().contains(old(sched).current()->0)
                &&& final(sched).state_of(old(sched).current()->0)
                    == ThreadState::RecursiveLockBlocked
            },
    {
        if !self.inner.try_acquire(sched) {
            let ghost w = self.inner.wait_list@;
            let ghost s0 = *sched;
            self.inner.wait_list.put_current(sched, ThreadState::RecursiveLockBlocked);
            proof {
                let t = s0.current()->0;
                let k = crate::scheduler::insert_pos(s0, w, s0.prio_of(t));
                assert(self.inner.wait_list@[k] == t);
            }
        }
    }
}

/// A wait queue: threads wait on it until another thread notifies them.
pub struct WaitQueue {
    waiters: ThreadList,
}

impl WaitQueue {
    /// The waiting threads.
    pub closed spec fn waiters(&self) -> Seq<ThreadId> {
        self.waiters@
    }

    /// The queue is consistent with the scheduler.
    pub closed spec fn wf(&self, s: Scheduler) -> bool {
        self.waiters.wf(s)
    }

    /// Creates an empty wait queue.
    pub fn new() -> (r: Self)
        ensures
            r.waiters().len() == 0,
            forall|s: Scheduler| r.wf(s),
    {
        WaitQueue { waiters: ThreadList::new() }
    }

    /// Blocks the current thread until the queue is notified.
    pub fn wait(&mut self, sched: &mut Scheduler)
        requires
            old(self).wf(*old(sched)),
            old(sched).wf(),
            old(sched).current_at_head(),
            old(sched).current() is Some,
            old(sched).state_of(old(sched).current()->0) == ThreadState::Running,
        ensures
            final(sched).wf(),
            final(self).wf(*final(sched)),
            final(sched).current() == old(sched).current(),
            final(self).waiters().contains(old(sched).current()->0),
            final(self).waiters().len() == old(self).waiters().len() + 1,
            ({
                let t = old(sched).current()->0;
                final(self).waiters() == old(self).waiters().insert(
                    insert_pos(*old(sched), old(self).waiters(), old(sched).prio_of(t)),
                    t,
                )
            }),
            final(sched).state_of(old(sched).current()->0) == ThreadState::WaitQueueBlocked,
            final(sched).schedule_pending(),
    {
        let ghost w = self.waiters@;
        let ghost s0 = *sched;
        self.waiters.put_current(sched, ThreadState::WaitQueueBlocked);
        proof {
            let t = s0.current()->0;
            let k = crate::scheduler::insert_pos(s0, w, s0.prio_of(t));
            assert(self.waiters@[k] == t);
        }
    }

    /// Withdraws the current thread from the queue when its wait timed out: returns whether it
    /// was still waiting (it then becomes `Running` again); if a notification took it off the
    /// queue first, nothing changes.
    pub fn cancel_wait(&mut self, sched: &mut Scheduler) -> (r: bool)
        requires
            old(self).wf(*old(sched)),
            old(sched).wf(),
            old(sched).current() is Some,
        ensures
            final(sched).wf(),
            final(self).wf(*final(sched)),
            final(sched).current() == old(sched).current(),
            r == old(self).waiters().contains(old(sched).current()->0),
            r ==> final(self).waiters() == old(self).waiters().remove(
                old(self).waiters().index_of(old(sched).current()->0),
            ),
            r ==> final(sched).state_of(old(sched).current()->0) == ThreadState::Running,
            !r ==> final(self).waiters() == old(self).waiters() && final(sched).threads_view()
                == old(sched).threads_view() && final(sched).queues() == old(sched).queues()
                && final(sched).blocklist() == old(sched).blocklist(),
    {
        self.waiters.remove_current(sched)
    }

    /// Wakes up the first waiter, if any.
    pub fn notify_one(&mut self, sched: &mut Scheduler) -> (r: Option<(ThreadId, ThreadState)>)
        requires
            old(self).wf(*old(sched)),
            old(sched).wf(),
        ensures
            final(sched).wf(),
            final(self).wf(*final(sched)),
            final(sched).current() == old(sched).current(),
            old(self).waiters().len() == 0 ==> {
                &&& r is None
                &&& final(self).waiters() == old(self).waiters()
                &&& final(sched).same_as(*old(sched))
            },
            old(self).waiters().len() > 0 ==> {
                let h = old(self).waiters()[0];
                &&& r == Some((h, old(sched).state_of(h)))
                &&& final(self).waiters() == old(self).waiters().drop_first()
                &&& final(sched).state_of(h) == ThreadState::Running
                &&& final(sched).threads_view() == old(sched).threads_view().update(
                    h.0 as int,
                    (Thread { state: ThreadState::Running, ..old(sched).threads_view()[h.0 as int] }),
                )
                &&& final(sched).queues() == old(sched).queues().update(
                    old(sched).prio_of(h),
                    old(sched).queues()[old(sched).prio_of(h)].push(h),
                )
                &&& final(sched).blocklist() == old(sched).blocklist().update(h.0 as int, None)
                &&& final(sched).schedule_pending() == (old(sched).schedule_pending() || match old(sched).current() {
                    Some(c) => old(sched).prio_of(c) < old(sched).prio_of(h),
                    None => false,
                })
            },
    {
        self.waiters.pop(sched)
    }

    /// Wakes up all waiters, in list order: each becomes `Running` and is appended to the run
    /// queue of its priority in that order; the threads that were not waiting are unchanged.
    pub fn notify_all(&mut self, sched: &mut Scheduler)
        requires
            old(self).wf(*old(sched)),
            old(sched).wf(),
        ensures
            final(sched).wf(),
            final(self).wf(*final(sched)),
            final(sched).current() == old(sched).current(),
            final(self).waiters().len() == 0,
            forall|k: int|
                0 <= k < old(self).waiters().len() ==> final(sched).state_of(
                    #[trigger] old(self).waiters()[k],
                ) == ThreadState::Running,
            forall|k: int|
                0 <= k < old(self).waiters().len() ==> final(sched).threads_view()[(
                #[trigger] old(self).waiters()[k]).0 as int] == (Thread {
                    state: ThreadState::Running,
                    ..old(sched).threads_view()[old(self).waiters()[k].0 as int]
                }),
            forall|t: ThreadId|
                t.0 < THREAD_COUNT && !old(self).waiters().contains(t) ==> final(sched).threads_view()[t.0 as int]
                    == #[trigger] old(sched).threads_view()[t.0 as int],
            forall|p: int|
                0 <= p < SCHED_PRIO_LEVELS ==> #[trigger] final(sched).queues()[p] == old(sched).queues()[p]
                    + waiters_of_prio(*old(sched), old(self).waiters(), p),
    {
        let ghost w0 = self.waiters@;
        let ghost s_init = *sched;
        let ghost mut n: int = 0;
        loop
            invariant
                sched.wf(),
                self.wf(*sched),
                s_init == *old(sched),
                s_init.wf(),
                sched.current() == old(sched).current(),
                w0 == old(self).waiters(),
                0 <= n <= w0.len(),
                self.waiters@ == w0.subrange(n, w0.len() as int),
                forall|k: int| 0 <= k < n ==> sched.state_of(#[trigger] w0[k]) == ThreadState::Running,
                forall|k: int|
                    0 <= k < n ==> sched.threads_view()[(#[trigger] w0[k]).0 as int] == (Thread {
                        state: ThreadState::Running,
                        ..s_init.threads_view()[w0[k].0 as int]
                    }),
                forall|i: int|
                    0 <= i < THREAD_COUNT && (forall|k: int| 0 <= k < n ==> (#[trigger] w0[k]).0 != i)
                        ==> sched.threads_view()[i] == #[trigger] s_init.threads_view()[i],
                forall|p: int|
                    0 <= p < SCHED_PRIO_LEVELS ==> #[trigger] sched.queues()[p] == s_init.queues()[p]
                        + waiters_of_prio(s_init, w0.take(n), p),
                forall|k: int| 0 <= k < w0.len() ==> (#[trigger] w0[k]).0 < THREAD_COUNT,
                w0.no_duplicates(),
            ensures
                sched.wf(),
                self.wf(*sched),
                sched.current() == old(sched).current(),
                self.waiters@.len() == 0,
                n == w0.len(),
                forall|k: int| 0 <= k < w0.len() ==> sched.state_of(#[trigger] w0[k]) == ThreadState::Running,
                forall|k: int|
                    0 <= k < w0.len() ==> sched.threads_view()[(#[trigger] w0[k]).0 as int] == (Thread {
                        state: ThreadState::Running,
                        ..s_init.threads_view()[w0[k].0 as int]
                    }),
                forall|i: int|
                    0 <= i < THREAD_COUNT && (forall|k: int| 0 <= k < w0.len() ==> (#[trigger] w0[k]).0 != i)
                        ==> sched.threads_view()[i] == #[trigger] s_init.threads_view()[i],
                forall|p: int|
                    0 <= p < SCHED_PRIO_LEVELS ==> #[trigger] sched.queues()[p] == s_init.queues()[p]
                        + waiters_of_prio(s_init, w0, p),
            decreases w0.len() - n,
        {
            let ghost s0 = *sched;
            let ghost before = self.waiters@;
            let r = self.waiters.pop(sched);
            if r.is_none() {
                proof {
                    assert(n == w0.len());
                    assert(w0.take(n) =~= w0);
                }
                break;
            }
            proof {
                let h = before[0];
                assert(h == w0[n]);
                assert forall|k: int| 0 <= k < n implies w0[k].0 != h.0 by {
                    assert(w0[k] != h);
                }
                assert(s0.threads_view()[h.0 as int] == s_init.threads_view()[h.0 as int]);
                assert(s0.prio_of(h) == s_init.prio_of(h));
                assert forall|k: int| 0 <= k < n + 1 implies sched.state_of(#[trigger] w0[k]) == ThreadState::Running by {
                    if k < n {
                        assert(w0[k].0 != h.0);
                        assert(sched.threads_view()[w0[k].0 as int] == s0.threads_view()[w0[k].0 as int]);
                    }
                }
                assert forall|k: int| 0 <= k < n + 1 implies sched.threads_view()[(#[trigger] w0[k]).0 as int] == (Thread {
                    state: ThreadState::Running,
                    ..s_init.threads_view()[w0[k].0 as int]
                }) by {
                    if k < n {
                        assert(w0[k].0 != h.0);
                    }
                }
                assert forall|i: int|
                    0 <= i < THREAD_COUNT && (forall|k: int| 0 <= k < n + 1 ==> (#[trigger] w0[k]).0 != i)
                    implies sched.threads_view()[i] == #[trigger] s_init.threads_view()[i] by {
                    assert(w0[n].0 != i);
                    assert forall|k: int| 0 <= k < n implies (#[trigger] w0[k]).0 != i by {
                        assert(0 <= k < n + 1);
                    }
                }
                assert(w0.take(n + 1).drop_last() =~= w0.take(n));
                assert(w0.take(n + 1).last() == h);
                assert forall|p: int| 0 <= p < SCHED_PRIO_LEVELS implies #[trigger] sched.queues()[p] == s_init.queues()[p]
                    + waiters_of_prio(s_init, w0.take(n + 1), p) by {
                    if p == s_init.prio_of(h) {
                        assert(sched.queues()[p] =~= s_init.queues()[p] + waiters_of_prio(s_init, w0.take(n + 1), p));
                    }
                }
                assert(self.waiters@ =~= w0.subrange(n + 1, w0.len() as int));
                n = n + 1;
            }
        }
        proof {
            assert forall|t: ThreadId|
                t.0 < THREAD_COUNT && !w0.contains(t) implies sched.threads_view()[t.0 as int]
                    == #[trigger] s_init.threads_view()[t.0 as int] by {
                assert forall|k: int| 0 <= k < w0.len() implies (#[trigger] w0[k]).0 != t.0 as int by {
                    if w0[k].0 == t.0 {
                        assert(w0[k] == t);
                    }
                }
            }
        }
    }
}

/// The waiters of `w` whose priority (in `s`) is `p`, in list order.
pub open spec fn waiters_of_prio(s: Scheduler, w: Seq<ThreadId>, p: int) -> Seq<ThreadId>
    decreases w.len(),
{
    if w.len() == 0 {
        Seq::empty()
    } else {
        let rest = waiters_of_prio(s, w.drop_last(), p);
        if s.prio_of(w.last()) == p {
            rest.push(w.last())
        } else {
            rest
        }
    }
}
} // verus!
