//! The fixed-priority preemptive scheduler (single-core configuration).
//!
//! Threads of equal priority are scheduled cooperatively: a thread keeps running until it blocks,
//! parks or yields with [`Scheduler::yield_same`]. The scheduler never switches contexts itself:
//! when a context switch is due it raises its "schedule pending" request, and the context-switch
//! handler then asks [`Scheduler::sched`] which thread to run.

use vstd::prelude::*;
use crate::runqueue::{
    is_highest_nonempty, next_thread, RunQueue, RunqueueId, ThreadId, SCHED_PRIO_LEVELS, THREAD_COUNT,
};

verus! {

/// Thread flags bit set.
pub type ThreadFlags = u16;

/// How a thread waits for its flags.
#[derive(Clone, Copy, Debug, PartialEq, Eq, Structural)]
pub enum WaitMode {
    /// Waits until any of the given flags is set.
    Any(ThreadFlags),
    /// Waits until all of the given flags are set.
    All(ThreadFlags),
}

/// Possible states of a thread.
#[derive(Clone, Copy, Debug, PartialEq, Eq, Structural)]
pub enum ThreadState {
    /// No active thread.
    Invalid,
    /// Ready to run: the thread is in the run queue of its priority.
    Running,
    /// Suspended / paused.
    Parked,
    /// Waiting to acquire a lock.
    LockBlocked,
    /// Waiting for thread flags to be set.
    FlagBlocked(WaitMode),
    /// Waiting to receive on a channel.
    ChannelRxBlocked(usize),
    /// Waiting to send on a channel.
    ChannelTxBlocked(usize),
    /// Waiting to acquire a recursive lock.
    RecursiveLockBlocked,
    /// Waiting to take a semaphore.
    SemaphoreBlocked,
    /// Waiting on a wait queue.
    WaitQueueBlocked,
}

/// Thread control block.
#[derive(Clone, Copy, Debug)]
pub struct Thread {
    /// The thread's current state.
    pub state: ThreadState,
    /// Priority of the thread.
    pub prio: RunqueueId,
    /// Identifier of the thread.
    pub tid: ThreadId,
    /// Flags set for the thread.
    pub flags: ThreadFlags,
    /// Saved stack pointer.
    pub sp: usize,
    /// Lowest stack address.
    pub stack_lowest: usize,
    /// Highest stack address.
    pub stack_highest: usize,
    /// Deadline of the thread's timeout timer, if one is armed.
    pub deadline: Option<u64>,
}

impl Thread {
    /// An empty thread control block in state `Invalid`.
    pub fn default() -> (t: Thread)
        ensures
            t == (Thread {
                state: ThreadState::Invalid,
                prio: RunqueueId(0),
                tid: ThreadId(0),
                flags: 0,
                sp: 0,
                stack_lowest: 0,
                stack_highest: 0,
                deadline: None,
            }),
    {
        Thread {
            state: ThreadState::Invalid,
            prio: RunqueueId(0),
            tid: ThreadId(0),
            flags: 0,
            sp: 0,
            stack_lowest: 0,
            stack_highest: 0,
            deadline: None,
        }
    }
}

/// Stack bounds and initial stack pointer of a new thread.
#[derive(Clone, Copy, Debug)]
pub struct StackLayout {
    /// Lowest stack address.
    pub lowest: usize,
    /// Highest stack address, 8-byte aligned.
    pub highest: usize,
    /// Initial stack pointer, below the 32-byte exception frame.
    pub sp: usize,
}

/// Computes the stack layout of a new thread from the address and length of its stack.
///
/// The stack grows downwards from its 8-byte aligned top, below which 32 bytes are reserved for
/// the initial exception frame.
pub fn stack_layout(stack_start: usize, stack_len: usize) -> (r: StackLayout)
    requires
        stack_start + stack_len <= usize::MAX,
        (((stack_start + stack_len) as usize) & 0xFFFF_FFF8usize) >= 32,
    ensures
        r.lowest == stack_start,
        r.highest == (((stack_start + stack_len) as usize) & 0xFFFF_FFF8usize),
        r.sp == r.highest - 32,
{
    let highest = (stack_start + stack_len) & 0xFFFF_FFF8usize;
    StackLayout { lowest: stack_start, highest, sp: highest - 32 }
}

/// Identifier of a physical core.
#[derive(Clone, Copy, Debug, PartialEq, Eq, Structural)]
pub struct CoreId(pub u8);

impl CoreId {
    /// The core identifier as an index.
    pub fn as_usize(self) -> (r: usize)
        ensures
            r == self.0,
    {
        self.0 as usize
    }
}

/// Affinity mask that defines on what cores a thread can be scheduled.
#[derive(Clone, Copy, Debug, PartialEq, Eq, Structural)]
pub struct CoreAffinity(pub u8);

impl CoreAffinity {
    /// Allows a thread to be scheduled on any core (of the single core).
    pub fn no_affinity() -> (r: Self)
        ensures
            r.0 == 1,
    {
        CoreAffinity(2u8 * 1 - 1)
    }

    /// Restricts the thread execution to a specific core.
    pub fn one(core: CoreId) -> (r: Self)
        requires
            core.0 < 8,
        ensures
            r.0 == (1u8 << core.0),
    {
        CoreAffinity(1u8 << core.0)
    }

    /// Checks if the affinity mask allows this `core`.
    pub fn contains(&self, core: CoreId) -> (r: bool)
        requires
            core.0 < 8,
        ensures
            r == (self.0 & (1u8 << core.0) > 0),
    {
        self.0 & (1u8 << core.0) > 0
    }
}

/// Types that can be passed as the argument of a thread: their value fits one register.
pub trait Arguable {
    /// The register representation of the value.
    fn into_arg(self) -> usize;
}

impl Arguable for usize {
    /// A word is passed as it is.
    fn into_arg(self) -> (r: usize)
        ensures
            r == self,
    {
        self
    }
}

/// Stacks whose bounds are known.
pub trait StackLimits {
    /// The lowest and highest address of the stack; `(0, 0)` where unknown.
    fn limits(&self) -> (r: (usize, usize))
        default_ensures
            r == (0usize, 0usize),
    {
        (0, 0)
    }
}

/// The placeholder stack of the second core on single-core chips: its limits are unknown.
pub struct Dummy;

impl Dummy {
    /// The placeholder.
    pub fn new() -> (r: Self) {
        Dummy
    }
}

impl StackLimits for Dummy {
}

/// Whether `affinity` allows core `c`.
pub open spec fn affine(affinity: CoreAffinity, c: int) -> bool {
    (affinity.0 & (1u8 << c as u8)) > 0
}

/// Priority order of what runs on a core: an idle core (`None`) comes below any thread, and
/// threads are ordered by priority.
pub open spec fn running_prio_le(a: Option<RunqueueId>, b: Option<RunqueueId>) -> bool {
    match (a, b) {
        (None, _) => true,
        (Some(_), None) => false,
        (Some(x), Some(y)) => x.0 <= y.0,
    }
}

/// Among the cores allowed by `affinity`, the one that runs the lowest priority thread (the
/// first such core), along with that priority (`None` for an idle core), where `running[c]` is
/// the priority of the thread running on core `c`. This is the core that a thread that became
/// ready preempts, if its priority is higher.
pub fn lowest_running_prio(running: &Vec<Option<RunqueueId>>, affinity: CoreAffinity) -> (r: (CoreId, Option<RunqueueId>))
    requires
        running@.len() <= 8,
        exists|c: int| 0 <= c < running@.len() && #[trigger] affine(affinity, c),
    ensures
        r.0.0 < running@.len(),
        affine(affinity, r.0.0 as int),
        r.1 == running@[r.0.0 as int],
        forall|c: int|
            0 <= c < running@.len() && affine(affinity, c) ==> running_prio_le(r.1, #[trigger] running@[c]),
        forall|c: int|
            0 <= c < r.0.0 && affine(affinity, c) ==> !running_prio_le(#[trigger] running@[c], r.1),
{
    let mut best: Option<(CoreId, Option<RunqueueId>)> = None;
    let mut c: usize = 0;
    while c < running.len()
        invariant
            c <= running@.len() <= 8,
            match best {
                None => forall|d: int| 0 <= d < c ==> !affine(affinity, d),
                Some((core, prio)) => {
                    &&& core.0 < c
                    &&& affine(affinity, core.0 as int)
                    &&& prio == running@[core.0 as int]
                    &&& forall|d: int|
                        0 <= d < c && affine(affinity, d) ==> running_prio_le(prio, #[trigger] running@[d])
                    &&& forall|d: int|
                        0 <= d < core.0 && affine(affinity, d) ==> !running_prio_le(#[trigger] running@[d], prio)
                },
            },
        decreases running@.len() - c,
    {
        let core = CoreId(c as u8);
        if affinity.contains(core) {
            let prio = running[c];
            let better = match best {
                None => true,
                Some((_, b)) => match (prio, b) {
                    (None, None) => false,
                    (None, Some(_)) => true,
                    (Some(_), None) => false,
                    (Some(x), Some(y)) => x.0 < y.0,
                },
            };
            if better {
                best = Some((core, prio));
            }
        }
        c = c + 1;
    }
    match best {
        Some(b) => b,
        None => {
            proof {
                let w = choose|w: int| 0 <= w < running@.len() && affine(affinity, w);
                assert(!(affine(affinity, w)));
            }
            (CoreId(0), None)
        },
    }
}

/// Whether a thread with `affinity` may run on the current core.
pub fn is_affine_to_curr_core(affinity: CoreAffinity) -> (r: bool)
    ensures
        r == (affinity.0 & 1u8 > 0),
{
    let core = core_id();
    proof {
        assert(1u8 << 0u8 == 1u8) by (bit_vector);
    }
    affinity.contains(core)
}

impl Default for CoreAffinity {
    /// No affinity: the thread may run on any core.
    fn default() -> (r: Self)
        ensures
            r.0 == 1,
    {
        CoreAffinity::no_affinity()
    }
}

/// The id of the CPU that this thread is running on (always core 0 on single-core).
pub fn core_id() -> (r: CoreId)
    ensures
        r.0 == 0,
{
    CoreId(0)
}

/// Outcome of a scheduling decision, for the context-switch handler.
#[derive(Clone, Copy, Debug, PartialEq, Eq, Structural)]
pub enum ContextSwitch {
    /// No thread is ready: the core should sleep until an interrupt makes one ready.
    NoThread,
    /// The current thread keeps running.
    KeepCurrent,
    /// Switch from `previous` (none before the first switch) to `next`.
    SwitchTo { previous: Option<ThreadId>, next: ThreadId },
}

/// The scheduler state: run queues, thread control blocks and wait-list links.
pub struct Scheduler {
    runqueue: RunQueue,
    threads: Vec<Thread>,
    thread_blocklist: Vec<Option<ThreadId>>,
    current_thread: Option<ThreadId>,
    schedule_pending: bool,
}

impl Scheduler {
    /// The thread control blocks, indexed by thread identifier.
    pub closed spec fn threads_view(&self) -> Seq<Thread> {
        self.threads@
    }

    /// The run queues, indexed by priority.
    pub closed spec fn queues(&self) -> Seq<Seq<ThreadId>> {
        self.runqueue@
    }

    /// For each thread, the next thread in the wait list it is blocked on.
    pub closed spec fn blocklist(&self) -> Seq<Option<ThreadId>> {
        self.thread_blocklist@
    }

    /// The thread running on this core, if any.
    pub closed spec fn current(&self) -> Option<ThreadId> {
        self.current_thread
    }

    /// Whether a context switch has been requested and not yet handled.
    pub closed spec fn schedule_pending(&self) -> bool {
        self.schedule_pending
    }

    /// `other` has the same threads, run queues, links, current thread and switch request.
    pub open spec fn same_as(&self, other: Scheduler) -> bool {
        &&& self.threads_view() == other.threads_view()
        &&& self.queues() == other.queues()
        &&& self.blocklist() == other.blocklist()
        &&& self.current() == other.current()
        &&& self.schedule_pending() == other.schedule_pending()
    }

    /// State of thread `t`.
    pub open spec fn state_of(&self, t: ThreadId) -> ThreadState {
        self.threads_view()[t.0 as int].state
    }

    /// Priority of thread `t`.
    pub open spec fn prio_of(&self, t: ThreadId) -> int {
        self.threads_view()[t.0 as int].prio.0 as int
    }

    /// Scheduler invariant.
    ///
    /// A thread is in the run queue of priority `p` exactly when it is `Running` with priority
    /// `p`, and it occurs there once.
    pub open spec fn wf(&self) -> bool {
        &&& self.threads_view().len() == THREAD_COUNT
        &&& self.blocklist().len() == THREAD_COUNT
        &&& self.queues().len() == SCHED_PRIO_LEVELS
        &&& forall|p: int| 0 <= p < SCHED_PRIO_LEVELS ==> (#[trigger] self.queues()[p]).no_duplicates()
        &&& forall|p: int, i: int|
            0 <= p < SCHED_PRIO_LEVELS && 0 <= i < self.queues()[p].len() ==> {
                let t = #[trigger] self.queues()[p][i];
                &&& t.0 < THREAD_COUNT
                &&& self.state_of(t) == ThreadState::Running
                &&& self.prio_of(t) == p
            }
        &&& forall|t: ThreadId|
            t.0 < THREAD_COUNT && #[trigger] self.state_of(t) == ThreadState::Running
                ==> self.queues()[self.prio_of(t)].contains(t)
        &&& forall|i: int|
            0 <= i < THREAD_COUNT ==> (#[trigger] self.threads_view()[i]).prio.0 < SCHED_PRIO_LEVELS
        &&& forall|i: int|
            0 <= i < THREAD_COUNT && (#[trigger] self.threads_view()[i]).state
                != ThreadState::Invalid ==> self.threads_view()[i].tid.0 == i
        &&& forall|i: int| 0 <= i < THREAD_COUNT ==> match #[trigger] self.blocklist()[i] {
            Some(n) => n.0 < THREAD_COUNT,
            None => true,
        }
        &&& match self.current() {
            Some(t) => t.0 < THREAD_COUNT && self.threads_view()[t.0 as int].tid == t,
            None => true,
        }
    }

    /// The current thread, if it is ready, is at the head of its run queue (as it is right after
    /// a scheduling decision).
    pub open spec fn current_at_head(&self) -> bool {
        match self.current() {
            Some(t) => self.state_of(t) == ThreadState::Running ==> {
                &&& self.queues()[self.prio_of(t)].len() > 0
                &&& self.queues()[self.prio_of(t)][0] == t
            },
            None => true,
        }
    }

    /// Creates the scheduler with all thread slots `Invalid` and empty run queues.
    pub fn new() -> (s: Self)
        ensures
            s.wf(),
            s.current() == None::<ThreadId>,
            !s.schedule_pending(),
            forall|i: int|
                0 <= i < THREAD_COUNT ==> (#[trigger] s.threads_view()[i]).state
                    == ThreadState::Invalid,
            forall|i: int| 0 <= i < THREAD_COUNT ==> (#[trigger] s.blocklist()[i]) is None,
            forall|p: int| 0 <= p < SCHED_PRIO_LEVELS ==> (#[trigger] s.queues()[p]).len() == 0,
    {
        let mut threads: Vec<Thread> = Vec::new();
        let mut thread_blocklist: Vec<Option<ThreadId>> = Vec::new();
        let mut k: usize = 0;
        while k < THREAD_COUNT
            invariant
                k <= THREAD_COUNT,
                threads.len() == k,
                thread_blocklist.len() == k,
                forall|i: int| 0 <= i < k ==> (#[trigger] threads@[i]) == Thread::default_spec(),
                forall|i: int| 0 <= i < k ==> (#[trigger] thread_blocklist@[i]) is None,
            decreases THREAD_COUNT - k,
        {
            threads.push(Thread::default());
            thread_blocklist.push(None);
            k = k + 1;
        }
        let s = Scheduler {
            runqueue: RunQueue::new(),
            threads,
            thread_blocklist,
            current_thread: None,
            schedule_pending: false,
        };
        assert forall|t: ThreadId|
            t.0 < THREAD_COUNT && #[trigger] s.state_of(t) == ThreadState::Running implies s.queues()[s.prio_of(
                t,
            )].contains(t) by {
            assert(s.threads_view()[t.0 as int] == Thread::default_spec());
        }
        assert forall|i: int|
            0 <= i < THREAD_COUNT implies (#[trigger] s.threads_view()[i]).prio.0 < SCHED_PRIO_LEVELS by {
            assert(s.threads_view()[i] == Thread::default_spec());
        }
        s
    }

    /// Returns the ID of the current thread, or `None` if no thread is currently running.
    pub fn current_tid(&self) -> (r: Option<ThreadId>)
        ensures
            r == self.current(),
    {
        self.current_thread
    }

    /// Whether the current thread, if it is ready, is at the head of its run queue.
    pub fn is_current_at_head(&self) -> (r: bool)
        requires
            self.wf(),
        ensures
            r == self.current_at_head(),
    {
        match self.current_thread {
            Some(t) => {
                let thread = self.threads[t.0 as usize];
                if thread.state == ThreadState::Running {
                    assert(self.prio_of(t) < SCHED_PRIO_LEVELS);
                    self.runqueue.peek_head(thread.prio) == Some(t)
                } else {
                    true
                }
            },
            None => true,
        }
    }

    /// Whether a context switch was requested since the last scheduling decision.
    pub fn is_schedule_pending(&self) -> (r: bool)
        ensures
            r == self.schedule_pending(),
    {
        self.schedule_pending
    }

    /// Requests a context switch.
    pub fn schedule(&mut self)
        ensures
            final(self).schedule_pending(),
            old(self).wf() ==> final(self).wf(),
            final(self).threads_view() == old(self).threads_view(),
            final(self).queues() == old(self).queues(),
            final(self).blocklist() == old(self).blocklist(),
            final(self).current() == old(self).current(),
    {
        let ghost pre = *self;
        self.schedule_pending = true;
        proof {
            if pre.wf() {
                pre.lemma_wf_same_views(self);
            }
        }
    }

    /// Returns a copy of the control block of thread `tid`.
    pub fn get_unchecked(&self, tid: ThreadId) -> (t: Thread)
        requires
            self.wf(),
            tid.0 < THREAD_COUNT,
        ensures
            t == self.threads_view()[tid.0 as int],
    {
        self.threads[tid.0 as usize]
    }

    /// Returns the first unused thread slot, if any.
    pub fn get_unused(&self) -> (r: Option<ThreadId>)
        requires
            self.wf(),
        ensures
            match r {
                Some(t) => {
                    &&& t.0 < THREAD_COUNT
                    &&& self.state_of(t) == ThreadState::Invalid
                    &&& forall|j: int|
                        0 <= j < t.0 ==> (#[trigger] self.threads_view()[j]).state
                            != ThreadState::Invalid
                },
                None => forall|j: int|
                    0 <= j < THREAD_COUNT ==> (#[trigger] self.threads_view()[j]).state
                        != ThreadState::Invalid,
            },
    {
        let mut i: usize = 0;
        while i < THREAD_COUNT
            invariant
                i <= THREAD_COUNT,
                self.wf(),
                forall|j: int|
                    0 <= j < i ==> (#[trigger] self.threads_view()[j]).state != ThreadState::Invalid,
            decreases THREAD_COUNT - i,
        {
            if self.threads[i].state == ThreadState::Invalid {
                return Some(ThreadId(i as u8));
            }
            i = i + 1;
        }
        None
    }

    /// Checks if a thread with valid state exists for this `thread_id`.
    pub fn is_valid_tid(&self, thread_id: ThreadId) -> (r: bool)
        requires
            self.wf(),
        ensures
            r == (thread_id.0 < THREAD_COUNT && self.state_of(thread_id) != ThreadState::Invalid),
    {
        if thread_id.0 as usize >= THREAD_COUNT {
            false
        } else {
            self.threads[thread_id.0 as usize].state != ThreadState::Invalid
        }
    }

    /// Returns the state of a thread, `None` if it is not valid.
    pub fn get_state(&self, thread_id: ThreadId) -> (r: Option<ThreadState>)
        requires
            self.wf(),
        ensures
            r == (if thread_id.0 < THREAD_COUNT && self.state_of(thread_id) != ThreadState::Invalid {
                Some(self.state_of(thread_id))
            } else {
                None
            }),
    {
        if self.is_valid_tid(thread_id) {
            Some(self.threads[thread_id.0 as usize].state)
        } else {
            None
        }
    }

    /// Returns the priority of a thread, `None` if it is not valid.
    pub fn get_priority(&self, thread_id: ThreadId) -> (r: Option<RunqueueId>)
        requires
            self.wf(),
        ensures
            r == (if thread_id.0 < THREAD_COUNT && self.state_of(thread_id) != ThreadState::Invalid {
                Some(self.threads_view()[thread_id.0 as int].prio)
            } else {
                None
            }),
    {
        if self.is_valid_tid(thread_id) {
            Some(self.threads[thread_id.0 as usize].prio)
        } else {
            None
        }
    }

    /// Returns `Some(0)` if the thread is the one running on this core.
    pub fn is_running(&self, thread_id: ThreadId) -> (r: Option<usize>)
        ensures
            r == (if self.current() == Some(thread_id) { Some(0usize) } else { None }),
    {
        match self.current_thread {
            Some(t) => if t == thread_id {
                Some(0)
            } else {
                None
            },
            None => None,
        }
    }

    /// Requests a context switch if the current thread has a lower priority than `prio`.
    pub fn schedule_if_higher_prio(&mut self, thread_id: ThreadId, prio: RunqueueId)
        requires
            old(self).wf(),
        ensures
            final(self).wf(),
            final(self).threads_view() == old(self).threads_view(),
            final(self).queues() == old(self).queues(),
            final(self).blocklist() == old(self).blocklist(),
            final(self).current() == old(self).current(),
            final(self).schedule_pending() == (old(self).schedule_pending() || match old(self).current() {
                Some(c) => old(self).prio_of(c) < prio.0,
                None => false,
            }),
    {
        match self.current_thread {
            Some(c) => {
                if self.threads[c.0 as usize].prio.0 < prio.0 {
                    self.schedule();
                }
            },
            None => {},
        }
    }

    /// Sets the state of a thread, adds it to or removes it from its run queue accordingly, and
    /// requests a context switch if needed. Returns the previous state.
    ///
    /// A thread that becomes `Running` is appended to the run queue of its priority; a switch is
    /// requested if it has a higher priority than the current thread. A thread that stops running
    /// leaves its run queue (it is at the head of it) and a switch is requested.
    pub fn set_state(&mut self, tid: ThreadId, state: ThreadState) -> (old_state: ThreadState)
        requires
            old(self).wf(),
            tid.0 < THREAD_COUNT,
            state == ThreadState::Running ==> old(self).state_of(tid) != ThreadState::Running,
            old(self).state_of(tid) == ThreadState::Running && state != ThreadState::Running
                ==> old(self).queues()[old(self).prio_of(tid)].len() > 0 && old(self).queues()[old(self).prio_of(tid)][0] == tid,
            state != ThreadState::Invalid ==> old(self).threads_view()[tid.0 as int].tid == tid,
        ensures
            final(self).wf(),
            old_state == old(self).state_of(tid),
            final(self).threads_view() == old(self).threads_view().update(
                tid.0 as int,
                (Thread { state: state, ..old(self).threads_view()[tid.0 as int] }),
            ),
            final(self).blocklist() == old(self).blocklist(),
            final(self).current() == old(self).current(),
            final(self).queues() == (if state == ThreadState::Running {
                old(self).queues().update(
                    old(self).prio_of(tid),
                    old(self).queues()[old(self).prio_of(tid)].push(tid),
                )
            } else if old_state == ThreadState::Running {
                old(self).queues().update(
                    old(self).prio_of(tid),
                    old(self).queues()[old(self).prio_of(tid)].drop_first(),
                )
            } else {
                old(self).queues()
            }),
            final(self).schedule_pending() == (old(self).schedule_pending() || (state
                == ThreadState::Running && match old(self).current() {
                Some(c) => old(self).prio_of(c) < old(self).prio_of(tid),
                None => false,
            }) || (old_state == ThreadState::Running && state != ThreadState::Running)),
    {
        let i = tid.0 as usize;
        let mut thread = self.threads[i];
        let old_state = thread.state;
        thread.state = state;
        self.threads.set(i, thread);
        let prio = thread.prio;
        proof {
            self.lemma_wf_after_state_change(*old(self), tid, state);
        }
        if state == ThreadState::Running {
            self.runqueue.add(tid, prio);
            proof {
                self.lemma_wf_after_add(*old(self), tid, state);
            }
            self.schedule_if_higher_prio(tid, prio);
        } else if old_state == ThreadState::Running {
            self.runqueue.pop_head(tid, prio);
            proof {
                self.lemma_wf_after_pop(*old(self), tid, state);
            }
            self.schedule();
        } else {
            proof {
                self.lemma_wf_after_other(*old(self), tid, state);
            }
        }
        old_state
    }

    /// The invariant only depends on the views.
    pub proof fn lemma_wf_same_views(&self, other: &Scheduler)
        requires
            self.wf(),
            other.threads_view() == self.threads_view(),
            other.queues() == self.queues(),
            other.blocklist() == self.blocklist(),
            other.current() == self.current(),
        ensures
            other.wf(),
    {
        assert forall|t: ThreadId|
            t.0 < THREAD_COUNT && #[trigger] other.state_of(t) == ThreadState::Running implies other.queues()[other.prio_of(
                t,
            )].contains(t) by {
            assert(self.state_of(t) == ThreadState::Running);
        }
        assert forall|p: int, i: int|
            0 <= p < SCHED_PRIO_LEVELS && 0 <= i < other.queues()[p].len() implies {
                let t = #[trigger] other.queues()[p][i];
                &&& t.0 < THREAD_COUNT
                &&& other.state_of(t) == ThreadState::Running
                &&& other.prio_of(t) == p
            } by {
            assert(self.queues()[p][i] == other.queues()[p][i]);
        }
    }

    /// Every invariant part that does not mention run-queue membership carries over a state
    /// change of `tid`.
    proof fn lemma_wf_after_state_change(&self, pre: Scheduler, tid: ThreadId, state: ThreadState)
        requires
            pre.wf(),
            tid.0 < THREAD_COUNT,
            state != ThreadState::Invalid ==> pre.threads_view()[tid.0 as int].tid == tid,
            self.threads_view() == pre.threads_view().update(
                tid.0 as int,
                (Thread { state: state, ..pre.threads_view()[tid.0 as int] }),
            ),
            self.blocklist() == pre.blocklist(),
            self.current() == pre.current(),
        ensures
            self.threads_view().len() == THREAD_COUNT,
            forall|i: int|
                0 <= i < THREAD_COUNT ==> (#[trigger] self.threads_view()[i]).prio.0
                    < SCHED_PRIO_LEVELS,
            forall|i: int|
                0 <= i < THREAD_COUNT && (#[trigger] self.threads_view()[i]).state
                    != ThreadState::Invalid ==> self.threads_view()[i].tid.0 == i,
            forall|t: ThreadId| t.0 < THREAD_COUNT ==> #[trigger] self.prio_of(t) == pre.prio_of(t),
            forall|t: ThreadId|
                t.0 < THREAD_COUNT && t != tid ==> #[trigger] self.state_of(t) == pre.state_of(t),
            self.state_of(tid) == state,
    {
        assert forall|i: int|
            0 <= i < THREAD_COUNT && (#[trigger] self.threads_view()[i]).state
                != ThreadState::Invalid implies self.threads_view()[i].tid.0 == i by {
            if i != tid.0 {
                assert(self.threads_view()[i] == pre.threads_view()[i]);
            }
        }
        assert forall|t: ThreadId| t.0 < THREAD_COUNT && t != tid implies #[trigger] self.state_of(t)
            == pre.state_of(t) by {
            assert(t.0 != tid.0);
        }
    }

    proof fn lemma_wf_after_add(&self, pre: Scheduler, tid: ThreadId, state: ThreadState)
        requires
            pre.wf(),
            tid.0 < THREAD_COUNT,
            state == ThreadState::Running,
            pre.state_of(tid) != ThreadState::Running,
            pre.threads_view()[tid.0 as int].tid == tid,
            self.threads_view() == pre.threads_view().update(
                tid.0 as int,
                (Thread { state: state, ..pre.threads_view()[tid.0 as int] }),
            ),
            self.blocklist() == pre.blocklist(),
            self.current() == pre.current(),
            self.queues() == pre.queues().update(
                pre.prio_of(tid),
                pre.queues()[pre.prio_of(tid)].push(tid),
            ),
        ensures
            self.wf(),
    {
        self.lemma_wf_after_state_change(pre, tid, state);
        let p = pre.prio_of(tid);
        assert(!pre.queues()[p].contains(tid));
        assert forall|q: int| 0 <= q < SCHED_PRIO_LEVELS implies (#[trigger] self.queues()[q]).no_duplicates() by {
            if q == p {
                assert forall|a: int, b: int| 0 <= a < b < self.queues()[q].len() implies self.queues()[q][a]
                    != self.queues()[q][b] by {
                    if b == self.queues()[q].len() - 1 {
                        assert(pre.queues()[q][a] == self.queues()[q][a]);
                    }
                }
            }
        }
        assert forall|q: int, i: int|
            0 <= q < SCHED_PRIO_LEVELS && 0 <= i < self.queues()[q].len() implies {
                let t = #[trigger] self.queues()[q][i];
                &&& t.0 < THREAD_COUNT
                &&& self.state_of(t) == ThreadState::Running
                &&& self.prio_of(t) == q
            } by {
            let t = self.queues()[q][i];
            if q == p && i == self.queues()[q].len() - 1 {
                assert(t == tid);
            } else {
                assert(t == pre.queues()[q][i]);
                assert(pre.state_of(t) == ThreadState::Running);
                assert(t != tid);
            }
        }
        assert forall|t: ThreadId|
            t.0 < THREAD_COUNT && #[trigger] self.state_of(t) == ThreadState::Running implies self.queues()[self.prio_of(
                t,
            )].contains(t) by {
            if t == tid {
                assert(self.queues()[p][self.queues()[p].len() - 1] == tid);
            } else {
                assert(pre.state_of(t) == ThreadState::Running);
                assert(pre.queues()[pre.prio_of(t)].contains(t));
                let j = choose|j: int| 0 <= j < pre.queues()[pre.prio_of(t)].len() && pre.queues()[pre.prio_of(t)][j] == t;
                assert(self.queues()[self.prio_of(t)][j] == t);
            }
        }
    }

    proof fn lemma_wf_after_pop(&self, pre: Scheduler, tid: ThreadId, state: ThreadState)
        requires
            pre.wf(),
            tid.0 < THREAD_COUNT,
            state != ThreadState::Running,
            pre.state_of(tid) == ThreadState::Running,
            pre.queues()[pre.prio_of(tid)].len() > 0,
            pre.queues()[pre.prio_of(tid)][0] == tid,
            state != ThreadState::Invalid ==> pre.threads_view()[tid.0 as int].tid == tid,
            self.threads_view() == pre.threads_view().update(
                tid.0 as int,
                (Thread { state: state, ..pre.threads_view()[tid.0 as int] }),
            ),
            self.blocklist() == pre.blocklist(),
            self.current() == pre.current(),
            self.queues() == pre.queues().update(
                pre.prio_of(tid),
                pre.queues()[pre.prio_of(tid)].drop_first(),
            ),
        ensures
            self.wf(),
    {
        self.lemma_wf_after_state_change(pre, tid, state);
        let p = pre.prio_of(tid);
        assert forall|q: int| 0 <= q < SCHED_PRIO_LEVELS implies (#[trigger] self.queues()[q]).no_duplicates() by {
            if q == p {
                assert forall|a: int, b: int| 0 <= a < b < self.queues()[q].len() implies self.queues()[q][a]
                    != self.queues()[q][b] by {
                    assert(self.queues()[q][a] == pre.queues()[q][a + 1]);
                    assert(self.queues()[q][b] == pre.queues()[q][b + 1]);
                }
            }
        }
        assert forall|q: int, i: int|
            0 <= q < SCHED_PRIO_LEVELS && 0 <= i < self.queues()[q].len() implies {
                let t = #[trigger] self.queues()[q][i];
                &&& t.0 < THREAD_COUNT
                &&& self.state_of(t) == ThreadState::Running
                &&& self.prio_of(t) == q
            } by {
            let t = self.queues()[q][i];
            if q == p {
                assert(t == pre.queues()[q][i + 1]);
                assert(pre.queues()[q][0] == tid);
                assert(t != tid);
            } else {
                assert(t == pre.queues()[q][i]);
                assert(pre.prio_of(t) == q);
                assert(t != tid);
            }
        }
        assert forall|t: ThreadId|
            t.0 < THREAD_COUNT && #[trigger] self.state_of(t) == ThreadState::Running implies self.queues()[self.prio_of(
                t,
            )].contains(t) by {
            assert(t != tid);
            assert(pre.state_of(t) == ThreadState::Running);
            assert(pre.queues()[pre.prio_of(t)].contains(t));
            let j = choose|j: int| 0 <= j < pre.queues()[pre.prio_of(t)].len() && pre.queues()[pre.prio_of(t)][j] == t;
            if pre.prio_of(t) == p {
                assert(j != 0);
                assert(self.queues()[p][j - 1] == t);
            } else {
                assert(self.queues()[self.prio_of(t)][j] == t);
            }
        }
    }

    proof fn lemma_wf_after_other(&self, pre: Scheduler, tid: ThreadId, state: ThreadState)
        requires
            pre.wf(),
            tid.0 < THREAD_COUNT,
            state != ThreadState::Running,
            pre.state_of(tid) != ThreadState::Running,
            state != ThreadState::Invalid ==> pre.threads_view()[tid.0 as int].tid == tid,
            self.threads_view() == pre.threads_view().update(
                tid.0 as int,
                (Thread { state: state, ..pre.threads_view()[tid.0 as int] }),
            ),
            self.blocklist() == pre.blocklist(),
            self.current() == pre.current(),
            self.queues() == pre.queues(),
        ensures
            self.wf(),
    {
        self.lemma_wf_after_state_change(pre, tid, state);
        assert forall|q: int, i: int|
            0 <= q < SCHED_PRIO_LEVELS && 0 <= i < self.queues()[q].len() implies {
                let t = #[trigger] self.queues()[q][i];
                &&& t.0 < THREAD_COUNT
                &&& self.state_of(t) == ThreadState::Running
                &&& self.prio_of(t) == q
            } by {
            let t = self.queues()[q][i];
            assert(t == pre.queues()[q][i]);
            assert(pre.state_of(t) == ThreadState::Running);
            assert(t != tid);
        }
        assert forall|t: ThreadId|
            t.0 < THREAD_COUNT && #[trigger] self.state_of(t) == ThreadState::Running implies self.queues()[self.prio_of(
                t,
            )].contains(t) by {
            assert(t != tid);
            assert(pre.state_of(t) == ThreadState::Running);
        }
    }
}

impl Thread {
    /// The empty thread control block.
    pub open spec fn default_spec() -> Thread {
        Thread {
            state: ThreadState::Invalid,
            prio: RunqueueId(0),
            tid: ThreadId(0),
            flags: 0,
            sp: 0,
            stack_lowest: 0,
            stack_highest: 0,
            deadline: None,
        }
    }
}

impl Scheduler {
    /// The queues after moving thread `tid` from the run queue of priority `old_p` to the tail of
    /// the run queue of priority `new_p`.
    pub open spec fn requeued(
        qs: Seq<Seq<ThreadId>>,
        tid: ThreadId,
        old_p: int,
        new_p: int,
    ) -> Seq<Seq<ThreadId>> {
        let removed = qs.update(old_p, qs[old_p].remove(qs[old_p].index_of(tid)));
        removed.update(new_p, removed[new_p].push(tid))
    }

    /// Changes the priority of a thread, moving it to the tail of its new run queue if it is
    /// ready, and requests a context switch if needed.
    ///
    /// Nothing changes if the thread is not valid or already has this priority. A switch is
    /// requested when the current thread lowers its own priority, or when another ready thread
    /// raises its priority above the current thread's.
    pub fn set_priority(&mut self, thread_id: ThreadId, prio: RunqueueId)
        requires
            old(self).wf(),
            prio.0 < SCHED_PRIO_LEVELS,
        ensures
            final(self).wf(),
            final(self).blocklist() == old(self).blocklist(),
            final(self).current() == old(self).current(),
            !(thread_id.0 < THREAD_COUNT && old(self).state_of(thread_id) != ThreadState::Invalid)
                || old(self).prio_of(thread_id) == prio.0 ==> {
                &&& final(self).threads_view() == old(self).threads_view()
                &&& final(self).queues() == old(self).queues()
                &&& final(self).schedule_pending() == old(self).schedule_pending()
            },
            thread_id.0 < THREAD_COUNT && old(self).state_of(thread_id) != ThreadState::Invalid
                && old(self).prio_of(thread_id) != prio.0 ==> {
                &&& final(self).threads_view() == old(self).threads_view().update(
                    thread_id.0 as int,
                    (Thread { prio: prio, ..old(self).threads_view()[thread_id.0 as int] }),
                )
                &&& old(self).state_of(thread_id) != ThreadState::Running ==> {
                    &&& final(self).queues() == old(self).queues()
                    &&& final(self).schedule_pending() == old(self).schedule_pending()
                }
                &&& old(self).state_of(thread_id) == ThreadState::Running ==> {
                    &&& final(self).queues() == Scheduler::requeued(
                        old(self).queues(),
                        thread_id,
                        old(self).prio_of(thread_id),
                        prio.0 as int,
                    )
                    &&& final(self).schedule_pending() == (old(self).schedule_pending() || if old(self).current() == Some(thread_id) {
                        prio.0 < old(self).prio_of(thread_id)
                    } else {
                        prio.0 > old(self).prio_of(thread_id) && match old(self).current() {
                            Some(c) => old(self).prio_of(c) < prio.0,
                            None => false,
                        }
                    })
                }
            },
    {
        if !self.is_valid_tid(thread_id) {
            return;
        }
        let i = thread_id.0 as usize;
        let mut thread = self.threads[i];
        let old_prio = thread.prio;
        if old_prio == prio {
            return;
        }
        let ghost pre = *self;
        thread.prio = prio;
        self.threads.set(i, thread);
        if thread.state != ThreadState::Running {
            proof {
                self.lemma_wf_after_reprio_blocked(pre, thread_id, prio);
            }
            return;
        }
        let ghost oq = self.runqueue@;
        proof {
            assert(oq == pre.queues());
            assert(oq[old_prio.0 as int].contains(thread_id));
        }
        if self.runqueue.peek_head(old_prio) == Some(thread_id) {
            self.runqueue.pop_head(thread_id, old_prio);
            proof {
                let q = oq[old_prio.0 as int];
                assert(q[0] == thread_id);
                assert(q.index_of(thread_id) == 0) by {
                    let c = q.index_of(thread_id);
                    assert(q[c] == thread_id);
                    if c != 0 {
                        assert(q.no_duplicates());
                    }
                }
                assert(q.drop_first() =~= q.remove(0));
                assert(self.runqueue@ =~= oq.update(old_prio.0 as int, q.remove(q.index_of(thread_id))));
            }
        } else {
            self.runqueue.del(thread_id);
            proof {
                let q = oq[old_prio.0 as int];
                assert forall|p: int| 0 <= p < SCHED_PRIO_LEVELS && p != old_prio.0 implies !(#[trigger] oq[p]).contains(thread_id) by {
                    if oq[p].contains(thread_id) {
                        let j = choose|j: int| 0 <= j < oq[p].len() && oq[p][j] == thread_id;
                        assert(pre.queues()[p][j] == thread_id);
                    }
                }
                assert(self.runqueue@ =~= oq.update(old_prio.0 as int, q.remove(q.index_of(thread_id))));
            }
        }
        proof {
            let q = oq[old_prio.0 as int];
            let removed = oq.update(old_prio.0 as int, q.remove(q.index_of(thread_id)));
            assert(!removed[prio.0 as int].contains(thread_id)) by {
                if removed[prio.0 as int].contains(thread_id) {
                    let j = choose|j: int| 0 <= j < removed[prio.0 as int].len() && removed[prio.0 as int][j] == thread_id;
                    assert(pre.queues()[prio.0 as int][j] == thread_id);
                }
            }
        }
        self.runqueue.add(thread_id, prio);
        proof {
            self.lemma_wf_after_reprio_running(pre, thread_id, prio);
        }
        match self.is_running(thread_id) {
            Some(_) => {
                if prio.0 < old_prio.0 {
                    self.schedule();
                }
                return;
            },
            None => {},
        }
        if prio.0 > old_prio.0 {
            self.schedule_if_higher_prio(thread_id, prio);
        }
    }

    proof fn lemma_wf_after_reprio_blocked(&self, pre: Scheduler, tid: ThreadId, prio: RunqueueId)
        requires
            pre.wf(),
            tid.0 < THREAD_COUNT,
            prio.0 < SCHED_PRIO_LEVELS,
            pre.state_of(tid) != ThreadState::Running,
            self.threads_view() == pre.threads_view().update(
                tid.0 as int,
                (Thread { prio: prio, ..pre.threads_view()[tid.0 as int] }),
            ),
            self.blocklist() == pre.blocklist(),
            self.current() == pre.current(),
            self.queues() == pre.queues(),
        ensures
            self.wf(),
    {
        assert forall|i: int|
            0 <= i < THREAD_COUNT && (#[trigger] self.threads_view()[i]).state
                != ThreadState::Invalid implies self.threads_view()[i].tid.0 == i by {
            if i != tid.0 {
                assert(self.threads_view()[i] == pre.threads_view()[i]);
            }
        }
        assert forall|q: int, i: int|
            0 <= q < SCHED_PRIO_LEVELS && 0 <= i < self.queues()[q].len() implies {
                let t = #[trigger] self.queues()[q][i];
                &&& t.0 < THREAD_COUNT
                &&& self.state_of(t) == ThreadState::Running
                &&& self.prio_of(t) == q
            } by {
            let t = self.queues()[q][i];
            assert(t == pre.queues()[q][i]);
            assert(pre.state_of(t) == ThreadState::Running);
            assert(t.0 != tid.0);
        }
        assert forall|t: ThreadId|
            t.0 < THREAD_COUNT && #[trigger] self.state_of(t) == ThreadState::Running implies self.queues()[self.prio_of(
                t,
            )].contains(t) by {
            assert(t.0 != tid.0);
            assert(pre.state_of(t) == ThreadState::Running);
        }
    }

    proof fn lemma_wf_after_reprio_running(&self, pre: Scheduler, tid: ThreadId, prio: RunqueueId)
        requires
            pre.wf(),
            tid.0 < THREAD_COUNT,
            prio.0 < SCHED_PRIO_LEVELS,
            prio.0 != pre.prio_of(tid),
            pre.state_of(tid) == ThreadState::Running,
            self.threads_view() == pre.threads_view().update(
                tid.0 as int,
                (Thread { prio: prio, ..pre.threads_view()[tid.0 as int] }),
            ),
            self.blocklist() == pre.blocklist(),
            self.current() == pre.current(),
            self.queues() == Scheduler::requeued(pre.queues(), tid, pre.prio_of(tid), prio.0 as int),
        ensures
            self.wf(),
    {
        let op = pre.prio_of(tid);
        let np = prio.0 as int;
        let q = pre.queues()[op];
        let c = q.index_of(tid);
        assert(q.contains(tid));
        assert(0 <= c < q.len() && q[c] == tid);
        assert forall|i: int|
            0 <= i < THREAD_COUNT && (#[trigger] self.threads_view()[i]).state
                != ThreadState::Invalid implies self.threads_view()[i].tid.0 == i by {
            if i != tid.0 {
                assert(self.threads_view()[i] == pre.threads_view()[i]);
            }
        }
        assert(!pre.queues()[np].contains(tid)) by {
            if pre.queues()[np].contains(tid) {
                let j = choose|j: int| 0 <= j < pre.queues()[np].len() && pre.queues()[np][j] == tid;
                assert(pre.prio_of(pre.queues()[np][j]) == np);
            }
        }
        assert forall|p: int| 0 <= p < SCHED_PRIO_LEVELS implies (#[trigger] self.queues()[p]).no_duplicates() by {
            if p == op {
                assert forall|a: int, b: int| 0 <= a < b < self.queues()[p].len() implies self.queues()[p][a]
                    != self.queues()[p][b] by {
                    let ia = if a < c { a } else { a + 1 };
                    let ib = if b < c { b } else { b + 1 };
                    assert(self.queues()[p][a] == q[ia]);
                    assert(self.queues()[p][b] == q[ib]);
                }
            } else if p == np {
                assert forall|a: int, b: int| 0 <= a < b < self.queues()[p].len() implies self.queues()[p][a]
                    != self.queues()[p][b] by {
                    if b == self.queues()[p].len() - 1 {
                        assert(pre.queues()[p][a] == self.queues()[p][a]);
                    }
                }
            } else {
                assert(self.queues()[p] == pre.queues()[p]);
            }
        }
        assert forall|p: int, i: int|
            0 <= p < SCHED_PRIO_LEVELS && 0 <= i < self.queues()[p].len() implies {
                let t = #[trigger] self.queues()[p][i];
                &&& t.0 < THREAD_COUNT
                &&& self.state_of(t) == ThreadState::Running
                &&& self.prio_of(t) == p
            } by {
            let t = self.queues()[p][i];
            if p == op {
                let ii = if i < c { i } else { i + 1 };
                assert(t == q[ii]);
                assert(ii != c);
                assert(t != tid) by {
                    assert(q.no_duplicates());
                }
                assert(t.0 != tid.0);
            } else if p == np {
                if i == self.queues()[p].len() - 1 {
                    assert(t == tid);
                } else {
                    assert(t == pre.queues()[p][i]);
                    assert(pre.prio_of(t) == np);
                    assert(t.0 != tid.0);
                }
            } else {
                assert(t == pre.queues()[p][i]);
                assert(pre.prio_of(t) == p);
                assert(t.0 != tid.0);
            }
        }
        assert forall|t: ThreadId|
            t.0 < THREAD_COUNT && #[trigger] self.state_of(t) == ThreadState::Running implies self.queues()[self.prio_of(
                t,
            )].contains(t) by {
            if t == tid {
                assert(self.queues()[np][self.queues()[np].len() - 1] == tid);
            } else {
                assert(t.0 != tid.0);
                assert(pre.state_of(t) == ThreadState::Running);
                let tp = pre.prio_of(t);
                assert(pre.queues()[tp].contains(t));
                let j = choose|j: int| 0 <= j < pre.queues()[tp].len() && pre.queues()[tp][j] == t;
                if tp == op {
                    assert(j != c);
                    let jj = if j < c { j } else { j - 1 };
                    assert(self.queues()[tp][jj] == t);
                } else {
                    assert(self.queues()[tp][j] == t);
                }
            }
        }
    }

    /// Returns the next thread to run: the head of the highest non-empty run queue.
    pub fn get_next_tid(&self) -> (r: Option<ThreadId>)
        requires
            self.wf(),
        ensures
            r == next_thread(self.queues()),
    {
        self.runqueue.get_next()
    }

    /// The scheduling decision taken by the context-switch handler.
    ///
    /// The next thread is the head of the highest non-empty run queue; it becomes the current
    /// thread. The pending switch request is consumed.
    pub fn sched(&mut self) -> (r: ContextSwitch)
        requires
            old(self).wf(),
        ensures
            final(self).wf(),
            !final(self).schedule_pending(),
            final(self).threads_view() == old(self).threads_view(),
            final(self).queues() == old(self).queues(),
            final(self).blocklist() == old(self).blocklist(),
            match next_thread(old(self).queues()) {
                None => r == ContextSwitch::NoThread && final(self).current() == old(self).current(),
                Some(n) => {
                    &&& final(self).current() == Some(n)
                    &&& final(self).current_at_head()
                    &&& r == (if old(self).current() == Some(n) {
                        ContextSwitch::KeepCurrent
                    } else {
                        ContextSwitch::SwitchTo { previous: old(self).current(), next: n }
                    })
                },
            },
    {
        self.schedule_pending = false;
        let ghost mid = *self;
        proof {
            old(self).lemma_wf_same_views(&mid);
        }
        let next = match self.runqueue.get_next() {
            Some(n) => n,
            None => {
                return ContextSwitch::NoThread;
            },
        };
        proof {
            let p = choose|p: int| is_highest_nonempty(self.queues(), p) && self.queues()[p][0] == next;
            assert(self.queues()[p][0] == next);
            assert(self.prio_of(next) == p);
        }
        let previous = self.current_thread;
        self.current_thread = Some(next);
        proof {
            assert forall|t: ThreadId|
                t.0 < THREAD_COUNT && #[trigger] self.state_of(t) == ThreadState::Running implies self.queues()[self.prio_of(
                    t,
                )].contains(t) by {
                assert(mid.state_of(t) == ThreadState::Running);
            }
            assert forall|p: int, i: int|
                0 <= p < SCHED_PRIO_LEVELS && 0 <= i < self.queues()[p].len() implies {
                    let t = #[trigger] self.queues()[p][i];
                    &&& t.0 < THREAD_COUNT
                    &&& self.state_of(t) == ThreadState::Running
                    &&& self.prio_of(t) == p
                } by {
                assert(mid.queues()[p][i] == self.queues()[p][i]);
            }
        }
        match previous {
            Some(c) => {
                if c == next {
                    ContextSwitch::KeepCurrent
                } else {
                    ContextSwitch::SwitchTo { previous, next }
                }
            },
            None => ContextSwitch::SwitchTo { previous, next },
        }
    }

    /// "Yields" to another thread with the same priority: the current thread moves from the head
    /// to the tail of its run queue, and a switch is requested if another thread was waiting
    /// there.
    pub fn yield_same(&mut self)
        requires
            old(self).wf(),
        ensures
            final(self).wf(),
            final(self).threads_view() == old(self).threads_view(),
            final(self).blocklist() == old(self).blocklist(),
            final(self).current() == old(self).current(),
            match old(self).current() {
                None => final(self).queues() == old(self).queues() && final(self).schedule_pending()
                    == old(self).schedule_pending(),
                Some(t) => {
                    let p = old(self).prio_of(t);
                    let q = old(self).queues()[p];
                    if q.len() > 1 {
                        &&& final(self).queues() == old(self).queues().update(p, q.drop_first().push(q[0]))
                        &&& final(self).schedule_pending()
                    } else {
                        &&& final(self).queues() == old(self).queues()
                        &&& final(self).schedule_pending() == old(self).schedule_pending()
                    }
                },
            },
    {
        let t = match self.current_thread {
            Some(t) => t,
            None => {
                return;
            },
        };
        let prio = self.threads[t.0 as usize].prio;
        let ghost pre = *self;
        if self.runqueue.advance(prio) {
            proof {
                self.lemma_wf_after_rotate(pre, prio.0 as int);
            }
            self.schedule();
        } else {
            proof {
                pre.lemma_wf_same_views(self);
            }
        }
    }

    proof fn lemma_wf_after_rotate(&self, pre: Scheduler, p: int)
        requires
            pre.wf(),
            0 <= p < SCHED_PRIO_LEVELS,
            pre.queues()[p].len() > 1,
            self.threads_view() == pre.threads_view(),
            self.blocklist() == pre.blocklist(),
            self.current() == pre.current(),
            self.queues() == pre.queues().update(p, pre.queues()[p].drop_first().push(pre.queues()[p][0])),
        ensures
            self.wf(),
    {
        let q = pre.queues()[p];
        let n = q.len();
        assert forall|r: int| 0 <= r < SCHED_PRIO_LEVELS implies (#[trigger] self.queues()[r]).no_duplicates() by {
            if r == p {
                assert forall|a: int, b: int| 0 <= a < b < self.queues()[r].len() implies self.queues()[r][a]
                    != self.queues()[r][b] by {
                    let ia = if a < n - 1 { a + 1 } else { 0 };
                    let ib = if b < n - 1 { b + 1 } else { 0 };
                    assert(self.queues()[r][a] == q[ia]);
                    assert(self.queues()[r][b] == q[ib]);
                }
            }
        }
        assert forall|r: int, i: int|
            0 <= r < SCHED_PRIO_LEVELS && 0 <= i < self.queues()[r].len() implies {
                let t = #[trigger] self.queues()[r][i];
                &&& t.0 < THREAD_COUNT
                &&& self.state_of(t) == ThreadState::Running
                &&& self.prio_of(t) == r
            } by {
            if r == p {
                let ii = if i < n - 1 { i + 1 } else { 0 };
                assert(self.queues()[r][i] == q[ii]);
                assert(pre.queues()[r][ii] == q[ii]);
            } else {
                assert(self.queues()[r][i] == pre.queues()[r][i]);
            }
        }
        assert forall|t: ThreadId|
            t.0 < THREAD_COUNT && #[trigger] self.state_of(t) == ThreadState::Running implies self.queues()[self.prio_of(
                t,
            )].contains(t) by {
            assert(pre.state_of(t) == ThreadState::Running);
            let tp = pre.prio_of(t);
            assert(pre.queues()[tp].contains(t));
            let j = choose|j: int| 0 <= j < pre.queues()[tp].len() && pre.queues()[tp][j] == t;
            if tp == p {
                let jj = if j == 0 { n - 1 } else { j - 1 };
                assert(self.queues()[tp][jj] == t);
            } else {
                assert(self.queues()[tp][j] == t);
            }
        }
    }

    /// Suspends the current thread: it leaves its run queue and a switch is requested.
    pub fn park(&mut self)
        requires
            old(self).wf(),
            old(self).current_at_head(),
        ensures
            final(self).wf(),
            final(self).blocklist() == old(self).blocklist(),
            final(self).current() == old(self).current(),
            match old(self).current() {
                None => {
                    &&& final(self).threads_view() == old(self).threads_view()
                    &&& final(self).queues() == old(self).queues()
                    &&& final(self).schedule_pending() == old(self).schedule_pending()
                },
                Some(t) => {
                    &&& final(self).state_of(t) == ThreadState::Parked
                    &&& final(self).threads_view() == old(self).threads_view().update(
                        t.0 as int,
                        (Thread { state: ThreadState::Parked, ..old(self).threads_view()[t.0 as int] }),
                    )
                    &&& old(self).state_of(t) == ThreadState::Running ==> {
                        &&& final(self).queues() == old(self).queues().update(
                            old(self).prio_of(t),
                            old(self).queues()[old(self).prio_of(t)].drop_first(),
                        )
                        &&& final(self).schedule_pending()
                        &&& stopped_running(*old(self), *final(self), t, ThreadState::Parked)
                    }
                    &&& old(self).state_of(t) != ThreadState::Running ==> {
                        &&& final(self).queues() == old(self).queues()
                        &&& final(self).schedule_pending() == old(self).schedule_pending()
                    }
                },
            },
    {
        let tid = match self.current_thread {
            Some(t) => t,
            None => {
                return;
            },
        };
        self.set_state(tid, ThreadState::Parked);
    }

    /// Wakes up a parked thread, adding it to its run queue.
    ///
    /// Returns `false`, changing nothing, if no parked thread exists for `thread_id`.
    pub fn unpark(&mut self, thread_id: ThreadId) -> (r: bool)
        requires
            old(self).wf(),
        ensures
            final(self).wf(),
            r == (thread_id.0 < THREAD_COUNT && old(self).state_of(thread_id) == ThreadState::Parked),
            final(self).blocklist() == old(self).blocklist(),
            final(self).current() == old(self).current(),
            !r ==> {
                &&& final(self).threads_view() == old(self).threads_view()
                &&& final(self).queues() == old(self).queues()
                &&& final(self).schedule_pending() == old(self).schedule_pending()
            },
            r ==> {
                &&& final(self).threads_view() == old(self).threads_view().update(
                    thread_id.0 as int,
                    (Thread { state: ThreadState::Running, ..old(self).threads_view()[thread_id.0 as int] }),
                )
                &&& final(self).queues() == old(self).queues().update(
                    old(self).prio_of(thread_id),
                    old(self).queues()[old(self).prio_of(thread_id)].push(thread_id),
                )
                &&& final(self).schedule_pending() == (old(self).schedule_pending() || match old(self).current() {
                    Some(c) => old(self).prio_of(c) < old(self).prio_of(thread_id),
                    None => false,
                })
            },
    {
        match self.get_state(thread_id) {
            Some(ThreadState::Parked) => {},
            _ => {
                return false;
            },
        }
        self.set_state(thread_id, ThreadState::Running);
        true
    }

    /// Terminates the current thread: its slot becomes `Invalid` and it leaves its run queue.
    pub fn cleanup(&mut self)
        requires
            old(self).wf(),
            old(self).current_at_head(),
            old(self).current() is Some,
        ensures
            final(self).wf(),
            final(self).blocklist() == old(self).blocklist(),
            final(self).current() == old(self).current(),
            final(self).state_of(old(self).current()->0) == ThreadState::Invalid,
            final(self).threads_view() == old(self).threads_view().update(
                (old(self).current()->0).0 as int,
                (Thread {
                    state: ThreadState::Invalid,
                    ..old(self).threads_view()[(old(self).current()->0).0 as int]
                }),
            ),
    {
        let tid = self.current_thread.unwrap();
        self.set_state(tid, ThreadState::Invalid);
    }

    /// Returns the current thread's stack limits `(lowest, highest)`.
    pub fn current_stack_limits(&self) -> (r: Option<(usize, usize)>)
        requires
            self.wf(),
        ensures
            r == match self.current() {
                Some(t) => Some(
                    (
                        self.threads_view()[t.0 as int].stack_lowest,
                        self.threads_view()[t.0 as int].stack_highest,
                    ),
                ),
                None => None,
            },
    {
        match self.current_thread {
            Some(t) => {
                let thread = self.threads[t.0 as usize];
                Some((thread.stack_lowest, thread.stack_highest))
            },
            None => None,
        }
    }

    /// Creates a new thread in the first unused slot, in state `Parked`, with the given stack
    /// layout and priority. Returns `None` if there is no free slot; the thread API built on it
    /// ([`Scheduler::create_thread`], which requires a free slot) panics in that case instead.
    pub fn create(
        &mut self,
        layout: StackLayout,
        prio: RunqueueId,
        core_affinity: Option<CoreAffinity>,
    ) -> (r: Option<ThreadId>)
        requires
            old(self).wf(),
            prio.0 < SCHED_PRIO_LEVELS,
        ensures
            final(self).wf(),
            final(self).queues() == old(self).queues(),
            final(self).blocklist() == old(self).blocklist(),
            final(self).current() == old(self).current(),
            final(self).schedule_pending() == old(self).schedule_pending(),
            match r {
                None => {
                    &&& final(self).threads_view() == old(self).threads_view()
                    &&& forall|j: int|
                        0 <= j < THREAD_COUNT ==> (#[trigger] old(self).threads_view()[j]).state
                            != ThreadState::Invalid
                },
                Some(t) => {
                    &&& t.0 < THREAD_COUNT
                    &&& old(self).state_of(t) == ThreadState::Invalid
                    &&& forall|j: int|
                        0 <= j < t.0 ==> (#[trigger] old(self).threads_view()[j]).state
                            != ThreadState::Invalid
                    &&& final(self).threads_view() == old(self).threads_view().update(
                        t.0 as int,
                        (Thread {
                            state: ThreadState::Parked,
                            prio: prio,
                            tid: t,
                            sp: layout.sp,
                            stack_lowest: layout.lowest,
                            stack_highest: layout.highest,
                            ..old(self).threads_view()[t.0 as int]
                        }),
                    )
                },
            },
    {
        let t = match self.get_unused() {
            Some(t) => t,
            None => {
                return None;
            },
        };
        let ghost pre = *self;
        let i = t.0 as usize;
        let mut thread = self.threads[i];
        thread.sp = layout.sp;
        thread.stack_lowest = layout.lowest;
        thread.stack_highest = layout.highest;
        thread.prio = prio;
        thread.tid = t;
        thread.state = ThreadState::Parked;
        self.threads.set(i, thread);
        proof {
            assert forall|k: int|
                0 <= k < THREAD_COUNT && (#[trigger] self.threads_view()[k]).state
                    != ThreadState::Invalid implies self.threads_view()[k].tid.0 == k by {
                if k != i {
                    assert(self.threads_view()[k] == pre.threads_view()[k]);
                }
            }
            assert forall|q: int, j: int|
                0 <= q < SCHED_PRIO_LEVELS && 0 <= j < self.queues()[q].len() implies {
                    let x = #[trigger] self.queues()[q][j];
                    &&& x.0 < THREAD_COUNT
                    &&& self.state_of(x) == ThreadState::Running
                    &&& self.prio_of(x) == q
                } by {
                let x = self.queues()[q][j];
                assert(x == pre.queues()[q][j]);
                assert(pre.state_of(x) == ThreadState::Running);
                assert(x.0 != i);
            }
            assert forall|x: ThreadId|
                x.0 < THREAD_COUNT && #[trigger] self.state_of(x) == ThreadState::Running implies self.queues()[self.prio_of(
                    x,
                )].contains(x) by {
                assert(x.0 != i);
                assert(pre.state_of(x) == ThreadState::Running);
            }
        }
        Some(t)
    }

    /// Whether some thread slot is unused.
    pub open spec fn has_free_slot(&self) -> bool {
        exists|j: int| 0 <= j < THREAD_COUNT && (#[trigger] self.threads_view()[j]).state == ThreadState::Invalid
    }

    /// Creates a thread and makes it ready: it is appended to the run queue of its priority, and a
    /// switch is requested if it has a higher priority than the current thread.
    pub fn create_thread(
        &mut self,
        layout: StackLayout,
        prio: u8,
        core_affinity: Option<CoreAffinity>,
    ) -> (t: ThreadId)
        requires
            old(self).wf(),
            prio < SCHED_PRIO_LEVELS,
            old(self).has_free_slot(),
        ensures
            final(self).wf(),
            t.0 < THREAD_COUNT,
            old(self).state_of(t) == ThreadState::Invalid,
            forall|j: int|
                0 <= j < t.0 ==> (#[trigger] old(self).threads_view()[j]).state != ThreadState::Invalid,
            final(self).threads_view() == old(self).threads_view().update(
                t.0 as int,
                (Thread {
                    state: ThreadState::Running,
                    prio: RunqueueId(prio),
                    tid: t,
                    sp: layout.sp,
                    stack_lowest: layout.lowest,
                    stack_highest: layout.highest,
                    ..old(self).threads_view()[t.0 as int]
                }),
            ),
            final(self).queues() == old(self).queues().update(prio as int, old(self).queues()[prio as int].push(t)),
            final(self).blocklist() == old(self).blocklist(),
            final(self).current() == old(self).current(),
            final(self).schedule_pending() == (old(self).schedule_pending() || match old(self).current() {
                Some(c) => c != t && old(self).prio_of(c) < prio,
                None => false,
            }),
    {
        let r = self.create(layout, RunqueueId(prio), core_affinity);
        let t = match r {
            Some(t) => t,
            None => {
                proof {
                    let j = choose|j: int| 0 <= j < THREAD_COUNT && (#[trigger] old(self).threads_view()[j]).state == ThreadState::Invalid;
                    assert(old(self).threads_view()[j].state != ThreadState::Invalid);
                }
                return ThreadId(0);
            },
        };
        self.set_state(t, ThreadState::Running);
        t
    }

    /// Triggers the scheduler on core `id` (there is a single core).
    pub fn schedule_on_core(&mut self, id: CoreId)
        requires
            old(self).wf(),
        ensures
            final(self).wf(),
            final(self).schedule_pending(),
            final(self).threads_view() == old(self).threads_view(),
            final(self).queues() == old(self).queues(),
            final(self).blocklist() == old(self).blocklist(),
            final(self).current() == old(self).current(),
    {
        self.schedule();
    }

    /// Handles a message from the other core's FIFO: the schedule token requests a context
    /// switch; anything else is not handled.
    pub fn handle_fifo_token(&mut self, token: u32) -> (r: bool)
        requires
            old(self).wf(),
        ensures
            final(self).wf(),
            r == (token == SCHEDULE_TOKEN),
            final(self).schedule_pending() == (old(self).schedule_pending() || r),
            final(self).threads_view() == old(self).threads_view(),
            final(self).queues() == old(self).queues(),
            final(self).blocklist() == old(self).blocklist(),
            final(self).current() == old(self).current(),
    {
        if token != SCHEDULE_TOKEN {
            return false;
        }
        self.schedule();
        true
    }
}

/// The FIFO message that asks a core to run its scheduler.
pub const SCHEDULE_TOKEN: u32 = 0x11;

impl Scheduler {
    /// The invariant carries over to a scheduler with the same threads, queues and current
    /// thread whose wait-list links are all in range.
    pub proof fn lemma_wf_relinked(&self, other: &Scheduler)
        requires
            self.wf(),
            other.threads_view() == self.threads_view(),
            other.queues() == self.queues(),
            other.current() == self.current(),
            other.blocklist().len() == THREAD_COUNT,
            forall|i: int| 0 <= i < THREAD_COUNT ==> match #[trigger] other.blocklist()[i] {
                Some(n) => n.0 < THREAD_COUNT,
                None => true,
            },
        ensures
            other.wf(),
    {
        assert forall|t: ThreadId|
            t.0 < THREAD_COUNT && #[trigger] other.state_of(t) == ThreadState::Running implies other.queues()[other.prio_of(
                t,
            )].contains(t) by {
            assert(self.state_of(t) == ThreadState::Running);
        }
        assert forall|p: int, i: int|
            0 <= p < SCHED_PRIO_LEVELS && 0 <= i < other.queues()[p].len() implies {
                let t = #[trigger] other.queues()[p][i];
                &&& t.0 < THREAD_COUNT
                &&& other.state_of(t) == ThreadState::Running
                &&& other.prio_of(t) == p
            } by {
            assert(self.queues()[p][i] == other.queues()[p][i]);
        }
    }

    /// Sets the wait-list successor of thread `i`.
    fn set_blocked_next(&mut self, i: ThreadId, v: Option<ThreadId>)
        requires
            old(self).wf(),
            i.0 < THREAD_COUNT,
            match v {
                Some(n) => n.0 < THREAD_COUNT,
                None => true,
            },
        ensures
            final(self).wf(),
            final(self).threads_view() == old(self).threads_view(),
            final(self).queues() == old(self).queues(),
            final(self).current() == old(self).current(),
            final(self).schedule_pending() == old(self).schedule_pending(),
            final(self).blocklist() == old(self).blocklist().update(i.0 as int, v),
    {
        let ghost pre = *self;
        self.thread_blocklist.set(i.0 as usize, v);
        proof {
            assert forall|k: int| 0 <= k < THREAD_COUNT implies match #[trigger] self.blocklist()[k] {
                Some(n) => n.0 < THREAD_COUNT,
                None => true,
            } by {
                if k != i.0 {
                    assert(self.blocklist()[k] == pre.blocklist()[k]);
                }
            }
            pre.lemma_wf_relinked(self);
        }
    }
}

/// `k` is where a thread of priority `p` is inserted into the waiters `w`: after every waiter of
/// priority `p` or higher, before the first waiter of lower priority.
pub open spec fn is_insert_pos(s: Scheduler, w: Seq<ThreadId>, p: int, k: int) -> bool {
    &&& 0 <= k <= w.len()
    &&& forall|j: int| 0 <= j < k ==> s.prio_of(#[trigger] w[j]) >= p
    &&& k < w.len() ==> s.prio_of(w[k]) < p
}

/// How one operation on a thread list changes its waiters `a` into `b`, as the operations'
/// contracts state it: `put_current` inserts a thread (`d == 1`); `pop`, `remove_inner` and
/// `remove_current` take one out (`d == -1`) or, finding nothing, change nothing (`d == 0`), as
/// `is_empty` never does.
pub open spec fn list_step(a: Seq<ThreadId>, b: Seq<ThreadId>, d: int) -> bool {
    ||| d == 1 && exists|k: int, t: ThreadId| 0 <= k <= a.len() && b == a.insert(k, t)
    ||| d == -1 && a.len() > 0 && b == a.drop_first()
    ||| d == -1 && exists|k: int| 0 <= k < a.len() && b == a.remove(k)
    ||| d == 0 && b == a
}

/// The number of threads put into a list minus the number taken out, over the steps `ds`.
pub open spec fn net_waiters(ds: Seq<int>) -> int
    decreases ds.len(),
{
    if ds.len() == 0 {
        0
    } else {
        net_waiters(ds.drop_last()) + ds.last()
    }
}

/// Emptiness over a run of list operations that starts from a new (empty) list: at every point
/// the list holds as many waiters as were put minus those taken out so far, so after a
/// `put_current` it stays non-empty until every waiter put into it has been popped or removed.
pub proof fn lemma_empty_exactly_when_drained(views: Seq<Seq<ThreadId>>, ds: Seq<int>)
    requires
        views.len() == ds.len() + 1,
        views[0].len() == 0,
        forall|i: int| 0 <= i < ds.len() ==> list_step(#[trigger] views[i], views[i + 1], ds[i]),
    ensures
        views.last().len() == net_waiters(ds),
        (views.last().len() == 0) == (net_waiters(ds) == 0),
        forall|j: int| 0 <= j <= ds.len() ==> (#[trigger] views[j]).len() == net_waiters(ds.take(j)),
    decreases ds.len(),
{
    assert forall|j: int| 0 <= j < ds.len() implies (#[trigger] views[j]).len() == net_waiters(ds.take(j)) by {
        let vs = views.take(j + 1);
        let d = ds.take(j);
        assert forall|i: int| 0 <= i < d.len() implies list_step(#[trigger] vs[i], vs[i + 1], d[i]) by {
            assert(list_step(views[i], views[i + 1], ds[i]));
        }
        lemma_empty_exactly_when_drained(vs, d);
        assert(vs.last() == views[j]);
    }
    if ds.len() > 0 {
        let i = ds.len() - 1;
        assert forall|j: int| 0 <= j < ds.drop_last().len() implies list_step(
            #[trigger] views.drop_last()[j],
            views.drop_last()[j + 1],
            ds.drop_last()[j],
        ) by {
            assert(list_step(views[j], views[j + 1], ds[j]));
        }
        lemma_empty_exactly_when_drained(views.drop_last(), ds.drop_last());
        let a = views[i];
        let b = views[i + 1];
        assert(list_step(a, b, ds[i]));
        if ds[i] == 1 {
            let (k, t) = choose|k: int, t: ThreadId| 0 <= k <= a.len() && b == a.insert(k, t);
            assert(b.len() == a.len() + 1);
        } else if ds[i] == -1 && !(a.len() > 0 && b == a.drop_first()) {
            let k = choose|k: int| 0 <= k < a.len() && b == a.remove(k);
            assert(b.len() == a.len() - 1);
        }
    }
    assert(ds.take(ds.len() as int) =~= ds);
}

/// The insertion position of a thread of priority `p` into the waiters `w`.
pub open spec fn insert_pos(s: Scheduler, w: Seq<ThreadId>, p: int) -> int {
    choose|k: int| is_insert_pos(s, w, p, k)
}

/// The insertion position is unique.
pub proof fn lemma_insert_pos_unique(s: Scheduler, w: Seq<ThreadId>, p: int, k: int)
    requires
        is_insert_pos(s, w, p, k),
    ensures
        insert_pos(s, w, p) == k,
{
    let c = insert_pos(s, w, p);
    assert(is_insert_pos(s, w, p, c));
    if c < k {
        assert(s.prio_of(w[c]) >= p);
    } else if c > k {
        assert(s.prio_of(w[k]) >= p);
    }
}

/// The waiters are ordered by non-increasing priority.
pub open spec fn sorted_by_prio(s: Scheduler, w: Seq<ThreadId>) -> bool {
    forall|i: int, j: int| 0 <= i < j < w.len() ==> s.prio_of(#[trigger] w[i]) >= s.prio_of(#[trigger] w[j])
}

/// `w` is a chain of distinct blocked threads, each linked to the next by the scheduler's
/// wait-list links, the last one linked to nothing.
pub open spec fn chain_wf(w: Seq<ThreadId>, s: Scheduler) -> bool {
    &&& w.no_duplicates()
    &&& forall|k: int| 0 <= k < w.len() ==> {
        &&& (#[trigger] w[k]).0 < THREAD_COUNT
        &&& s.state_of(w[k]) != ThreadState::Running
        &&& s.state_of(w[k]) != ThreadState::Invalid
        &&& s.blocklist()[w[k].0 as int] == (if k + 1 < w.len() {
            Some(w[k + 1])
        } else {
            None
        })
    }
}

/// Inserting a thread into a chain at position `i`, linking it between its neighbours, gives a
/// chain; no other link changes.
proof fn lemma_chain_insert(
    w: Seq<ThreadId>,
    s0: Scheduler,
    s2: Scheduler,
    i: int,
    tid: ThreadId,
    state: ThreadState,
    nextv: Option<ThreadId>,
)
    requires
        chain_wf(w, s0),
        s0.wf(),
        0 <= i <= w.len(),
        !w.contains(tid),
        tid.0 < THREAD_COUNT,
        state != ThreadState::Running,
        state != ThreadState::Invalid,
        nextv == (if i < w.len() { Some(w[i]) } else { None::<ThreadId> }),
        s2.threads_view() == s0.threads_view().update(
            tid.0 as int,
            (Thread { state: state, ..s0.threads_view()[tid.0 as int] }),
        ),
        s2.blocklist() == (if i > 0 {
            s0.blocklist().update(tid.0 as int, nextv).update(w[i - 1].0 as int, Some(tid))
        } else {
            s0.blocklist().update(tid.0 as int, nextv)
        }),
    ensures
        chain_wf(w.insert(i, tid), s2),
        forall|x: ThreadId|
            x.0 < THREAD_COUNT && x != tid && !w.contains(x) ==> #[trigger] s2.blocklist()[x.0 as int]
                == s0.blocklist()[x.0 as int],
{
    let nw = w.insert(i, tid);
    assert forall|k: int| 0 <= k < nw.len() implies {
        &&& (#[trigger] nw[k]).0 < THREAD_COUNT
        &&& s2.state_of(nw[k]) != ThreadState::Running
        &&& s2.state_of(nw[k]) != ThreadState::Invalid
        &&& s2.blocklist()[nw[k].0 as int] == (if k + 1 < nw.len() {
            Some(nw[k + 1])
        } else {
            None
        })
    } by {
        if k < i {
            assert(nw[k] == w[k]);
            assert(w[k] != tid);
            assert(nw[k].0 != tid.0);
            assert(s2.state_of(nw[k]) == s0.state_of(w[k]));
            if k == i - 1 {
                assert(nw[k + 1] == tid);
            } else {
                assert(w[k] != w[i - 1]);
                assert(nw[k + 1] == w[k + 1]);
            }
        } else if k == i {
            assert(nw[k] == tid);
            if i > 0 {
                assert(w[i - 1] != tid);
                assert(w[i - 1].0 != tid.0);
            }
            if k + 1 < nw.len() {
                assert(nw[k + 1] == w[i]);
            }
        } else {
            assert(nw[k] == w[k - 1]);
            assert(w[k - 1] != tid);
            assert(nw[k].0 != tid.0);
            assert(s2.state_of(nw[k]) == s0.state_of(w[k - 1]));
            if i > 0 {
                assert(w[k - 1] != w[i - 1]);
            }
            if k + 1 < nw.len() {
                assert(nw[k + 1] == w[k]);
            }
        }
    }
    assert forall|a: int, b: int| 0 <= a < b < nw.len() implies nw[a] != nw[b] by {
        if a < i {
            assert(nw[a] == w[a]);
        } else if a > i {
            assert(nw[a] == w[a - 1]);
        }
        if b < i {
            assert(nw[b] == w[b]);
        } else if b > i {
            assert(nw[b] == w[b - 1]);
        }
    }
    assert forall|x: ThreadId|
        x.0 < THREAD_COUNT && x != tid && !w.contains(x) implies #[trigger] s2.blocklist()[x.0 as int]
        == s0.blocklist()[x.0 as int] by {
        if i > 0 {
            assert(w[i - 1] != x);
            assert(x.0 != w[i - 1].0);
        }
        assert(x.0 != tid.0);
    }
}

/// Inserting a thread at its insertion position keeps the chain ordered by priority.
proof fn lemma_sorted_insert(w: Seq<ThreadId>, s0: Scheduler, s2: Scheduler, i: int, tid: ThreadId)
    requires
        sorted_by_prio(s0, w),
        is_insert_pos(s0, w, s0.prio_of(tid), i),
        tid.0 < THREAD_COUNT,
        forall|k: int| 0 <= k < w.len() ==> (#[trigger] w[k]).0 < THREAD_COUNT,
        forall|x: ThreadId| x.0 < THREAD_COUNT ==> #[trigger] s2.prio_of(x) == s0.prio_of(x),
    ensures
        sorted_by_prio(s2, w.insert(i, tid)),
{
    let nw = w.insert(i, tid);
    let p = s0.prio_of(tid);
    assert forall|a: int, b: int| 0 <= a < b < nw.len() implies s2.prio_of(#[trigger] nw[a]) >= s2.prio_of(
        #[trigger] nw[b],
    ) by {
        if a < i { assert(nw[a] == w[a]); } else if a > i { assert(nw[a] == w[a - 1]); }
        if b < i { assert(nw[b] == w[b]); } else if b > i { assert(nw[b] == w[b - 1]); }
        assert(s2.prio_of(nw[a]) == s0.prio_of(nw[a]));
        assert(s2.prio_of(nw[b]) == s0.prio_of(nw[b]));
        if a < i {
            assert(nw[a] == w[a]);
            assert(s0.prio_of(w[a]) >= p);
            if b < i {
                assert(nw[b] == w[b]);
            } else if b > i {
                assert(nw[b] == w[b - 1]);
                assert(s0.prio_of(w[a]) >= s0.prio_of(w[b - 1]));
            }
        } else if a == i {
            assert(nw[a] == tid);
            assert(nw[b] == w[b - 1]);
            assert(s0.prio_of(w[i]) < p);
            if b - 1 > i {
                assert(s0.prio_of(w[i]) >= s0.prio_of(w[b - 1]));
            }
        } else {
            assert(nw[a] == w[a - 1]);
            assert(nw[b] == w[b - 1]);
            assert(s0.prio_of(w[a - 1]) >= s0.prio_of(w[b - 1]));
        }
    }
}

/// Unlinking the thread at position `k` of a chain, relinking its neighbours, gives a chain.
proof fn lemma_chain_remove(w: Seq<ThreadId>, s0: Scheduler, s2: Scheduler, k: int, tid: ThreadId)
    requires
        chain_wf(w, s0),
        s0.wf(),
        0 <= k < w.len(),
        w[k] == tid,
        s2.threads_view() == s0.threads_view().update(
            tid.0 as int,
            (Thread { state: ThreadState::Running, ..s0.threads_view()[tid.0 as int] }),
        ),
        s2.blocklist() == (if k > 0 {
            s0.blocklist().update(w[k - 1].0 as int, s0.blocklist()[tid.0 as int]).update(
                tid.0 as int,
                None,
            )
        } else {
            s0.blocklist().update(tid.0 as int, None)
        }),
    ensures
        chain_wf(w.remove(k), s2),
{
    let nw = w.remove(k);
    assert forall|j: int| 0 <= j < nw.len() implies {
        &&& (#[trigger] nw[j]).0 < THREAD_COUNT
        &&& s2.state_of(nw[j]) != ThreadState::Running
        &&& s2.state_of(nw[j]) != ThreadState::Invalid
        &&& s2.blocklist()[nw[j].0 as int] == (if j + 1 < nw.len() {
            Some(nw[j + 1])
        } else {
            None
        })
    } by {
        let ij = if j < k { j } else { j + 1 };
        assert(nw[j] == w[ij]);
        assert(w[ij] != tid);
        assert(nw[j].0 != tid.0);
        assert(s2.state_of(nw[j]) == s0.state_of(w[ij]));
        if j == k - 1 {
            assert(s0.blocklist()[tid.0 as int] == (if k + 1 < w.len() { Some(w[k + 1]) } else { None }));
            if k + 1 < w.len() {
                assert(nw[j + 1] == w[k + 1]);
            }
        } else {
            if k > 0 {
                assert(w[ij] != w[k - 1]);
                assert(nw[j].0 != w[k - 1].0);
            }
            if j + 1 < nw.len() {
                let ij1 = if j + 1 < k { j + 1 } else { j + 2 };
                assert(nw[j + 1] == w[ij1]);
            }
        }
    }
    assert forall|a: int, b: int| 0 <= a < b < nw.len() implies nw[a] != nw[b] by {
        let ia = if a < k { a } else { a + 1 };
        let ib = if b < k { b } else { b + 1 };
        assert(nw[a] == w[ia]);
        assert(nw[b] == w[ib]);
    }
}

/// Removing a waiter keeps the chain ordered by priority.
proof fn lemma_sorted_remove(w: Seq<ThreadId>, s0: Scheduler, s2: Scheduler, k: int)
    requires
        sorted_by_prio(s0, w),
        0 <= k < w.len(),
        forall|j: int| 0 <= j < w.len() ==> (#[trigger] w[j]).0 < THREAD_COUNT,
        forall|x: ThreadId| x.0 < THREAD_COUNT ==> #[trigger] s2.prio_of(x) == s0.prio_of(x),
    ensures
        sorted_by_prio(s2, w.remove(k)),
{
    let nw = w.remove(k);
    assert forall|a: int, b: int| 0 <= a < b < nw.len() implies s2.prio_of(#[trigger] nw[a]) >= s2.prio_of(
        #[trigger] nw[b],
    ) by {
        let ia = if a < k { a } else { a + 1 };
        let ib = if b < k { b } else { b + 1 };
        assert(nw[a] == w[ia]);
        assert(nw[b] == w[ib]);
        assert(s0.prio_of(w[ia]) >= s0.prio_of(w[ib]));
        assert(s2.prio_of(nw[a]) == s0.prio_of(nw[a]));
        assert(s2.prio_of(nw[b]) == s0.prio_of(nw[b]));
    }
}

/// Threads blocked on a resource, in the order in which they get the resource.
///
/// The list is threaded through the scheduler's wait-list links: each waiter's link names the
/// next waiter.
pub struct ThreadList {
    head: Option<ThreadId>,
    waiters: Ghost<Seq<ThreadId>>,
}

impl View for ThreadList {
    type V = Seq<ThreadId>;

    closed spec fn view(&self) -> Seq<ThreadId> {
        self.waiters@
    }
}

impl ThreadList {
    /// The first waiter.
    pub closed spec fn head_view(&self) -> Option<ThreadId> {
        self.head
    }

    /// The list is consistent with the scheduler's links; its waiters are distinct, blocked
    /// threads.
    pub open spec fn wf(&self, s: Scheduler) -> bool {
        &&& chain_wf(self@, s)
        &&& self.head_view() == (if self@.len() == 0 {
            None
        } else {
            Some(self@[0])
        })
    }

    /// Creates a new empty list.
    pub fn new() -> (r: Self)
        ensures
            r@ == Seq::<ThreadId>::empty(),
            forall|s: Scheduler| r.wf(s),
    {
        ThreadList { head: None, waiters: Ghost(Seq::empty()) }
    }

    /// Whether no thread waits in this list.
    pub fn is_empty(&self, s: &Scheduler) -> (r: bool)
        requires
            self.wf(*s),
        ensures
            r == (self@.len() == 0),
    {
        self.head.is_none()
    }

    /// Removes the head from this list: it becomes `Running` (appended to its run queue, with a
    /// switch requested if it outranks the current thread).
    ///
    /// Returns the thread and its previous state, or `None` if the list is empty.
    pub fn pop(&mut self, sched: &mut Scheduler) -> (r: Option<(ThreadId, ThreadState)>)
        requires
            old(self).wf(*old(sched)),
            old(sched).wf(),
        ensures
            final(sched).wf(),
            final(self).wf(*final(sched)),
            final(sched).current() == old(sched).current(),
            old(self)@.len() == 0 ==> {
                &&& r is None
                &&& final(self)@ == old(self)@
                &&& final(sched).threads_view() == old(sched).threads_view()
                &&& final(sched).queues() == old(sched).queues()
                &&& final(sched).blocklist() == old(sched).blocklist()
                &&& final(sched).schedule_pending() == old(sched).schedule_pending()
            },
            old(self)@.len() > 0 ==> {
                let h = old(self)@[0];
                &&& r == Some((h, old(sched).state_of(h)))
                &&& final(self)@ == old(self)@.drop_first()
                &&& final(sched).threads_view() == old(sched).threads_view().update(
                    h.0 as int,
                    (Thread { state: ThreadState::Running, ..old(sched).threads_view()[h.0 as int] }),
                )
                &&& final(sched).queues() == old(sched).queues().update(
                    old(sched).prio_of(h),
                    old(sched).queues()[old(sched).prio_of(h)].push(h),
                )
                &&& final(sched).blocklist() == old(sched).blocklist().update(h.0 as int, None)
                &&& final(sched).schedule_pending() == (old(sched).schedule_pending() || match old(sched).current() {
                    Some(c) => old(sched).prio_of(c) < old(sched).prio_of(h),
                    None => false,
                })
            },
            sorted_by_prio(*old(sched), old(self)@) ==> sorted_by_prio(*final(sched), final(self)@),
    {
        let head = match self.head {
            Some(h) => h,
            None => {
                return None;
            },
        };
        let ghost w = self.waiters@;
        let ghost s0 = *sched;
        proof {
            assert(w[0] == head);
        }
        let next = sched.thread_blocklist[head.0 as usize];
        sched.set_blocked_next(head, None);
        self.head = next;
        self.waiters = Ghost(w.drop_first());
        proof {
            assert(w.no_duplicates());
            assert(s0.threads_view()[head.0 as int].tid == head);
        }
        let old_state = sched.set_state(head, ThreadState::Running);
        proof {
            let nw = self@;
            assert forall|k: int| 0 <= k < nw.len() implies {
                &&& (#[trigger] nw[k]).0 < THREAD_COUNT
                &&& sched.state_of(nw[k]) != ThreadState::Running
                &&& sched.state_of(nw[k]) != ThreadState::Invalid
                &&& sched.blocklist()[nw[k].0 as int] == (if k + 1 < nw.len() {
                    Some(nw[k + 1])
                } else {
                    None
                })
            } by {
                assert(nw[k] == w[k + 1]);
                assert(w[k + 1] != w[0]);
                assert(nw[k].0 != head.0);
                assert(sched.state_of(nw[k]) == s0.state_of(w[k + 1]));
            }
            assert forall|i: int, j: int| 0 <= i < j < nw.len() implies nw[i] != nw[j] by {
                assert(nw[i] == w[i + 1]);
                assert(nw[j] == w[j + 1]);
            }
            if sorted_by_prio(s0, w) {
                assert forall|i: int, j: int| 0 <= i < j < nw.len() implies sched.prio_of(#[trigger] nw[i])
                    >= sched.prio_of(#[trigger] nw[j]) by {
                    assert(nw[i] == w[i + 1]);
                    assert(nw[j] == w[j + 1]);
                    assert(s0.prio_of(w[i + 1]) >= s0.prio_of(w[j + 1]));
                }
            }
        }
        Some((head, old_state))
    }

    /// Puts the current thread into this list and blocks it in `state`: it leaves its run queue
    /// and a switch is requested.
    ///
    /// The thread is placed behind every waiter of the same or higher priority, before the first
    /// waiter of lower priority. Returns its priority if it became the head of the list (the
    /// highest priority among the waiters changed), `None` otherwise.
    #[verifier::rlimit(60)]
    pub fn put_current(&mut self, sched: &mut Scheduler, state: ThreadState) -> (r: Option<RunqueueId>)
        requires
            old(self).wf(*old(sched)),
            old(sched).wf(),
            old(sched).current_at_head(),
            old(sched).current() is Some,
            old(sched).state_of(old(sched).current()->0) == ThreadState::Running,
            state != ThreadState::Running,
            state != ThreadState::Invalid,
        ensures
            ({
                let t = old(sched).current()->0;
                let p = old(sched).prio_of(t);
                let k = insert_pos(*old(sched), old(self)@, p);
                &&& 0 <= k <= old(self)@.len()
                &&& final(self)@ == old(self)@.insert(k, t)
                &&& r == (if k == 0 {
                    Some(old(sched).threads_view()[t.0 as int].prio)
                } else {
                    None
                })
                &&& final(sched).threads_view() == old(sched).threads_view().update(
                    t.0 as int,
                    (Thread { state: state, ..old(sched).threads_view()[t.0 as int] }),
                )
                &&& final(sched).queues() == old(sched).queues().update(
                    p,
                    old(sched).queues()[p].drop_first(),
                )
                &&& forall|x: ThreadId|
                    x.0 < THREAD_COUNT && x != t && !old(self)@.contains(x) ==> #[trigger] final(sched).blocklist()[x.0 as int] == old(sched).blocklist()[x.0 as int]
            }),
            final(sched).wf(),
            final(self).wf(*final(sched)),
            final(sched).current() == old(sched).current(),
            final(sched).schedule_pending(),
            sorted_by_prio(*old(sched), old(self)@) ==> sorted_by_prio(*final(sched), final(self)@),
    {
        let tid = sched.current_thread.unwrap();
        let prio = sched.threads[tid.0 as usize].prio;
        let ghost w = self.waiters@;
        let ghost s0 = *sched;
        let mut curr: Option<ThreadId> = None;
        let mut next: Option<ThreadId> = self.head;
        let ghost mut i: int = 0;
        loop
            invariant
                0 <= i <= w.len(),
                next == (if i < w.len() { Some(w[i]) } else { None::<ThreadId> }),
                curr == (if i > 0 { Some(w[i - 1]) } else { None::<ThreadId> }),
                forall|j: int| 0 <= j < i ==> s0.prio_of(#[trigger] w[j]) >= prio.0,
                *sched == s0,
                self.waiters@ == w,
                self.wf(s0),
                s0.wf(),
                prio == s0.threads_view()[tid.0 as int].prio,
            ensures
                is_insert_pos(s0, w, prio.0 as int, i),
                next == (if i < w.len() { Some(w[i]) } else { None::<ThreadId> }),
                curr == (if i > 0 { Some(w[i - 1]) } else { None::<ThreadId> }),
            decreases w.len() - i,
        {
            match next {
                None => {
                    break;
                },
                Some(n) => {
                    if sched.threads[n.0 as usize].prio.0 < prio.0 {
                        break;
                    }
                    curr = next;
                    next = sched.thread_blocklist[n.0 as usize];
                    proof {
                        i = i + 1;
                    }
                },
            }
        }
        proof {
            lemma_insert_pos_unique(s0, w, prio.0 as int, i);
            assert(!w.contains(tid)) by {
                if w.contains(tid) {
                    let j = choose|j: int| 0 <= j < w.len() && w[j] == tid;
                    assert(s0.state_of(w[j]) != ThreadState::Running);
                }
            }
        }
        sched.set_blocked_next(tid, next);
        let r = match curr {
            Some(c) => {
                sched.set_blocked_next(c, Some(tid));
                None
            },
            None => {
                self.head = Some(tid);
                Some(prio)
            },
        };
        let ghost s1 = *sched;
        self.waiters = Ghost(w.insert(i, tid));
        sched.set_state(tid, state);
        proof {
            lemma_chain_insert(w, s0, *sched, i, tid, state, next);
            assert forall|x: ThreadId| x.0 < THREAD_COUNT implies #[trigger] sched.prio_of(x) == s0.prio_of(x) by {
                if x.0 != tid.0 {
                    assert(sched.threads_view()[x.0 as int] == s0.threads_view()[x.0 as int]);
                }
            }
            if sorted_by_prio(s0, w) {
                lemma_sorted_insert(w, s0, *sched, i, tid);
            }
        }
        r
    }

    /// Removes `thread_id` from this list, making it `Running` again.
    ///
    /// Returns `false`, changing nothing, if the thread is not in this list.
    #[verifier::rlimit(60)]
    pub fn remove_inner(&mut self, sched: &mut Scheduler, thread_id: ThreadId) -> (r: bool)
        requires
            old(self).wf(*old(sched)),
            old(sched).wf(),
        ensures
            final(sched).wf(),
            final(self).wf(*final(sched)),
            final(sched).current() == old(sched).current(),
            r == old(self)@.contains(thread_id),
            !r ==> {
                &&& final(self)@ == old(self)@
                &&& final(sched).threads_view() == old(sched).threads_view()
                &&& final(sched).queues() == old(sched).queues()
                &&& final(sched).blocklist() == old(sched).blocklist()
                &&& final(sched).schedule_pending() == old(sched).schedule_pending()
            },
            r ==> {
                let k = old(self)@.index_of(thread_id);
                let w = old(self)@;
                let bl = old(sched).blocklist();
                &&& 0 <= k < w.len()
                &&& w[k] == thread_id
                &&& final(self)@ == w.remove(k)
                &&& final(sched).threads_view() == old(sched).threads_view().update(
                    thread_id.0 as int,
                    (Thread { state: ThreadState::Running, ..old(sched).threads_view()[thread_id.0 as int] }),
                )
                &&& final(sched).queues() == old(sched).queues().update(
                    old(sched).prio_of(thread_id),
                    old(sched).queues()[old(sched).prio_of(thread_id)].push(thread_id),
                )
                &&& final(sched).blocklist() == (if k == 0 {
                    bl.update(thread_id.0 as int, None)
                } else {
                    bl.update(w[k - 1].0 as int, bl[thread_id.0 as int]).update(thread_id.0 as int, None)
                })
                &&& final(sched).schedule_pending() == (old(sched).schedule_pending() || match old(sched).current() {
                    Some(c) => old(sched).prio_of(c) < old(sched).prio_of(thread_id),
                    None => false,
                })
            },
            sorted_by_prio(*old(sched), old(self)@) ==> sorted_by_prio(*final(sched), final(self)@),
    {
        let ghost w = self.waiters@;
        let ghost s0 = *sched;
        let head = match self.head {
            Some(h) => h,
            None => {
                return false;
            },
        };
        if head == thread_id {
            proof {
                assert(w[0] == thread_id);
                assert(w.index_of(thread_id) == 0) by {
                    let c = w.index_of(thread_id);
                    assert(w[c] == thread_id);
                    if c != 0 {
                        assert(w.no_duplicates());
                    }
                }
                assert(w.remove(0) =~= w.drop_first());
            }
            let r = self.pop(sched);
            return true;
        }
        let mut cur = head;
        let ghost mut i: int = 0;
        loop
            invariant
                0 <= i < w.len(),
                cur == w[i],
                forall|j: int| 0 <= j <= i ==> w[j] != thread_id,
                *sched == s0,
                s0 == *old(sched),
                w == old(self)@,
                self.waiters@ == w,
                self.head_view() == old(self).head_view(),
                self.wf(s0),
                s0.wf(),
            decreases w.len() - i,
        {
            let nx = sched.thread_blocklist[cur.0 as usize];
            match nx {
                None => {
                    proof {
                        assert(i == w.len() - 1);
                        assert(!w.contains(thread_id)) by {
                            if w.contains(thread_id) {
                                let j = choose|j: int| 0 <= j < w.len() && w[j] == thread_id;
                                assert(w[j] != thread_id);
                            }
                        }
                    }
                    return false;
                },
                Some(next) => {
                    proof {
                        assert(i + 1 < w.len());
                        assert(next == w[i + 1]);
                    }
                    if next == thread_id {

                        proof {
                            assert(w.index_of(thread_id) == i + 1) by {
                                let c = w.index_of(thread_id);
                                assert(w.contains(thread_id));
                                assert(w[c] == thread_id);
                                if c != i + 1 {
                                    assert(w.no_duplicates());
                                }
                            }
                        }
                        let after = sched.thread_blocklist[next.0 as usize];
                        sched.set_blocked_next(cur, after);
                        sched.set_blocked_next(next, None);
                        self.waiters = Ghost(w.remove(i + 1));
                        proof {
                            assert(s0.threads_view()[next.0 as int].tid == next);
                            assert(s0.blocklist()[next.0 as int] == after);
                        }
                        sched.set_state(next, ThreadState::Running);
                        proof {
                            lemma_chain_remove(w, s0, *sched, i + 1, thread_id);
                            assert forall|x: ThreadId| x.0 < THREAD_COUNT implies #[trigger] sched.prio_of(x) == s0.prio_of(x) by {
                                if x.0 != thread_id.0 {
                                    assert(sched.threads_view()[x.0 as int] == s0.threads_view()[x.0 as int]);
                                }
                            }
                            if sorted_by_prio(s0, w) {
                                lemma_sorted_remove(w, s0, *sched, i + 1);
                            }
                        }
                        return true;
                    }
                    cur = next;
                    proof {
                        i = i + 1;
                    }
                },
            }
        }
    }

    /// Removes the current thread from this list, making it `Running` again.
    pub fn remove_current(&mut self, sched: &mut Scheduler) -> (r: bool)
        requires
            old(self).wf(*old(sched)),
            old(sched).wf(),
            old(sched).current() is Some,
        ensures
            final(sched).wf(),
            final(self).wf(*final(sched)),
            final(sched).current() == old(sched).current(),
            r == old(self)@.contains(old(sched).current()->0),
            r ==> final(self)@ == old(self)@.remove(old(self)@.index_of(old(sched).current()->0)),
            r ==> final(sched).state_of(old(sched).current()->0) == ThreadState::Running,
            !r ==> final(self)@ == old(self)@ && final(sched).threads_view()
                == old(sched).threads_view() && final(sched).queues() == old(sched).queues()
                && final(sched).blocklist() == old(sched).blocklist(),
    {
        let thread_id = sched.current_thread.unwrap();
        self.remove_inner(sched, thread_id)
    }
}

/// Thread flag set when a thread's timeout expires.
pub const THREAD_FLAG_TIMEOUT: ThreadFlags = 2;

impl Scheduler {
    /// Handles the expiry timer of thread `thread_id` at time `now`.
    ///
    /// If the thread's deadline is set and reached, the deadline is cleared, the timeout flag
    /// is set, and the thread is made `Running` unless it already is. Otherwise nothing changes.
    pub fn wake(&mut self, thread_id: ThreadId, now: u64)
        requires
            old(self).wf(),
            thread_id.0 < THREAD_COUNT,
            old(self).threads_view()[thread_id.0 as int].deadline is Some
                ==> old(self).threads_view()[thread_id.0 as int].tid == thread_id,
        ensures
            final(self).wf(),
            final(self).blocklist() == old(self).blocklist(),
            final(self).current() == old(self).current(),
            ({
                let th = old(self).threads_view()[thread_id.0 as int];
                match th.deadline {
                    Some(d) => if now >= d {
                        &&& final(self).threads_view() == old(self).threads_view().update(
                            thread_id.0 as int,
                            (Thread {
                                state: ThreadState::Running,
                                deadline: None,
                                flags: th.flags | THREAD_FLAG_TIMEOUT,
                                ..th
                            }),
                        )
                        &&& th.state == ThreadState::Running ==> {
                            &&& final(self).queues() == old(self).queues()
                            &&& final(self).schedule_pending() == old(self).schedule_pending()
                        }
                        &&& th.state != ThreadState::Running ==> {
                            &&& final(self).queues() == old(self).queues().update(
                                th.prio.0 as int,
                                old(self).queues()[th.prio.0 as int].push(thread_id),
                            )
                            &&& final(self).schedule_pending() == (old(self).schedule_pending() || match old(self).current() {
                                Some(c) => c != thread_id && old(self).prio_of(c) < th.prio.0,
                                None => false,
                            })
                        }
                    } else {
                        &&& final(self).threads_view() == old(self).threads_view()
                        &&& final(self).queues() == old(self).queues()
                        &&& final(self).schedule_pending() == old(self).schedule_pending()
                    },
                    None => {
                        &&& final(self).threads_view() == old(self).threads_view()
                        &&& final(self).queues() == old(self).queues()
                        &&& final(self).schedule_pending() == old(self).schedule_pending()
                    },
                }
            }),
    {
        let i = thread_id.0 as usize;
        let mut thread = self.threads[i];
        match thread.deadline {
            Some(deadline) => {
                if now >= deadline {
                    let ghost pre = *self;
                    thread.deadline = None;
                    thread.flags = thread.flags | THREAD_FLAG_TIMEOUT;
                    self.threads.set(i, thread);
                    proof {
                        assert forall|k: int|
                            0 <= k < THREAD_COUNT && (#[trigger] self.threads_view()[k]).state
                                != ThreadState::Invalid implies self.threads_view()[k].tid.0 == k by {
                            if k != i {
                                assert(self.threads_view()[k] == pre.threads_view()[k]);
                            }
                        }
                        assert forall|q: int, j: int|
                            0 <= q < SCHED_PRIO_LEVELS && 0 <= j < self.queues()[q].len() implies {
                                let x = #[trigger] self.queues()[q][j];
                                &&& x.0 < THREAD_COUNT
                                &&& self.state_of(x) == ThreadState::Running
                                &&& self.prio_of(x) == q
                            } by {
                            let x = self.queues()[q][j];
                            assert(x == pre.queues()[q][j]);
                            if x.0 != i {
                                assert(self.threads_view()[x.0 as int] == pre.threads_view()[x.0 as int]);
                            }
                        }
                        assert forall|x: ThreadId|
                            x.0 < THREAD_COUNT && #[trigger] self.state_of(x) == ThreadState::Running implies self.queues()[self.prio_of(
                                x,
                            )].contains(x) by {
                            assert(pre.state_of(x) == ThreadState::Running);
                            if x.0 != i {
                                assert(self.threads_view()[x.0 as int] == pre.threads_view()[x.0 as int]);
                            }
                        }
                    }
                    if thread.state != ThreadState::Running {
                        self.set_state(thread_id, ThreadState::Running);
                    }
                }
            },
            None => {},
        }
    }

    /// Arms the current thread's deadline and clears its timeout flag; returns its identifier.
    pub fn arm_deadline(&mut self, deadline: u64) -> (t: ThreadId)
        requires
            old(self).wf(),
            old(self).current() is Some,
        ensures
            final(self).wf(),
            t == old(self).current()->0,
            final(self).threads_view() == old(self).threads_view().update(
                t.0 as int,
                (Thread {
                    deadline: Some(deadline),
                    flags: old(self).threads_view()[t.0 as int].flags & !THREAD_FLAG_TIMEOUT,
                    ..old(self).threads_view()[t.0 as int]
                }),
            ),
            final(self).queues() == old(self).queues(),
            final(self).blocklist() == old(self).blocklist(),
            final(self).current() == old(self).current(),
            final(self).schedule_pending() == old(self).schedule_pending(),
    {
        let t = self.current_thread.unwrap();
        let i = t.0 as usize;
        let ghost pre = *self;
        let mut thread = self.threads[i];
        thread.deadline = Some(deadline);
        thread.flags = thread.flags & !THREAD_FLAG_TIMEOUT;
        self.threads.set(i, thread);
        proof {
            self.lemma_wf_same_except_time(pre, t);
        }
        t
    }

    /// Whether the current thread's deadline is still armed (it was not reached yet).
    pub fn current_deadline_armed(&self) -> (r: bool)
        requires
            self.wf(),
            self.current() is Some,
        ensures
            r == self.threads_view()[(self.current()->0).0 as int].deadline is Some,
    {
        let t = self.current_thread.unwrap();
        self.threads[t.0 as usize].deadline.is_some()
    }

    /// Clears the current thread's deadline. Returns whether it had not been reached yet, and
    /// the thread's identifier.
    pub fn disarm_deadline(&mut self) -> (r: (bool, ThreadId))
        requires
            old(self).wf(),
            old(self).current() is Some,
        ensures
            final(self).wf(),
            r.1 == old(self).current()->0,
            r.0 == old(self).threads_view()[r.1.0 as int].deadline is Some,
            final(self).threads_view() == old(self).threads_view().update(
                r.1.0 as int,
                (Thread { deadline: None, ..old(self).threads_view()[r.1.0 as int] }),
            ),
            final(self).queues() == old(self).queues(),
            final(self).blocklist() == old(self).blocklist(),
            final(self).current() == old(self).current(),
            final(self).schedule_pending() == old(self).schedule_pending(),
    {
        let t = self.current_thread.unwrap();
        let i = t.0 as usize;
        let ghost pre = *self;
        let mut thread = self.threads[i];
        let did_clear = thread.deadline.is_some();
        thread.deadline = None;
        self.threads.set(i, thread);
        proof {
            self.lemma_wf_same_except_time(pre, t);
        }
        (did_clear, t)
    }

    /// Changing a thread's deadline or flags keeps the invariant.
    proof fn lemma_wf_same_except_time(&self, pre: Scheduler, t: ThreadId)
        requires
            pre.wf(),
            t.0 < THREAD_COUNT,
            self.threads_view().len() == THREAD_COUNT,
            forall|k: int| 0 <= k < THREAD_COUNT && k != t.0 ==> #[trigger] self.threads_view()[k] == pre.threads_view()[k],
            self.threads_view()[t.0 as int].state == pre.threads_view()[t.0 as int].state,
            self.threads_view()[t.0 as int].prio == pre.threads_view()[t.0 as int].prio,
            self.threads_view()[t.0 as int].tid == pre.threads_view()[t.0 as int].tid,
            self.queues() == pre.queues(),
            self.blocklist() == pre.blocklist(),
            self.current() == pre.current(),
        ensures
            self.wf(),
    {
        assert forall|k: int|
            0 <= k < THREAD_COUNT && (#[trigger] self.threads_view()[k]).state
                != ThreadState::Invalid implies self.threads_view()[k].tid.0 == k by {
        }
        assert forall|q: int, j: int|
            0 <= q < SCHED_PRIO_LEVELS && 0 <= j < self.queues()[q].len() implies {
                let x = #[trigger] self.queues()[q][j];
                &&& x.0 < THREAD_COUNT
                &&& self.state_of(x) == ThreadState::Running
                &&& self.prio_of(x) == q
            } by {
            let x = self.queues()[q][j];
            assert(x == pre.queues()[q][j]);
        }
        assert forall|x: ThreadId|
            x.0 < THREAD_COUNT && #[trigger] self.state_of(x) == ThreadState::Running implies self.queues()[self.prio_of(
                x,
            )].contains(x) by {
            assert(pre.state_of(x) == ThreadState::Running);
        }
        assert forall|k: int| 0 <= k < THREAD_COUNT implies (#[trigger] self.threads_view()[k]).prio.0 < SCHED_PRIO_LEVELS by {
        }
    }
}

/// `s1` is `s0` after thread `t`, ready at the head of its run queue, stopped running and went
/// to `state`: it left its run queue and a switch was requested; nothing else changed.
pub open spec fn stopped_running(s0: Scheduler, s1: Scheduler, t: ThreadId, state: ThreadState) -> bool {
    &&& s1.threads_view() == s0.threads_view().update(
        t.0 as int,
        (Thread { state: state, ..s0.threads_view()[t.0 as int] }),
    )
    &&& s1.queues() == s0.queues().update(s0.prio_of(t), s0.queues()[s0.prio_of(t)].drop_first())
    &&& s1.blocklist() == s0.blocklist()
    &&& s1.current() == s0.current()
    &&& s1.schedule_pending()
}

/// `s1` is `s0` after thread `t` became ready: it is `Running` and at the tail of the run queue
/// of its priority; no other thread, link or the current thread changed.
pub open spec fn made_ready(s0: Scheduler, s1: Scheduler, t: ThreadId) -> bool {
    &&& s1.threads_view() == s0.threads_view().update(
        t.0 as int,
        (Thread { state: ThreadState::Running, ..s0.threads_view()[t.0 as int] }),
    )
    &&& s1.queues() == s0.queues().update(s0.prio_of(t), s0.queues()[s0.prio_of(t)].push(t))
    &&& s1.blocklist() == s0.blocklist()
    &&& s1.current() == s0.current()
}

/// If queue `p` is non-empty, some queue is the highest non-empty one.
proof fn lemma_highest_exists(qs: Seq<Seq<ThreadId>>, p: int)
    requires
        0 <= p < qs.len(),
        qs[p].len() > 0,
    ensures
        exists|h: int| is_highest_nonempty(qs, h),
    decreases qs.len() - p,
{
    if forall|p2: int| p < p2 < qs.len() ==> qs[p2].len() == 0 {
        assert(is_highest_nonempty(qs, p));
    } else {
        let p2 = choose|p2: int| p < p2 < qs.len() && qs[p2].len() != 0;
        lemma_highest_exists(qs, p2);
    }
}

/// Fixed-priority scheduling: the thread chosen to run next is ready and no ready thread has a
/// higher priority; if no thread is chosen, no thread is ready.
pub proof fn lemma_next_thread_is_highest(s: Scheduler)
    requires
        s.wf(),
    ensures
        match next_thread(s.queues()) {
            Some(n) => {
                &&& n.0 < THREAD_COUNT
                &&& s.state_of(n) == ThreadState::Running
                &&& forall|t: ThreadId|
                    t.0 < THREAD_COUNT && #[trigger] s.state_of(t) == ThreadState::Running ==> s.prio_of(t)
                        <= s.prio_of(n)
            },
            None => forall|t: ThreadId|
                t.0 < THREAD_COUNT ==> #[trigger] s.state_of(t) != ThreadState::Running,
        },
{
    let qs = s.queues();
    if exists|p: int| 0 <= p < qs.len() && qs[p].len() > 0 {
        let p = choose|p: int| 0 <= p < qs.len() && qs[p].len() > 0;
        lemma_highest_exists(qs, p);
        let h = choose|h: int| is_highest_nonempty(qs, h);
        crate::runqueue::lemma_highest_nonempty(qs, h);
        let n = qs[h][0];
        assert(s.prio_of(n) == h);
        assert forall|t: ThreadId|
            t.0 < THREAD_COUNT && #[trigger] s.state_of(t) == ThreadState::Running implies s.prio_of(t)
            <= s.prio_of(n) by {
            assert(qs[s.prio_of(t)].contains(t));
            if s.prio_of(t) > h {
                let j = choose|j: int| 0 <= j < qs[s.prio_of(t)].len() && qs[s.prio_of(t)][j] == t;
                assert(qs[s.prio_of(t)].len() > 0);
            }
        }
    } else {
        assert forall|t: ThreadId| t.0 < THREAD_COUNT implies #[trigger] s.state_of(t)
            != ThreadState::Running by {
            if s.state_of(t) == ThreadState::Running {
                assert(qs[s.prio_of(t)].contains(t));
                let j = choose|j: int| 0 <= j < qs[s.prio_of(t)].len() && qs[s.prio_of(t)][j] == t;
                assert(qs[s.prio_of(t)].len() > 0);
            }
        }
    }
}

/// Cooperative scheduling within a priority: when the running thread of the highest ready
/// priority yields and another thread of its priority is ready, that thread runs next; the
/// yielding thread moves to the tail.
pub proof fn lemma_yield_hands_over(s0: Scheduler, s1: Scheduler, t: ThreadId)
    requires
        s0.wf(),
        s0.current() == Some(t),
        s0.current_at_head(),
        s0.state_of(t) == ThreadState::Running,
        next_thread(s0.queues()) == Some(t),
        s0.queues()[s0.prio_of(t)].len() > 1,
        s1.queues() == s0.queues().update(
            s0.prio_of(t),
            s0.queues()[s0.prio_of(t)].drop_first().push(s0.queues()[s0.prio_of(t)][0]),
        ),
    ensures
        next_thread(s1.queues()) == Some(s0.queues()[s0.prio_of(t)][1]),
        s0.queues()[s0.prio_of(t)][1] != t,
        s1.queues()[s0.prio_of(t)].last() == t,
{
    let p = s0.prio_of(t);
    let q = s0.queues()[p];
    lemma_next_thread_is_highest(s0);
    assert(is_highest_nonempty(s0.queues(), p)) by {
        assert forall|p2: int| p < p2 < s0.queues().len() implies s0.queues()[p2].len() == 0 by {
            if s0.queues()[p2].len() > 0 {
                let x = s0.queues()[p2][0];
                assert(s0.state_of(x) == ThreadState::Running);
                assert(s0.prio_of(x) == p2);
            }
        }
    }
    assert(is_highest_nonempty(s1.queues(), p));
    crate::runqueue::lemma_highest_nonempty(s1.queues(), p);
    assert(s1.queues()[p][0] == q[1]);
    assert(q.no_duplicates());
}

/// Parking the running thread and then unparking it makes it ready again, now at the tail of
/// its run queue; every other thread and the wait-list links are as before.
pub proof fn lemma_park_then_unpark(s0: Scheduler, s1: Scheduler, s2: Scheduler, t: ThreadId)
    requires
        s0.wf(),
        t.0 < THREAD_COUNT,
        s0.state_of(t) == ThreadState::Running,
        stopped_running(s0, s1, t, ThreadState::Parked),
        made_ready(s1, s2, t),
    ensures
        s2.threads_view() == s0.threads_view(),
        s2.queues() == s0.queues().update(
            s0.prio_of(t),
            s0.queues()[s0.prio_of(t)].drop_first().push(t),
        ),
        s2.blocklist() == s0.blocklist(),
        s2.current() == s0.current(),
{
    assert(s1.prio_of(t) == s0.prio_of(t));
    assert(s2.threads_view() =~= s0.threads_view());
}

/// Among the waiters of a list kept in priority order, the first (the next to get the
/// resource) has the highest priority.
pub proof fn lemma_first_waiter_has_highest_prio(list: ThreadList, s: Scheduler)
    requires
        list.wf(s),
        sorted_by_prio(s, list@),
        list@.len() > 0,
    ensures
        forall|k: int| 0 <= k < list@.len() ==> s.prio_of(list@[0]) >= s.prio_of(#[trigger] list@[k]),
{
    assert forall|k: int| 0 <= k < list@.len() implies s.prio_of(list@[0]) >= s.prio_of(#[trigger] list@[k]) by {
        if k > 0 {
            assert(s.prio_of(list@[0]) >= s.prio_of(list@[k]));
        }
    }
}

} // verus!
