use ariel_os::scheduler::{stack_layout, ContextSwitch, Scheduler, StackLayout, ThreadList, ThreadState};
use ariel_os::sync::{RecursiveLock, RecursiveLockInner, Semaphore, SemaphoreInner, WaitQueue};

fn layout() -> StackLayout {
    stack_layout(0x2000_0000, 1024)
}

#[test]
fn semaphore_counts_between_zero_and_max() {
    let s = Scheduler::new();
    let mut sem = Semaphore::new(1, 2);
    assert_eq!(sem.current_count(), 1);
    assert!(sem.try_take(&s));
    assert_eq!(sem.current_count(), 0);
    assert!(!sem.try_take(&s));
    assert_eq!(sem.current_count(), 0);
}

#[test]
fn semaphore_give_saturates_at_max() {
    let mut s = Scheduler::new();
    let mut sem = Semaphore::new(0, 2);
    assert!(sem.give(&mut s));
    assert!(sem.give(&mut s));
    assert_eq!(sem.current_count(), 2);
    assert!(!sem.give(&mut s));
    assert_eq!(sem.current_count(), 2);
}

#[test]
fn semaphore_take_blocks_and_give_hands_over() {
    let mut s = Scheduler::new();
    let mut sem = Semaphore::new(1, 1);
    let a = s.create_thread(layout(), 3, None);
    let b = s.create_thread(layout(), 1, None);
    s.sched();

    // A resource is available: taking it does not block.
    sem.take(&mut s);
    assert_eq!(sem.current_count(), 0);
    assert_eq!(s.get_state(a), Some(ThreadState::Running));
    assert!(!s.is_schedule_pending());

    // None left: the current thread blocks.
    sem.take(&mut s);
    assert_eq!(s.get_state(a), Some(ThreadState::SemaphoreBlocked));
    assert_eq!(s.sched(), ContextSwitch::SwitchTo { previous: Some(a), next: b });

    // Giving wakes the waiter; the count stays at zero.
    assert!(sem.give(&mut s));
    assert_eq!(sem.current_count(), 0);
    assert_eq!(s.get_state(a), Some(ThreadState::Running));
    assert!(s.is_schedule_pending());
    assert_eq!(s.sched(), ContextSwitch::SwitchTo { previous: Some(b), next: a });
}

#[test]
fn semaphore_inner_try_give_and_take() {
    let mut inner = SemaphoreInner::new(0, 1);
    assert!(!inner.try_take());
    assert!(inner.try_give());
    assert!(!inner.try_give());
    assert_eq!(inner.current_count(), 1);
    assert!(inner.try_take());
    assert_eq!(inner.current_count(), 0);
}

#[test]
fn recursive_lock_counts_recursion() {
    let mut s = Scheduler::new();
    let _a = s.create_thread(layout(), 3, None);
    s.sched();
    let mut lock = RecursiveLock::new();
    // Releasing a free lock is a no-op that reports success.
    assert!(lock.release(&mut s));
    lock.acquire(&mut s);
    assert!(lock.try_acquire(&s));
    assert!(!lock.release(&mut s));
    assert!(lock.release(&mut s));
    assert!(lock.release(&mut s));
}

#[test]
fn recursive_lock_passes_to_waiter() {
    let mut s = Scheduler::new();
    let a = s.create_thread(layout(), 3, None);
    let b = s.create_thread(layout(), 3, None);
    s.sched();
    let mut lock = RecursiveLock::new();
    lock.acquire(&mut s);

    s.yield_same();
    assert_eq!(s.sched(), ContextSwitch::SwitchTo { previous: Some(a), next: b });
    // b neither owns the lock nor can take it.
    assert!(!lock.try_acquire(&s));
    assert!(!lock.release(&mut s));
    lock.acquire(&mut s);
    assert_eq!(s.get_state(b), Some(ThreadState::RecursiveLockBlocked));
    assert_eq!(s.sched(), ContextSwitch::SwitchTo { previous: Some(b), next: a });

    // The last release passes the lock to b.
    assert!(lock.release(&mut s));
    assert_eq!(s.get_state(b), Some(ThreadState::Running));
    // a no longer owns it.
    assert!(!lock.release(&mut s));
}

#[test]
fn recursive_lock_inner_count() {
    let mut s = Scheduler::new();
    let _a = s.create_thread(layout(), 1, None);
    s.sched();
    let mut inner = RecursiveLockInner::new();
    assert_eq!(inner.current_count(), 0);
    assert!(inner.try_acquire(&s));
    assert!(inner.try_acquire(&s));
    assert_eq!(inner.current_count(), 2);
    assert!(!inner.try_release(&mut s));
    assert_eq!(inner.current_count(), 1);
    assert!(inner.try_release(&mut s));
    assert_eq!(inner.current_count(), 0);
}

#[test]
fn wait_queue_notify_one_and_all() {
    let mut s = Scheduler::new();
    let mut q = WaitQueue::new();
    assert_eq!(q.notify_one(&mut s), None);

    let a = s.create_thread(layout(), 1, None);
    s.sched();
    q.wait(&mut s);
    assert_eq!(s.get_state(a), Some(ThreadState::WaitQueueBlocked));
    let b = s.create_thread(layout(), 2, None);
    s.sched();
    q.wait(&mut s);
    let c = s.create_thread(layout(), 3, None);
    s.sched();
    q.wait(&mut s);

    // The highest priority waiter is notified first.
    assert_eq!(q.notify_one(&mut s), Some((c, ThreadState::WaitQueueBlocked)));
    assert_eq!(s.get_state(c), Some(ThreadState::Running));
    q.notify_all(&mut s);
    assert_eq!(s.get_state(a), Some(ThreadState::Running));
    assert_eq!(s.get_state(b), Some(ThreadState::Running));
    assert_eq!(q.notify_one(&mut s), None);
}

#[test]
fn wait_queue_timeout_withdraws_the_waiter() {
    let mut s = Scheduler::new();
    let mut q = WaitQueue::new();
    let a = s.create_thread(layout(), 1, None);
    s.sched();
    q.wait(&mut s);
    assert_eq!(s.get_state(a), Some(ThreadState::WaitQueueBlocked));
    // The deadline passed while still waiting: the thread leaves the queue and runs again.
    assert!(q.cancel_wait(&mut s));
    assert_eq!(s.get_state(a), Some(ThreadState::Running));
    assert_eq!(q.notify_one(&mut s), None);
    // A second withdrawal finds nothing to do.
    assert!(!q.cancel_wait(&mut s));
    assert_eq!(s.get_state(a), Some(ThreadState::Running));
}

#[test]
fn notify_all_wakes_in_order_and_leaves_others() {
    let mut s = Scheduler::new();
    let mut q = WaitQueue::new();
    let a = s.create_thread(layout(), 1, None);
    s.sched();
    q.wait(&mut s);
    let b = s.create_thread(layout(), 1, None);
    s.sched();
    q.wait(&mut s);
    let idle = s.create_thread(layout(), 1, None);
    s.sched();
    // `a` and `b` wait in that order; `idle` runs.
    assert_eq!(s.get_state(idle), Some(ThreadState::Running));
    q.notify_all(&mut s);
    assert_eq!(s.get_state(a), Some(ThreadState::Running));
    assert_eq!(s.get_state(b), Some(ThreadState::Running));
    assert_eq!(s.get_state(idle), Some(ThreadState::Running));
    // Both joined the run queue behind `idle`, `a` before `b`: yielding hands over to `a`.
    s.yield_same();
    assert_eq!(s.sched(), ContextSwitch::SwitchTo { previous: Some(idle), next: a });
}

#[test]
fn thread_list_is_empty_until_drained() {
    let mut s = Scheduler::new();
    let mut l = ThreadList::new();
    assert!(l.is_empty(&s));
    let a = s.create_thread(layout(), 1, None);
    s.sched();
    l.put_current(&mut s, ThreadState::Parked);
    assert!(!l.is_empty(&s));
    let _b = s.create_thread(layout(), 2, None);
    s.sched();
    l.put_current(&mut s, ThreadState::Parked);
    assert!(!l.is_empty(&s));
    assert!(l.pop(&mut s).is_some());
    assert!(!l.is_empty(&s));
    assert_eq!(l.pop(&mut s), Some((a, ThreadState::Parked)));
    assert!(l.is_empty(&s));
    assert_eq!(l.pop(&mut s), None);
    assert!(l.is_empty(&s));
}
