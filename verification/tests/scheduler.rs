use ariel_os::runqueue::{RunQueue, RunqueueId, ThreadId, THREAD_COUNT};
use ariel_os::scheduler::{
    is_affine_to_curr_core, lowest_running_prio, Arguable, Dummy, StackLimits,
    core_id, stack_layout, ContextSwitch, CoreAffinity, CoreId, Scheduler, StackLayout,
    ThreadList, ThreadState, SCHEDULE_TOKEN, THREAD_FLAG_TIMEOUT,
};

fn layout() -> StackLayout {
    stack_layout(0x2000_0000, 1024)
}

#[test]
fn threadlist_check_type_sizes() {
    assert_eq!(std::mem::size_of::<ThreadId>(), 1);
    assert_eq!(std::mem::size_of::<ThreadList>(), 2);
}

#[test]
fn stack_layout_aligns_top_and_reserves_frame() {
    let l = stack_layout(0x2000_0001, 1030);
    assert_eq!(l.lowest, 0x2000_0001);
    assert_eq!(l.highest, 0x2000_0400);
    assert_eq!(l.sp, 0x2000_0400 - 32);
}

#[test]
fn core_affinity_masks() {
    assert_eq!(core_id(), CoreId(0));
    assert_eq!(CoreAffinity::no_affinity(), CoreAffinity(1));
    assert_eq!(CoreAffinity::one(CoreId(2)), CoreAffinity(4));
    assert!(CoreAffinity::no_affinity().contains(CoreId(0)));
    assert!(!CoreAffinity::one(CoreId(1)).contains(CoreId(0)));
    assert_eq!(CoreId(3).as_usize(), 3);
}

#[test]
fn runqueue_fifo_per_priority_and_highest_first() {
    let mut rq = RunQueue::new();
    assert_eq!(rq.get_next(), None);
    rq.add(ThreadId(3), RunqueueId(1));
    rq.add(ThreadId(4), RunqueueId(1));
    assert_eq!(rq.get_next(), Some(ThreadId(3)));
    rq.add(ThreadId(7), RunqueueId(6));
    assert_eq!(rq.get_next(), Some(ThreadId(7)));
    assert_eq!(rq.peek_head(RunqueueId(1)), Some(ThreadId(3)));
    assert!(rq.advance(RunqueueId(1)));
    assert_eq!(rq.peek_head(RunqueueId(1)), Some(ThreadId(4)));
    assert!(!rq.advance(RunqueueId(6)));
    rq.pop_head(ThreadId(7), RunqueueId(6));
    assert!(rq.is_empty(RunqueueId(6)));
    assert_eq!(rq.get_next(), Some(ThreadId(4)));
    rq.del(ThreadId(4));
    assert_eq!(rq.get_next(), Some(ThreadId(3)));
}

#[test]
fn new_scheduler_has_no_threads() {
    let s = Scheduler::new();
    assert_eq!(s.current_tid(), None);
    assert!(!s.is_schedule_pending());
    assert_eq!(s.get_next_tid(), None);
    assert_eq!(s.get_unused(), Some(ThreadId(0)));
    assert!(!s.is_valid_tid(ThreadId(0)));
    assert!(!s.is_valid_tid(ThreadId(200)));
    assert_eq!(s.get_state(ThreadId(0)), None);
    assert_eq!(s.get_priority(ThreadId(0)), None);
    assert_eq!(s.current_stack_limits(), None);
}

#[test]
fn sched_without_ready_thread() {
    let mut s = Scheduler::new();
    s.schedule();
    assert!(s.is_schedule_pending());
    assert_eq!(s.sched(), ContextSwitch::NoThread);
    assert!(!s.is_schedule_pending());
}

#[test]
fn created_threads_run_highest_priority_first() {
    let mut s = Scheduler::new();
    let t0 = s.create_thread(layout(), 2, None);
    let t1 = s.create_thread(layout(), 1, None);
    assert_eq!(t0, ThreadId(0));
    assert_eq!(t1, ThreadId(1));
    assert_eq!(s.get_state(t0), Some(ThreadState::Running));
    assert_eq!(s.get_next_tid(), Some(t0));
    assert_eq!(s.sched(), ContextSwitch::SwitchTo { previous: None, next: t0 });
    assert_eq!(s.current_tid(), Some(t0));
    assert_eq!(s.is_running(t0), Some(0));
    assert_eq!(s.is_running(t1), None);
    assert_eq!(s.sched(), ContextSwitch::KeepCurrent);
    let l = layout();
    assert_eq!(s.current_stack_limits(), Some((l.lowest, l.highest)));
    assert_eq!(s.get_unchecked(t0).sp, l.sp);
}

#[test]
fn threading_dynamic_prios() {
    let mut s = Scheduler::new();
    let thread0 = s.create_thread(layout(), 2, None);
    let thread1 = s.create_thread(layout(), 1, None);
    assert_eq!(s.sched(), ContextSwitch::SwitchTo { previous: None, next: thread0 });
    assert_eq!(s.get_priority(thread0), Some(RunqueueId::new(2)));
    assert_eq!(s.get_priority(ThreadId::new(1)), Some(RunqueueId::new(1)));

    // Raising thread1 above the current thread requests a switch to it.
    s.set_priority(thread1, RunqueueId::new(5));
    assert!(s.is_schedule_pending());
    assert_eq!(
        s.sched(),
        ContextSwitch::SwitchTo { previous: Some(thread0), next: thread1 }
    );
    assert_eq!(s.get_priority(thread1), Some(RunqueueId::new(5)));
    assert_eq!(s.get_priority(thread0), Some(RunqueueId::new(2)));

    // Lowering its own priority hands the core back.
    s.set_priority(thread1, RunqueueId::new(1));
    assert!(s.is_schedule_pending());
    assert_eq!(
        s.sched(),
        ContextSwitch::SwitchTo { previous: Some(thread1), next: thread0 }
    );
}

#[test]
fn set_priority_of_invalid_thread_changes_nothing() {
    let mut s = Scheduler::new();
    s.set_priority(ThreadId(3), RunqueueId(4));
    assert_eq!(s.get_priority(ThreadId(3)), None);
    assert!(!s.is_schedule_pending());
}

#[test]
fn yield_same_round_robin() {
    let mut s = Scheduler::new();
    let a = s.create_thread(layout(), 3, None);
    let b = s.create_thread(layout(), 3, None);
    assert_eq!(s.sched(), ContextSwitch::SwitchTo { previous: None, next: a });
    s.yield_same();
    assert!(s.is_schedule_pending());
    assert_eq!(s.sched(), ContextSwitch::SwitchTo { previous: Some(a), next: b });
    s.yield_same();
    assert_eq!(s.sched(), ContextSwitch::SwitchTo { previous: Some(b), next: a });
}

#[test]
fn yield_same_alone_keeps_running() {
    let mut s = Scheduler::new();
    let a = s.create_thread(layout(), 3, None);
    let _low = s.create_thread(layout(), 1, None);
    assert_eq!(s.sched(), ContextSwitch::SwitchTo { previous: None, next: a });
    s.yield_same();
    assert!(!s.is_schedule_pending());
    assert_eq!(s.sched(), ContextSwitch::KeepCurrent);
}

#[test]
fn park_then_unpark() {
    let mut s = Scheduler::new();
    let a = s.create_thread(layout(), 4, None);
    let b = s.create_thread(layout(), 2, None);
    s.sched();
    s.park();
    assert_eq!(s.get_state(a), Some(ThreadState::Parked));
    assert!(s.is_schedule_pending());
    assert_eq!(s.sched(), ContextSwitch::SwitchTo { previous: Some(a), next: b });
    assert!(!s.unpark(b));
    assert!(s.unpark(a));
    assert_eq!(s.get_state(a), Some(ThreadState::Running));
    assert!(s.is_schedule_pending());
    assert_eq!(s.sched(), ContextSwitch::SwitchTo { previous: Some(b), next: a });
    assert!(!s.unpark(ThreadId(9)));
}

#[test]
fn cleanup_invalidates_current_thread() {
    let mut s = Scheduler::new();
    let a = s.create_thread(layout(), 4, None);
    let b = s.create_thread(layout(), 2, None);
    s.sched();
    s.cleanup();
    assert_eq!(s.get_state(a), None);
    assert!(!s.is_valid_tid(a));
    assert_eq!(s.get_unused(), Some(a));
    assert_eq!(s.sched(), ContextSwitch::SwitchTo { previous: Some(a), next: b });
}

#[test]
fn create_fails_when_all_slots_used() {
    let mut s = Scheduler::new();
    for i in 0..THREAD_COUNT {
        let t = s.create(layout(), RunqueueId(1), None);
        assert_eq!(t, Some(ThreadId(i as u8)));
        assert_eq!(s.get_state(ThreadId(i as u8)), Some(ThreadState::Parked));
    }
    assert_eq!(s.get_unused(), None);
    assert_eq!(s.create(layout(), RunqueueId(1), None), None);
}

#[test]
fn fifo_token_requests_switch() {
    let mut s = Scheduler::new();
    assert!(!s.handle_fifo_token(0x12));
    assert!(!s.is_schedule_pending());
    assert!(s.handle_fifo_token(SCHEDULE_TOKEN));
    assert!(s.is_schedule_pending());
    let mut s2 = Scheduler::new();
    s2.schedule_on_core(CoreId(0));
    assert!(s2.is_schedule_pending());
}

#[test]
fn schedule_if_higher_prio_compares_with_current() {
    let mut s = Scheduler::new();
    let _a = s.create_thread(layout(), 3, None);
    s.sched();
    s.schedule_if_higher_prio(ThreadId(5), RunqueueId(3));
    assert!(!s.is_schedule_pending());
    s.schedule_if_higher_prio(ThreadId(5), RunqueueId(4));
    assert!(s.is_schedule_pending());
}

#[test]
fn set_state_returns_previous_state() {
    let mut s = Scheduler::new();
    let a = s.create(layout(), RunqueueId(2), None).unwrap();
    assert_eq!(s.set_state(a, ThreadState::Running), ThreadState::Parked);
    assert_eq!(s.get_next_tid(), Some(a));
}

#[test]
fn wait_list_orders_by_priority() {
    let mut s = Scheduler::new();
    let mut list = ThreadList::new();
    assert!(list.is_empty(&s));

    let low = s.create_thread(layout(), 1, None);
    s.sched();
    assert_eq!(list.put_current(&mut s, ThreadState::LockBlocked), Some(RunqueueId(1)));
    assert_eq!(s.get_state(low), Some(ThreadState::LockBlocked));

    let mid = s.create_thread(layout(), 2, None);
    s.sched();
    assert_eq!(list.put_current(&mut s, ThreadState::LockBlocked), Some(RunqueueId(2)));

    let mid2 = s.create_thread(layout(), 2, None);
    s.sched();
    // Same priority as the head: queued behind it.
    assert_eq!(list.put_current(&mut s, ThreadState::LockBlocked), None);

    assert_eq!(list.pop(&mut s), Some((mid, ThreadState::LockBlocked)));
    assert_eq!(list.pop(&mut s), Some((mid2, ThreadState::LockBlocked)));
    assert_eq!(list.pop(&mut s), Some((low, ThreadState::LockBlocked)));
    assert_eq!(list.pop(&mut s), None);
    assert!(list.is_empty(&s));
    assert_eq!(s.get_state(low), Some(ThreadState::Running));
}

#[test]
fn wait_list_remove() {
    let mut s = Scheduler::new();
    let mut list = ThreadList::new();
    let a = s.create_thread(layout(), 1, None);
    s.sched();
    list.put_current(&mut s, ThreadState::ChannelRxBlocked(7));
    let _b = s.create_thread(layout(), 1, None);
    s.sched();
    assert!(!list.remove_current(&mut s));
    assert!(list.remove_inner(&mut s, a));
    assert_eq!(s.get_state(a), Some(ThreadState::Running));
    assert!(!list.remove_inner(&mut s, a));
    assert!(list.is_empty(&s));
}

#[test]
fn deadline_wakes_thread_with_timeout_flag() {
    let mut s = Scheduler::new();
    let a = s.create_thread(layout(), 2, None);
    let b = s.create_thread(layout(), 1, None);
    s.sched();
    assert_eq!(s.arm_deadline(100), a);
    assert!(s.current_deadline_armed());
    s.park();
    s.sched();
    assert_eq!(s.current_tid(), Some(b));

    // Too early: nothing happens.
    s.wake(a, 99);
    assert_eq!(s.get_state(a), Some(ThreadState::Parked));

    s.wake(a, 100);
    assert_eq!(s.get_state(a), Some(ThreadState::Running));
    assert_eq!(s.get_unchecked(a).flags & THREAD_FLAG_TIMEOUT, THREAD_FLAG_TIMEOUT);
    assert_eq!(s.get_unchecked(a).deadline, None);
    assert_eq!(s.sched(), ContextSwitch::SwitchTo { previous: Some(b), next: a });
    assert!(!s.current_deadline_armed());
    assert_eq!(s.disarm_deadline(), (false, a));
}

#[test]
fn disarm_before_deadline() {
    let mut s = Scheduler::new();
    let a = s.create_thread(layout(), 2, None);
    s.sched();
    s.arm_deadline(50);
    assert_eq!(s.disarm_deadline(), (true, a));
    assert_eq!(s.get_unchecked(a).deadline, None);
    assert_eq!(s.get_unchecked(a).flags & THREAD_FLAG_TIMEOUT, 0);
}

#[test]
fn lowest_running_prio_picks_first_lowest_allowed_core() {
    let running = vec![Some(RunqueueId(3)), Some(RunqueueId(1)), None, Some(RunqueueId(1))];
    // An idle core comes first.
    assert_eq!(lowest_running_prio(&running, CoreAffinity(0b1111)), (CoreId(2), None));
    // Among equal priorities, the first core.
    assert_eq!(lowest_running_prio(&running, CoreAffinity(0b1011)), (CoreId(1), Some(RunqueueId(1))));
    // Only allowed cores count.
    assert_eq!(lowest_running_prio(&running, CoreAffinity(0b1000)), (CoreId(3), Some(RunqueueId(1))));
    assert_eq!(lowest_running_prio(&running, CoreAffinity(0b0001)), (CoreId(0), Some(RunqueueId(3))));
}

#[test]
fn affinity_to_current_core() {
    assert!(is_affine_to_curr_core(CoreAffinity::no_affinity()));
    assert!(!is_affine_to_curr_core(CoreAffinity::one(CoreId(1))));
}

#[test]
fn thread_arguments_and_stack_limits() {
    assert_eq!(42usize.into_arg(), 42);
    assert_eq!(Dummy::new().limits(), (0, 0));
}

#[test]
fn default_affinity_is_no_affinity() {
    assert_eq!(CoreAffinity::default(), CoreAffinity::no_affinity());
    assert!(CoreAffinity::default().contains(CoreId(0)));
    assert!(!CoreAffinity::default().contains(CoreId(1)));
}
