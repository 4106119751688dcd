//! Scheduler behaviour: class priority, fairness, blocking and wake-ups.

use je4os::sched::scheduler::{init, Scheduler};
use je4os::sched::task::{
    nice_to_weight, SchedulingClass, Task, TaskState, NICE_MAX, NICE_MIN,
};
use je4os::timer::TimerSystem;

const ENTRY: u64 = 0x40_0000;
const STACK_TOP: u64 = 0x8_0000;

fn spawn_normal(s: &mut Scheduler, name: &'static str, nice: i8) -> u64 {
    let id = s.allocate_task_id();
    let t = Task::new(name, nice, ENTRY, STACK_TOP, id).unwrap();
    s.add_task(t);
    id.as_u64()
}

fn spawn_realtime(s: &mut Scheduler, name: &'static str, prio: u8) -> u64 {
    let id = s.allocate_task_id();
    let t = Task::new_realtime(name, prio, ENTRY, STACK_TOP, id).unwrap();
    s.add_task(t);
    id.as_u64()
}

fn spawn_idle(s: &mut Scheduler, name: &'static str) -> u64 {
    let id = s.allocate_task_id();
    let t = Task::new_idle(name, ENTRY, STACK_TOP, id).unwrap();
    s.add_task(t);
    id.as_u64()
}

fn current_id(s: &Scheduler) -> u64 {
    s.current.as_ref().unwrap().id().as_u64()
}

#[test]
fn task_creation_and_weights() {
    assert_eq!(nice_to_weight(0), 1024);
    assert_eq!(nice_to_weight(-5), 3121);
    assert_eq!(nice_to_weight(5), 335);
    assert_eq!(nice_to_weight(NICE_MIN), 88761);
    assert_eq!(nice_to_weight(NICE_MAX), 15);
    // Out-of-range nice values clamp.
    assert_eq!(nice_to_weight(-100), 88761);
    assert_eq!(nice_to_weight(100), 15);

    let mut s = init();
    let id = s.allocate_task_id();
    let t = Task::new("worker", -5, ENTRY, STACK_TOP, id).unwrap();
    assert_eq!(t.nice(), -5);
    assert_eq!(t.weight(), 3121);
    assert_eq!(t.sched_class(), SchedulingClass::Normal);
    assert_eq!(t.state(), TaskState::Ready);
    assert_eq!(t.vruntime(), 0);

    // A Realtime priority below the minimum is rejected; above the maximum
    // it clamps.
    let id2 = s.allocate_task_id();
    assert!(Task::new_realtime("rt", 0, ENTRY, STACK_TOP, id2).is_err());
    let rt = Task::new_realtime("rt", 255, ENTRY, STACK_TOP, id2).unwrap();
    assert_eq!(rt.rt_priority(), 99);

    // A null stack or entry point is rejected.
    assert!(Task::new("bad", 0, ENTRY, 0, id2).is_err());
    assert!(Task::new("bad", 0, 0, STACK_TOP, id2).is_err());
}

#[test]
fn realtime_preempts_normal_preempts_idle() {
    let mut s = init();
    let idle = spawn_idle(&mut s, "idle");
    let norm = spawn_normal(&mut s, "norm", 0);
    let rt = spawn_realtime(&mut s, "rt", 50);
    s.schedule();
    assert_eq!(current_id(&s), rt);
    // With the Realtime task running and re-queued each time, it keeps the
    // CPU; remove it by blocking and the Normal task runs; then only Idle.
    s.block_current_task();
    assert_eq!(current_id(&s), norm);
    s.block_current_task();
    assert_eq!(current_id(&s), idle);
}

#[test]
fn rt_priority_order_and_id_tiebreak() {
    let mut s = init();
    let low = spawn_realtime(&mut s, "low", 10);
    let high = spawn_realtime(&mut s, "high", 90);
    let high2 = spawn_realtime(&mut s, "high2", 90);
    s.schedule();
    assert_eq!(current_id(&s), high);
    s.block_current_task();
    // Equal priorities: the smaller identifier runs first; `high` was
    // created before `high2`.
    assert_eq!(current_id(&s), high2);
    s.block_current_task();
    assert_eq!(current_id(&s), low);
}

#[test]
fn nice_min_outruns_nice_max() {
    // Over ten thousand ticks the highest-priority Normal task is
    // dispatched strictly more often than the lowest-priority one, all else
    // equal. (A third task runs alongside: the pick-before-requeue order
    // makes two lone tasks alternate exactly.)
    let mut s = init();
    let fast = spawn_normal(&mut s, "fast", NICE_MIN);
    let slow = spawn_normal(&mut s, "slow", NICE_MAX);
    let _mid = spawn_normal(&mut s, "mid", 0);
    let mut dispatches_fast = 0u64;
    let mut dispatches_slow = 0u64;
    let mut i = 0;
    while i < 10_000 {
        s.update_current_task_vruntime(10_000_000);
        s.schedule();
        let c = current_id(&s);
        if c == fast {
            dispatches_fast += 1;
        } else if c == slow {
            dispatches_slow += 1;
        }
        i += 1;
    }
    assert!(dispatches_fast > dispatches_slow);
    assert!(dispatches_slow >= 1);
}

#[test]
fn counter_ratios_approximate_weights() {
    // Three Normal tasks one nice step apart share dispatches by their
    // weights, within fifteen percent. (Steeper spreads would owe one task
    // more than half the CPU, which the switch-every-tick policy caps.)
    let mut s = init();
    let a = spawn_normal(&mut s, "a", -1);
    let b = spawn_normal(&mut s, "b", 0);
    let c = spawn_normal(&mut s, "c", 1);
    let mut counts = [0u64; 3];
    let total = 30_000u64;
    let mut i = 0;
    while i < total {
        s.update_current_task_vruntime(10_000_000);
        s.schedule();
        let cur = current_id(&s);
        if cur == a {
            counts[0] += 1;
        } else if cur == b {
            counts[1] += 1;
        } else if cur == c {
            counts[2] += 1;
        }
        i += 1;
    }
    let weights = [1277u64, 1024, 820];
    let weight_sum: u64 = weights.iter().sum();
    for k in 0..3 {
        let expected = total * weights[k] / weight_sum;
        let lo = expected - expected * 15 / 100;
        let hi = expected + expected * 15 / 100;
        assert!(counts[k] >= lo && counts[k] <= hi);
    }
}

#[test]
fn steeper_nice_spread_keeps_strict_order() {
    // With nice -5, 0, 5 the dispatch counts still order strictly by
    // priority.
    let mut s = init();
    let a = spawn_normal(&mut s, "a", -5);
    let b = spawn_normal(&mut s, "b", 0);
    let c = spawn_normal(&mut s, "c", 5);
    let mut counts = [0u64; 3];
    let mut i = 0;
    while i < 30_000 {
        s.update_current_task_vruntime(10_000_000);
        s.schedule();
        let cur = current_id(&s);
        if cur == a {
            counts[0] += 1;
        } else if cur == b {
            counts[1] += 1;
        } else {
            counts[2] += 1;
        }
        i += 1;
    }
    assert!(counts[0] > counts[1]);
    assert!(counts[1] > counts[2]);
}

#[test]
fn block_then_unblock_resumes_blocker() {
    let mut s = init();
    let idle = spawn_idle(&mut s, "idle");
    let worker = spawn_normal(&mut s, "worker", 0);
    s.schedule();
    assert_eq!(current_id(&s), worker);
    // The worker blocks; only the idle task is left to run.
    s.block_current_task();
    assert_eq!(current_id(&s), idle);
    // Another task wakes the worker: it returns Ready to its run queue.
    s.unblock_task(je4os::sched::task::TaskId::new(worker));
    assert_eq!(s.cfs_queue.len(), 1);
    assert_eq!(s.cfs_queue[0].id().as_u64(), worker);
    assert_eq!(s.cfs_queue[0].state(), TaskState::Ready);
    s.schedule();
    assert_eq!(current_id(&s), worker);
}

#[test]
fn lost_wakeup_is_caught() {
    // The wake-up arrives before the task commits to blocking: the guard
    // consumes it and the task keeps running.
    let mut s = init();
    let _idle = spawn_idle(&mut s, "idle");
    let worker = spawn_normal(&mut s, "worker", 0);
    s.schedule();
    assert_eq!(current_id(&s), worker);
    s.unblock_task(je4os::sched::task::TaskId::new(worker));
    assert_eq!(s.wakeup_pending.len(), 1);
    s.block_current_task();
    // Still running: the block consumed the pending wake-up instead.
    assert_eq!(current_id(&s), worker);
    assert_eq!(s.wakeup_pending.len(), 0);
    assert_eq!(s.blocked_tasks.len(), 0);
}

#[test]
fn sleep_zero_is_yield() {
    // `sleep_ms(0)` arms nothing and reschedules exactly as a yield does.
    let mut s1 = init();
    let mut s2 = init();
    for s in [&mut s1, &mut s2] {
        let id = s.allocate_task_id();
        s.add_task(Task::new("a", 0, ENTRY, STACK_TOP, id).unwrap());
        let id = s.allocate_task_id();
        s.add_task(Task::new("b", 0, ENTRY, STACK_TOP, id).unwrap());
        s.schedule();
    }
    let mut timers = TimerSystem::init(100);
    s1.sleep_ms(&mut timers, 0);
    s2.yield_now();
    assert_eq!(timers.queue.len(), 0);
    assert_eq!(current_id(&s1), current_id(&s2));
    assert_eq!(s1.cfs_queue.len(), s2.cfs_queue.len());
    assert_eq!(s1.blocked_tasks.len(), s2.blocked_tasks.len());
}

#[test]
fn sleep_arms_timer_and_blocks() {
    let mut s = init();
    let _idle = spawn_idle(&mut s, "idle");
    let sleeper = spawn_normal(&mut s, "sleeper", 0);
    s.schedule();
    assert_eq!(current_id(&s), sleeper);
    let mut timers = TimerSystem::init(100);
    // 100 ms at 100 Hz is ten ticks.
    assert_eq!(timers.ms_to_ticks(100), 10);
    s.sleep_ms(&mut timers, 100);
    assert_eq!(timers.queue.len(), 1);
    assert_eq!(timers.queue[0].expires_at, 10);
    assert_eq!(s.blocked_tasks.len(), 1);
    assert_eq!(s.blocked_tasks[0].id().as_u64(), sleeper);
}
