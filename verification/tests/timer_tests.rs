//! Timer wheel behaviour: single firing, ordering, the softirq drain, and
//! the interrupt-driven wake-up path.

use je4os::idt::{check_resched_on_interrupt_exit, timer_interrupt};
use je4os::sched::scheduler::init;
use je4os::sched::task::Task;
use je4os::timer::{TimerAction, TimerSystem};

const ENTRY: u64 = 0x40_0000;
const STACK_TOP: u64 = 0x8_0000;

#[test]
fn timer_fires_exactly_once() {
    // A timer armed for `d` ticks fires once within `d + 1` ticks and never
    // again.
    let mut t = TimerSystem::init(100);
    let id = t.register_timer(5, TimerAction::Event(7));
    let mut fired = 0;
    for _ in 0..20 {
        t.increment_tick();
        t.check_timers();
        let actions = t.do_softirq();
        for a in actions {
            if a == TimerAction::Event(7) {
                fired += 1;
            }
        }
    }
    assert_eq!(fired, 1);
    assert_eq!(id, 1);
    assert_eq!(t.queue.len(), 0);
}

#[test]
fn timer_fires_at_expiry_not_before() {
    let mut t = TimerSystem::init(100);
    t.register_timer(3, TimerAction::Event(1));
    for tick in 1..=5u64 {
        t.increment_tick();
        t.check_timers();
        let actions = t.do_softirq();
        if tick < 3 {
            assert_eq!(actions.len(), 0);
        } else if tick == 3 {
            assert_eq!(actions.len(), 1);
        } else {
            assert_eq!(actions.len(), 0);
        }
    }
}

#[test]
fn three_timers_fire_in_order() {
    // Three timers at one, two and three seconds all run, in that order,
    // each on its nominal tick.
    let mut t = TimerSystem::init(100);
    let one_second = t.seconds_to_ticks(1);
    assert_eq!(one_second, 100);
    t.register_timer(one_second, TimerAction::Event(1));
    t.register_timer(2 * one_second, TimerAction::Event(2));
    t.register_timer(3 * one_second, TimerAction::Event(3));
    let mut fired: Vec<(u64, u64)> = Vec::new();
    for _ in 0..320 {
        let now = t.increment_tick();
        t.check_timers();
        for a in t.do_softirq() {
            if let TimerAction::Event(code) = a {
                fired.push((code, now));
            }
        }
    }
    assert_eq!(fired.len(), 3);
    assert_eq!(fired[0], (1, 100));
    assert_eq!(fired[1], (2, 200));
    assert_eq!(fired[2], (3, 300));
}

#[test]
fn softirq_reentry_is_blocked() {
    let mut t = TimerSystem::init(100);
    t.register_timer(0, TimerAction::Event(9));
    t.check_timers();
    assert!(t.softirq_pending());
    t.in_softirq = true;
    assert!(t.in_softirq());
    let actions = t.do_softirq();
    assert_eq!(actions.len(), 0);
    assert_eq!(t.pending.len(), 1);
    t.in_softirq = false;
    let actions = t.do_softirq();
    assert_eq!(actions.len(), 1);
    assert!(!t.softirq_pending());
}

#[test]
fn sleeping_realtime_task_wakes_promptly() {
    // A Realtime task sleeps 100 ms; a Normal hog runs meanwhile. The
    // sleeper resumes within two ticks of its nominal wake-up, and the hog
    // runs only while the sleeper is blocked.
    let mut s = init();
    let mut timers = TimerSystem::init(100);
    let idle_id = s.allocate_task_id();
    s.add_task(Task::new_idle("idle", ENTRY, STACK_TOP, idle_id).unwrap());
    let hog_id = s.allocate_task_id();
    s.add_task(Task::new("hog", 0, ENTRY, STACK_TOP, hog_id).unwrap());
    let rt_id = s.allocate_task_id();
    s.add_task(Task::new_realtime("rt", 50, ENTRY, STACK_TOP, rt_id).unwrap());
    s.schedule();
    assert_eq!(s.current.as_ref().unwrap().id(), rt_id);

    let start = timers.current_tick();
    s.sleep_ms(&mut timers, 100);
    let nominal = start + 10;
    // The hog takes over while the Realtime task sleeps.
    assert_eq!(s.current.as_ref().unwrap().id(), hog_id);

    let mut woke_at = 0u64;
    for _ in 0..15 {
        timer_interrupt(&mut s, &mut timers);
        let _events = check_resched_on_interrupt_exit(&mut s, &mut timers);
        let cur = s.current.as_ref().unwrap().id();
        if cur == rt_id && woke_at == 0 {
            woke_at = timers.current_tick();
        }
        if woke_at == 0 {
            // Until the wake-up the Realtime task stays off the CPU.
            assert!(cur != rt_id);
        }
    }
    assert!(woke_at != 0);
    assert!(woke_at >= nominal);
    assert!(woke_at <= nominal + 2);
}

#[test]
fn short_sleep_still_waits_a_tick() {
    // Five milliseconds at 100 Hz are half a tick; the sleep arms a whole
    // one, the ceiling of its nominal delay.
    let mut s = init();
    let idle_id = s.allocate_task_id();
    s.add_task(Task::new_idle("idle", ENTRY, STACK_TOP, idle_id).unwrap());
    let sleeper_id = s.allocate_task_id();
    s.add_task(Task::new("sleeper", 0, ENTRY, STACK_TOP, sleeper_id).unwrap());
    s.schedule();
    let mut timers = TimerSystem::init(100);
    assert_eq!(timers.ms_to_ticks(5), 0);
    s.sleep_ms(&mut timers, 5);
    assert_eq!(timers.queue.len(), 1);
    // ceil(5 * 100 / 1000) is one tick.
    assert_eq!(timers.queue[0].expires_at, 1);
}

#[test]
fn partial_ticks_round_up() {
    // Fifteen milliseconds at 100 Hz are one and a half ticks: the wake-up
    // arms at two, never before the nominal time.
    let mut s = init();
    let idle_id = s.allocate_task_id();
    s.add_task(Task::new_idle("idle", ENTRY, STACK_TOP, idle_id).unwrap());
    let sleeper_id = s.allocate_task_id();
    s.add_task(Task::new("sleeper", 0, ENTRY, STACK_TOP, sleeper_id).unwrap());
    s.schedule();
    let mut timers = TimerSystem::init(100);
    s.sleep_ms(&mut timers, 15);
    assert_eq!(timers.queue.len(), 1);
    assert_eq!(timers.queue[0].expires_at, 2);
    // The general-purpose conversion still floors, as the tick arithmetic
    // elsewhere expects.
    assert_eq!(timers.ms_to_ticks(15), 1);
}

#[test]
fn tick_interrupt_accounts_and_requests_resched() {
    let mut s = init();
    let mut timers = TimerSystem::init(100);
    timer_interrupt(&mut s, &mut timers);
    assert_eq!(timers.current_tick(), 1);
    assert!(s.need_resched);
    assert_eq!(s.accumulated_runtime, 10_000_000);
    let _ = check_resched_on_interrupt_exit(&mut s, &mut timers);
    assert!(!s.need_resched);
}
