//! The interrupt descriptor table and the interrupt-time decisions: gate
//! encodings, fault error-code decoding, recognising a kernel-stack overflow
//! by its guard-page address, and the tick/interrupt-exit path that drives
//! preemption.

use crate::paging::PAGE_SIZE;
use crate::sched::scheduler::{unblock_rel, Scheduler};
use crate::timer::{TimerAction, TimerSystem};
use vstd::prelude::*;

verus! {

/// The interrupt vector the periodic timer fires on.
pub const TIMER_INTERRUPT_VECTOR: u8 = 32;

/// Nanoseconds charged per tick at the 100 Hz tick rate.
pub const TIMER_PERIOD_NS: u64 = 10_000_000;

/// One interrupt gate: a handler address split over three fields, a code
/// segment selector, an optional interrupt-stack-table index, and the
/// present/type attributes.
#[derive(Debug, Clone, Copy, PartialEq, Eq, Structural)]
pub struct IdtEntry {
    pub offset_low: u16,
    pub selector: u16,
    pub ist: u8,
    pub attributes: u8,
    pub offset_middle: u16,
    pub offset_high: u32,
    pub reserved: u32,
}

impl IdtEntry {
    /// The handler address the entry encodes.
    pub open spec fn spec_handler(self) -> int {
        self.offset_low + self.offset_middle * 0x1_0000 + self.offset_high * 0x1_0000_0000
    }

    /// An empty, not-present gate.
    pub fn null() -> (r: Self)
        ensures
            r == (IdtEntry {
                offset_low: 0,
                selector: 0,
                ist: 0,
                attributes: 0,
                offset_middle: 0,
                offset_high: 0,
                reserved: 0,
            }),
    {
        Self {
            offset_low: 0,
            selector: 0,
            ist: 0,
            attributes: 0,
            offset_middle: 0,
            offset_high: 0,
            reserved: 0,
        }
    }

    /// An interrupt gate for `handler` without a dedicated stack. The
    /// attributes hold Present, the privilege level, and the
    /// interrupt-gate type.
    pub fn new(handler: u64, selector: u16, dpl: u8) -> (r: Self)
        ensures
            r.spec_handler() == handler,
            r.selector == selector,
            r.ist == 0,
            r.attributes == 0x80u8 | ((dpl & 3) << 5) | 0x0E,
            r.reserved == 0,
    {
        let r = Self {
            offset_low: (handler & 0xFFFF) as u16,
            selector,
            ist: 0,
            attributes: 0x80 | ((dpl & 0b11) << 5) | 0x0E,
            offset_middle: ((handler >> 16) & 0xFFFF) as u16,
            offset_high: ((handler >> 32) & 0xFFFFFFFF) as u32,
            reserved: 0,
        };
        proof {
            lemma_handler_split(handler);
        }
        r
    }

    /// An interrupt gate that runs on the interrupt stack `ist_index`
    /// (1 to 7); used by the double-fault handler so it survives an
    /// unusable kernel stack.
    pub fn new_with_ist(handler: u64, selector: u16, dpl: u8, ist_index: u8) -> (r: Self)
        ensures
            r.spec_handler() == handler,
            r.selector == selector,
            r.ist == ist_index & 7,
            r.attributes == 0x80u8 | ((dpl & 3) << 5) | 0x0E,
            r.reserved == 0,
    {
        let r = Self {
            offset_low: (handler & 0xFFFF) as u16,
            selector,
            ist: ist_index & 0x07,
            attributes: 0x80 | ((dpl & 0b11) << 5) | 0x0E,
            offset_middle: ((handler >> 16) & 0xFFFF) as u16,
            offset_high: ((handler >> 32) & 0xFFFFFFFF) as u32,
            reserved: 0,
        };
        proof {
            lemma_handler_split(handler);
        }
        r
    }
}

/// Splitting a 64-bit handler address into 16/16/32-bit pieces loses
/// nothing below the top 16 bits.
proof fn lemma_handler_split(handler: u64)
    by (bit_vector)
    ensures
        (handler & 0xFFFF) + ((handler >> 16) & 0xFFFF) * 0x1_0000 + ((handler >> 32)
            & 0xFFFFFFFF) * 0x1_0000_0000 == handler,
        handler & 0xFFFF <= 0xFFFF,
        (handler >> 16) & 0xFFFF <= 0xFFFF,
        (handler >> 32) & 0xFFFFFFFF <= 0xFFFFFFFF,
{
}

/// The interrupt descriptor table: 256 gates.
pub struct Idt {
    pub entries: Vec<IdtEntry>,
}

impl Idt {
    /// A table is well formed when it holds exactly 256 gates.
    pub open spec fn wf(self) -> bool {
        self.entries.len() == 256
    }

    /// A table of 256 empty gates.
    pub fn new() -> (r: Self)
        ensures
            r.wf(),
            forall|i: int| 0 <= i < 256 ==> (#[trigger] r.entries[i]).attributes == 0,
    {
        let mut entries: Vec<IdtEntry> = Vec::new();
        let mut i: usize = 0;
        while i < 256
            invariant
                i == entries.len() <= 256,
                forall|j: int| 0 <= j < i ==> (#[trigger] entries[j]).attributes == 0,
            decreases 256 - i,
        {
            entries.push(IdtEntry::null());
            i = i + 1;
        }
        Self { entries }
    }

    /// Install a gate for `vector` without a dedicated stack.
    pub fn set_idt_entry(&mut self, vector: u8, handler: u64, selector: u16)
        requires
            old(self).wf(),
        ensures
            final (self).wf(),
            final (self).entries[vector as int].spec_handler() == handler,
            final (self).entries[vector as int].selector == selector,
            final (self).entries[vector as int].ist == 0,
            forall|i: int|
                0 <= i < 256 && i != vector ==> final (self).entries[i] == old(self).entries[i],
    {
        let e = IdtEntry::new(handler, selector, 0);
        self.entries.set(vector as usize, e);
    }

    /// Install a gate for `vector` that runs on the interrupt stack
    /// `ist_index`.
    pub fn set_idt_entry_with_ist(&mut self, vector: u8, handler: u64, selector: u16, ist_index: u8)
        requires
            old(self).wf(),
        ensures
            final (self).wf(),
            final (self).entries[vector as int].spec_handler() == handler,
            final (self).entries[vector as int].selector == selector,
            final (self).entries[vector as int].ist == ist_index & 7,
            forall|i: int|
                0 <= i < 256 && i != vector ==> final (self).entries[i] == old(self).entries[i],
    {
        let e = IdtEntry::new_with_ist(handler, selector, 0, ist_index);
        self.entries.set(vector as usize, e);
    }
}

/// The decoded error code of a page fault.
#[derive(Debug, Clone, Copy, PartialEq, Eq, Structural)]
pub struct PageFaultErrorCode {
    /// Set: protection violation; clear: page not present.
    pub present: bool,
    /// Set: a write; clear: a read.
    pub write: bool,
    /// Set: from user mode.
    pub user: bool,
    /// Set: a reserved bit was misused.
    pub reserved: bool,
    /// Set: an instruction fetch.
    pub instruction: bool,
}

/// Decode a page-fault error code into its five architectural bits.
pub fn decode_page_fault_error(error_code: u64) -> (r: PageFaultErrorCode)
    ensures
        r.present == (error_code & 0x01 != 0),
        r.write == (error_code & 0x02 != 0),
        r.user == (error_code & 0x04 != 0),
        r.reserved == (error_code & 0x08 != 0),
        r.instruction == (error_code & 0x10 != 0),
{
    PageFaultErrorCode {
        present: error_code & 0x01 != 0,
        write: error_code & 0x02 != 0,
        user: error_code & 0x04 != 0,
        reserved: error_code & 0x08 != 0,
        instruction: error_code & 0x10 != 0,
    }
}

/// The decoded selector part of a general-protection fault error code.
#[derive(Debug, Clone, Copy, PartialEq, Eq, Structural)]
pub struct GpErrorCode {
    /// The fault originated outside the running program.
    pub external: bool,
    /// Which descriptor table the selector refers to (0 GDT, 1 or 3 IDT,
    /// 2 LDT).
    pub table: u8,
    /// The selector index.
    pub index: u16,
}

/// Decode a general-protection error code into origin, table, and selector
/// index.
pub fn decode_gp_error(error_code: u64) -> (r: GpErrorCode)
    ensures
        r.external == (error_code & 0x01 != 0),
        r.table == (error_code >> 1) & 0x03,
        r.index == (error_code >> 3) & 0x1FFF,
{
    proof {
        assert((error_code >> 1) & 0x03 <= 0xFF && (error_code >> 3) & 0x1FFF <= 0xFFFF)
            by (bit_vector);
    }
    GpErrorCode {
        external: error_code & 0x01 != 0,
        table: ((error_code >> 1) & 0x03) as u8,
        index: ((error_code >> 3) & 0x1FFF) as u16,
    }
}

/// Whether a faulting address lies inside the guard page: a double fault
/// whose CR2 falls there is a kernel stack overflow, not a generic fault.
pub fn is_stack_overflow(fault_addr: u64, guard_page_addr: u64) -> (r: bool)
    requires
        guard_page_addr + PAGE_SIZE <= u64::MAX,
    ensures
        r == (guard_page_addr <= fault_addr < guard_page_addr + PAGE_SIZE),
{
    fault_addr >= guard_page_addr && fault_addr < guard_page_addr + PAGE_SIZE
}

/// The report a double fault produces: a recognised kernel-stack overflow,
/// or a generic double fault.
pub fn double_fault_report(fault_addr: u64, guard_page_addr: u64) -> (r: &'static str)
    requires
        guard_page_addr + PAGE_SIZE <= u64::MAX,
    ensures
        (guard_page_addr <= fault_addr < guard_page_addr + PAGE_SIZE) ==> r
            == "kernel stack overflow",
        !(guard_page_addr <= fault_addr < guard_page_addr + PAGE_SIZE) ==> r == "double fault",
{
    if is_stack_overflow(fault_addr, guard_page_addr) {
        "kernel stack overflow"
    } else {
        "double fault"
    }
}

/// The work of one timer interrupt: advance the tick, move expired timers
/// to the pending queue, charge the running task one tick of runtime, and
/// ask for a reschedule on interrupt exit. (Sending the end-of-interrupt is
/// the hardware layer's job.)
pub fn timer_interrupt(sched: &mut Scheduler, timers: &mut TimerSystem)
    requires
        old(sched).wf(),
        old(timers).wf(),
        old(timers).tick_count < u64::MAX,
    ensures
        final (sched).wf(),
        final (timers).wf(),
        final (timers).tick_count == old(timers).tick_count + 1,
        final (sched).need_resched,
        final (sched).accumulated_runtime == if old(sched).accumulated_runtime + TIMER_PERIOD_NS
            <= crate::sched::scheduler::ACCUMULATED_RUNTIME_MAX {
            old(sched).accumulated_runtime + TIMER_PERIOD_NS
        } else {
            crate::sched::scheduler::ACCUMULATED_RUNTIME_MAX as int
        },
        final (sched).rt_queue == old(sched).rt_queue,
        final (sched).cfs_queue == old(sched).cfs_queue,
        final (sched).idle_queue == old(sched).idle_queue,
        final (sched).blocked_tasks == old(sched).blocked_tasks,
        final (sched).current == old(sched).current,
        final (sched).wakeup_pending == old(sched).wakeup_pending,
        exists|k: int|
            {
                &&& 0 <= k <= old(timers).queue@.len()
                &&& forall|j: int|
                    0 <= j < k ==> (#[trigger] old(timers).queue@[j]).expires_at <= old(
                        timers,
                    ).tick_count + 1
                &&& (k < old(timers).queue@.len() ==> old(timers).queue@[k].expires_at > old(
                    timers,
                ).tick_count + 1)
                &&& final (timers).queue@ == old(timers).queue@.skip(k)
                &&& final (timers).pending@ == old(timers).pending@ + old(timers).queue@.take(k)
            },
{
    timers.increment_tick();
    timers.check_timers();
    sched.update_current_task_vruntime(TIMER_PERIOD_NS);
    sched.set_need_resched();
}

/// No action of the sequence wakes a task.
pub open spec fn no_wakes(s: Seq<TimerAction>) -> bool {
    forall|i: int| 0 <= i < s.len() ==> !((#[trigger] s[i]) is WakeTask)
}

/// The scheduler state reached by performing the actions in order: each
/// wake-up steps by [`unblock_rel`], every other action changes nothing.
pub open spec fn wakes_rel(pre: Scheduler, post: Scheduler, actions: Seq<TimerAction>) -> bool
    decreases actions.len(),
{
    if actions.len() == 0 {
        post == pre
    } else {
        match actions[0] {
            TimerAction::WakeTask(id) => exists|mid: Scheduler|
                #[trigger] unblock_rel(pre, mid, id) && wakes_rel(mid, post, actions.skip(1)),
            TimerAction::Event(_) => wakes_rel(pre, post, actions.skip(1)),
        }
    }
}

/// Performing one more action extends the chain at its end.
proof fn lemma_wakes_rel_snoc(pre: Scheduler, mid: Scheduler, post: Scheduler, actions: Seq<
    TimerAction,
>, a: TimerAction)
    requires
        wakes_rel(pre, mid, actions),
        match a {
            TimerAction::WakeTask(id) => unblock_rel(mid, post, id),
            TimerAction::Event(_) => post == mid,
        },
    ensures
        wakes_rel(pre, post, actions.push(a)),
    decreases actions.len(),
{
    reveal_with_fuel(wakes_rel, 3);
    if actions.len() == 0 {
        assert(actions.push(a)[0] == a);
        assert(actions.push(a).skip(1) =~= Seq::<TimerAction>::empty());
        match a {
            TimerAction::WakeTask(id) => {
                assert(unblock_rel(pre, post, id) && wakes_rel(
                    post,
                    post,
                    actions.push(a).skip(1),
                ));
                assert(exists|m: Scheduler|
                    #[trigger] unblock_rel(pre, m, id) && wakes_rel(
                        m,
                        post,
                        actions.push(a).skip(1),
                    ));
                assert(wakes_rel(pre, post, actions.push(a)));
            },
            TimerAction::Event(_) => {
                assert(wakes_rel(pre, post, actions.push(a)));
            },
        }
    } else {
        assert(actions.push(a)[0] == actions[0]);
        assert(actions.push(a).skip(1) =~= actions.skip(1).push(a));
        match actions[0] {
            TimerAction::WakeTask(id) => {
                let step = choose|m: Scheduler|
                    #[trigger] unblock_rel(pre, m, id) && wakes_rel(m, mid, actions.skip(1));
                lemma_wakes_rel_snoc(step, mid, post, actions.skip(1), a);
                assert(unblock_rel(pre, step, id) && wakes_rel(
                    step,
                    post,
                    actions.push(a).skip(1),
                ));
                assert(wakes_rel(pre, post, actions.push(a)));
            },
            TimerAction::Event(_) => {
                lemma_wakes_rel_snoc(pre, mid, post, actions.skip(1), a);
                assert(wakes_rel(pre, post, actions.push(a)));
            },
        }
    }
}

/// The interrupt-exit path: drain the softirq (performing every wake-up the
/// expired timers ask for, and collecting the event codes for the embedding
/// program), then reschedule when the tick asked for it.
///
/// The outcome is exact: some intermediate state is reached from the old one
/// by the drained wake-ups in order ([`wakes_rel`]); the reschedule flag is
/// cleared; and the final scheduler is that state rescheduled when the flag
/// was set, or that state unchanged when it was not. So a woken Realtime
/// task is already on its run queue when the pick of this same interrupt
/// exit happens.
pub fn check_resched_on_interrupt_exit(sched: &mut Scheduler, timers: &mut TimerSystem) -> (r: Vec<
    TimerAction,
>)
    requires
        old(sched).wf(),
        old(timers).wf(),
    ensures
        final (sched).wf(),
        final (timers).wf(),
        !final (sched).need_resched,
        !old(timers).in_softirq ==> final (timers).pending@.len() == 0 && r@
            == crate::timer::actions_of(old(timers).pending@),
        old(timers).in_softirq ==> *final (timers) == *old(timers) && r@.len() == 0,
        exists|woken: Scheduler|
            {
                &&& #[trigger] wakes_rel(*old(sched), woken, r@)
                &&& old(sched).need_resched ==> crate::sched::scheduler::schedule_rel(
                    Scheduler { need_resched: false, ..woken },
                    *final (sched),
                )
                &&& !old(sched).need_resched ==> *final (sched) == (Scheduler {
                    need_resched: false,
                    ..woken
                })
            },
        no_wakes(r@) && !old(sched).need_resched ==> *final (sched) == (Scheduler {
            need_resched: false,
            ..*old(sched)
        }),
        no_wakes(r@) && old(sched).need_resched ==> crate::sched::scheduler::schedule_rel(
            Scheduler { need_resched: false, ..*old(sched) },
            *final (sched),
        ),
{
    let actions = timers.do_softirq();
    let mut i: usize = 0;
    proof {
        assert(actions@.take(0) =~= Seq::<TimerAction>::empty());
    }
    while i < actions.len()
        invariant
            sched.wf(),
            i <= actions@.len(),
            no_wakes(actions@) ==> *sched == *old(sched),
            sched.need_resched == old(sched).need_resched,
            wakes_rel(*old(sched), *sched, actions@.take(i as int)),
        decreases actions@.len() - i,
    {
        let ghost before = *sched;
        match actions[i] {
            TimerAction::WakeTask(id) => {
                proof {
                    assert(actions@[i as int] is WakeTask);
                }
                sched.unblock_task(crate::sched::task::TaskId::new(id));
            },
            TimerAction::Event(_) => {},
        }
        proof {
            lemma_wakes_rel_snoc(
                *old(sched),
                before,
                *sched,
                actions@.take(i as int),
                actions@[i as int],
            );
            assert(actions@.take(i as int).push(actions@[i as int]) =~= actions@.take(
                i as int + 1,
            ));
        }
        i = i + 1;
    }
    proof {
        assert(actions@.take(actions@.len() as int) =~= actions@);
    }
    let ghost woken = *sched;
    if sched.need_resched {
        sched.need_resched = false;
        sched.schedule();
    } else {
        sched.need_resched = false;
    }
    proof {
        assert(wakes_rel(*old(sched), woken, actions@));
        if old(sched).need_resched {
            assert(crate::sched::scheduler::schedule_rel(
                Scheduler { need_resched: false, ..woken },
                *sched,
            ));
        } else {
            assert(*sched == (Scheduler { need_resched: false, ..woken }));
        }
    }
    actions
}

} // verus!
