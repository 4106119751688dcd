//! The timer wheel: expiry-ordered one-shot timers, tick accounting, and the
//! two-phase softirq drain that runs callbacks outside the interrupt path.
//!
//! A callback is a type-erased one-shot; here it is represented by the
//! action it performs: wake a task, or signal an event code that the
//! embedding program interprets.

use vstd::prelude::*;

verus! {

/// What a timer does when it fires.
#[derive(Debug, Clone, Copy, PartialEq, Eq, Structural)]
pub enum TimerAction {
    /// Wake the task with this identifier (used by sleeping tasks).
    WakeTask(u64),
    /// Report this event code to the embedding program.
    Event(u64),
}

/// A one-shot timer: fires once when the tick counter reaches its expiry.
#[derive(Debug, Clone, Copy, PartialEq, Eq, Structural)]
pub struct Timer {
    pub id: u64,
    pub expires_at: u64,
    pub action: TimerAction,
}

impl Timer {
    /// A timer with the given identity, absolute expiry tick, and action.
    pub fn new(id: u64, expires_at: u64, action: TimerAction) -> (r: Self)
        ensures
            r == (Timer { id, expires_at, action }),
    {
        Timer { id, expires_at, action }
    }
}

/// The expiry order of the timer queue: earlier expiry first, identifiers
/// breaking ties.
pub open spec fn timer_key_le(a: Timer, b: Timer) -> bool {
    a.expires_at < b.expires_at || (a.expires_at == b.expires_at && a.id <= b.id)
}

/// The sequence is sorted by expiry.
pub open spec fn timers_sorted(s: Seq<Timer>) -> bool {
    forall|i: int, j: int| 0 <= i < j < s.len() ==> timer_key_le(s[i], s[j])
}

/// No two timers of the sequence share an identifier.
pub open spec fn uniq_timer_ids(s: Seq<Timer>) -> bool {
    forall|i: int, j: int| 0 <= i < j < s.len() ==> s[i].id != s[j].id
}

/// Some timer of the sequence has the identifier.
pub open spec fn timer_in(s: Seq<Timer>, id: u64) -> bool {
    exists|i: int| 0 <= i < s.len() && s[i].id == id
}

/// Every timer identifier of the sequence is below `bound`.
pub open spec fn timer_ids_below(s: Seq<Timer>, bound: u64) -> bool {
    forall|i: int| 0 <= i < s.len() ==> (#[trigger] s[i]).id < bound
}

/// The actions of the sequence of timers, in order.
pub open spec fn actions_of(s: Seq<Timer>) -> Seq<TimerAction> {
    s.map_values(|t: Timer| t.action)
}

/// The timer subsystem: tick counter, the expiry-ordered timer queue, the
/// pending queue of expired timers, and the softirq flags.
pub struct TimerSystem {
    /// Tick frequency in Hz.
    pub frequency_hz: u64,
    /// Ticks since boot.
    pub tick_count: u64,
    /// The next timer identifier to hand out.
    pub next_timer_id: u64,
    /// Armed timers, sorted by expiry (earliest first, identifier breaking
    /// ties).
    pub queue: Vec<Timer>,
    /// Expired timers waiting for the softirq drain, oldest first.
    pub pending: Vec<Timer>,
    /// Expired timers await a drain.
    pub softirq_pending: bool,
    /// A drain is running (re-entrance guard).
    pub in_softirq: bool,
}

impl TimerSystem {
    /// Structural invariant: the queue is expiry-sorted, identifiers are
    /// unique across queue and pending and below the allocation counter, and
    /// pending timers have all expired.
    pub open spec fn wf(self) -> bool {
        &&& timers_sorted(self.queue@)
        &&& uniq_timer_ids(self.queue@)
        &&& uniq_timer_ids(self.pending@)
        &&& forall|id: u64| !(#[trigger] timer_in(self.queue@, id) && timer_in(self.pending@, id))
        &&& timer_ids_below(self.queue@, self.next_timer_id)
        &&& timer_ids_below(self.pending@, self.next_timer_id)
        &&& forall|i: int|
            0 <= i < self.pending@.len() ==> (#[trigger] self.pending@[i]).expires_at
                <= self.tick_count
    }

    /// Initialise the timer subsystem with the tick frequency.
    pub fn init(frequency_hz: u64) -> (r: Self)
        ensures
            r.wf(),
            r.frequency_hz == frequency_hz,
            r.tick_count == 0,
            r.queue@.len() == 0,
            r.pending@.len() == 0,
            !r.softirq_pending,
            !r.in_softirq,
            r.next_timer_id == 1,
    {
        Self {
            frequency_hz,
            tick_count: 0,
            next_timer_id: 1,
            queue: Vec::new(),
            pending: Vec::new(),
            softirq_pending: false,
            in_softirq: false,
        }
    }

    /// Ticks since boot.
    pub fn current_tick(&self) -> (r: u64)
        ensures
            r == self.tick_count,
    {
        self.tick_count
    }

    /// Advance the tick counter by one; returns the new count.
    pub fn increment_tick(&mut self) -> (r: u64)
        requires
            old(self).wf(),
            old(self).tick_count < u64::MAX,
        ensures
            final (self).wf(),
            r == final (self).tick_count == old(self).tick_count + 1,
            *final (self) == (TimerSystem { tick_count: final (self).tick_count, ..*old(self) }),
    {
        self.tick_count = self.tick_count + 1;
        self.tick_count
    }

    /// Arm a one-shot timer `delay_ticks` from now; returns its identifier.
    pub fn register_timer(&mut self, delay_ticks: u64, action: TimerAction) -> (r: u64)
        requires
            old(self).wf(),
            old(self).tick_count + delay_ticks <= u64::MAX,
            old(self).next_timer_id < u64::MAX,
        ensures
            final (self).wf(),
            r == old(self).next_timer_id,
            final (self).next_timer_id == old(self).next_timer_id + 1,
            exists|i: int|
                0 <= i <= old(self).queue@.len() && final (self).queue@ == #[trigger] old(
                    self,
                ).queue@.insert(
                    i,
                    Timer {
                        id: r,
                        expires_at: (old(self).tick_count + delay_ticks) as u64,
                        action,
                    },
                ),
            timer_in(final (self).queue@, r),
            final (self).pending == old(self).pending,
            final (self).tick_count == old(self).tick_count,
            final (self).frequency_hz == old(self).frequency_hz,
            final (self).softirq_pending == old(self).softirq_pending,
            final (self).in_softirq == old(self).in_softirq,
    {
        let id = self.next_timer_id;
        self.next_timer_id = self.next_timer_id + 1;
        let t = Timer::new(id, self.tick_count + delay_ticks, action);
        proof {
            if timer_in(self.queue@, t.id) {
                let j = choose|j: int| 0 <= j < self.queue@.len() && self.queue@[j].id == t.id;
                assert(self.queue@[j].id < t.id);
            }
            if timer_in(self.pending@, t.id) {
                let j = choose|j: int| 0 <= j < self.pending@.len() && self.pending@[j].id == t.id;
                assert(self.pending@[j].id < t.id);
            }
        }
        // Find the sorted insertion point: after every timer that keys no
        // later than the new one.
        let mut i: usize = 0;
        while i < self.queue.len()
            invariant
                old(self).wf(),
                self.queue == old(self).queue,
                t == (Timer {
                    id,
                    expires_at: (old(self).tick_count + delay_ticks) as u64,
                    action,
                }),
                id == old(self).next_timer_id,
                !timer_in(self.queue@, t.id),
                i <= self.queue@.len(),
                forall|j: int| 0 <= j < i ==> timer_key_le(self.queue@[j], t),
            ensures
                old(self).wf(),
                self.queue == old(self).queue,
                t == (Timer {
                    id,
                    expires_at: (old(self).tick_count + delay_ticks) as u64,
                    action,
                }),
                id == old(self).next_timer_id,
                !timer_in(self.queue@, t.id),
                i <= self.queue@.len(),
                forall|j: int| 0 <= j < i ==> timer_key_le(self.queue@[j], t),
                i < self.queue@.len() ==> timer_key_le(t, self.queue@[i as int]),
            decreases self.queue@.len() - i,
        {
            let q = &self.queue[i];
            if q.expires_at < t.expires_at || (q.expires_at == t.expires_at && q.id <= t.id) {
                i = i + 1;
            } else {
                break ;
            }
        }
        proof {
            assert forall|j: int|
                i <= j < self.queue@.len() implies timer_key_le(t, #[trigger] self.queue@[j]) by {
                if j > i {
                    assert(timer_key_le(self.queue@[i as int], self.queue@[j]));
                }
            }
            lemma_timer_insert(self.queue@, i as int, t);
        }
        let ghost q0 = self.queue@;
        self.queue.insert(i, t);
        proof {
            assert(self.queue@[i as int] == t);
            assert(timer_ids_below(q0, (id + 1) as u64)) by {
                assert(forall|j: int| 0 <= j < q0.len() ==> (#[trigger] q0[j]).id < id);
            }
            assert forall|id2: u64| !(#[trigger] timer_in(self.queue@, id2) && timer_in(
                self.pending@,
                id2,
            )) by {
                if timer_in(self.queue@, id2) {
                    assert(timer_in(q0, id2) || id2 == t.id);
                }
            }
        }
        id
    }

    /// Move every expired timer, in expiry order, from the queue to the
    /// pending queue, and raise the softirq flag when any moved.
    pub fn check_timers(&mut self)
        requires
            old(self).wf(),
        ensures
            final (self).wf(),
            exists|k: int|
                {
                    &&& 0 <= k <= old(self).queue@.len()
                    &&& forall|j: int|
                        0 <= j < k ==> (#[trigger] old(self).queue@[j]).expires_at <= old(
                            self,
                        ).tick_count
                    &&& (k < old(self).queue@.len() ==> old(self).queue@[k].expires_at > old(
                        self,
                    ).tick_count)
                    &&& final (self).queue@ == old(self).queue@.skip(k)
                    &&& final (self).pending@ == old(self).pending@ + old(self).queue@.take(k)
                    &&& final (self).softirq_pending == (old(self).softirq_pending || k > 0)
                },
            final (self).tick_count == old(self).tick_count,
            final (self).frequency_hz == old(self).frequency_hz,
            final (self).next_timer_id == old(self).next_timer_id,
            final (self).in_softirq == old(self).in_softirq,
    {
        let ghost q0 = self.queue@;
        let ghost p0 = self.pending@;
        let initial_len = self.queue.len();
        proof {
            assert(q0.len() == initial_len <= usize::MAX);
        }
        let mut moved: usize = 0;
        while self.queue.len() > 0 && self.queue[0].expires_at <= self.tick_count
            invariant
                old(self).wf(),
                self.wf(),
                q0 == old(self).queue@,
                p0 == old(self).pending@,
                self.tick_count == old(self).tick_count,
                self.frequency_hz == old(self).frequency_hz,
                self.next_timer_id == old(self).next_timer_id,
                self.in_softirq == old(self).in_softirq,
                self.softirq_pending == old(self).softirq_pending,
                q0.len() <= usize::MAX,
                0 <= moved <= q0.len(),
                forall|j: int| 0 <= j < moved ==> (#[trigger] q0[j]).expires_at <= self.tick_count,
                self.queue@ == q0.skip(moved as int),
                self.pending@ == p0 + q0.take(moved as int),
            decreases self.queue@.len(),
        {
            proof {
                lemma_timer_take_skip(q0, moved as int);
                assert(self.queue@[0] == q0[moved as int]);
            }
            let t = self.queue.remove(0);
            self.pending.push(t);
            proof {
                assert(moved < q0.len());
            }
            moved = moved + 1;
            proof {
                assert(self.queue@ =~= q0.skip(moved as int));
                assert(self.pending@ =~= p0 + q0.take(moved as int));
                lemma_wf_after_move(q0, p0, moved as int, *old(self), *self);
            }
        }
        if moved > 0 {
            self.raise_softirq();
        }
        proof {
            let k = moved as int;
            assert(k < q0.len() ==> q0[k].expires_at > self.tick_count);
        }
    }

    /// Raise the softirq flag: expired timers await the drain.
    pub fn raise_softirq(&mut self)
        requires
            old(self).wf(),
        ensures
            final (self).wf(),
            *final (self) == (TimerSystem { softirq_pending: true, ..*old(self) }),
    {
        self.softirq_pending = true;
    }

    /// Whether expired timers await the softirq drain.
    pub fn softirq_pending(&self) -> (r: bool)
        ensures
            r == self.softirq_pending,
    {
        self.softirq_pending
    }

    /// Whether a softirq drain is already running.
    pub fn in_softirq(&self) -> (r: bool)
        ensures
            r == self.in_softirq,
    {
        self.in_softirq
    }

    /// Dequeue every pending timer, oldest first, and hand back the actions
    /// to perform with interrupts enabled.
    pub fn process_pending_timers(&mut self) -> (r: Vec<TimerAction>)
        requires
            old(self).wf(),
        ensures
            final (self).wf(),
            r@ == actions_of(old(self).pending@),
            final (self).pending@.len() == 0,
            *final (self) == (TimerSystem { pending: final (self).pending, ..*old(self) }),
    {
        let mut actions: Vec<TimerAction> = Vec::new();
        let ghost p0 = self.pending@;
        let mut i: usize = 0;
        while i < self.pending.len()
            invariant
                old(self).wf(),
                *self == *old(self),
                p0 == old(self).pending@,
                i <= p0.len(),
                actions@ == actions_of(p0.take(i as int)),
            decreases p0.len() - i,
        {
            actions.push(self.pending[i].action);
            proof {
                assert(p0.take(i + 1 as int) =~= p0.take(i as int).push(p0[i as int]));
                assert(actions_of(p0.take(i + 1)) =~= actions_of(p0.take(i as int)).push(
                    p0[i as int].action,
                ));
            }
            i = i + 1;
        }
        self.pending = Vec::new();
        proof {
            assert(p0.take(p0.len() as int) =~= p0);
        }
        actions
    }

    /// The softirq drain: when no drain is already running, clear the
    /// softirq flag and hand back the pending timers' actions, oldest first.
    /// Re-entry returns nothing and changes nothing.
    pub fn do_softirq(&mut self) -> (r: Vec<TimerAction>)
        requires
            old(self).wf(),
        ensures
            final (self).wf(),
            old(self).in_softirq ==> r@.len() == 0 && *final (self) == *old(self),
            !old(self).in_softirq ==> {
                &&& r@ == actions_of(old(self).pending@)
                &&& final (self).pending@.len() == 0
                &&& !final (self).softirq_pending
                &&& !final (self).in_softirq
                &&& *final (self) == (TimerSystem {
                    pending: final (self).pending,
                    softirq_pending: false,
                    in_softirq: false,
                    ..*old(self)
                })
            },
    {
        if self.in_softirq {
            return Vec::new();
        }
        self.in_softirq = true;
        let mut actions: Vec<TimerAction> = Vec::new();
        if self.softirq_pending {
            self.softirq_pending = false;
            actions = self.process_pending_timers();
        } else {
            actions = self.process_pending_timers();
        }
        self.in_softirq = false;
        actions
    }

    /// Ticks in `ms` milliseconds at the configured frequency.
    pub fn ms_to_ticks(&self, ms: u64) -> (r: u64)
        requires
            ms * self.frequency_hz <= u64::MAX,
        ensures
            r == (ms * self.frequency_hz) as u64 / 1000,
    {
        (ms * self.frequency_hz) / 1000
    }

    /// Ticks in `seconds` seconds at the configured frequency.
    pub fn seconds_to_ticks(&self, seconds: u64) -> (r: u64)
        requires
            seconds * self.frequency_hz <= u64::MAX,
        ensures
            r == seconds * self.frequency_hz,
    {
        seconds * self.frequency_hz
    }

    /// The configured tick frequency in Hz.
    pub fn frequency_hz(&self) -> (r: u64)
        ensures
            r == self.frequency_hz,
    {
        self.frequency_hz
    }
}

/// Inserting a timer at a position that respects the expiry order keeps the
/// queue sorted and adds exactly that timer.
proof fn lemma_timer_insert(s: Seq<Timer>, i: int, t: Timer)
    requires
        0 <= i <= s.len(),
        timers_sorted(s),
        uniq_timer_ids(s),
        !timer_in(s, t.id),
        forall|j: int| 0 <= j < i ==> timer_key_le(s[j], t),
        forall|j: int| i <= j < s.len() ==> timer_key_le(t, #[trigger] s[j]),
    ensures
        timers_sorted(s.insert(i, t)),
        uniq_timer_ids(s.insert(i, t)),
        forall|id: u64| timer_in(s.insert(i, t), id) == (timer_in(s, id) || id == t.id),
        forall|b: u64| #[trigger]
            timer_ids_below(s.insert(i, t), b) == (timer_ids_below(s, b) && t.id < b),
{
    let s2 = s.insert(i, t);
    assert forall|a: int, b: int| 0 <= a < b < s2.len() implies timer_key_le(s2[a], s2[b]) by {
        if a < i && b < i {
            assert(s2[a] == s[a] && s2[b] == s[b]);
        } else if a < i && b == i {
            assert(s2[a] == s[a] && s2[b] == t);
        } else if a < i {
            assert(s2[a] == s[a] && s2[b] == s[b - 1]);
        } else if a == i {
            assert(s2[a] == t && s2[b] == s[b - 1]);
        } else {
            assert(s2[a] == s[a - 1] && s2[b] == s[b - 1]);
        }
    }
    assert forall|a: int, b: int| 0 <= a < b < s2.len() implies s2[a].id != s2[b].id by {
        if a != i && b != i {
            let a0 = if a < i {
                a
            } else {
                a - 1
            };
            let b0 = if b < i {
                b
            } else {
                b - 1
            };
            assert(s2[a] == s[a0] && s2[b] == s[b0]);
        } else if a == i {
            assert(s2[b] == s[b - 1]);
            if s[b - 1].id == t.id {
                assert(timer_in(s, t.id));
            }
        } else {
            assert(s2[a] == s[a]);
            if s[a].id == t.id {
                assert(timer_in(s, t.id));
            }
        }
    }
    assert forall|b: u64| #[trigger] timer_ids_below(s2, b) == (timer_ids_below(s, b) && t.id
        < b) by {
        if timer_ids_below(s2, b) {
            assert(s2[i] == t);
            assert forall|j: int| 0 <= j < s.len() implies (#[trigger] s[j]).id < b by {
                if j < i {
                    assert(s2[j] == s[j]);
                } else {
                    assert(s2[j + 1] == s[j]);
                }
            }
        }
        if timer_ids_below(s, b) && t.id < b {
            assert forall|j: int| 0 <= j < s2.len() implies (#[trigger] s2[j]).id < b by {
                if j < i {
                    assert(s2[j] == s[j]);
                } else if j > i {
                    assert(s2[j] == s[j - 1]);
                }
            }
        }
    }
    assert forall|id: u64| timer_in(s2, id) == (timer_in(s, id) || id == t.id) by {
        if timer_in(s2, id) {
            let j = choose|j: int| 0 <= j < s2.len() && s2[j].id == id;
            if j < i {
                assert(s[j].id == id);
            } else if j > i {
                assert(s[j - 1].id == id);
            }
        }
        if timer_in(s, id) {
            let j = choose|j: int| 0 <= j < s.len() && s[j].id == id;
            if j < i {
                assert(s2[j].id == id);
            } else {
                assert(s2[j + 1].id == id);
            }
        }
        if id == t.id {
            assert(s2[i].id == id);
        }
    }
}

/// Splitting a sorted queue at `k` relates the element at `k` to the parts.
proof fn lemma_timer_take_skip(s: Seq<Timer>, k: int)
    requires
        0 <= k < s.len(),
    ensures
        s.skip(k)[0] == s[k],
        s.skip(k).skip(1) =~= s.skip(k + 1),
        s.take(k).push(s[k]) =~= s.take(k + 1),
{
}

/// One step of the expired-prefix move keeps the timer system well formed.
proof fn lemma_wf_after_move(q0: Seq<Timer>, p0: Seq<Timer>, moved: int, pre: TimerSystem, post: TimerSystem)
    requires
        pre.wf(),
        0 < moved <= q0.len(),
        q0 == pre.queue@,
        p0 == pre.pending@,
        post.queue@ == q0.skip(moved),
        post.pending@ == p0 + q0.take(moved),
        post.tick_count == pre.tick_count,
        post.next_timer_id == pre.next_timer_id,
        forall|j: int| 0 <= j < moved ==> (#[trigger] q0[j]).expires_at <= pre.tick_count,
    ensures
        post.wf(),
{
    assert forall|i: int, j: int| 0 <= i < j < post.queue@.len() implies timer_key_le(
        post.queue@[i],
        post.queue@[j],
    ) by {
        assert(post.queue@[i] == q0[i + moved] && post.queue@[j] == q0[j + moved]);
    }
    assert forall|i: int, j: int| 0 <= i < j < post.queue@.len() implies post.queue@[i].id
        != post.queue@[j].id by {
        assert(post.queue@[i] == q0[i + moved] && post.queue@[j] == q0[j + moved]);
    }
    assert forall|i: int, j: int| 0 <= i < j < post.pending@.len() implies post.pending@[i].id
        != post.pending@[j].id by {
        if i < p0.len() && j >= p0.len() {
            assert(post.pending@[i] == p0[i]);
            assert(post.pending@[j] == q0[j - p0.len()]);
            if p0[i].id == q0[j - p0.len()].id {
                assert(timer_in(p0, p0[i].id));
                assert(timer_in(q0, p0[i].id));
            }
        } else if i >= p0.len() {
            assert(post.pending@[i] == q0[i - p0.len()]);
            assert(post.pending@[j] == q0[j - p0.len()]);
        } else {
            assert(post.pending@[i] == p0[i] && post.pending@[j] == p0[j]);
        }
    }
    assert forall|id: u64| !(#[trigger] timer_in(post.queue@, id) && timer_in(
        post.pending@,
        id,
    )) by {
        if timer_in(post.queue@, id) && timer_in(post.pending@, id) {
            let i = choose|i: int| 0 <= i < post.queue@.len() && post.queue@[i].id == id;
            assert(q0[i + moved].id == id);
            assert(timer_in(q0, id));
            let j = choose|j: int| 0 <= j < post.pending@.len() && post.pending@[j].id == id;
            if j < p0.len() {
                assert(p0[j].id == id);
                assert(timer_in(p0, id));
            } else {
                assert(q0[j - p0.len()].id == id);
            }
        }
    }
    assert forall|i: int| 0 <= i < post.queue@.len() implies (#[trigger] post.queue@[i]).id
        < post.next_timer_id by {
        assert(post.queue@[i] == q0[i + moved]);
    }
    assert forall|i: int| 0 <= i < post.pending@.len() implies (#[trigger] post.pending@[i]).id
        < post.next_timer_id by {
        if i >= p0.len() {
            assert(post.pending@[i] == q0[i - p0.len()]);
        }
    }
    assert forall|i: int| 0 <= i < post.pending@.len() implies (#[trigger] post.pending@[i]).expires_at
        <= post.tick_count by {
        if i >= p0.len() {
            assert(post.pending@[i] == q0[i - p0.len()]);
        }
    }
}

/// An armed timer whose expiry has been reached moves to the pending queue
/// in the expired prefix, exactly once: it lies in the moved prefix and no
/// timer with its identifier stays armed. Together with the uniqueness of
/// identifiers in the pending queue, one registration gives one firing.
pub proof fn lemma_timer_fires_exactly_once(q: Seq<Timer>, k: int, now: u64, i: int)
    requires
        timers_sorted(q),
        uniq_timer_ids(q),
        0 <= k <= q.len(),
        forall|j: int| 0 <= j < k ==> (#[trigger] q[j]).expires_at <= now,
        k < q.len() ==> q[k].expires_at > now,
        0 <= i < q.len(),
        q[i].expires_at <= now,
    ensures
        timer_in(q.take(k), q[i].id),
        !timer_in(q.skip(k), q[i].id),
{
    if i >= k {
        assert(timer_key_le(q[k], q[i]) || i == k);
        assert(false);
    }
    assert(q.take(k)[i] == q[i]);
    if timer_in(q.skip(k), q[i].id) {
        let j = choose|j: int| 0 <= j < q.skip(k).len() && q.skip(k)[j].id == q[i].id;
        assert(q[j + k].id == q[i].id);
    }
}

} // verus!
