//! The multi-class scheduler: three run queues with strict priority
//! (Realtime over Normal over Idle), a CFS-style Normal class ordered by
//! virtual runtime, the blocked-task map, and the lost-wakeup guard.

use super::task::{SchedulingClass, Task, TaskError, TaskId, TaskState};
use crate::timer::{timer_in, TimerAction, TimerSystem};
use vstd::prelude::*;

verus! {

/// Largest runtime the tick accounting will accumulate before saturating;
/// chosen so that the weighted vruntime product cannot overflow.
pub const ACCUMULATED_RUNTIME_MAX: u64 = 0x003F_FFFF_FFFF_FFFF;

/// No two tasks of the sequence share an identifier.
pub open spec fn uniq_ids(s: Seq<Task>) -> bool {
    forall|i: int, j: int| 0 <= i < j < s.len() ==> s[i].id.id != s[j].id.id
}

/// Some task of the sequence has the identifier.
pub open spec fn in_seq(s: Seq<Task>, id: u64) -> bool {
    exists|i: int| 0 <= i < s.len() && s[i].id.id == id
}

/// The sequence holds this very task.
pub open spec fn task_in(s: Seq<Task>, t: Task) -> bool {
    exists|i: int| 0 <= i < s.len() && s[i] == t
}

/// No task of `a` shares an identifier with one of `b`.
pub open spec fn disjoint_ids(a: Seq<Task>, b: Seq<Task>) -> bool {
    forall|id: u64| !(#[trigger] in_seq(a, id) && in_seq(b, id))
}

/// Every task of the sequence has the given class and state.
pub open spec fn all_class_state(s: Seq<Task>, class: SchedulingClass, state: TaskState) -> bool {
    forall|i: int|
        0 <= i < s.len() ==> (#[trigger] s[i]).sched_class == class && s[i].state == state
}

/// Every identifier of the sequence is below `bound`.
pub open spec fn ids_below(s: Seq<Task>, bound: u64) -> bool {
    forall|i: int| 0 <= i < s.len() ==> (#[trigger] s[i]).id.id < bound
}

/// The Realtime queue order: `a` runs no later than `b` when its priority is
/// higher, or equal with the smaller identifier.
pub open spec fn rt_key_le(a: Task, b: Task) -> bool {
    a.rt_priority > b.rt_priority || (a.rt_priority == b.rt_priority && a.id.id <= b.id.id)
}

/// The Normal (CFS) queue order: `a` runs no later than `b` when its
/// vruntime is smaller, or equal with the smaller identifier.
pub open spec fn cfs_key_le(a: Task, b: Task) -> bool {
    a.vruntime < b.vruntime || (a.vruntime == b.vruntime && a.id.id <= b.id.id)
}

/// How the outgoing current task looks after a reschedule: its vruntime
/// charged with the accumulated runtime (Normal class only, and at least one
/// unit so equal-vruntime tasks rotate), and `Running` demoted to `Ready`.
pub open spec fn disposed_current(o: Task, accumulated: u64) -> Task {
    let delta: u64 = if accumulated > 0 {
        accumulated
    } else {
        1
    };
    let v: int = if o.sched_class == SchedulingClass::Normal {
        if o.vruntime + Task::vruntime_increment(delta, o.weight) <= u64::MAX {
            o.vruntime + Task::vruntime_increment(delta, o.weight)
        } else {
            u64::MAX as int
        }
    } else {
        o.vruntime as int
    };
    let st = if o.state == TaskState::Running {
        TaskState::Ready
    } else {
        o.state
    };
    Task { vruntime: v as u64, state: st, ..o }
}

/// Which task a reschedule picks from `pre`: the best of the highest
/// non-empty class, set Running.
pub open spec fn picked_next(pre: Scheduler, c: Task) -> bool {
    if pre.rt_queue@.len() > 0 {
        &&& c.sched_class == SchedulingClass::Realtime
        &&& exists|i: int|
            0 <= i < pre.rt_queue@.len() && c == (Task {
                state: TaskState::Running,
                ..#[trigger] pre.rt_queue@[i]
            })
        &&& forall|j: int| 0 <= j < pre.rt_queue@.len() ==> rt_key_le(c, pre.rt_queue@[j])
    } else if pre.cfs_queue@.len() > 0 {
        &&& c.sched_class == SchedulingClass::Normal
        &&& exists|i: int|
            0 <= i < pre.cfs_queue@.len() && c == (Task {
                state: TaskState::Running,
                ..#[trigger] pre.cfs_queue@[i]
            })
        &&& forall|j: int| 0 <= j < pre.cfs_queue@.len() ==> cfs_key_le(c, pre.cfs_queue@[j])
    } else if pre.idle_queue@.len() > 0 {
        c == (Task { state: TaskState::Running, ..pre.idle_queue@[0] })
    } else {
        false
    }
}

/// The effect of one reschedule: nothing changes when no queue holds a task;
/// otherwise the pick follows strict class priority, the outgoing task is
/// charged its runtime and moved where its state says, a Terminated outgoing
/// task is dropped and every other task is kept, and afterwards no queued
/// task (the just-descheduled one excepted) outranks the running one.
pub open spec fn schedule_rel(pre: Scheduler, post: Scheduler) -> bool {
    if !pre.has_runnable() {
        post == pre
    } else {
        &&& post.current matches Some(c) && picked_next(pre, c)
        &&& post.accumulated_runtime == 0
        &&& post.need_resched == pre.need_resched
        &&& post.wakeup_pending == pre.wakeup_pending
        &&& post.next_task_id == pre.next_task_id
        &&& match pre.current {
            Some(o) => {
                let o2 = disposed_current(o, pre.accumulated_runtime);
                &&& (o.state == TaskState::Blocked ==> post.blocked_tasks@ == pre.blocked_tasks@.push(
                    o2,
                ))
                &&& (o.state != TaskState::Blocked ==> post.blocked_tasks@ == pre.blocked_tasks@)
                &&& (o.state == TaskState::Running ==> task_in(
                    post.queue_of_class(o.sched_class),
                    o2,
                ))
                &&& (o.state == TaskState::Terminated ==> !post.contains_id(o.id.id))
            },
            None => post.blocked_tasks@ == pre.blocked_tasks@,
        }
        &&& forall|id: u64|
            post.contains_id(id) == (pre.contains_id(id) && !(pre.current matches Some(o)
                && o.state == TaskState::Terminated && o.id.id == id))
        &&& forall|i: int|
            0 <= i < post.queued().len() && (match pre.current {
                Some(o) => (#[trigger] post.queued()[i]).id.id != o.id.id,
                None => true,
            }) ==> (post.current->0).sched_class.rank() >= post.queued()[i].sched_class.rank()
    }
}

/// Some entry of the identifier list equals `id`.
pub open spec fn id_in_ids(s: Seq<u64>, id: u64) -> bool {
    exists|i: int| 0 <= i < s.len() && s[i] == id
}

/// `pre` with its running task marked Blocked.
pub open spec fn with_current_blocked(pre: Scheduler) -> Scheduler {
    Scheduler {
        current: Some(Task { state: TaskState::Blocked, ..pre.current->0 }),
        ..pre
    }
}

/// The effect of blocking the running task: when its wake-up already
/// arrived, only that pending wake-up is consumed and the task keeps
/// running; otherwise the task is marked Blocked and a reschedule moves it
/// to the blocked map.
pub open spec fn block_rel(pre: Scheduler, post: Scheduler) -> bool {
    match pre.current {
        Some(c) => {
            if id_in_ids(pre.wakeup_pending@, c.id.id) {
                &&& exists|i: int|
                    0 <= i < pre.wakeup_pending@.len() && pre.wakeup_pending@[i] == c.id.id
                        && post.wakeup_pending@ == pre.wakeup_pending@.remove(i)
                &&& post == (Scheduler { wakeup_pending: post.wakeup_pending, ..pre })
            } else {
                schedule_rel(with_current_blocked(pre), post)
            }
        },
        None => post == pre,
    }
}

/// The effect of a wake-up: a blocked task returns Ready to its class's run
/// queue; an unknown identifier is recorded in the lost-wakeup guard.
pub open spec fn unblock_rel(pre: Scheduler, post: Scheduler, id: u64) -> bool {
    if in_seq(pre.blocked_tasks@, id) {
        &&& exists|i: int|
            {
                &&& 0 <= i < pre.blocked_tasks@.len()
                &&& (#[trigger] pre.blocked_tasks@[i]).id.id == id
                &&& post.blocked_tasks@ == pre.blocked_tasks@.remove(i)
                &&& task_in(
                    post.queue_of_class(pre.blocked_tasks@[i].sched_class),
                    Task { state: TaskState::Ready, ..pre.blocked_tasks@[i] },
                )
            }
        &&& post.current == pre.current
        &&& post.wakeup_pending == pre.wakeup_pending
        &&& post.need_resched == pre.need_resched
        &&& post.accumulated_runtime == pre.accumulated_runtime
        &&& post.next_task_id == pre.next_task_id
        &&& forall|id2: u64| post.contains_id(id2) == pre.contains_id(id2)
    } else {
        &&& post.wakeup_pending@ == if id_in_ids(pre.wakeup_pending@, id) {
            pre.wakeup_pending@
        } else {
            pre.wakeup_pending@.push(id)
        }
        &&& post == (Scheduler { wakeup_pending: post.wakeup_pending, ..pre })
    }
}

/// Appending a task makes exactly its identifier newly present.
proof fn lemma_in_seq_push(s: Seq<Task>, t: Task)
    ensures
        forall|id: u64| in_seq(s.push(t), id) == (in_seq(s, id) || id == t.id.id),
{
    assert forall|id: u64| in_seq(s.push(t), id) == (in_seq(s, id) || id == t.id.id) by {
        if in_seq(s.push(t), id) {
            let i = choose|i: int| 0 <= i < s.push(t).len() && s.push(t)[i].id.id == id;
            if i < s.len() {
                assert(s[i].id.id == id);
            }
        }
        if in_seq(s, id) {
            let i = choose|i: int| 0 <= i < s.len() && s[i].id.id == id;
            assert(s.push(t)[i].id.id == id);
        }
        if id == t.id.id {
            assert(s.push(t)[s.len() as int].id.id == id);
        }
    }
}

/// Appending a task whose identifier is absent from `b` keeps `a` and `b`
/// disjoint.
proof fn lemma_disjoint_push(a: Seq<Task>, t: Task, b: Seq<Task>)
    requires
        disjoint_ids(a, b),
        !in_seq(b, t.id.id),
    ensures
        disjoint_ids(a.push(t), b),
        disjoint_ids(b, a.push(t)),
{
    lemma_in_seq_push(a, t);
    assert forall|id: u64| !(#[trigger] in_seq(a.push(t), id) && in_seq(b, id)) by {
        if in_seq(a.push(t), id) && in_seq(b, id) {
            assert(in_seq(a, id) || id == t.id.id);
            assert(in_seq(a, id) ==> !in_seq(b, id));
        }
    }
    assert forall|id: u64| !(#[trigger] in_seq(b, id) && in_seq(a.push(t), id)) by {
        assert(in_seq(a.push(t), id) ==> in_seq(a, id) || id == t.id.id);
    }
}

/// Appending a task with a fresh identifier keeps identifiers unique.
proof fn lemma_uniq_push(s: Seq<Task>, t: Task)
    requires
        uniq_ids(s),
        !in_seq(s, t.id.id),
    ensures
        uniq_ids(s.push(t)),
{
    assert forall|i: int, j: int| 0 <= i < j < s.push(t).len() implies s.push(t)[i].id.id != s.push(
        t,
    )[j].id.id by {
        if j == s.len() {
            if s[i].id.id == t.id.id {
                assert(in_seq(s, t.id.id));
            }
        }
    }
}

/// Removing a task keeps two sequences disjoint.
proof fn lemma_disjoint_remove(a: Seq<Task>, i: int, b: Seq<Task>)
    requires
        0 <= i < a.len(),
        disjoint_ids(a, b),
    ensures
        disjoint_ids(a.remove(i), b),
        disjoint_ids(b, a.remove(i)),
{
    lemma_in_seq_remove(a, i);
    assert forall|id: u64| !(#[trigger] in_seq(a.remove(i), id) && in_seq(b, id)) by {
        if in_seq(a.remove(i), id) {
            assert(in_seq(a, id));
        }
    }
    assert forall|id: u64| !(#[trigger] in_seq(b, id) && in_seq(a.remove(i), id)) by {
        if in_seq(a.remove(i), id) {
            assert(in_seq(a, id));
        }
    }
}

/// Removing a task at an index keeps identifiers unique and introduces none.
proof fn lemma_in_seq_remove(s: Seq<Task>, i: int)
    requires
        0 <= i < s.len(),
    ensures
        forall|id: u64| in_seq(s.remove(i), id) ==> in_seq(s, id),
        uniq_ids(s) ==> uniq_ids(s.remove(i)),
        uniq_ids(s) ==> !in_seq(s.remove(i), s[i].id.id),
        forall|id: u64| in_seq(s, id) && id != s[i].id.id ==> in_seq(s.remove(i), id),
        forall|j: int| 0 <= j < i ==> s.remove(i)[j] == s[j],
        forall|j: int| i <= j < s.len() - 1 ==> s.remove(i)[j] == s[j + 1],
{
    assert forall|id: u64| in_seq(s.remove(i), id) implies in_seq(s, id) by {
        let j = choose|j: int| 0 <= j < s.remove(i).len() && s.remove(i)[j].id.id == id;
        if j < i {
            assert(s[j].id.id == id);
        } else {
            assert(s[j + 1].id.id == id);
        }
    }
    if uniq_ids(s) {
        assert forall|id: u64| !(in_seq(s.remove(i), id) && id == s[i].id.id) by {
            if in_seq(s.remove(i), id) && id == s[i].id.id {
                let j = choose|j: int| 0 <= j < s.remove(i).len() && s.remove(i)[j].id.id == id;
                if j < i {
                    assert(s[j].id.id == s[i].id.id);
                } else {
                    assert(s[j + 1].id.id == s[i].id.id);
                }
            }
        }
    }
    assert forall|id: u64| in_seq(s, id) && id != s[i].id.id implies in_seq(s.remove(i), id) by {
        let j = choose|j: int| 0 <= j < s.len() && s[j].id.id == id;
        if j < i {
            assert(s.remove(i)[j].id.id == id);
        } else {
            assert(s.remove(i)[j - 1].id.id == id);
        }
    }
}

/// The scheduler state: the three run queues, the blocked map, the running
/// task, and the tick-accounting and wake-up bookkeeping.
pub struct Scheduler {
    /// Realtime tasks, Ready, highest priority first on pick.
    pub rt_queue: Vec<Task>,
    /// Normal tasks, Ready, smallest vruntime first on pick.
    pub cfs_queue: Vec<Task>,
    /// Idle tasks, Ready, picked first-in first-out.
    pub idle_queue: Vec<Task>,
    /// Blocked tasks, keyed by identifier.
    pub blocked_tasks: Vec<Task>,
    /// The task holding the CPU.
    pub current: Option<Task>,
    /// Identifiers whose wake-up arrived before the task committed to
    /// blocking (the lost-wakeup guard).
    pub wakeup_pending: Vec<u64>,
    /// Set by the tick interrupt; a reschedule runs on interrupt exit.
    pub need_resched: bool,
    /// Nanoseconds of runtime accumulated since the last reschedule.
    pub accumulated_runtime: u64,
    /// The next task identifier to hand out.
    pub next_task_id: u64,
}

impl Scheduler {
    /// The identifier of the current task, if any.
    pub open spec fn current_id(self) -> Option<u64> {
        match self.current {
            Some(t) => Some(t.id.id),
            None => None,
        }
    }

    /// Whether any container of the scheduler holds a task with this
    /// identifier.
    pub open spec fn contains_id(self, id: u64) -> bool {
        ||| in_seq(self.rt_queue@, id)
        ||| in_seq(self.cfs_queue@, id)
        ||| in_seq(self.idle_queue@, id)
        ||| in_seq(self.blocked_tasks@, id)
        ||| self.current_id() == Some(id)
    }

    /// Whether any run queue holds a task (the scheduler has something to
    /// switch to).
    pub open spec fn has_runnable(self) -> bool {
        self.rt_queue@.len() > 0 || self.cfs_queue@.len() > 0 || self.idle_queue@.len() > 0
    }

    /// Structural invariant: each container holds only tasks of its class
    /// and state, no identifier appears twice anywhere, and all identifiers
    /// are below the allocation counter.
    pub open spec fn wf(self) -> bool {
        &&& uniq_ids(self.rt_queue@)
        &&& uniq_ids(self.cfs_queue@)
        &&& uniq_ids(self.idle_queue@)
        &&& uniq_ids(self.blocked_tasks@)
        &&& disjoint_ids(self.rt_queue@, self.cfs_queue@)
        &&& disjoint_ids(self.rt_queue@, self.idle_queue@)
        &&& disjoint_ids(self.rt_queue@, self.blocked_tasks@)
        &&& disjoint_ids(self.cfs_queue@, self.idle_queue@)
        &&& disjoint_ids(self.cfs_queue@, self.blocked_tasks@)
        &&& disjoint_ids(self.idle_queue@, self.blocked_tasks@)
        &&& all_class_state(self.rt_queue@, SchedulingClass::Realtime, TaskState::Ready)
        &&& all_class_state(self.cfs_queue@, SchedulingClass::Normal, TaskState::Ready)
        &&& all_class_state(self.idle_queue@, SchedulingClass::Idle, TaskState::Ready)
        &&& forall|i: int|
            0 <= i < self.blocked_tasks@.len() ==> (#[trigger] self.blocked_tasks@[i]).state
                == TaskState::Blocked
        &&& ids_below(self.rt_queue@, self.next_task_id)
        &&& ids_below(self.cfs_queue@, self.next_task_id)
        &&& ids_below(self.idle_queue@, self.next_task_id)
        &&& ids_below(self.blocked_tasks@, self.next_task_id)
        &&& match self.current {
            Some(c) => {
                &&& c.state != TaskState::Ready
                &&& c.id.id < self.next_task_id
                &&& !in_seq(self.rt_queue@, c.id.id)
                &&& !in_seq(self.cfs_queue@, c.id.id)
                &&& !in_seq(self.idle_queue@, c.id.id)
                &&& !in_seq(self.blocked_tasks@, c.id.id)
            },
            None => true,
        }
        &&& self.accumulated_runtime <= ACCUMULATED_RUNTIME_MAX
    }

    /// A task is in at most one place: whichever container holds its
    /// identifier, no other does. Together with the drop of Terminated tasks
    /// on reschedule, every task is exactly one of: current, in one run
    /// queue, blocked, or dropped.
    pub proof fn lemma_task_in_one_place(self, id: u64)
        requires
            self.wf(),
        ensures
            in_seq(self.rt_queue@, id) ==> !in_seq(self.cfs_queue@, id) && !in_seq(
                self.idle_queue@,
                id,
            ) && !in_seq(self.blocked_tasks@, id) && self.current_id() != Some(id),
            in_seq(self.cfs_queue@, id) ==> !in_seq(self.rt_queue@, id) && !in_seq(
                self.idle_queue@,
                id,
            ) && !in_seq(self.blocked_tasks@, id) && self.current_id() != Some(id),
            in_seq(self.idle_queue@, id) ==> !in_seq(self.rt_queue@, id) && !in_seq(
                self.cfs_queue@,
                id,
            ) && !in_seq(self.blocked_tasks@, id) && self.current_id() != Some(id),
            in_seq(self.blocked_tasks@, id) ==> !in_seq(self.rt_queue@, id) && !in_seq(
                self.cfs_queue@,
                id,
            ) && !in_seq(self.idle_queue@, id) && self.current_id() != Some(id),
            self.current_id() == Some(id) ==> !in_seq(self.rt_queue@, id) && !in_seq(
                self.cfs_queue@,
                id,
            ) && !in_seq(self.idle_queue@, id) && !in_seq(self.blocked_tasks@, id),
    {
    }

    /// Hand out a fresh task identifier: one that no task of the scheduler
    /// carries.
    pub fn allocate_task_id(&mut self) -> (r: TaskId)
        requires
            old(self).wf(),
            old(self).next_task_id < u64::MAX,
        ensures
            final (self).wf(),
            r.id == old(self).next_task_id,
            !old(self).contains_id(r.id),
            !final (self).contains_id(r.id),
            *final (self) == (Scheduler { next_task_id: final (self).next_task_id, ..*old(self) }),
            final (self).next_task_id == old(self).next_task_id + 1,
    {
        let id = TaskId::new(self.next_task_id);
        self.next_task_id = self.next_task_id + 1;
        id
    }

    /// Put a Ready task on the run queue of its class.
    fn enqueue_task(&mut self, task: Task)
        requires
            old(self).wf(),
            task.state == TaskState::Ready,
            !old(self).contains_id(task.id.id),
            task.id.id < old(self).next_task_id,
        ensures
            final (self).wf(),
            task.sched_class == SchedulingClass::Realtime ==> *final (self) == (Scheduler {
                rt_queue: final (self).rt_queue,
                ..*old(self)
            }) && final (self).rt_queue@ == old(self).rt_queue@.push(task),
            task.sched_class == SchedulingClass::Normal ==> *final (self) == (Scheduler {
                cfs_queue: final (self).cfs_queue,
                ..*old(self)
            }) && final (self).cfs_queue@ == old(self).cfs_queue@.push(task),
            task.sched_class == SchedulingClass::Idle ==> *final (self) == (Scheduler {
                idle_queue: final (self).idle_queue,
                ..*old(self)
            }) && final (self).idle_queue@ == old(self).idle_queue@.push(task),
            final (self).contains_id(task.id.id),
            forall|id: u64|
                final (self).contains_id(id) == (old(self).contains_id(id) || id == task.id.id),
    {
        match task.sched_class() {
            SchedulingClass::Realtime => {
                proof {
                    lemma_in_seq_push(self.rt_queue@, task);
                    lemma_uniq_push(self.rt_queue@, task);
                    lemma_disjoint_push(self.rt_queue@, task, self.cfs_queue@);
                    lemma_disjoint_push(self.rt_queue@, task, self.idle_queue@);
                    lemma_disjoint_push(self.rt_queue@, task, self.blocked_tasks@);
                }
                self.rt_queue.push(task);
            },
            SchedulingClass::Normal => {
                proof {
                    lemma_in_seq_push(self.cfs_queue@, task);
                    lemma_uniq_push(self.cfs_queue@, task);
                    lemma_disjoint_push(self.cfs_queue@, task, self.rt_queue@);
                    lemma_disjoint_push(self.cfs_queue@, task, self.idle_queue@);
                    lemma_disjoint_push(self.cfs_queue@, task, self.blocked_tasks@);
                }
                self.cfs_queue.push(task);
            },
            SchedulingClass::Idle => {
                proof {
                    lemma_in_seq_push(self.idle_queue@, task);
                    lemma_uniq_push(self.idle_queue@, task);
                    lemma_disjoint_push(self.idle_queue@, task, self.rt_queue@);
                    lemma_disjoint_push(self.idle_queue@, task, self.cfs_queue@);
                    lemma_disjoint_push(self.idle_queue@, task, self.blocked_tasks@);
                }
                self.idle_queue.push(task);
            },
        }
    }

    /// Add a new task to the run queue of its scheduling class.
    ///
    /// Always succeeds: the queues grow on demand, so `QueueFull` cannot
    /// arise.
    pub fn try_add_task(&mut self, task: Task) -> (r: Result<(), TaskError>)
        requires
            old(self).wf(),
            task.state == TaskState::Ready,
            !old(self).contains_id(task.id.id),
            task.id.id < old(self).next_task_id,
        ensures
            r == Ok::<(), TaskError>(()),
            final (self).wf(),
            final (self).contains_id(task.id.id),
            forall|id: u64|
                final (self).contains_id(id) == (old(self).contains_id(id) || id == task.id.id),
            final (self).current == old(self).current,
            final (self).blocked_tasks == old(self).blocked_tasks,
            task.sched_class == SchedulingClass::Realtime ==> final (self).rt_queue@ == old(
                self,
            ).rt_queue@.push(task),
            task.sched_class == SchedulingClass::Normal ==> final (self).cfs_queue@ == old(
                self,
            ).cfs_queue@.push(task),
            task.sched_class == SchedulingClass::Idle ==> final (self).idle_queue@ == old(
                self,
            ).idle_queue@.push(task),
    {
        self.enqueue_task(task);
        Ok(())
    }

    /// Add a new task to the run queue of its scheduling class.
    pub fn add_task(&mut self, task: Task)
        requires
            old(self).wf(),
            task.state == TaskState::Ready,
            !old(self).contains_id(task.id.id),
            task.id.id < old(self).next_task_id,
        ensures
            final (self).wf(),
            final (self).contains_id(task.id.id),
            forall|id: u64|
                final (self).contains_id(id) == (old(self).contains_id(id) || id == task.id.id),
    {
        let _ = self.try_add_task(task);
    }

    /// Install the boot task as the running task. Used once at
    /// initialisation, before the first reschedule.
    pub fn set_current_task(&mut self, task: Task)
        requires
            old(self).wf(),
            old(self).current is None,
            !old(self).contains_id(task.id.id),
            task.id.id < old(self).next_task_id,
        ensures
            final (self).wf(),
            final (self).current == Some(Task { state: TaskState::Running, ..task }),
            *final (self) == (Scheduler { current: final (self).current, ..*old(self) }),
    {
        let mut t = task;
        t.set_state(TaskState::Running);
        self.current = Some(t);
    }

    /// Charge runtime to the running task; the amount is folded into its
    /// vruntime at the next reschedule. Saturates at the accounting cap.
    pub fn update_current_task_vruntime(&mut self, delta: u64)
        requires
            old(self).wf(),
        ensures
            final (self).wf(),
            final (self).accumulated_runtime == if old(self).accumulated_runtime + delta
                <= ACCUMULATED_RUNTIME_MAX {
                old(self).accumulated_runtime + delta
            } else {
                ACCUMULATED_RUNTIME_MAX as int
            },
            *final (self) == (Scheduler {
                accumulated_runtime: final (self).accumulated_runtime,
                ..*old(self)
            }),
    {
        if delta <= ACCUMULATED_RUNTIME_MAX - self.accumulated_runtime {
            self.accumulated_runtime = self.accumulated_runtime + delta;
        } else {
            self.accumulated_runtime = ACCUMULATED_RUNTIME_MAX;
        }
    }

    /// Note that a reschedule is wanted at the next opportunity.
    pub fn set_need_resched(&mut self)
        requires
            old(self).wf(),
        ensures
            final (self).wf(),
            *final (self) == (Scheduler { need_resched: true, ..*old(self) }),
    {
        self.need_resched = true;
    }

    /// Remove and return the best Realtime task: highest priority, smallest
    /// identifier among equals.
    fn take_rt_best(&mut self) -> (r: Option<Task>)
        requires
            old(self).wf(),
        ensures
            final (self).wf(),
            r is None ==> old(self).rt_queue@.len() == 0 && *final (self) == *old(self),
            r matches Some(t) ==> {
                &&& old(self).rt_queue@.len() > 0
                &&& task_in(old(self).rt_queue@, t)
                &&& forall|j: int| 0 <= j < old(self).rt_queue@.len() ==> rt_key_le(t, old(self).rt_queue@[j])
                &&& *final (self) == (Scheduler { rt_queue: final (self).rt_queue, ..*old(self) })
                &&& !final (self).contains_id(t.id.id)
                &&& forall|id: u64|
                    old(self).contains_id(id) == (final (self).contains_id(id) || id == t.id.id)
                &&& forall|id: u64|
                    in_seq(old(self).rt_queue@, id) && id != t.id.id ==> in_seq(
                        final (self).rt_queue@,
                        id,
                    )
                &&& forall|j: int|
                    0 <= j < final (self).rt_queue@.len() ==> task_in(
                        old(self).rt_queue@,
                        final (self).rt_queue@[j],
                    )
            },
    {
        if self.rt_queue.len() == 0 {
            return None;
        }
        let mut best: usize = 0;
        let mut i: usize = 1;
        while i < self.rt_queue.len()
            invariant
                self.rt_queue@.len() > 0,
                best < i,
                i <= self.rt_queue@.len(),
                forall|j: int| 0 <= j < i ==> rt_key_le(self.rt_queue@[best as int], self.rt_queue@[j]),
            decreases self.rt_queue@.len() - i,
        {
            let c = &self.rt_queue[i];
            let b = &self.rt_queue[best];
            if c.rt_priority > b.rt_priority || (c.rt_priority == b.rt_priority && c.id.id
                < b.id.id) {
                best = i;
            }
            i = i + 1;
        }
        proof {
            lemma_in_seq_remove(self.rt_queue@, best as int);
            lemma_disjoint_remove(self.rt_queue@, best as int, self.cfs_queue@);
            lemma_disjoint_remove(self.rt_queue@, best as int, self.idle_queue@);
            lemma_disjoint_remove(self.rt_queue@, best as int, self.blocked_tasks@);
            assert(in_seq(self.rt_queue@, self.rt_queue@[best as int].id.id));
        }
        let t = self.rt_queue.remove(best);
        proof {
            assert forall|j: int|
                0 <= j < self.rt_queue@.len() implies task_in(
                old(self).rt_queue@,
                self.rt_queue@[j],
            ) by {
                if j < best {
                    assert(old(self).rt_queue@[j] == self.rt_queue@[j]);
                } else {
                    assert(old(self).rt_queue@[j + 1] == self.rt_queue@[j]);
                }
            }
            assert(task_in(old(self).rt_queue@, t));
        }
        Some(t)
    }

    /// Remove and return the Normal task with the smallest vruntime,
    /// smallest identifier among equals.
    fn take_cfs_min(&mut self) -> (r: Option<Task>)
        requires
            old(self).wf(),
        ensures
            final (self).wf(),
            r is None ==> old(self).cfs_queue@.len() == 0 && *final (self) == *old(self),
            r matches Some(t) ==> {
                &&& old(self).cfs_queue@.len() > 0
                &&& task_in(old(self).cfs_queue@, t)
                &&& forall|j: int|
                    0 <= j < old(self).cfs_queue@.len() ==> cfs_key_le(t, old(self).cfs_queue@[j])
                &&& *final (self) == (Scheduler { cfs_queue: final (self).cfs_queue, ..*old(self) })
                &&& !final (self).contains_id(t.id.id)
                &&& forall|id: u64|
                    old(self).contains_id(id) == (final (self).contains_id(id) || id == t.id.id)
                &&& forall|id: u64|
                    in_seq(old(self).cfs_queue@, id) && id != t.id.id ==> in_seq(
                        final (self).cfs_queue@,
                        id,
                    )
                &&& forall|j: int|
                    0 <= j < final (self).cfs_queue@.len() ==> task_in(
                        old(self).cfs_queue@,
                        final (self).cfs_queue@[j],
                    )
            },
    {
        if self.cfs_queue.len() == 0 {
            return None;
        }
        let mut best: usize = 0;
        let mut i: usize = 1;
        while i < self.cfs_queue.len()
            invariant
                self.cfs_queue@.len() > 0,
                best < i,
                i <= self.cfs_queue@.len(),
                forall|j: int|
                    0 <= j < i ==> cfs_key_le(self.cfs_queue@[best as int], self.cfs_queue@[j]),
            decreases self.cfs_queue@.len() - i,
        {
            let c = &self.cfs_queue[i];
            let b = &self.cfs_queue[best];
            if c.vruntime < b.vruntime || (c.vruntime == b.vruntime && c.id.id < b.id.id) {
                best = i;
            }
            i = i + 1;
        }
        proof {
            lemma_in_seq_remove(self.cfs_queue@, best as int);
            lemma_disjoint_remove(self.cfs_queue@, best as int, self.rt_queue@);
            lemma_disjoint_remove(self.cfs_queue@, best as int, self.idle_queue@);
            lemma_disjoint_remove(self.cfs_queue@, best as int, self.blocked_tasks@);
            assert(in_seq(self.cfs_queue@, self.cfs_queue@[best as int].id.id));
        }
        let t = self.cfs_queue.remove(best);
        proof {
            assert forall|j: int|
                0 <= j < self.cfs_queue@.len() implies task_in(
                old(self).cfs_queue@,
                self.cfs_queue@[j],
            ) by {
                if j < best {
                    assert(old(self).cfs_queue@[j] == self.cfs_queue@[j]);
                } else {
                    assert(old(self).cfs_queue@[j + 1] == self.cfs_queue@[j]);
                }
            }
            assert(task_in(old(self).cfs_queue@, t));
        }
        Some(t)
    }

    /// Remove and return the Idle task that has waited longest.
    fn take_idle_front(&mut self) -> (r: Option<Task>)
        requires
            old(self).wf(),
        ensures
            final (self).wf(),
            r is None ==> old(self).idle_queue@.len() == 0 && *final (self) == *old(self),
            r matches Some(t) ==> {
                &&& old(self).idle_queue@.len() > 0
                &&& t == old(self).idle_queue@[0]
                &&& *final (self) == (Scheduler {
                    idle_queue: final (self).idle_queue,
                    ..*old(self)
                })
                &&& !final (self).contains_id(t.id.id)
                &&& forall|id: u64|
                    old(self).contains_id(id) == (final (self).contains_id(id) || id == t.id.id)
                &&& forall|j: int|
                    0 <= j < final (self).idle_queue@.len() ==> task_in(
                        old(self).idle_queue@,
                        final (self).idle_queue@[j],
                    )
            },
    {
        if self.idle_queue.len() == 0 {
            return None;
        }
        proof {
            lemma_in_seq_remove(self.idle_queue@, 0);
            lemma_disjoint_remove(self.idle_queue@, 0, self.rt_queue@);
            lemma_disjoint_remove(self.idle_queue@, 0, self.cfs_queue@);
            lemma_disjoint_remove(self.idle_queue@, 0, self.blocked_tasks@);
            assert(in_seq(self.idle_queue@, self.idle_queue@[0].id.id));
        }
        let t = self.idle_queue.remove(0);
        proof {
            assert forall|j: int|
                0 <= j < self.idle_queue@.len() implies task_in(
                old(self).idle_queue@,
                self.idle_queue@[j],
            ) by {
                assert(old(self).idle_queue@[j + 1] == self.idle_queue@[j]);
            }
        }
        Some(t)
    }

    /// The runnable tasks: the three run queues in priority order.
    pub open spec fn queued(self) -> Seq<Task> {
        self.rt_queue@ + self.cfs_queue@ + self.idle_queue@
    }

    /// The run queue a task of the given class waits on.
    pub open spec fn queue_of_class(self, class: SchedulingClass) -> Seq<Task> {
        match class {
            SchedulingClass::Realtime => self.rt_queue@,
            SchedulingClass::Normal => self.cfs_queue@,
            SchedulingClass::Idle => self.idle_queue@,
        }
    }

    /// Pick the next task and switch to it.
    ///
    /// The pick follows strict class priority — Realtime before Normal
    /// before Idle — with the highest `rt_priority` first within Realtime
    /// and the smallest vruntime first within Normal (identifiers break
    /// ties). The outgoing task is charged the accumulated runtime and moved
    /// where its state says: a Ready task back to its class queue, a Blocked
    /// task to the blocked map, a Terminated task is dropped. When no queue
    /// holds a task, nothing changes.
    #[verifier::rlimit(100)]
    pub fn schedule(&mut self)
        requires
            old(self).wf(),
        ensures
            final (self).wf(),
            schedule_rel(*old(self), *final (self)),
    {
        let next0 = self.take_rt_best();
        let next1 = match next0 {
            Some(t) => Some(t),
            None => self.take_cfs_min(),
        };
        let next2 = match next1 {
            Some(t) => Some(t),
            None => self.take_idle_front(),
        };
        let mut next = match next2 {
            Some(t) => t,
            None => {
                return ;
            },
        };
        next.set_state(TaskState::Running);
        let ghost pre = *old(self);
        let ghost mid0 = *self;
        let ghost c = next;
        proof {
            assert(picked_next(pre, c)) by {
                if pre.rt_queue@.len() > 0 {
                    let j = choose|j: int|
                        0 <= j < pre.rt_queue@.len() && pre.rt_queue@[j] == next0->0;
                    assert(c == (Task { state: TaskState::Running, ..pre.rt_queue@[j] }));
                } else if pre.cfs_queue@.len() > 0 {
                    let j = choose|j: int|
                        0 <= j < pre.cfs_queue@.len() && pre.cfs_queue@[j] == next1->0;
                    assert(c == (Task { state: TaskState::Running, ..pre.cfs_queue@[j] }));
                }
            }
        }
        self.install_next(next);
        proof {
            Self::lemma_schedule_rel_glue(pre, mid0, *self, c);
        }
    }

    /// Phases two and three of a reschedule: install `next` as the running
    /// task, charge the outgoing task the accumulated runtime, and move it
    /// where its state says.
    #[verifier::rlimit(100)]
    fn install_next(&mut self, next: Task)
        requires
            old(self).wf(),
            next.state == TaskState::Running,
            !old(self).contains_id(next.id.id),
            next.id.id < old(self).next_task_id,
        ensures
            final (self).wf(),
            final (self).current == Some(next),
            final (self).accumulated_runtime == 0,
            final (self).need_resched == old(self).need_resched,
            final (self).wakeup_pending == old(self).wakeup_pending,
            final (self).next_task_id == old(self).next_task_id,
            match old(self).current {
                Some(o) => {
                    let o2 = disposed_current(o, old(self).accumulated_runtime);
                    &&& (o.state == TaskState::Blocked ==> final (self).blocked_tasks@ == old(
                        self,
                    ).blocked_tasks@.push(o2) && final (self).rt_queue == old(self).rt_queue
                        && final (self).cfs_queue == old(self).cfs_queue && final (self).idle_queue
                        == old(self).idle_queue)
                    &&& (o.state != TaskState::Blocked ==> final (self).blocked_tasks == old(
                        self,
                    ).blocked_tasks)
                    &&& (o.state == TaskState::Running ==> final (self).queue_of_class(
                        o.sched_class,
                    ) == old(self).queue_of_class(o.sched_class).push(o2) && forall|
                        cl: SchedulingClass,
                    |
                        cl != o.sched_class ==> final (self).queue_of_class(cl) == old(
                            self,
                        ).queue_of_class(cl))
                    &&& (o.state == TaskState::Terminated || o.state == TaskState::Blocked
                        ==> final (self).rt_queue == old(self).rt_queue && final (self).cfs_queue
                        == old(self).cfs_queue && final (self).idle_queue == old(self).idle_queue)
                    &&& forall|id: u64|
                        final (self).contains_id(id) == ((old(self).contains_id(id) || id
                            == next.id.id) && !(o.state == TaskState::Terminated && id == o.id.id))
                },
                None => {
                    &&& final (self).blocked_tasks == old(self).blocked_tasks
                    &&& final (self).rt_queue == old(self).rt_queue
                    &&& final (self).cfs_queue == old(self).cfs_queue
                    &&& final (self).idle_queue == old(self).idle_queue
                    &&& forall|id: u64|
                        final (self).contains_id(id) == (old(self).contains_id(id) || id
                            == next.id.id)
                },
            },
    {
        let ghost mid = *self;
        let accumulated = self.accumulated_runtime;
        self.accumulated_runtime = 0;
        let old_current = self.current.take();
        match old_current {
            Some(mut ot) => {
                let delta = if accumulated > 0 {
                    accumulated
                } else {
                    1
                };
                if ot.sched_class() == SchedulingClass::Normal {
                    ot.update_vruntime(delta);
                }
                if ot.state() == TaskState::Running {
                    ot.set_state(TaskState::Ready);
                }
                proof {
                    assert(ot == disposed_current(
                        old(self).current->0,
                        old(self).accumulated_runtime,
                    ));
                }
                self.current = Some(next);
                if ot.state() == TaskState::Terminated {
                    // Dropped: the task is gone for good.
                } else if ot.state() == TaskState::Blocked {
                    proof {
                        lemma_in_seq_push(self.blocked_tasks@, ot);
                        lemma_uniq_push(self.blocked_tasks@, ot);
                        lemma_disjoint_push(self.blocked_tasks@, ot, self.rt_queue@);
                        lemma_disjoint_push(self.blocked_tasks@, ot, self.cfs_queue@);
                        lemma_disjoint_push(self.blocked_tasks@, ot, self.idle_queue@);
                    }
                    self.blocked_tasks.push(ot);
                } else {
                    self.enqueue_task(ot);
                }
            },
            None => {
                self.current = Some(next);
            },
        }
    }

    /// Phase-two/three bookkeeping of [`Self::install_next`], summarised as
    /// the ensured facts of that call; `mid` is the state between the pick
    /// and the installation. Concludes the whole reschedule relation.
    #[verifier::rlimit(100)]
    proof fn lemma_schedule_rel_glue(pre: Scheduler, mid: Scheduler, post: Scheduler, c: Task)
        requires
            pre.wf(),
            mid.wf(),
            post.wf(),
            pre.has_runnable(),
            picked_next(pre, c),
            c.state == TaskState::Running,
            mid.current == pre.current,
            mid.blocked_tasks == pre.blocked_tasks,
            mid.wakeup_pending == pre.wakeup_pending,
            mid.need_resched == pre.need_resched,
            mid.accumulated_runtime == pre.accumulated_runtime,
            mid.next_task_id == pre.next_task_id,
            !mid.contains_id(c.id.id),
            forall|id: u64| pre.contains_id(id) == (mid.contains_id(id) || id == c.id.id),
            pre.rt_queue@.len() > 0 ==> mid.cfs_queue == pre.cfs_queue && mid.idle_queue
                == pre.idle_queue && forall|j: int|
                0 <= j < mid.rt_queue@.len() ==> task_in(
                    pre.rt_queue@,
                    #[trigger] mid.rt_queue@[j],
                ),
            pre.rt_queue@.len() == 0 && pre.cfs_queue@.len() > 0 ==> mid.rt_queue == pre.rt_queue
                && mid.idle_queue == pre.idle_queue && forall|j: int|
                0 <= j < mid.cfs_queue@.len() ==> task_in(
                    pre.cfs_queue@,
                    #[trigger] mid.cfs_queue@[j],
                ),
            pre.rt_queue@.len() == 0 && pre.cfs_queue@.len() == 0 ==> mid.rt_queue == pre.rt_queue
                && mid.cfs_queue == pre.cfs_queue && forall|j: int|
                0 <= j < mid.idle_queue@.len() ==> task_in(
                    pre.idle_queue@,
                    #[trigger] mid.idle_queue@[j],
                ),
            post.current == Some(c),
            post.accumulated_runtime == 0,
            post.need_resched == mid.need_resched,
            post.wakeup_pending == mid.wakeup_pending,
            post.next_task_id == mid.next_task_id,
            match mid.current {
                Some(o) => {
                    let o2 = disposed_current(o, mid.accumulated_runtime);
                    &&& (o.state == TaskState::Blocked ==> post.blocked_tasks@
                        == mid.blocked_tasks@.push(o2) && post.rt_queue == mid.rt_queue
                        && post.cfs_queue == mid.cfs_queue && post.idle_queue == mid.idle_queue)
                    &&& (o.state != TaskState::Blocked ==> post.blocked_tasks == mid.blocked_tasks)
                    &&& (o.state == TaskState::Running ==> post.queue_of_class(o.sched_class)
                        == mid.queue_of_class(o.sched_class).push(o2) && forall|
                        cl: SchedulingClass,
                    |
                        cl != o.sched_class ==> post.queue_of_class(cl) == mid.queue_of_class(cl))
                    &&& (o.state == TaskState::Terminated || o.state == TaskState::Blocked
                        ==> post.rt_queue == mid.rt_queue && post.cfs_queue == mid.cfs_queue
                        && post.idle_queue == mid.idle_queue)
                    &&& forall|id: u64|
                        post.contains_id(id) == ((mid.contains_id(id) || id == c.id.id) && !(
                        o.state == TaskState::Terminated && id == o.id.id))
                },
                None => {
                    &&& post.blocked_tasks == mid.blocked_tasks
                    &&& post.rt_queue == mid.rt_queue
                    &&& post.cfs_queue == mid.cfs_queue
                    &&& post.idle_queue == mid.idle_queue
                    &&& forall|id: u64|
                        post.contains_id(id) == (mid.contains_id(id) || id == c.id.id)
                },
            },
        ensures
            schedule_rel(pre, post),
    {
        // The outgoing task's identifier differs from the picked one.
        if pre.current is Some {
            let o = pre.current->0;
            assert(pre.contains_id(c.id.id));
            assert(o.id.id != c.id.id);
            let o2 = disposed_current(o, pre.accumulated_runtime);
            if o.state == TaskState::Running {
                assert(task_in(post.queue_of_class(o.sched_class), o2)) by {
                    let q = mid.queue_of_class(o.sched_class);
                    assert(post.queue_of_class(o.sched_class)[q.len() as int] == o2);
                }
            }
        }
        // Conservation of tasks, identifier by identifier.
        assert forall|id: u64|
            post.contains_id(id) == (pre.contains_id(id) && !(pre.current matches Some(o)
                && o.state == TaskState::Terminated && o.id.id == id)) by {}
        // Strict class priority among what stays queued.
        assert forall|i: int|
            0 <= i < post.queued().len() && (match pre.current {
                Some(o) => (#[trigger] post.queued()[i]).id.id != o.id.id,
                None => true,
            }) implies (post.current->0).sched_class.rank()
            >= post.queued()[i].sched_class.rank() by {
            let t = post.queued()[i];
            let rl = post.rt_queue@.len() as int;
            let cl = post.cfs_queue@.len() as int;
            if i < rl {
                assert(t == post.rt_queue@[i]);
            } else if i < rl + cl {
                assert(t == post.cfs_queue@[i - rl]);
            } else {
                assert(t == post.idle_queue@[i - rl - cl]);
            }
            if pre.rt_queue@.len() > 0 {
                assert(c.sched_class.rank() == 2);
            } else {
                // The higher queues were empty at the pick; anything found
                // there now is the just-descheduled task, which the
                // hypothesis excludes.
                if pre.cfs_queue@.len() > 0 {
                    if i < rl {
                        assert(false) by {
                            assert(mid.rt_queue@.len() == 0);
                            assert(mid.queue_of_class(SchedulingClass::Realtime)
                                == mid.rt_queue@);
                            assert(post.queue_of_class(SchedulingClass::Realtime)
                                == post.rt_queue@);
                            let o = pre.current->0;
                            if pre.current is Some && o.state == TaskState::Running
                                && o.sched_class == SchedulingClass::Realtime {
                                assert(t == disposed_current(o, pre.accumulated_runtime));
                            }
                        }
                    }
                } else {
                    if i < rl + cl {
                        assert(false) by {
                            assert(mid.rt_queue@.len() == 0 && mid.cfs_queue@.len() == 0);
                            assert(mid.queue_of_class(SchedulingClass::Realtime)
                                == mid.rt_queue@);
                            assert(post.queue_of_class(SchedulingClass::Realtime)
                                == post.rt_queue@);
                            assert(mid.queue_of_class(SchedulingClass::Normal)
                                == mid.cfs_queue@);
                            assert(post.queue_of_class(SchedulingClass::Normal)
                                == post.cfs_queue@);
                            let o = pre.current->0;
                            if pre.current is Some && o.state == TaskState::Running && (
                            o.sched_class == SchedulingClass::Realtime || o.sched_class
                                == SchedulingClass::Normal) {
                                assert(t == disposed_current(o, pre.accumulated_runtime));
                            }
                        }
                    }
                }
            }
        }
    }

    /// Give up the CPU voluntarily: one reschedule.
    pub fn yield_now(&mut self)
        requires
            old(self).wf(),
        ensures
            final (self).wf(),
            schedule_rel(*old(self), *final (self)),
    {
        self.schedule();
    }

    /// Block the running task and reschedule.
    ///
    /// Lost-wakeup recovery: when the task's wake-up already arrived (its
    /// identifier sits in `wakeup_pending`), the identifier is consumed and
    /// the task keeps running — no reschedule happens.
    pub fn block_current_task(&mut self)
        requires
            old(self).wf(),
        ensures
            final (self).wf(),
            block_rel(*old(self), *final (self)),
    {
        let should_block = match &self.current {
            Some(t) => {
                let id = t.id().as_u64();
                if self.consume_wakeup_pending(id) {
                    false
                } else {
                    true
                }
            },
            None => false,
        };
        if should_block {
            let mut t = self.current.take().unwrap();
            t.set_state(TaskState::Blocked);
            self.current = Some(t);
            self.schedule();
        }
    }

    /// Remove `id` from the wakeup-pending set; report whether it was there.
    fn consume_wakeup_pending(&mut self, id: u64) -> (r: bool)
        requires
            old(self).wf(),
        ensures
            final (self).wf(),
            r == id_in_ids(old(self).wakeup_pending@, id),
            r ==> exists|i: int|
                0 <= i < old(self).wakeup_pending@.len() && old(self).wakeup_pending@[i] == id
                    && final (self).wakeup_pending@ == old(self).wakeup_pending@.remove(i),
            !r ==> *final (self) == *old(self),
            r ==> *final (self) == (Scheduler {
                wakeup_pending: final (self).wakeup_pending,
                ..*old(self)
            }),
    {
        let mut i: usize = 0;
        while i < self.wakeup_pending.len()
            invariant
                old(self).wf(),
                *self == *old(self),
                i <= self.wakeup_pending@.len(),
                forall|j: int| 0 <= j < i ==> self.wakeup_pending@[j] != id,
            decreases self.wakeup_pending@.len() - i,
        {
            if self.wakeup_pending[i] == id {
                self.wakeup_pending.remove(i);
                proof {
                    assert(old(self).wakeup_pending@[i as int] == id);
                }
                return true;
            }
            i = i + 1;
        }
        proof {
            if id_in_ids(old(self).wakeup_pending@, id) {
                let j = choose|j: int|
                    0 <= j < old(self).wakeup_pending@.len() && old(self).wakeup_pending@[j] == id;
                assert(self.wakeup_pending@[j] != id);
            }
        }
        false
    }

    /// Wake the task with the given identifier.
    ///
    /// A task found in the blocked map is set Ready and put back on its
    /// class's run queue. When the identifier is not there — the blocker has
    /// not yet committed to sleeping — it is recorded in `wakeup_pending` so
    /// that `block_current_task` sees the wake-up instead of losing it.
    pub fn unblock_task(&mut self, task_id: TaskId)
        requires
            old(self).wf(),
        ensures
            final (self).wf(),
            unblock_rel(*old(self), *final (self), task_id.id),
    {
        let id = task_id.as_u64();
        let mut i: usize = 0;
        while i < self.blocked_tasks.len()
            invariant
                self.wf(),
                *self == *old(self),
                id == task_id.id,
                i <= self.blocked_tasks@.len(),
                forall|j: int| 0 <= j < i ==> self.blocked_tasks@[j].id.id != id,
            decreases self.blocked_tasks@.len() - i,
        {
            if self.blocked_tasks[i].id().as_u64() == id {
                proof {
                    lemma_in_seq_remove(self.blocked_tasks@, i as int);
                    lemma_disjoint_remove(self.blocked_tasks@, i as int, self.rt_queue@);
                    lemma_disjoint_remove(self.blocked_tasks@, i as int, self.cfs_queue@);
                    lemma_disjoint_remove(self.blocked_tasks@, i as int, self.idle_queue@);
                    assert(in_seq(self.blocked_tasks@, id));
                }
                let mut t = self.blocked_tasks.remove(i);
                t.set_state(TaskState::Ready);
                let ghost mid = *self;
                self.enqueue_task(t);
                proof {
                    assert(task_in(self.queue_of_class(t.sched_class), t)) by {
                        let q = mid.queue_of_class(t.sched_class);
                        assert(self.queue_of_class(t.sched_class) == q.push(t));
                        assert(q.push(t)[q.len() as int] == t);
                    }
                    assert(t == (Task {
                        state: TaskState::Ready,
                        ..old(self).blocked_tasks@[i as int]
                    }));
                    assert forall|id2: u64|
                        self.contains_id(id2) == old(self).contains_id(id2) by {
                        if id2 == id {
                            assert(in_seq(old(self).blocked_tasks@, id));
                        }
                    }
                    assert(unblock_rel(*old(self), *self, id)) by {
                        assert({
                            &&& 0 <= i < old(self).blocked_tasks@.len()
                            &&& (#[trigger] old(self).blocked_tasks@[i as int]).id.id == id
                            &&& self.blocked_tasks@ == old(self).blocked_tasks@.remove(i as int)
                            &&& task_in(
                                self.queue_of_class(old(self).blocked_tasks@[i as int].sched_class),
                                Task {
                                    state: TaskState::Ready,
                                    ..old(self).blocked_tasks@[i as int]
                                },
                            )
                        });
                    }
                }
                return ;
            }
            i = i + 1;
        }
        proof {
            if in_seq(self.blocked_tasks@, id) {
                let j = choose|j: int|
                    0 <= j < self.blocked_tasks@.len() && self.blocked_tasks@[j].id.id == id;
                assert(self.blocked_tasks@[j].id.id != id);
            }
        }
        let mut present = false;
        let mut k: usize = 0;
        while k < self.wakeup_pending.len()
            invariant
                self.wf(),
                *self == *old(self),
                id == task_id.id,
                !in_seq(self.blocked_tasks@, id),
                k <= self.wakeup_pending@.len(),
                present == exists|j: int| 0 <= j < k && self.wakeup_pending@[j] == id,
            decreases self.wakeup_pending@.len() - k,
        {
            if self.wakeup_pending[k] == id {
                present = true;
            }
            k = k + 1;
        }
        if !present {
            self.wakeup_pending.push(id);
        }
    }

    /// The identifier of the running task.
    pub fn current_task_id(&self) -> (r: TaskId)
        requires
            self.wf(),
            self.current is Some,
        ensures
            Some(r.id) == self.current_id(),
    {
        match &self.current {
            Some(t) => t.id(),
            None => TaskId::new(0),
        }
    }

    /// Put the running task to sleep for `ms` milliseconds: arm a one-shot
    /// timer whose action wakes the sleeper, then block. The delay is the
    /// millisecond count converted at the tick frequency, rounded up, so the
    /// sleeper never resumes before its nominal time. Zero milliseconds just
    /// yields the CPU.
    pub fn sleep_ms(&mut self, timers: &mut TimerSystem, ms: u64)
        requires
            old(self).wf(),
            old(timers).wf(),
            old(self).current is Some,
            ms * old(timers).frequency_hz + 999 <= u64::MAX,
            old(timers).tick_count + sleep_delay_ticks(ms, old(timers).frequency_hz) <= u64::MAX,
            old(timers).next_timer_id < u64::MAX,
        ensures
            final (self).wf(),
            final (timers).wf(),
            ms == 0 ==> *final (timers) == *old(timers) && schedule_rel(
                *old(self),
                *final (self),
            ),
            ms > 0 ==> {
                &&& ms * old(timers).frequency_hz <= 1000 * sleep_delay_ticks(
                    ms,
                    old(timers).frequency_hz,
                )
                &&& block_rel(*old(self), *final (self))
                &&& final (timers).next_timer_id == old(timers).next_timer_id + 1
                &&& timer_in(final (timers).queue@, old(timers).next_timer_id)
                &&& exists|i: int|
                    0 <= i <= old(timers).queue@.len() && final (timers).queue@ == #[trigger] old(
                        timers,
                    ).queue@.insert(
                        i,
                        crate::timer::Timer {
                            id: old(timers).next_timer_id,
                            expires_at: (old(timers).tick_count + sleep_delay_ticks(
                                ms,
                                old(timers).frequency_hz,
                            )) as u64,
                            action: TimerAction::WakeTask(old(self).current->0.id.id),
                        },
                    )
                &&& final (timers).pending == old(timers).pending
                &&& final (timers).tick_count == old(timers).tick_count
                &&& final (timers).frequency_hz == old(timers).frequency_hz
            },
    {
        if ms == 0 {
            self.yield_now();
            return ;
        }
        let task_id = self.current_task_id();
        proof {
            lemma_sleep_resume_bound(ms, old(timers).frequency_hz);
        }
        // Round the conversion up: the property is a lower bound on the
        // wake-up tick, so a partial tick must count as a whole one.
        let ticks = (ms * timers.frequency_hz() + 999) / 1000;
        let delay = if ticks == 0 {
            1
        } else {
            ticks
        };
        let _ = timers.register_timer(delay, TimerAction::WakeTask(task_id.as_u64()));
        self.block_current_task();
    }
}

/// A fresh scheduler: empty queues, no current task, nothing pending.
pub fn init() -> (r: Scheduler)
    ensures
        r.wf(),
        r.rt_queue@.len() == 0,
        r.cfs_queue@.len() == 0,
        r.idle_queue@.len() == 0,
        r.blocked_tasks@.len() == 0,
        r.current is None,
        r.wakeup_pending@.len() == 0,
        !r.need_resched,
        r.accumulated_runtime == 0,
        r.next_task_id == 0,
{
    Scheduler {
        rt_queue: Vec::new(),
        cfs_queue: Vec::new(),
        idle_queue: Vec::new(),
        blocked_tasks: Vec::new(),
        current: None,
        wakeup_pending: Vec::new(),
        need_resched: false,
        accumulated_runtime: 0,
        next_task_id: 0,
    }
}

/// The tick delay `sleep_ms` arms its wake-up timer with: the milliseconds
/// converted at the tick frequency, rounded up so the sleeper never resumes
/// early, and at least one tick.
pub open spec fn sleep_delay_ticks(ms: u64, frequency_hz: u64) -> u64 {
    let ticks = ((ms * frequency_hz + 999) / 1000) as u64;
    if ticks == 0 {
        1
    } else {
        ticks
    }
}

/// The no-starvation step of the Normal class: a reschedule runs the task
/// with the smallest vruntime and charges it at most `bound`, so when every
/// Normal task's vruntime lies within `bound` of the running one, the spread
/// after the charge still lies within `bound`. Iterating this step over any
/// number of ticks keeps `max(vruntime) - min(vruntime)` at most the largest
/// single charge.
pub proof fn lemma_vruntime_spread_preserved(running: u64, others: Seq<u64>, inc: u64, bound: u64)
    requires
        inc <= bound,
        running + inc <= u64::MAX,
        forall|i: int| 0 <= i < others.len() ==> running <= #[trigger] others[i] <= running + bound,
    ensures
        forall|i: int, j: int|
            0 <= i < others.push((running + inc) as u64).len() && 0 <= j < others.push(
                (running + inc) as u64,
            ).len() ==> #[trigger] others.push((running + inc) as u64)[i] <= #[trigger] others.push(
                (running + inc) as u64,
            )[j] + bound,
{
    let all = others.push((running + inc) as u64);
    assert forall|i: int, j: int|
        0 <= i < all.len() && 0 <= j < all.len() implies #[trigger] all[i] <= #[trigger] all[j]
        + bound by {
        if i < others.len() {
            assert(all[i] == others[i]);
        }
        if j < others.len() {
            assert(all[j] == others[j]);
        }
    }
}

/// The lost-wakeup guard closes the block/wake race: when the running task
/// blocks (with another task runnable, and no wake-up already pending) and
/// is then woken by its identifier, it ends up Ready on its class's run
/// queue — the blocker resumes, and the wake-up is never lost.
pub proof fn lemma_block_then_unblock_resumes(s0: Scheduler, s1: Scheduler, s2: Scheduler)
    requires
        s0.wf(),
        s1.wf(),
        s0.current is Some,
        !id_in_ids(s0.wakeup_pending@, s0.current->0.id.id),
        s0.has_runnable(),
        block_rel(s0, s1),
        unblock_rel(s1, s2, s0.current->0.id.id),
    ensures
        in_seq(s2.queue_of_class(s0.current->0.sched_class), s0.current->0.id.id),
{
    let c = s0.current->0;
    let sb = with_current_blocked(s0);
    let o2 = disposed_current(sb.current->0, s0.accumulated_runtime);
    assert(o2.id == c.id && o2.sched_class == c.sched_class && o2.state == TaskState::Blocked);
    assert(s1.blocked_tasks@ == s0.blocked_tasks@.push(o2));
    assert(in_seq(s1.blocked_tasks@, c.id.id)) by {
        assert(s1.blocked_tasks@[s0.blocked_tasks@.len() as int].id.id == c.id.id);
    }
    let i = choose|i: int|
        {
            &&& 0 <= i < s1.blocked_tasks@.len()
            &&& (#[trigger] s1.blocked_tasks@[i]).id.id == c.id.id
            &&& s2.blocked_tasks@ == s1.blocked_tasks@.remove(i)
            &&& task_in(
                s2.queue_of_class(s1.blocked_tasks@[i].sched_class),
                Task { state: TaskState::Ready, ..s1.blocked_tasks@[i] },
            )
        };
    assert(i == s0.blocked_tasks@.len()) by {
        if i < s0.blocked_tasks@.len() {
            assert(s0.blocked_tasks@[i].id.id == c.id.id);
            assert(in_seq(s0.blocked_tasks@, c.id.id));
        }
    }
    assert(s1.blocked_tasks@[i] == o2);
    let t2 = Task { state: TaskState::Ready, ..o2 };
    let j = choose|j: int|
        0 <= j < s2.queue_of_class(c.sched_class).len() && s2.queue_of_class(c.sched_class)[j]
            == t2;
    assert(s2.queue_of_class(c.sched_class)[j].id.id == c.id.id);
}

/// The wake-up bound of `sleep_ms`: for every positive sleep the armed
/// timer expires no earlier than `ceil(ms × freq / 1000)` ticks after the
/// sleep began, so the sleeper never resumes before its nominal time.
pub proof fn lemma_sleep_resume_bound(ms: u64, frequency_hz: u64)
    requires
        ms * frequency_hz + 999 <= u64::MAX,
    ensures
        sleep_delay_ticks(ms, frequency_hz) >= (ms * frequency_hz + 999) / 1000,
        ms * frequency_hz > 0 ==> 1000 * sleep_delay_ticks(ms, frequency_hz) >= ms * frequency_hz,
{
    let x = ms * frequency_hz;
    vstd::arithmetic::div_mod::lemma_fundamental_div_mod(x + 999, 1000);
    vstd::arithmetic::div_mod::lemma_mod_bound(x + 999, 1000);
}

} // verus!
