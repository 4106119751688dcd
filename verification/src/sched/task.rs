//! Task control blocks: identity, scheduling class, nice values, weights and
//! virtual runtime.

use super::context::Context;
use vstd::prelude::*;

verus! {

/// Errors raised when creating or queueing tasks.
#[derive(Debug, Clone, Copy, PartialEq, Eq, Structural)]
pub enum TaskError {
    /// A Realtime task was given a priority below the minimum.
    InvalidPriority,
    /// The task stack could not be allocated.
    StackAllocationFailed,
    /// The stack address handed in is unusable.
    InvalidStackAddress,
    /// The initial context could not be laid out.
    ContextInitFailed,
    /// The run queue cannot take another task.
    QueueFull,
}

/// A task identifier; allocated monotonically by the scheduler.
#[derive(Debug, Clone, Copy, PartialEq, Eq, Structural)]
pub struct TaskId {
    pub id: u64,
}

impl TaskId {
    /// The identifier with the given value. Fresh values come from
    /// [`super::scheduler::Scheduler::allocate_task_id`].
    pub fn new(id: u64) -> (r: Self)
        ensures
            r.id == id,
    {
        TaskId { id }
    }

    /// The numeric value of the identifier.
    pub fn as_u64(&self) -> (r: u64)
        ensures
            r == self.id,
    {
        self.id
    }
}

/// Nice value for Normal tasks: lower means more CPU time.
pub type Nice = i8;

/// Highest Normal priority.
pub const NICE_MIN: i8 = -20;

/// Default Normal priority.
pub const NICE_DEFAULT: i8 = 0;

/// Lowest Normal priority.
pub const NICE_MAX: i8 = 19;

/// Priority for Realtime tasks: higher means more urgent.
pub type RtPriority = u8;

/// Lowest Realtime priority.
pub const RT_PRIORITY_MIN: u8 = 1;

/// Default Realtime priority.
pub const RT_PRIORITY_DEFAULT: u8 = 50;

/// Highest Realtime priority.
pub const RT_PRIORITY_MAX: u8 = 99;

/// Weight of a task at the default nice value.
pub const BASE_WEIGHT: u64 = 1024;

/// Scheduling classes in strict priority order: a lower class runs only when
/// every higher class is empty.
#[derive(Debug, Clone, Copy, PartialEq, Eq, Structural)]
pub enum SchedulingClass {
    /// Highest: compositor and other latency-sensitive work.
    Realtime,
    /// Ordinary tasks, scheduled by virtual runtime.
    Normal,
    /// Runs only when nothing else is runnable.
    Idle,
}

impl SchedulingClass {
    /// Numeric rank of the class: higher runs first.
    pub open spec fn spec_rank(self) -> u8 {
        match self {
            SchedulingClass::Realtime => 2,
            SchedulingClass::Normal => 1,
            SchedulingClass::Idle => 0,
        }
    }

    /// Numeric rank of the class: higher runs first.
    #[verifier::when_used_as_spec(spec_rank)]
    pub fn rank(self) -> (r: u8)
        ensures
            r == self.spec_rank(),
    {
        match self {
            SchedulingClass::Realtime => 2,
            SchedulingClass::Normal => 1,
            SchedulingClass::Idle => 0,
        }
    }
}

/// Lifecycle states of a task.
#[derive(Debug, Clone, Copy, PartialEq, Eq, Structural)]
pub enum TaskState {
    /// Holding the CPU.
    Running,
    /// Runnable, waiting in a queue.
    Ready,
    /// Waiting for a wake-up.
    Blocked,
    /// Finished; dropped at the next reschedule.
    Terminated,
}

/// The weight table entry for a clamped nice value, as in the standard
/// priority-to-weight table: nice 0 maps to 1024, one step of nice scales the
/// weight by about 1.25.
pub open spec fn spec_nice_to_weight(nice: i8) -> u32 {
    if nice <= -20 {
        88761
    } else if nice == -19 {
        71755
    } else if nice == -18 {
        56483
    } else if nice == -17 {
        46273
    } else if nice == -16 {
        36291
    } else if nice == -15 {
        29154
    } else if nice == -14 {
        23254
    } else if nice == -13 {
        18705
    } else if nice == -12 {
        14949
    } else if nice == -11 {
        11916
    } else if nice == -10 {
        9548
    } else if nice == -9 {
        7620
    } else if nice == -8 {
        6100
    } else if nice == -7 {
        4904
    } else if nice == -6 {
        3906
    } else if nice == -5 {
        3121
    } else if nice == -4 {
        2501
    } else if nice == -3 {
        1991
    } else if nice == -2 {
        1586
    } else if nice == -1 {
        1277
    } else if nice == 0 {
        1024
    } else if nice == 1 {
        820
    } else if nice == 2 {
        655
    } else if nice == 3 {
        526
    } else if nice == 4 {
        423
    } else if nice == 5 {
        335
    } else if nice == 6 {
        272
    } else if nice == 7 {
        215
    } else if nice == 8 {
        172
    } else if nice == 9 {
        137
    } else if nice == 10 {
        110
    } else if nice == 11 {
        87
    } else if nice == 12 {
        70
    } else if nice == 13 {
        56
    } else if nice == 14 {
        45
    } else if nice == 15 {
        36
    } else if nice == 16 {
        29
    } else if nice == 17 {
        23
    } else if nice == 18 {
        18
    } else {
        15
    }
}

/// Scheduling weight for a nice value; out-of-range values are clamped.
#[verifier::when_used_as_spec(spec_nice_to_weight)]
pub fn nice_to_weight(nice: Nice) -> (r: u32)
    ensures
        r == spec_nice_to_weight(nice),
        r >= 15,
{
    if nice <= -20 {
        88761
    } else if nice == -19 {
        71755
    } else if nice == -18 {
        56483
    } else if nice == -17 {
        46273
    } else if nice == -16 {
        36291
    } else if nice == -15 {
        29154
    } else if nice == -14 {
        23254
    } else if nice == -13 {
        18705
    } else if nice == -12 {
        14949
    } else if nice == -11 {
        11916
    } else if nice == -10 {
        9548
    } else if nice == -9 {
        7620
    } else if nice == -8 {
        6100
    } else if nice == -7 {
        4904
    } else if nice == -6 {
        3906
    } else if nice == -5 {
        3121
    } else if nice == -4 {
        2501
    } else if nice == -3 {
        1991
    } else if nice == -2 {
        1586
    } else if nice == -1 {
        1277
    } else if nice == 0 {
        1024
    } else if nice == 1 {
        820
    } else if nice == 2 {
        655
    } else if nice == 3 {
        526
    } else if nice == 4 {
        423
    } else if nice == 5 {
        335
    } else if nice == 6 {
        272
    } else if nice == 7 {
        215
    } else if nice == 8 {
        172
    } else if nice == 9 {
        137
    } else if nice == 10 {
        110
    } else if nice == 11 {
        87
    } else if nice == 12 {
        70
    } else if nice == 13 {
        56
    } else if nice == 14 {
        45
    } else if nice == 15 {
        36
    } else if nice == 16 {
        29
    } else if nice == 17 {
        23
    } else if nice == 18 {
        18
    } else {
        15
    }
}

/// A task control block.
pub struct Task {
    pub id: TaskId,
    pub name: &'static str,
    pub sched_class: SchedulingClass,
    /// Nice value; meaningful for Normal tasks only.
    pub nice: Nice,
    /// Realtime priority; meaningful for Realtime tasks only.
    pub rt_priority: RtPriority,
    /// Weight derived from the nice value; scales vruntime growth.
    pub weight: u32,
    /// Accumulated weighted runtime; the smallest runs next within Normal.
    pub vruntime: u64,
    /// Saved CPU context (kernel stack pointer).
    pub context: Context,
    pub state: TaskState,
}

impl Task {
    /// Create a Normal-class task. The nice value is clamped to its range.
    ///
    /// Fails exactly as the context layout does: a null stack or one under
    /// the minimum gives `InvalidStackAddress`, a null entry point gives
    /// `ContextInitFailed`.
    pub fn new(name: &'static str, nice: Nice, entry_point: u64, stack_top: u64, id: TaskId) -> (r:
        Result<Self, TaskError>)
        ensures
            match r {
                Ok(t) => {
                    &&& Context::spec_new(entry_point, stack_top) matches Ok(ctx) && t.context
                        == ctx
                    &&& t.id == id
                    &&& t.name == name
                    &&& t.sched_class == SchedulingClass::Normal
                    &&& t.nice == if nice <= NICE_MIN {
                        NICE_MIN as int
                    } else if nice >= NICE_MAX {
                        NICE_MAX as int
                    } else {
                        nice as int
                    }
                    &&& t.rt_priority == 0
                    &&& t.weight == spec_nice_to_weight(nice)
                    &&& t.vruntime == 0
                    &&& t.state == TaskState::Ready
                },
                Err(e) => Context::spec_new(entry_point, stack_top) == Err::<Context, TaskError>(e),
            },
    {
        let context = match Context::new(entry_point, stack_top) {
            Ok(c) => c,
            Err(e) => {
                return Err(e);
            },
        };
        let clamped_nice = if nice <= NICE_MIN {
            NICE_MIN
        } else if nice >= NICE_MAX {
            NICE_MAX
        } else {
            nice
        };
        let weight = nice_to_weight(clamped_nice);
        Ok(
            Self {
                id,
                name,
                sched_class: SchedulingClass::Normal,
                nice: clamped_nice,
                rt_priority: 0,
                weight,
                vruntime: 0,
                context,
                state: TaskState::Ready,
            },
        )
    }

    /// Create a Realtime-class task. A priority below `RT_PRIORITY_MIN` is
    /// rejected with `InvalidPriority`; one above `RT_PRIORITY_MAX` is
    /// clamped.
    pub fn new_realtime(
        name: &'static str,
        rt_priority: RtPriority,
        entry_point: u64,
        stack_top: u64,
        id: TaskId,
    ) -> (r: Result<Self, TaskError>)
        ensures
            rt_priority < RT_PRIORITY_MIN ==> r == Err::<Self, TaskError>(TaskError::InvalidPriority),
            rt_priority >= RT_PRIORITY_MIN ==> match r {
                Ok(t) => {
                    &&& Context::spec_new(entry_point, stack_top) matches Ok(ctx) && t.context
                        == ctx
                    &&& t.id == id
                    &&& t.name == name
                    &&& t.sched_class == SchedulingClass::Realtime
                    &&& t.rt_priority == if rt_priority >= RT_PRIORITY_MAX {
                        RT_PRIORITY_MAX as int
                    } else {
                        rt_priority as int
                    }
                    &&& t.nice == 0
                    &&& t.weight == 0
                    &&& t.vruntime == 0
                    &&& t.state == TaskState::Ready
                },
                Err(e) => Context::spec_new(entry_point, stack_top) == Err::<Context, TaskError>(e),
            },
    {
        if rt_priority < RT_PRIORITY_MIN {
            return Err(TaskError::InvalidPriority);
        }
        let context = match Context::new(entry_point, stack_top) {
            Ok(c) => c,
            Err(e) => {
                return Err(e);
            },
        };
        let clamped = if rt_priority >= RT_PRIORITY_MAX {
            RT_PRIORITY_MAX
        } else {
            rt_priority
        };
        Ok(
            Self {
                id,
                name,
                sched_class: SchedulingClass::Realtime,
                nice: 0,
                rt_priority: clamped,
                weight: 0,
                vruntime: 0,
                context,
                state: TaskState::Ready,
            },
        )
    }

    /// Create the Idle-class task: lowest priority, runs when nothing else
    /// is runnable.
    pub fn new_idle(name: &'static str, entry_point: u64, stack_top: u64, id: TaskId) -> (r: Result<
        Self,
        TaskError,
    >)
        ensures
            match r {
                Ok(t) => {
                    &&& Context::spec_new(entry_point, stack_top) matches Ok(ctx) && t.context
                        == ctx
                    &&& t.id == id
                    &&& t.name == name
                    &&& t.sched_class == SchedulingClass::Idle
                    &&& t.nice == NICE_MAX
                    &&& t.rt_priority == 0
                    &&& t.weight == spec_nice_to_weight(NICE_MAX)
                    &&& t.vruntime == 0
                    &&& t.state == TaskState::Ready
                },
                Err(e) => Context::spec_new(entry_point, stack_top) == Err::<Context, TaskError>(e),
            },
    {
        let context = match Context::new(entry_point, stack_top) {
            Ok(c) => c,
            Err(e) => {
                return Err(e);
            },
        };
        Ok(
            Self {
                id,
                name,
                sched_class: SchedulingClass::Idle,
                nice: NICE_MAX,
                rt_priority: 0,
                weight: nice_to_weight(NICE_MAX),
                vruntime: 0,
                context,
                state: TaskState::Ready,
            },
        )
    }

    /// The task's identifier.
    pub fn id(&self) -> (r: TaskId)
        ensures
            r == self.id,
    {
        self.id
    }

    /// The task's name.
    pub fn name(&self) -> (r: &'static str)
        ensures
            r == self.name,
    {
        self.name
    }

    /// The nice value (Normal class).
    pub fn nice(&self) -> (r: Nice)
        ensures
            r == self.nice,
    {
        self.nice
    }

    /// The Realtime priority (Realtime class).
    pub fn rt_priority(&self) -> (r: RtPriority)
        ensures
            r == self.rt_priority,
    {
        self.rt_priority
    }

    /// The scheduling class.
    pub fn sched_class(&self) -> (r: SchedulingClass)
        ensures
            r == self.sched_class,
    {
        self.sched_class
    }

    /// The scheduling weight.
    pub fn weight(&self) -> (r: u32)
        ensures
            r == self.weight,
    {
        self.weight
    }

    /// The accumulated virtual runtime.
    pub fn vruntime(&self) -> (r: u64)
        ensures
            r == self.vruntime,
    {
        self.vruntime
    }

    /// The vruntime increment a run of `delta` nanoseconds costs a task of
    /// the given weight: `delta * BASE_WEIGHT / weight`, zero for the
    /// weightless classes.
    pub open spec fn vruntime_increment(delta: u64, weight: u32) -> int {
        if weight == 0 {
            0
        } else {
            (delta * BASE_WEIGHT) as int / weight as int
        }
    }

    /// Charge `delta` nanoseconds of real runtime: vruntime grows by
    /// `delta * BASE_WEIGHT / weight`, saturating at the top of the counter,
    /// and never decreases.
    pub fn update_vruntime(&mut self, delta: u64)
        requires
            delta * BASE_WEIGHT <= u64::MAX,
        ensures
            final (self).vruntime == if old(self).vruntime + Self::vruntime_increment(
                delta,
                old(self).weight,
            ) <= u64::MAX {
                old(self).vruntime + Self::vruntime_increment(delta, old(self).weight)
            } else {
                u64::MAX as int
            },
            final (self).vruntime >= old(self).vruntime,
            *final (self) == (Task { vruntime: final (self).vruntime, ..*old(self) }),
    {
        if self.weight == 0 {
            return ;
        }
        let increment = (delta * 1024) / (self.weight as u64);
        if self.vruntime <= u64::MAX - increment {
            self.vruntime = self.vruntime + increment;
        } else {
            self.vruntime = u64::MAX;
        }
    }

    /// The lifecycle state.
    pub fn state(&self) -> (r: TaskState)
        ensures
            r == self.state,
    {
        self.state
    }

    /// Set the lifecycle state.
    pub fn set_state(&mut self, state: TaskState)
        ensures
            *final (self) == (Task { state, ..*old(self) }),
    {
        self.state = state;
    }

    /// The saved CPU context.
    pub fn context(&self) -> (r: &Context)
        ensures
            r == self.context,
    {
        &self.context
    }

    /// Replace the saved CPU context.
    pub fn set_context(&mut self, context: Context)
        ensures
            *final (self) == (Task { context, ..*old(self) }),
    {
        self.context = context;
    }
}

} // verus!
