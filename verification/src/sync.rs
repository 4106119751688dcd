//! Blocking synchronisation: a wait queue of task identifiers and a mutex
//! that blocks its waiters instead of spinning.
//!
//! The primitives decide; the embedding kernel loop performs the blocking
//! and waking through the scheduler, handing the task identifiers back and
//! forth.

use vstd::prelude::*;

verus! {

/// A first-in, first-out queue of blocked task identifiers.
pub struct WaitQueue {
    pub waiters: Vec<u64>,
}

impl WaitQueue {
    /// An empty wait queue.
    pub fn new() -> (r: Self)
        ensures
            r.waiters@.len() == 0,
    {
        Self { waiters: Vec::new() }
    }

    /// Enqueue the calling task; the caller then blocks through the
    /// scheduler.
    pub fn wait(&mut self, task_id: u64)
        ensures
            final (self).waiters@ == old(self).waiters@.push(task_id),
    {
        self.waiters.push(task_id);
    }

    /// Dequeue the longest-waiting task, to be woken through the scheduler;
    /// `None` when nobody waits.
    pub fn wake_one(&mut self) -> (r: Option<u64>)
        ensures
            old(self).waiters@.len() == 0 ==> r is None && final (self).waiters@ == old(self).waiters@,
            old(self).waiters@.len() > 0 ==> r == Some(old(self).waiters@[0])
                && final (self).waiters@ == old(self).waiters@.skip(1),
    {
        if self.waiters.len() == 0 {
            return None;
        }
        let id = self.waiters.remove(0);
        proof {
            assert(final (self).waiters@ =~= old(self).waiters@.skip(1));
        }
        Some(id)
    }

    /// Dequeue every waiting task, oldest first.
    pub fn wake_all(&mut self) -> (r: Vec<u64>)
        ensures
            r@ == old(self).waiters@,
            final (self).waiters@.len() == 0,
    {
        let mut out: Vec<u64> = Vec::new();
        core::mem::swap(&mut out, &mut self.waiters);
        out
    }

    /// How many tasks wait.
    pub fn len(&self) -> (r: usize)
        ensures
            r == self.waiters@.len(),
    {
        self.waiters.len()
    }
}

/// A mutex whose contenders block rather than spin: one locked bit, a wait
/// queue, and the protected value.
pub struct BlockingMutex<T> {
    pub locked: bool,
    pub wait_queue: WaitQueue,
    pub data: T,
}

impl<T> BlockingMutex<T> {
    /// An unlocked mutex protecting `value`.
    pub fn new(value: T) -> (r: Self)
        ensures
            !r.locked,
            r.wait_queue.waiters@.len() == 0,
            r.data == value,
    {
        Self { locked: false, wait_queue: WaitQueue::new(), data: value }
    }

    /// Try to take the lock without blocking: succeeds exactly when the
    /// mutex was free.
    pub fn try_lock(&mut self) -> (r: bool)
        ensures
            r == !old(self).locked,
            final (self).locked,
            final (self).wait_queue == old(self).wait_queue,
            final (self).data == old(self).data,
    {
        if self.locked {
            self.locked = true;
            false
        } else {
            self.locked = true;
            true
        }
    }

    /// Take the lock or join the waiters: on contention the caller's
    /// identifier is queued and the caller must block through the scheduler.
    /// Returns whether the lock was taken.
    pub fn lock_or_wait(&mut self, task_id: u64) -> (r: bool)
        ensures
            r == !old(self).locked,
            final (self).locked,
            final (self).data == old(self).data,
            r ==> final (self).wait_queue == old(self).wait_queue,
            !r ==> final (self).wait_queue.waiters@ == old(self).wait_queue.waiters@.push(task_id),
    {
        if self.locked {
            self.wait_queue.wait(task_id);
            false
        } else {
            self.locked = true;
            true
        }
    }

    /// Release the lock and dequeue the next waiter, if any, for the caller
    /// to wake through the scheduler.
    pub fn unlock(&mut self) -> (r: Option<u64>)
        requires
            old(self).locked,
        ensures
            !final (self).locked,
            final (self).data == old(self).data,
            old(self).wait_queue.waiters@.len() == 0 ==> r is None
                && final (self).wait_queue.waiters@ == old(self).wait_queue.waiters@,
            old(self).wait_queue.waiters@.len() > 0 ==> r == Some(old(self).wait_queue.waiters@[0])
                && final (self).wait_queue.waiters@ == old(self).wait_queue.waiters@.skip(1),
    {
        self.locked = false;
        self.wait_queue.wake_one()
    }

    /// Read the protected value; the caller must hold the lock.
    pub fn get(&self) -> (r: &T)
        requires
            self.locked,
        ensures
            r == self.data,
    {
        &self.data
    }

    /// Replace the protected value; the caller must hold the lock.
    pub fn set(&mut self, value: T)
        requires
            old(self).locked,
        ensures
            final (self).locked == old(self).locked,
            final (self).wait_queue == old(self).wait_queue,
            final (self).data == value,
    {
        self.data = value;
    }
}

} // verus!
