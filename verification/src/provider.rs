//! The state that worker threads of the batch-handing queue share: the tasks
//! that wait and whether the queue stops.  A worker takes at most two tasks
//! at a time, the oldest ones, and nothing once the queue stops.
use vstd::prelude::*;

use crate::Task;

verus! {

/// The most tasks a worker takes at a time.
pub const BATCH_SIZE: usize = 2;

/// What a worker gets from the shared state.
pub enum ProviderResult {
    /// Tasks to run, oldest first.
    Tasks(Vec<Task>),
    /// The queue stops: the worker ends.
    Stop,
}

/// The tasks that wait, oldest first, and whether the queue stops.
pub struct Shared {
    pub tasks: Vec<Task>,
    pub stop: bool,
}

impl Shared {
    /// No task, not stopping.
    pub fn new() -> (s: Shared)
        ensures
            s.tasks@ == Seq::<Task>::empty(),
            !s.stop,
    {
        Shared { tasks: Vec::new(), stop: false }
    }

    /// What a worker gets now: `Stop` once the queue stops; otherwise the
    /// oldest tasks, two at most, taken out of the queue.  `None`, with the
    /// state unchanged, where there is nothing to take and the worker waits.
    pub fn take_batch(&mut self) -> (r: Option<ProviderResult>)
        ensures
            final(self).stop == old(self).stop,
            old(self).stop ==> (r matches Some(ProviderResult::Stop)) && final(self).tasks@ == old(
                self,
            ).tasks@,
            !old(self).stop && old(self).tasks@.len() == 0 ==> r is None && final(self).tasks@
                == old(self).tasks@,
            !old(self).stop && old(self).tasks@.len() > 0 ==> {
                let n = if old(self).tasks@.len() < BATCH_SIZE {
                    old(self).tasks@.len() as int
                } else {
                    BATCH_SIZE as int
                };
                &&& (r matches Some(ProviderResult::Tasks(v)) && v@ == old(self).tasks@.take(n))
                &&& final(self).tasks@ == old(self).tasks@.skip(n)
            },
    {
        if self.stop {
            return Some(ProviderResult::Stop);
        }
        let tasks_len = self.tasks.len();
        if tasks_len == 0 {
            return None;
        }
        let count = if tasks_len < BATCH_SIZE {
            tasks_len
        } else {
            BATCH_SIZE
        };
        let ghost start = self.tasks@;
        let mut result: Vec<Task> = Vec::new();
        let mut i: usize = 0;
        while i < count
            invariant
                i <= count,
                count <= start.len(),
                result@ == start.take(i as int),
                self.tasks@ == start.skip(i as int),
                self.stop == old(self).stop,
            decreases count - i,
        {
            let task = self.tasks.remove(0);
            result.push(task);
            i = i + 1;
            proof {
                assert(result@ =~= start.take(i as int));
                assert(self.tasks@ =~= start.skip(i as int));
            }
        }
        Some(ProviderResult::Tasks(result))
    }

    /// Marks the queue as stopping and takes every waiting task out, oldest first.
    pub fn stop_and_drain(&mut self) -> (r: Vec<Task>)
        ensures
            final(self).stop,
            r@ == old(self).tasks@,
            final(self).tasks@ == Seq::<Task>::empty(),
    {
        self.stop = true;
        let mut tasks: Vec<Task> = Vec::new();
        std::mem::swap(&mut tasks, &mut self.tasks);
        tasks
    }
}

} // verus!
