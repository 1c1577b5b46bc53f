//! The bookkeeping of a task queue's worker threads: the bounds on their
//! number, the spawn policy, the threads that run and those asked to close.
//!
//! Starting a thread is done by the caller; this module decides when, puts
//! the close requests on the queue, and keeps the record of which threads
//! there are.
use vstd::prelude::*;

use crate::error::TaskQueueError;
use crate::pipe;
use crate::pipe::Priority;
use crate::pipe::ReceiverHandle;
use crate::Message;
use crate::spawn_policy::SpawnPolicy;
use crate::spawn_policy::StaticSpawnPolicy;
use crate::TaskQueueStats;

verus! {

/// A worker thread: the handle of the receiver it reads, and what the caller
/// keeps of the thread itself.
pub struct ThreadInfo<I> {
    pub receiver: ReceiverHandle,
    pub thread: I,
}

/// What the caller does next to bring the number of running threads to a count.
#[derive(PartialEq, Eq, Structural, Clone, Copy, Debug)]
pub enum ResizeStep {
    /// Ask the oldest running thread to close (`Pool::retire_oldest`).
    Retire,
    /// Start one more thread (`Pool::add_thread`).
    Spawn,
    /// The count is reached.
    Done,
}

/// The work on threads that a pool asks of its queue: start a worker
/// thread, and tell whether one has closed.
pub trait Workers<I> {
    /// Starts a worker thread that reads `receiver`; returns what the queue
    /// keeps of the thread.
    fn start(&mut self, receiver: pipe::Receiver<Message>) -> Result<I, TaskQueueError>;

    /// Whether `answer` is what `is_closed` may say of `thread`.  Workers
    /// that do not say admit either answer.
    open spec fn reports_closed(&self, thread: I, answer: bool) -> bool {
        true
    }

    /// Whether `thread` has closed.
    fn is_closed(&self, thread: &I) -> (r: bool)
        ensures
            self.reports_closed(*thread, r),
    ;
}

/// The request, put on the queue, that the thread reading `receiver` close.
pub open spec fn close_request(receiver: ReceiverHandle, priority: Priority) -> pipe::Message<Message> {
    pipe::Message { target: Some(receiver), priority: priority, data: Message::CloseThread }
}

/// The close requests, of one priority, for each of `threads` in order.
pub open spec fn close_requests<I>(threads: Seq<ThreadInfo<I>>, priority: Priority) -> Seq<
    pipe::Message<Message>,
> {
    threads.map_values(|t: ThreadInfo<I>| close_request(t.receiver, priority))
}

/// The least and greatest number of threads of a pool made by `Pool::new`.
pub const DEFAULT_THREADS: usize = 10;

/// Whether `min` and `max` are bounds that a queue accepts.
pub open spec fn valid_bounds(min: usize, max: usize) -> bool {
    min > 0 && max > 0 && min <= max
}

/// Where a pool keeps the spawn policy set by the user.
pub struct PolicySlot {
    pub policy: Box<dyn SpawnPolicy>,
}

/// The worker threads of a queue, with its bounds and spawn policy.
pub struct Pool<I> {
    /// The policy set by `set_spawn_policy`; the static policy until then.
    policy: PolicySlot,
    /// Whether `set_spawn_policy` was called.
    custom_policy: bool,
    min_threads: usize,
    max_threads: usize,
    threads: Vec<ThreadInfo<I>>,
    closing_threads: Vec<ThreadInfo<I>>,
}

impl<I> Pool<I> {
    #[verifier::type_invariant]
    spec fn bounds_hold(self) -> bool {
        valid_bounds(self.min_threads, self.max_threads)
    }

    /// The least number of running threads.
    pub closed spec fn min(&self) -> usize {
        self.min_threads
    }

    /// The greatest number of running threads.
    pub closed spec fn max(&self) -> usize {
        self.max_threads
    }

    /// The policy set by `set_spawn_policy`, in its slot.
    pub closed spec fn policy_slot(&self) -> PolicySlot {
        self.policy
    }

    /// Whether a policy was set by `set_spawn_policy`; until then the pool
    /// follows the static policy, which asks for `max()` threads.
    pub closed spec fn has_custom_policy(&self) -> bool {
        self.custom_policy
    }

    /// The running threads, oldest first.
    pub closed spec fn running(&self) -> Seq<ThreadInfo<I>> {
        self.threads@
    }

    /// The threads asked to close that may not have closed yet, in the order they were asked.
    pub closed spec fn closing(&self) -> Seq<ThreadInfo<I>> {
        self.closing_threads@
    }

    /// A pool with no thread, the static policy, and ten threads as both bounds.
    pub fn new() -> (p: Pool<I>)
        ensures
            p.min() == DEFAULT_THREADS,
            p.max() == DEFAULT_THREADS,
            p.running() == Seq::<ThreadInfo<I>>::empty(),
            p.closing() == Seq::<ThreadInfo<I>>::empty(),
            !p.has_custom_policy(),
    {
        let policy: Box<dyn SpawnPolicy> = Box::new(StaticSpawnPolicy::new());
        Pool {
            policy: PolicySlot { policy },
            custom_policy: false,
            min_threads: DEFAULT_THREADS,
            max_threads: DEFAULT_THREADS,
            threads: Vec::new(),
            closing_threads: Vec::new(),
        }
    }

    /// A pool with no thread, the bounds `min` and `max` and the static policy;
    /// refused, with `IllegalStartThreads`, unless `0 < min <= max`.
    pub fn with_threads(min: usize, max: usize) -> (r: Result<Pool<I>, TaskQueueError>)
        ensures
            valid_bounds(min, max) <==> r is Ok,
            r matches Ok(p) ==> p.min() == min && p.max() == max && p.running() == Seq::<
                ThreadInfo<I>,
            >::empty() && p.closing() == Seq::<ThreadInfo<I>>::empty() && !p.has_custom_policy(),
            r matches Err(e) ==> e == (TaskQueueError::IllegalStartThreads { min: min, max: max }),
    {
        if min == 0 || max == 0 || max < min {
            return Err(TaskQueueError::illegal_start_threads(min, max));
        }
        let policy: Box<dyn SpawnPolicy> = Box::new(StaticSpawnPolicy::new());
        Ok(
            Pool {
                policy: PolicySlot { policy },
                custom_policy: false,
                min_threads: min,
                max_threads: max,
                threads: Vec::new(),
                closing_threads: Vec::new(),
            },
        )
    }

    /// Replaces the spawn policy; the threads and bounds are unchanged.
    pub fn set_spawn_policy(&mut self, policy: Box<dyn SpawnPolicy>)
        ensures
            final(self).policy_slot().policy == policy,
            final(self).has_custom_policy(),
            final(self).min() == old(self).min(),
            final(self).max() == old(self).max(),
            final(self).running() == old(self).running(),
            final(self).closing() == old(self).closing(),
    {
        proof {
            use_type_invariant(&*self);
        }
        self.custom_policy = true;
        let mut given = policy;
        std::mem::swap(&mut self.policy.policy, &mut given);
    }

    /// What the policy is told of this pool when `tasks_count` tasks wait.
    pub open spec fn stats_for(&self, tasks_count: usize) -> TaskQueueStats {
        TaskQueueStats {
            threads_count: self.running().len() as usize,
            threads_max: self.max(),
            threads_min: self.min(),
            tasks_count: tasks_count,
        }
    }

    /// What the policy is told of this pool when `tasks_count` tasks wait.
    pub fn stats(&self, tasks_count: usize) -> (s: TaskQueueStats)
        ensures
            s.threads_count == self.running().len(),
            s.threads_max == self.max(),
            s.threads_min == self.min(),
            s.tasks_count == tasks_count,
    {
        TaskQueueStats {
            threads_count: self.threads.len(),
            threads_max: self.max_threads,
            threads_min: self.min_threads,
            tasks_count: tasks_count,
        }
    }

    /// Accepts a count asked for by the policy when it lies within the
    /// bounds; otherwise refuses it with `IllegalPolicyThreads`.
    pub fn check_count(&self, count: usize) -> (r: Result<usize, TaskQueueError>)
        ensures
            (self.min() <= count <= self.max()) <==> r is Ok,
            r matches Ok(c) ==> c == count,
            r matches Err(e) ==> e == (TaskQueueError::IllegalPolicyThreads {
                min: self.min(),
                max: self.max(),
                count: count,
            }),
    {
        if self.min_threads > count || count > self.max_threads {
            return Err(TaskQueueError::illegal_policy_threads(self.min_threads, self.max_threads, count));
        }
        Ok(count)
    }

    /// Asks the policy how many threads to run while `tasks_count` tasks
    /// wait, and checks the answer against the bounds (see `check_count`).
    /// Until a policy is set the static one answers `max()`; a policy set
    /// by the user may answer anything.
    pub fn consult_policy(&mut self, tasks_count: usize) -> (r: Result<usize, TaskQueueError>)
        ensures
            final(self).min() == old(self).min(),
            final(self).max() == old(self).max(),
            final(self).running() == old(self).running(),
            final(self).closing() == old(self).closing(),
            final(self).has_custom_policy() == old(self).has_custom_policy(),
            !old(self).has_custom_policy() ==> r == Ok::<usize, TaskQueueError>(old(self).max()),
            old(self).has_custom_policy() ==> exists|c: usize|
                {
                    &&& old(self).policy_slot().policy.gives(old(self).stats_for(tasks_count), c)
                    &&& (old(self).min() <= c <= old(self).max() ==> r == Ok::<usize, TaskQueueError>(c))
                    &&& (!(old(self).min() <= c <= old(self).max()) ==> r == Err::<usize, TaskQueueError>(
                        TaskQueueError::IllegalPolicyThreads {
                            min: old(self).min(),
                            max: old(self).max(),
                            count: c,
                        },
                    ))
                },
            r matches Ok(c) ==> old(self).min() <= c <= old(self).max(),
            r matches Err(e) ==> exists|c: usize|
                (c < old(self).min() || c > old(self).max()) && e == (
                TaskQueueError::IllegalPolicyThreads {
                    min: old(self).min(),
                    max: old(self).max(),
                    count: c,
                }),
    {
        proof {
            use_type_invariant(&*self);
        }
        let stats = self.stats(tasks_count);
        if !self.custom_policy {
            let mut fixed = StaticSpawnPolicy::new();
            let count = fixed.get_count(stats);
            return self.check_count(count);
        }
        let mut policy: Box<dyn SpawnPolicy> = Box::new(StaticSpawnPolicy::new());
        std::mem::swap(&mut policy, &mut self.policy.policy);
        let count = policy.get_count(stats);
        assert(old(self).policy_slot().policy.gives(old(self).stats_for(tasks_count), count));
        std::mem::swap(&mut policy, &mut self.policy.policy);
        self.check_count(count)
    }

    /// The next step towards `count` running threads: close the oldest while
    /// there are too many, start one while there are too few.
    pub fn next_step(&self, count: usize) -> (s: ResizeStep)
        ensures
            s == ResizeStep::Retire <==> self.running().len() > count,
            s == ResizeStep::Spawn <==> self.running().len() < count,
            s == ResizeStep::Done <==> self.running().len() == count,
    {
        let runned = self.threads.len();
        if runned > count {
            ResizeStep::Retire
        } else if runned < count {
            ResizeStep::Spawn
        } else {
            ResizeStep::Done
        }
    }

    /// Moves the oldest running thread to the closing ones, and returns the
    /// handle of its receiver, to which the caller sends the close request.
    pub fn retire_oldest(&mut self) -> (h: ReceiverHandle)
        requires
            old(self).running().len() > 0,
        ensures
            h == old(self).running()[0].receiver,
            final(self).running() == old(self).running().drop_first(),
            final(self).closing() == old(self).closing().push(old(self).running()[0]),
            final(self).min() == old(self).min(),
            final(self).max() == old(self).max(),
            final(self).has_custom_policy() == old(self).has_custom_policy(),
            final(self).policy_slot() == old(self).policy_slot(),
    {
        proof {
            use_type_invariant(&*self);
        }
        let mut threads: Vec<ThreadInfo<I>> = Vec::new();
        std::mem::swap(&mut threads, &mut self.threads);
        let mut closing: Vec<ThreadInfo<I>> = Vec::new();
        std::mem::swap(&mut closing, &mut self.closing_threads);
        let info = threads.remove(0);
        let receiver = info.receiver;
        closing.push(info);
        self.threads = threads;
        self.closing_threads = closing;
        receiver
    }

    /// Records a newly started thread as the youngest running one.
    pub fn add_thread(&mut self, receiver: ReceiverHandle, thread: I)
        ensures
            final(self).running() == old(self).running().push(
                ThreadInfo { receiver: receiver, thread: thread },
            ),
            final(self).closing() == old(self).closing(),
            final(self).min() == old(self).min(),
            final(self).max() == old(self).max(),
            final(self).has_custom_policy() == old(self).has_custom_policy(),
            final(self).policy_slot() == old(self).policy_slot(),
    {
        proof {
            use_type_invariant(&*self);
        }
        let mut threads: Vec<ThreadInfo<I>> = Vec::new();
        std::mem::swap(&mut threads, &mut self.threads);
        threads.push(ThreadInfo { receiver, thread });
        self.threads = threads;
    }

    /// The threads asked to close that may not have closed yet.
    pub fn closing_threads(&self) -> (r: &Vec<ThreadInfo<I>>)
        ensures
            r@ == self.closing(),
    {
        &self.closing_threads
    }

    /// Forgets the closing threads that have closed: `closed[i]` tells
    /// whether the `i`-th closing thread has.  The others keep their order.
    pub fn prune_closed(&mut self, closed: &Vec<bool>)
        requires
            closed@.len() == old(self).closing().len(),
        ensures
            final(self).closing() == kept(old(self).closing(), closed@),
            final(self).running() == old(self).running(),
            final(self).min() == old(self).min(),
            final(self).max() == old(self).max(),
            final(self).has_custom_policy() == old(self).has_custom_policy(),
            final(self).policy_slot() == old(self).policy_slot(),
    {
        proof {
            use_type_invariant(&*self);
        }
        let mut rest: Vec<ThreadInfo<I>> = Vec::new();
        std::mem::swap(&mut rest, &mut self.closing_threads);
        let ghost all = rest@;
        let mut i: usize = rest.len();
        let mut kept_back: Vec<ThreadInfo<I>> = Vec::new();
        // Walk from the back, as closed threads are removed, keeping the open ones.
        while i > 0
            invariant
                i == rest@.len(),
                i <= all.len(),
                closed@.len() == all.len(),
                rest@ == all.take(i as int),
                kept_back@.reverse() == kept(all.skip(i as int), closed@.skip(i as int)),
                self.threads@ == old(self).threads@,
                self.min_threads == old(self).min_threads,
                self.max_threads == old(self).max_threads,
            decreases i,
        {
            let info = rest.pop().unwrap();
            i = i - 1;
            proof {
                assert(all.skip(i as int).drop_first() =~= all.skip(i + 1));
                assert(closed@.skip(i as int).drop_first() =~= closed@.skip(i + 1));
                assert(rest@ =~= all.take(i as int));
            }
            if !closed[i] {
                let ghost before = kept_back@;
                kept_back.push(info);
                proof {
                    assert(kept_back@.reverse() =~= seq![info].add(before.reverse()));
                }
            }
        }
        assert(all.skip(0) =~= all);
        assert(closed@.skip(0) =~= closed@);
        let mut result: Vec<ThreadInfo<I>> = Vec::new();
        let ghost goal = kept_back@.reverse();
        while kept_back.len() > 0
            invariant
                goal == result@ + kept_back@.reverse(),
                self.threads@ == old(self).threads@,
                self.min_threads == old(self).min_threads,
                self.max_threads == old(self).max_threads,
            decreases kept_back.len(),
        {
            let ghost before = kept_back@;
            let info = kept_back.pop().unwrap();
            proof {
                assert(before.reverse() =~= seq![info].add(kept_back@.reverse()));
            }
            result.push(info);
            proof {
                assert(goal =~= result@ + kept_back@.reverse());
            }
        }
        assert(goal =~= result@);
        self.closing_threads = result;
    }

    /// Brings the number of running threads to `count`.  While there are
    /// too many, the oldest running thread is moved to the closing ones and
    /// sent, on `queue`, a `High`-priority close request addressed to it.
    /// While there are too few, a receiver is created on `queue` and a
    /// thread started on it.  Fails with the first error of starting a
    /// thread, keeping the threads started until then.
    pub fn resize<W: Workers<I>>(
        &mut self,
        count: usize,
        queue: &mut pipe::Sender<Message>,
        workers: &mut W,
    ) -> (r: Result<(), TaskQueueError>)
        requires
            old(queue).coming_handle().number() + count <= i64::MAX,
        ensures
            final(self).min() == old(self).min(),
            final(self).max() == old(self).max(),
            final(self).has_custom_policy() == old(self).has_custom_policy(),
            final(self).policy_slot() == old(self).policy_slot(),
            r is Ok ==> final(self).running().len() == count,
            old(self).running().len() >= count ==> {
                let k = old(self).running().len() - count;
                &&& r is Ok
                &&& final(self).running() == old(self).running().skip(k)
                &&& final(self).closing() == old(self).closing() + old(self).running().take(k)
                &&& final(queue)@ == old(queue)@ + close_requests(
                    old(self).running().take(k),
                    Priority::High,
                )
                &&& final(queue).coming_handle() == old(queue).coming_handle()
            },
            old(self).running().len() < count ==> {
                let k = old(self).running().len() as int;
                let n = final(self).running().len();
                &&& final(self).running().take(k) == old(self).running()
                &&& n <= count
                &&& final(self).closing() == old(self).closing()
                &&& final(queue)@ == old(queue)@
                &&& final(queue).coming_handle().number() == old(queue).coming_handle().number() + (
                n - k) + (if r is Ok {
                    0int
                } else {
                    1int
                })
                &&& forall|j: int|
                    k <= j < n ==> (#[trigger] final(self).running()[j]).receiver.number() == old(
                        queue,
                    ).coming_handle().number() + (j - k)
            },
    {
        let ghost start_running = self.running();
        let ghost start_closing = self.closing();
        let ghost start_queue = queue@;
        let ghost start_coming = queue.coming_handle().number();
        let ghost k = start_running.len();
        while self.threads.len() > count
            invariant
                k >= count ==> count <= self.threads@.len() <= k,
                k < count ==> self.threads@.len() == k,
                k >= count ==> self.running() == start_running.skip(k - self.threads@.len()),
                k >= count ==> self.closing() == start_closing + start_running.take(
                    k - self.threads@.len(),
                ),
                k >= count ==> queue@ == start_queue + close_requests(
                    start_running.take(k - self.threads@.len()),
                    Priority::High,
                ),
                k < count ==> self.running() == start_running && self.closing() == start_closing
                    && queue@ == start_queue,
                queue.coming_handle() == old(queue).coming_handle(),
                self.min() == old(self).min(),
                self.max() == old(self).max(),
                self.has_custom_policy() == old(self).has_custom_policy(),
                self.policy_slot() == old(self).policy_slot(),
                k == start_running.len(),
                start_running == old(self).running(),
                start_closing == old(self).closing(),
                start_queue == old(queue)@,
            decreases self.threads@.len(),
        {
            let ghost before = self.threads@.len();
            let ghost before_queue = queue@;
            let receiver = self.retire_oldest();
            queue.put_with_priority(Some(receiver), Priority::High, Message::CloseThread);
            proof {
                let j = k - before;
                assert(start_running.skip(j)[0] == start_running[j]);
                assert(start_running.skip(j).drop_first() =~= start_running.skip(
                    k - self.threads@.len(),
                ));
                assert(start_running.take(j).push(start_running[j]) =~= start_running.take(j + 1));
                assert(start_closing + start_running.take(j + 1) =~= (start_closing
                    + start_running.take(j)).push(start_running[j]));
                assert(close_requests(start_running.take(j + 1), Priority::High) =~= close_requests(
                    start_running.take(j),
                    Priority::High,
                ).push(close_request(start_running[j].receiver, Priority::High)));
                assert(queue@ =~= start_queue + close_requests(
                    start_running.take(j + 1),
                    Priority::High,
                ));
            }
        }
        while self.threads.len() < count
            invariant
                k < count ==> {
                    &&& self.running().take(k as int) == start_running
                    &&& k <= self.threads@.len() <= count
                    &&& self.closing() == start_closing
                    &&& queue@ == start_queue
                    &&& queue.coming_handle().number() == start_coming + (self.threads@.len() - k)
                    &&& forall|j: int|
                        k <= j < self.threads@.len() ==> (#[trigger] self.running()[j]).receiver.number()
                            == start_coming + (j - k)
                },
                k >= count ==> self.threads@.len() == count,
                k >= count ==> self.running() == start_running.skip(k - count) && self.closing()
                    == start_closing + start_running.take(k - count) && queue@ == start_queue
                    + close_requests(start_running.take(k - count), Priority::High)
                    && queue.coming_handle() == old(queue).coming_handle(),
                start_running == old(self).running(),
                start_closing == old(self).closing(),
                start_queue == old(queue)@,
                start_coming == old(queue).coming_handle().number(),
                start_coming + count <= i64::MAX,
                self.min() == old(self).min(),
                self.max() == old(self).max(),
                self.has_custom_policy() == old(self).has_custom_policy(),
                self.policy_slot() == old(self).policy_slot(),
                k == start_running.len(),
            decreases count - self.threads@.len(),
        {
            let receiver = queue.create_receiver();
            let handle = receiver.handle();
            let thread = match workers.start(receiver) {
                Ok(started) => started,
                Err(e) => return Err(e),
            };
            let ghost before = self.running();
            self.add_thread(handle, thread);
            proof {
                assert(self.running().take(k as int) =~= before.take(k as int));
                assert forall|j: int|
                    k <= j < self.threads@.len() implies (#[trigger] self.running()[j]).receiver.number()
                    == start_coming + (j - k) by {
                    if j < before.len() {
                        assert(self.running()[j] == before[j]);
                    }
                }
            }
        }
        Ok(())
    }

    /// Forgets the closing threads that `workers` reports closed; the others
    /// keep their order.
    pub fn prune<W: Workers<I>>(&mut self, workers: &W)
        ensures
            exists|closed: Seq<bool>|
                {
                    &&& closed.len() == old(self).closing().len()
                    &&& forall|i: int|
                        0 <= i < closed.len() ==> workers.reports_closed(
                            old(self).closing()[i].thread,
                            #[trigger] closed[i],
                        )
                    &&& #[trigger] kept(old(self).closing(), closed) == final(self).closing()
                },
            final(self).running() == old(self).running(),
            final(self).min() == old(self).min(),
            final(self).max() == old(self).max(),
            final(self).has_custom_policy() == old(self).has_custom_policy(),
            final(self).policy_slot() == old(self).policy_slot(),
    {
        let mut closed: Vec<bool> = Vec::new();
        let mut i: usize = 0;
        while i < self.closing_threads.len()
            invariant
                i <= self.closing_threads@.len(),
                closed@.len() == i,
                forall|j: int|
                    0 <= j < i ==> workers.reports_closed(
                        self.closing_threads@[j].thread,
                        #[trigger] closed@[j],
                    ),
            decreases self.closing_threads@.len() - i,
        {
            closed.push(workers.is_closed(&self.closing_threads[i].thread));
            i = i + 1;
        }
        self.prune_closed(&closed);
    }

    /// What a queue does when a task comes in while `tasks_count` tasks wait:
    /// asks the policy for a count (see `consult_policy`), brings the running
    /// threads to it (see `resize`, which puts the close requests on `queue`
    /// and creates the receivers of new threads there), and forgets the
    /// closing threads that have closed.  Returns the count.
    pub fn apply_policy<W: Workers<I>>(
        &mut self,
        tasks_count: usize,
        queue: &mut pipe::Sender<Message>,
        workers: &mut W,
    ) -> (r: Result<usize, TaskQueueError>)
        requires
            old(queue).coming_handle().number() + old(self).max() <= i64::MAX,
        ensures
            final(self).min() == old(self).min(),
            final(self).max() == old(self).max(),
            final(self).has_custom_policy() == old(self).has_custom_policy(),
            r matches Ok(c) ==> {
                let after = final(self).running();
                old(self).min() <= c <= old(self).max() && after.len() == c
            },
            !old(self).has_custom_policy() ==> (r matches Ok(c) ==> c == old(self).max()),
            old(self).has_custom_policy() ==> exists|c: usize|
                {
                    &&& old(self).policy_slot().policy.gives(old(self).stats_for(tasks_count), c)
                    &&& (r matches Ok(d) ==> d == c)
                    &&& (!(old(self).min() <= c <= old(self).max()) ==> r == Err::<usize, TaskQueueError>(
                        TaskQueueError::IllegalPolicyThreads {
                            min: old(self).min(),
                            max: old(self).max(),
                            count: c,
                        },
                    ))
                },
            !old(self).has_custom_policy() && old(self).running().len() >= old(self).max() ==> {
                let k = old(self).running().len() - old(self).max();
                &&& r == Ok::<usize, TaskQueueError>(old(self).max())
                &&& final(queue)@ == old(queue)@ + close_requests(
                    old(self).running().take(k),
                    Priority::High,
                )
            },
            r matches Ok(c) ==> (c <= old(self).running().len() ==> final(queue)@ == old(queue)@
                + close_requests(old(self).running().take(old(self).running().len() - c), Priority::High)),
            r matches Ok(c) ==> (c > old(self).running().len() ==> final(queue)@ == old(queue)@),
    {
        proof {
            use_type_invariant(&*self);
        }
        let count = match self.consult_policy(tasks_count) {
            Ok(c) => c,
            Err(e) => return Err(e),
        };
        match self.resize(count, queue, workers) {
            Ok(()) => {},
            Err(e) => return Err(e),
        }
        self.prune(workers);
        Ok(count)
    }

    /// Stops the pool so that every task in `queue` is still run: sends each
    /// running thread a close request of `Min` priority, which it takes only
    /// after every task it can take, and hands back every thread, running
    /// ones first.
    pub fn stop_after_tasks(&mut self, queue: &mut pipe::Sender<Message>) -> (r: Vec<I>)
        ensures
            final(queue)@ == old(queue)@ + close_requests(old(self).running(), Priority::Min),
            final(queue).coming_handle() == old(queue).coming_handle(),
            r@ == (old(self).running() + old(self).closing()).map_values(|t: ThreadInfo<I>| t.thread),
            final(self).running() == Seq::<ThreadInfo<I>>::empty(),
            final(self).closing() == Seq::<ThreadInfo<I>>::empty(),
            final(self).min() == old(self).min(),
            final(self).max() == old(self).max(),
    {
        self.send_close_requests(queue, Priority::Min);
        self.drain_threads()
    }

    /// Stops the pool at once: sends each running thread a close request of
    /// `High` priority, which it takes before any task, and hands back every
    /// thread, running ones first.
    pub fn stop_now(&mut self, queue: &mut pipe::Sender<Message>) -> (r: Vec<I>)
        ensures
            final(queue)@ == old(queue)@ + close_requests(old(self).running(), Priority::High),
            final(queue).coming_handle() == old(queue).coming_handle(),
            r@ == (old(self).running() + old(self).closing()).map_values(|t: ThreadInfo<I>| t.thread),
            final(self).running() == Seq::<ThreadInfo<I>>::empty(),
            final(self).closing() == Seq::<ThreadInfo<I>>::empty(),
            final(self).min() == old(self).min(),
            final(self).max() == old(self).max(),
    {
        self.send_close_requests(queue, Priority::High);
        self.drain_threads()
    }

    /// Puts on `queue` a close request of `priority` for each running thread, oldest first.
    fn send_close_requests(&self, queue: &mut pipe::Sender<Message>, priority: Priority)
        ensures
            final(queue)@ == old(queue)@ + close_requests(self.running(), priority),
            final(queue).coming_handle() == old(queue).coming_handle(),
    {
        let mut i: usize = 0;
        while i < self.threads.len()
            invariant
                i <= self.threads@.len(),
                queue@ == old(queue)@ + close_requests(self.threads@.take(i as int), priority),
                queue.coming_handle() == old(queue).coming_handle(),
            decreases self.threads@.len() - i,
        {
            let receiver = self.threads[i].receiver;
            queue.put_with_priority(Some(receiver), priority, Message::CloseThread);
            proof {
                assert(self.threads@.take(i + 1) =~= self.threads@.take(i as int).push(
                    self.threads@[i as int],
                ));
                assert(close_requests(self.threads@.take(i + 1), priority) =~= close_requests(
                    self.threads@.take(i as int),
                    priority,
                ).push(close_request(self.threads@[i as int].receiver, priority)));
                assert(queue@ =~= old(queue)@ + close_requests(self.threads@.take(i + 1), priority));
            }
            i = i + 1;
        }
        proof {
            assert(self.threads@.take(i as int) =~= self.threads@);
        }
    }

    /// The receivers of the running threads, oldest first.
    pub fn running_receivers(&self) -> (r: Vec<ReceiverHandle>)
        ensures
            r@ == self.running().map_values(|t: ThreadInfo<I>| t.receiver),
    {
        let mut r: Vec<ReceiverHandle> = Vec::new();
        let mut i: usize = 0;
        while i < self.threads.len()
            invariant
                i <= self.threads@.len(),
                r@ == self.threads@.take(i as int).map_values(|t: ThreadInfo<I>| t.receiver),
            decreases self.threads@.len() - i,
        {
            r.push(self.threads[i].receiver);
            i = i + 1;
            proof {
                assert(self.threads@.take(i as int).drop_last() =~= self.threads@.take(i - 1));
                assert(r@ =~= self.threads@.take(i as int).map_values(|t: ThreadInfo<I>| t.receiver));
            }
        }
        assert(self.threads@.take(i as int) =~= self.threads@);
        r
    }

    /// Takes every thread out of the pool: the running ones, oldest first,
    /// then the closing ones.
    pub fn drain_threads(&mut self) -> (r: Vec<I>)
        ensures
            r@ == (old(self).running() + old(self).closing()).map_values(|t: ThreadInfo<I>| t.thread),
            final(self).running() == Seq::<ThreadInfo<I>>::empty(),
            final(self).closing() == Seq::<ThreadInfo<I>>::empty(),
            final(self).min() == old(self).min(),
            final(self).max() == old(self).max(),
            final(self).has_custom_policy() == old(self).has_custom_policy(),
            final(self).policy_slot() == old(self).policy_slot(),
    {
        proof {
            use_type_invariant(&*self);
        }
        let mut all: Vec<ThreadInfo<I>> = Vec::new();
        std::mem::swap(&mut all, &mut self.threads);
        let mut closing: Vec<ThreadInfo<I>> = Vec::new();
        std::mem::swap(&mut closing, &mut self.closing_threads);
        all.append(&mut closing);
        let ghost whole = all@;
        let mut back: Vec<ThreadInfo<I>> = Vec::new();
        while all.len() > 0
            invariant
                whole == all@ + back@.reverse(),
            decreases all.len(),
        {
            let info = all.pop().unwrap();
            back.push(info);
            proof {
                assert(whole =~= all@ + back@.reverse());
            }
        }
        assert(whole =~= back@.reverse());
        let mut result: Vec<I> = Vec::new();
        while back.len() > 0
            invariant
                whole.map_values(|t: ThreadInfo<I>| t.thread) == result@ + back@.reverse().map_values(
                    |t: ThreadInfo<I>| t.thread,
                ),
            decreases back.len(),
        {
            let ghost before = back@;
            let info = back.pop().unwrap();
            proof {
                assert(before.reverse() =~= seq![info].add(back@.reverse()));
                assert(before.reverse().map_values(|t: ThreadInfo<I>| t.thread) =~= seq![
                    info.thread,
                ].add(back@.reverse().map_values(|t: ThreadInfo<I>| t.thread)));
            }
            result.push(info.thread);
            proof {
                assert(whole.map_values(|t: ThreadInfo<I>| t.thread) =~= result@ + back@.reverse().map_values(
                    |t: ThreadInfo<I>| t.thread,
                ));
            }
        }
        assert(whole.map_values(|t: ThreadInfo<I>| t.thread) =~= result@);
        result
    }

    /// Returns current threads count.
    pub fn get_threads_count(&self) -> (n: usize)
        ensures
            n == self.running().len(),
    {
        self.threads.len()
    }

    /// Return max threads count.
    pub fn get_threads_max(&self) -> (n: usize)
        ensures
            n == self.max(),
            valid_bounds(self.min(), n),
    {
        proof {
            use_type_invariant(self);
        }
        self.max_threads
    }

    /// Return min threads count.
    pub fn get_threads_min(&self) -> (n: usize)
        ensures
            n == self.min(),
            valid_bounds(n, self.max()),
    {
        proof {
            use_type_invariant(self);
        }
        self.min_threads
    }
}

/// The entries of `s` whose flag in `closed` is false, in order.
pub open spec fn kept<A>(s: Seq<A>, closed: Seq<bool>) -> Seq<A>
    decreases s.len(),
{
    if s.len() == 0 || closed.len() == 0 {
        Seq::empty()
    } else if closed[0] {
        kept(s.drop_first(), closed.drop_first())
    } else {
        seq![s[0]].add(kept(s.drop_first(), closed.drop_first()))
    }
}

} // verus!
