//! A pool of worker threads fed from a queue of tasks.
use vstd::prelude::*;

pub mod clock;
pub mod error;
pub mod pipe;
pub mod pool;
pub mod provider;
pub mod spawn_policy;

verus! {

/// Something a worker thread can run; the queue's user supplies it.
pub trait Job: Send {
    /// Runs the job.
    fn call(&self);
}

/// A job that does nothing; it fills a task's slot until the task's own job is moved in.
struct NoJob;

impl Job for NoJob {
    fn call(&self) {
    }
}

/// Where a task keeps its job.
pub struct JobSlot {
    pub job: Box<dyn Job>,
}

/// A unit of work.
pub struct Task {
    value: JobSlot,
}

impl Task {
    /// What `run` runs, in its slot.
    pub closed spec fn job_slot(&self) -> JobSlot {
        self.value
    }

    /// A task that runs `job`.
    pub fn new(job: Box<dyn Job>) -> (t: Task)
        ensures
            t.job_slot().job == job,
    {
        let idle: Box<dyn Job> = Box::new(NoJob);
        let mut t = Task { value: JobSlot { job: idle } };
        let mut given = job;
        std::mem::swap(&mut t.value.job, &mut given);
        t
    }

    /// Runs the task.
    pub fn run(&self) {
        self.value.job.call();
    }
}

/// What the queue hands its worker threads.
pub enum Message {
    /// A task to run.
    Task(Task),
    /// A request to the receiving thread to stop.
    CloseThread,
}

/// The number of tasks among the messages pending in a queue: close
/// requests are not counted.
pub open spec fn task_count(q: Seq<pipe::Message<Message>>) -> nat
    decreases q.len(),
{
    if q.len() == 0 {
        0
    } else {
        task_count(q.drop_last()) + (if q.last().data is Task {
            1nat
        } else {
            0nat
        })
    }
}

/// The number of tasks waiting in `sender`'s queue (close requests are no tasks).
pub fn pending_tasks(sender: &pipe::Sender<Message>) -> (n: usize)
    ensures
        n == task_count(sender@),
{
    let messages = sender.messages();
    let mut n: usize = 0;
    let mut i: usize = 0;
    while i < messages.len()
        invariant
            i <= messages@.len(),
            n == task_count(messages@.take(i as int)),
            n <= i,
        decreases messages@.len() - i,
    {
        proof {
            assert(messages@.take(i + 1).drop_last() =~= messages@.take(i as int));
        }
        match &messages[i].data {
            Message::Task(_) => {
                n = n + 1;
            },
            Message::CloseThread => {},
        }
        i = i + 1;
    }
    proof {
        assert(messages@.take(i as int) =~= messages@);
    }
    n
}

/// Takes every message out of `queue` and returns the tasks among them, in
/// order; `None` where a close request is among them.
pub fn not_completed(queue: &mut pipe::Sender<Message>) -> (r: Option<Vec<Task>>)
    ensures
        r is Some <==> all_tasks(pipe::payloads(old(queue)@)),
        r matches Some(ts) ==> ts@ == carried_tasks(pipe::payloads(old(queue)@)),
        final(queue)@ == Seq::<pipe::Message<Message>>::empty(),
        final(queue).coming_handle() == old(queue).coming_handle(),
{
    into_tasks(queue.cancel_all())
}

/// Whether every message is a task.
pub open spec fn all_tasks(messages: Seq<Message>) -> bool {
    forall|i: int| 0 <= i < messages.len() ==> #[trigger] messages[i] is Task
}

/// The tasks carried by messages that are all tasks, in order.
pub open spec fn carried_tasks(messages: Seq<Message>) -> Seq<Task> {
    messages.map_values(|m: Message| m->Task_0)
}

/// The tasks of `messages`, in order; `None` where a close request is among them.
pub fn into_tasks(messages: Vec<Message>) -> (r: Option<Vec<Task>>)
    ensures
        r is Some <==> all_tasks(messages@),
        r matches Some(ts) ==> ts@ == carried_tasks(messages@),
{
    let ghost all = messages@;
    let count = messages.len();
    let mut pending = messages;
    let mut back: Vec<Message> = Vec::new();
    while pending.len() > 0
        invariant
            all == pending@ + back@.reverse(),
            all.len() == count,
            all == messages@,
        decreases pending.len(),
    {
        let m = pending.pop().unwrap();
        back.push(m);
        proof {
            assert(all =~= pending@ + back@.reverse());
        }
    }
    assert(all =~= back@.reverse());
    let mut result: Vec<Task> = Vec::new();
    let mut taken: usize = 0;
    while back.len() > 0
        invariant
            all == all.take(taken as int) + back@.reverse(),
            taken <= all.len(),
            all.len() == taken + back@.len(),
            all.len() == count,
            all == messages@,
            all_tasks(all.take(taken as int)),
            result@ == carried_tasks(all.take(taken as int)),
        decreases back.len(),
    {
        let ghost before = back@;
        let m = back.pop().unwrap();
        proof {
            assert(before.reverse() =~= seq![m].add(back@.reverse()));
            assert(all[taken as int] == m) by {
                assert(all == all.take(taken as int) + before.reverse());
            }
        }
        match m {
            Message::Task(t) => {
                result.push(t);
            },
            Message::CloseThread => {
                proof {
                    assert(taken < all.len());
                    assert(!(all[taken as int] is Task));
                    assert(!all_tasks(all));
                }
                return None;
            },
        }
        taken = taken + 1;
        proof {
            assert(all.take(taken as int) =~= all.take(taken - 1).push(all[taken - 1]));
            assert(result@ =~= carried_tasks(all.take(taken as int)));
            assert(all =~= all.take(taken as int) + back@.reverse());
        }
    }
    assert(all.take(taken as int) =~= all);
    Some(result)
}

/// What a spawn policy is told of a queue when it is consulted.
#[derive(Clone, Copy, Debug)]
pub struct TaskQueueStats {
    pub threads_count: usize,
    pub threads_max: usize,
    pub threads_min: usize,
    pub tasks_count: usize,
}

impl TaskQueueStats {
    /// Statistics with every count zero.
    pub fn empty() -> (s: TaskQueueStats)
        ensures
            s.threads_count == 0,
            s.threads_max == 0,
            s.threads_min == 0,
            s.tasks_count == 0,
    {
        TaskQueueStats { threads_count: 0, threads_max: 0, threads_min: 0, tasks_count: 0 }
    }
}

} // verus!
