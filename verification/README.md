# task_queue

A thread pool whose decisions are verified with Verus.

- `src/` is the verified library:
  - `pipe.rs`: the message queue. A `Sender` owns the pending messages; a
    `Receiver` takes the message meant for it (addressed to nobody or to it,
    highest priority first, oldest first among equals). The laws of delivery
    (determinism, priorities, FIFO order, conservation of messages) are proof
    functions there.
  - `pool.rs`: the record of worker threads, their bounds and spawn policy,
    `apply_policy`, which consults the policy and brings the number of
    running threads to its count (putting the close requests on the queue
    and creating the receivers of new threads, which the queue's `Workers`
    start), and the two ways to stop, with `Min` or `High` close requests.
  - `spawn_policy.rs`: the `SpawnPolicy` trait, the static policy and the
    dynamic one, whose clock readings come through small trusted wrappers.
  - `provider.rs`: the batch-handing variant of the shared task state.
  - `error.rs`, `lib.rs`: errors, tasks, messages, the count of pending
    tasks and queue statistics.
- `app/` starts and joins the threads, turns closures into jobs, guards the queue with a mutex and a
  condition variable, and gives the error type its `Display` and `Error`.
- `tests/` runs the library on concrete values.
