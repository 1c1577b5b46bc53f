//! Policies that decide how many worker threads a queue runs.
//!
//! The queue consults its policy only when a task comes in, and refuses a
//! count outside its bounds.
use vstd::prelude::*;
use std::time::Duration;
use std::time::SystemTime;

use crate::clock::Reading;
use crate::TaskQueueStats;

verus! {

#[verifier::external_type_specification]
#[verifier::external_body]
pub struct ExSystemTime(std::time::SystemTime);

/// `SystemTime::now`: the current reading of the system clock.  Nothing is
/// claimed of it: it depends on the clock.
#[verifier::external_body]
fn clock_now() -> SystemTime {
    SystemTime::now()
}

/// `SystemTime::elapsed`: the time passed since `t`, `None` where the clock
/// now reads earlier than `t`.  Nothing is claimed of the value: it depends
/// on the clock.
#[verifier::external_body]
pub(crate) fn elapsed_since(t: &SystemTime) -> Option<Duration> {
    t.elapsed().ok()
}

/// `Duration::as_secs`: the whole seconds of `d`.  `Duration` is opaque to
/// verified code, so no clause ties the result to `d`.
#[verifier::external_body]
pub(crate) fn whole_secs(d: &Duration) -> u64 {
    d.as_secs()
}

/// The length of `d` in nanoseconds, as `Duration::as_nanos` gives it.
pub uninterp spec fn nanos_of(d: Duration) -> u128;

/// `Duration::as_nanos`: the length of `d` in nanoseconds; `Duration`s are
/// ordered as these numbers are.  The result depends on `d` alone, and is
/// named `nanos_of(d)`.
#[verifier::external_body]
pub(crate) fn total_nanos(d: &Duration) -> (r: u128)
    ensures
        r == nanos_of(*d),
{
    d.as_nanos()
}

/// The duration of `secs` whole seconds, as `Duration::from_secs` makes it.
pub uninterp spec fn duration_of_secs(secs: u64) -> Duration;

/// `Duration::from_secs`: the duration of `secs` seconds.  The result depends
/// on `secs` alone, and is named `duration_of_secs(secs)`.
#[verifier::external_body]
fn duration_from_secs(secs: u64) -> (r: Duration)
    ensures
        r == duration_of_secs(secs),
        nanos_of(r) == secs * 1_000_000_000,
{
    Duration::from_secs(secs)
}

/// Queue length above which a busy queue may get one more thread.
pub const TASKS_IN_QUEUE_UP: usize = 10;

/// Queue length at or below which an idle queue may lose one thread.
pub const TASKS_IN_QUEUE_DOWN: usize = 0;

/// Calls per second above which a busy queue may get one more thread.
pub const TASKS_ADD_FREQ_UP: usize = 5;

/// How many threads one decision adds or removes.
pub const DELTA_COUNT: usize = 1;

/// Seconds between two changes of a policy made by `DynamicSpawnPolicy::new`.
pub const DEFAULT_DELTA_SECS: u64 = 300;

/// Controls the number of threads of a queue.
pub trait SpawnPolicy {
    /// Whether this policy, as it stands, may answer `count` when told
    /// `stats`.  A policy that does not say admits every answer.
    open spec fn gives(&self, stats: TaskQueueStats, count: usize) -> bool {
        true
    }

    /// Returns current number of threads.
    fn get_count(&mut self, stats: TaskQueueStats) -> (r: usize)
        ensures
            old(self).gives(stats, r),
    ;
}

/// Policy that provide max number of threads for queue.
pub struct StaticSpawnPolicy;

impl StaticSpawnPolicy {
    /// Create policy that provide max number of threads for queue.
    pub fn new() -> StaticSpawnPolicy {
        StaticSpawnPolicy
    }
}

impl SpawnPolicy for StaticSpawnPolicy {
    open spec fn gives(&self, stats: TaskQueueStats, count: usize) -> bool {
        count == stats.threads_max
    }

    fn get_count(&mut self, stats: TaskQueueStats) -> (r: usize)
        ensures
            r == stats.threads_max,
    {
        stats.threads_max
    }
}

/// The current thread count moved into `threads_min..=threads_max`
/// (to `threads_max` where the bounds cross).
pub open spec fn clamped(stats: TaskQueueStats) -> int {
    let c = if stats.threads_count < stats.threads_min {
        stats.threads_min
    } else {
        stats.threads_count
    };
    if stats.threads_max < c {
        stats.threads_max as int
    } else {
        c as int
    }
}

/// Whether a queue that sees `calls_per_sec` new tasks a second should get one more thread.
pub open spec fn wants_more(stats: TaskQueueStats, calls_per_sec: usize) -> bool {
    &&& calls_per_sec > TASKS_ADD_FREQ_UP
    &&& stats.tasks_count > TASKS_IN_QUEUE_UP
    &&& clamped(stats) < stats.threads_max
}

/// Whether a queue should lose one thread.
pub open spec fn wants_fewer(stats: TaskQueueStats) -> bool {
    &&& stats.tasks_count <= TASKS_IN_QUEUE_DOWN
    &&& clamped(stats) > stats.threads_min
}

/// The count a dynamic policy settles on once it may change the count.
pub open spec fn adjusted(stats: TaskQueueStats, calls_per_sec: usize) -> int {
    if wants_more(stats, calls_per_sec) {
        clamped(stats) + DELTA_COUNT
    } else if wants_fewer(stats) {
        clamped(stats) - DELTA_COUNT
    } else {
        clamped(stats)
    }
}

/// The average number of calls a second over `elapsed_secs` seconds, if any time passed.
pub open spec fn rate(calls: usize, elapsed_secs: u64) -> Option<usize> {
    if elapsed_secs as usize == 0 {
        None
    } else {
        Some((calls / (elapsed_secs as usize)) as usize)
    }
}

/// The count a dynamic policy returns for a queue described by `stats`,
/// given the time passed since its last change (`None`: the clock went
/// back), the least time between changes, and the calls a second it counted
/// (`None`: not a whole second yet): the clamped count until `delta_nanos`
/// has passed, the adjusted count after.
pub open spec fn stepped(
    stats: TaskQueueStats,
    elapsed_nanos: Option<u128>,
    delta_nanos: u128,
    calls_per_sec: Option<usize>,
) -> int {
    match elapsed_nanos {
        None => clamped(stats),
        Some(e) => if e < delta_nanos {
            clamped(stats)
        } else {
            match calls_per_sec {
                None => clamped(stats),
                Some(n) => adjusted(stats, n),
            }
        },
    }
}

/// The number of calls counted once one more call is counted.
pub open spec fn one_more(calls: int) -> int {
    if calls >= usize::MAX {
        usize::MAX as int
    } else {
        calls + 1
    }
}

/// The calls a second that `calls` calls make over the whole seconds of
/// `reading`; `None` without a reading, or where the clock went back.
pub open spec fn reading_rate(calls: int, reading: Option<Reading>) -> Option<usize> {
    match reading {
        Some(b) => match b.secs() {
            Some(s) => rate(calls as usize, s),
            None => None,
        },
        None => None,
    }
}

/// The nanoseconds of a reading, `None` without one.
pub open spec fn reading_nanos(reading: Option<Reading>) -> Option<u128> {
    match reading {
        Some(a) => a.nanos(),
        None => None,
    }
}

/// Moves the thread count of `stats` into the queue's bounds.
pub fn clamp_count(stats: TaskQueueStats) -> (r: usize)
    ensures
        r == clamped(stats),
{
    let mut count = stats.threads_count;
    if count < stats.threads_min {
        count = stats.threads_min;
    }
    if stats.threads_max < count {
        count = stats.threads_max;
    }
    count
}

/// The count that a dynamic policy returns, once it may change the count,
/// for a queue described by `stats` that receives `calls_per_sec` tasks a second.
pub fn adjust_count(stats: TaskQueueStats, calls_per_sec: usize) -> (r: usize)
    ensures
        r == adjusted(stats, calls_per_sec),
{
    let count = clamp_count(stats);
    let freq_for_up = calls_per_sec > TASKS_ADD_FREQ_UP;
    let tasks_for_up = stats.tasks_count > TASKS_IN_QUEUE_UP;
    let tasks_for_down = stats.tasks_count <= TASKS_IN_QUEUE_DOWN;
    let not_max_threads = count < stats.threads_max;
    let not_min_threads = count > stats.threads_min;
    if freq_for_up && tasks_for_up && not_max_threads {
        return count + DELTA_COUNT;
    }
    if tasks_for_down && not_min_threads {
        return count - DELTA_COUNT;
    }
    count
}

/// The decision of a dynamic policy once the clock has been read: see `stepped`.
pub fn step_count(
    stats: TaskQueueStats,
    elapsed_nanos: Option<u128>,
    delta_nanos: u128,
    calls_per_sec: Option<usize>,
) -> (r: usize)
    ensures
        r == stepped(stats, elapsed_nanos, delta_nanos, calls_per_sec),
{
    let count = clamp_count(stats);
    let elapsed = match elapsed_nanos {
        Some(e) => e,
        None => return count,
    };
    if elapsed < delta_nanos {
        return count;
    }
    match calls_per_sec {
        Some(n) => adjust_count(stats, n),
        None => count,
    }
}

/// Calls per second from `calls` calls over `elapsed_secs` seconds;
/// `None` when less than a second passed.
pub fn calls_rate(calls: usize, elapsed_secs: u64) -> (r: Option<usize>)
    ensures
        r == rate(calls, elapsed_secs),
{
    let elapsed_sec = elapsed_secs as usize;
    if elapsed_sec == 0 {
        return None;
    }
    Some(calls / elapsed_sec)
}

/// Counts the calls made of a policy since a first one.
struct PolicyStats {
    calls_count: usize,
    first_call_at: Option<SystemTime>,
}

impl PolicyStats {
    fn new() -> (s: PolicyStats)
        ensures
            s == (PolicyStats { calls_count: 0, first_call_at: None }),
    {
        PolicyStats { calls_count: 0, first_call_at: None }
    }

    /// Counts one call; the first call starts the clock.
    fn increment(&mut self)
        ensures
            final(self).calls_count == (if old(self).calls_count == usize::MAX {
                usize::MAX as int
            } else {
                old(self).calls_count + 1
            }),
            final(self).first_call_at is Some,
            old(self).first_call_at is Some ==> final(self).first_call_at == old(self).first_call_at,
    {
        self.calls_count = self.calls_count.saturating_add(1);
        if self.first_call_at.is_none() {
            self.first_call_at = Some(clock_now());
        }
    }

    /// Forgets every call counted: the stats are again those of `new`, so
    /// that `calls_per_sec` gives `None` until a call is counted, and the
    /// next `increment` counts one call and starts the clock anew.
    fn reset(&mut self)
        ensures
            *final(self) == (PolicyStats { calls_count: 0, first_call_at: None }),
    {
        self.calls_count = 0;
        self.first_call_at = None;
    }

    /// Average calls a second since the first call; `None` before any call,
    /// when the clock went back, or before a whole second passed.
    fn calls_per_sec(&self) -> (r: (Option<usize>, Option<Reading>))
        ensures
            self.first_call_at is None ==> r.0 is None && r.1 is None,
            self.first_call_at matches Some(t) ==> (r.1 matches Some(b) && b.start() == t),
            r.0 == reading_rate(self.calls_count as int, r.1),
            r.0 matches Some(n) ==> exists|secs: u64| #[trigger] rate(self.calls_count, secs) == Some(n),
    {
        let first = match &self.first_call_at {
            Some(t) => t,
            None => return (None, None),
        };
        let reading = Reading::since(first);
        let rate = match reading.elapsed_secs() {
            Some(secs) => calls_rate(self.calls_count, secs),
            None => None,
        };
        (rate, Some(reading))
    }
}

/// Policy that provide dynamic number of threads for queue.
pub struct DynamicSpawnPolicy {
    stats: PolicyStats,
    last_change: SystemTime,
    delta: Duration,
    /// The clock read by the last call: the time since the last change.
    change_reading: Option<Reading>,
    /// The clock read by the last call: the time since the first call counted.
    rate_reading: Option<Reading>,
}

impl DynamicSpawnPolicy {
    /// The number of calls counted since the count last changed.
    pub closed spec fn calls(&self) -> int {
        self.stats.calls_count as int
    }

    /// Whether a call was counted since the count last changed.
    pub closed spec fn counting(&self) -> bool {
        self.stats.first_call_at is Some
    }

    /// The least time between two changes of the count.
    pub closed spec fn delta(&self) -> Duration {
        self.delta
    }

    /// When the count last changed (or the policy was made).
    pub closed spec fn last_change(&self) -> SystemTime {
        self.last_change
    }

    /// When the first call counted since the last change was made.
    pub closed spec fn counted_since(&self) -> Option<SystemTime> {
        self.stats.first_call_at
    }

    /// What the last call read of the time passed since the last change.
    pub closed spec fn change_reading(&self) -> Option<Reading> {
        self.change_reading
    }

    /// What the last call read of the time passed since the first call counted.
    pub closed spec fn rate_reading(&self) -> Option<Reading> {
        self.rate_reading
    }

    /// Create policy that provide dynamic number of threads for queue.
    /// Policy will trying to change number of threads every 5 minutes.
    pub fn new() -> (p: DynamicSpawnPolicy)
        ensures
            p.calls() == 0,
            !p.counting(),
            p.delta() == duration_of_secs(DEFAULT_DELTA_SECS),
            nanos_of(p.delta()) == DEFAULT_DELTA_SECS * 1_000_000_000,
    {
        DynamicSpawnPolicy::with_delta(duration_from_secs(DEFAULT_DELTA_SECS))
    }

    /// Create policy that provide dynamic number of threads for queue.
    /// Policy will trying to change number of threads no more often delta.
    pub fn with_delta(delta: Duration) -> (p: DynamicSpawnPolicy)
        ensures
            p.calls() == 0,
            !p.counting(),
            p.delta() == delta,
    {
        DynamicSpawnPolicy {
            stats: PolicyStats::new(),
            last_change: clock_now(),
            delta: delta,
            change_reading: None,
            rate_reading: None,
        }
    }
}

impl SpawnPolicy for DynamicSpawnPolicy {
    open spec fn gives(&self, stats: TaskQueueStats, count: usize) -> bool {
        count == clamped(stats) || exists|n: usize| count == adjusted(stats, n)
    }

    /// Keeps the count within the bounds, and changes it by one at most, and
    /// only once `delta` has passed since the last change: up for a queue
    /// that is long and fed fast, down for an empty one.
    fn get_count(&mut self, stats: TaskQueueStats) -> (r: usize)
        ensures
            exists|elapsed: Option<u128>, calls_per_sec: Option<usize>|
                {
                    &&& (calls_per_sec matches Some(n) ==> exists|secs: u64|
                        #[trigger] rate(one_more(old(self).calls()) as usize, secs) == Some(n))
                    &&& r == #[trigger] stepped(
                        stats,
                        elapsed,
                        nanos_of(old(self).delta()),
                        calls_per_sec,
                    )
                },
            r == clamped(stats) + 1 ==> stats.tasks_count > TASKS_IN_QUEUE_UP && clamped(stats)
                < stats.threads_max,
            r == clamped(stats) - 1 ==> stats.tasks_count <= TASKS_IN_QUEUE_DOWN && clamped(stats)
                > stats.threads_min,
            stats.threads_min <= stats.threads_max ==> stats.threads_min <= r <= stats.threads_max,
            final(self).delta() == old(self).delta(),
            r != clamped(stats) ==> final(self).calls() == 0 && !final(self).counting(),
            r == clamped(stats) ==> final(self).counting() && final(self).calls() == one_more(
                old(self).calls(),
            ),
            r == clamped(stats) ==> final(self).last_change() == old(self).last_change(),
            final(self).change_reading() matches Some(a) && a.start() == old(self).last_change(),
            final(self).rate_reading() matches Some(b) && (old(self).counting() ==> Some(b.start())
                == old(self).counted_since()),
            r == stepped(
                stats,
                reading_nanos(final(self).change_reading()),
                nanos_of(old(self).delta()),
                reading_rate(one_more(old(self).calls()), final(self).rate_reading()),
            ),
            (reading_nanos(final(self).change_reading()) matches Some(e) && e < nanos_of(
                old(self).delta(),
            )) ==> r == clamped(stats),
            reading_nanos(final(self).change_reading()) is None ==> r == clamped(stats),
            r == clamped(stats) + 1 ==> (reading_rate(one_more(old(self).calls()), final(self).rate_reading())
                matches Some(n) && n > TASKS_ADD_FREQ_UP),
    {
        self.stats.increment();
        let since_change = Reading::since(&self.last_change);
        let (calls_per_sec, since_first) = self.stats.calls_per_sec();
        let next = step_count(stats, since_change.elapsed_nanos(), total_nanos(&self.delta), calls_per_sec);
        self.change_reading = Some(since_change);
        self.rate_reading = since_first;
        proof {
            assert(self.stats.calls_count == one_more(old(self).calls()));
            assert(calls_per_sec matches Some(n) ==> exists|secs: u64|
                #[trigger] rate(one_more(old(self).calls()) as usize, secs) == Some(n));
            assert(next == stepped(
                stats,
                reading_nanos(self.change_reading),
                nanos_of(old(self).delta()),
                calls_per_sec,
            ));
        }
        if next != clamp_count(stats) {
            self.stats.reset();
            self.last_change = clock_now();
        }
        next
    }
}

} // verus!
