//! When tasks started, and for how long they have been running.
use std::time::{Duration, Instant};
use vstd::hash_map::StringHashMap;
use vstd::prelude::*;

verus! {

/// `std::time::Instant`, a reading of the monotonic clock.
#[verifier::external_type_specification]
#[verifier::external_body]
pub struct ExInstant(std::time::Instant);

/// Nanoseconds in a second.
pub const NANOS_PER_SEC: u128 = 1_000_000_000;

/// The longest time that `std::time::Duration` can hold, in nanoseconds.
pub const MAX_NANOS: u128 = 18_446_744_073_709_551_615_999_999_999;

/// Calls `Instant::now`. Nothing is stated of the reading: it depends on the time.
#[verifier::external_body]
fn clock_now() -> (now: Instant) {
    Instant::now()
}

/// Calls `Instant::elapsed`. Nothing is stated of the duration: it depends on the time.
#[verifier::external_body]
fn time_since(origin: &Instant) -> (elapsed: Duration) {
    origin.elapsed()
}

/// How long a duration is, in nanoseconds.
pub uninterp spec fn nanos_of(duration: Duration) -> u128;

/// Calls `Duration::as_nanos`, which gives the length of a duration in nanoseconds. No duration is
/// longer than `Duration` can hold.
#[verifier::external_body]
fn duration_nanos(duration: &Duration) -> (nanos: u128)
    ensures
        nanos == nanos_of(*duration),
        nanos <= MAX_NANOS,
{
    duration.as_nanos()
}

/// Whether the clock can show, when it is read, that `elapsed` has passed since `origin`.
pub closed spec fn clock_shows(origin: Instant, elapsed: Duration) -> bool {
    call_ensures(time_since, (&origin,), elapsed)
}

/// The start of each running task, in nanoseconds after a fixed origin.
pub struct TaskStarts {
    origin: Instant,
    starts: StringHashMap<u128>,
}

impl View for TaskStarts {
    type V = Map<Seq<char>, u128>;

    closed spec fn view(&self) -> Map<Seq<char>, u128> {
        self.starts@
    }
}

/// The starts once a task has been asked for at time `now`: one that was not running starts.
pub open spec fn started(starts: Map<Seq<char>, u128>, task_id: Seq<char>, now: u128) -> Map<
    Seq<char>,
    u128,
> {
    if starts.contains_key(task_id) {
        starts
    } else {
        starts.insert(task_id, now)
    }
}

/// Whole seconds from `start` to `now`, none where `now` comes first.
pub open spec fn whole_secs(start: u128, now: u128) -> int {
    if start <= now {
        (now - start) / NANOS_PER_SEC as int
    } else {
        0
    }
}

impl TaskStarts {
    /// The instant that time counts from.
    pub closed spec fn origin(&self) -> Instant {
        self.origin
    }

    /// No running task. Time counts from now.
    pub fn new() -> (starts: TaskStarts)
        ensures
            starts@ == Map::<Seq<char>, u128>::empty(),
    {
        TaskStarts::since(clock_now())
    }

    /// No running task. Time counts from `origin`.
    pub fn since(origin: Instant) -> (starts: TaskStarts)
        ensures
            starts.origin() == origin,
            starts@ == Map::<Seq<char>, u128>::empty(),
    {
        TaskStarts { origin, starts: StringHashMap::new() }
    }

    /// The whole seconds that a task has been running at time `now`. A task that is not running
    /// starts at that time.
    pub fn elapsed_secs_at(&mut self, task_id: &str, now: u128) -> (secs: u64)
        requires
            now <= MAX_NANOS,
        ensures
            final(self)@ == started(old(self)@, task_id@, now),
            secs == whole_secs(started(old(self)@, task_id@, now)[task_id@], now),
            final(self).origin() == old(self).origin(),
    {
        let start: u128 = match self.starts.get(task_id) {
            Some(start) => *start,
            None => {
                self.starts.insert(task_id.to_owned(), now);
                now
            },
        };
        if start <= now {
            ((now - start) / NANOS_PER_SEC) as u64
        } else {
            0
        }
    }

    /// The whole seconds that a task has been running by now. A task that is not running starts
    /// now.
    pub fn elapsed_secs(&mut self, task_id: &str) -> (secs: u64)
        ensures
            exists|elapsed: Duration|
                {
                    let now = nanos_of(elapsed);
                    &&& #[trigger] clock_shows(old(self).origin(), elapsed)
                    &&& now <= MAX_NANOS
                    &&& final(self)@ == started(old(self)@, task_id@, now)
                    &&& secs == whole_secs(started(old(self)@, task_id@, now)[task_id@], now)
                },
            final(self).origin() == old(self).origin(),
    {
        let elapsed = time_since(&self.origin);
        assert(clock_shows(self.origin(), elapsed));
        let now: u128 = duration_nanos(&elapsed);
        self.elapsed_secs_at(task_id, now)
    }

    /// Forgets the start of a task.
    pub fn stop(&mut self, task_id: &str)
        ensures
            final(self)@ == old(self)@.remove(task_id@),
            final(self).origin() == old(self).origin(),
    {
        self.starts.remove(task_id);
    }
}

/// A task keeps its start through every later turn until it is stopped, so the time that it has
/// been running never shrinks.
pub proof fn law_elapsed_survives_later_turns(
    starts: Map<Seq<char>, u128>,
    task_id: Seq<char>,
    first: u128,
    later: u128,
)
    requires
        first <= later,
    ensures
        ({
            let running = started(starts, task_id, first);
            &&& started(running, task_id, later) == running
            &&& whole_secs(running[task_id], first) <= whole_secs(running[task_id], later)
        }),
{
    let start = started(starts, task_id, first)[task_id];
    if start <= first {
        vstd::arithmetic::div_mod::lemma_div_is_ordered(
            first - start,
            later - start,
            NANOS_PER_SEC as int,
        );
    } else if start <= later {
        vstd::arithmetic::div_mod::lemma_div_pos_is_pos(later - start, NANOS_PER_SEC as int);
    }
}

/// What happens to the clocks of tasks.
pub enum ClockTurn {
    /// A task is asked for at some time.
    Asked(Seq<char>, u128),
    /// A task is stopped.
    Stopped(Seq<char>),
}

/// The starts after one turn and the next.
pub open spec fn after_turns(starts: Map<Seq<char>, u128>, turns: Seq<ClockTurn>) -> Map<
    Seq<char>,
    u128,
>
    decreases turns.len(),
{
    if turns.len() == 0 {
        starts
    } else {
        let next = match turns[0] {
            ClockTurn::Asked(task_id, now) => started(starts, task_id, now),
            ClockTurn::Stopped(task_id) => starts.remove(task_id),
        };
        after_turns(next, turns.drop_first())
    }
}

/// A running task keeps its start until it is stopped, whatever else is asked for or stopped.
pub proof fn law_start_survives_until_stopped(
    starts: Map<Seq<char>, u128>,
    task_id: Seq<char>,
    turns: Seq<ClockTurn>,
)
    requires
        starts.contains_key(task_id),
        forall|i: int| 0 <= i < turns.len() ==> #[trigger] turns[i] != ClockTurn::Stopped(task_id),
    ensures
        after_turns(starts, turns).contains_key(task_id),
        after_turns(starts, turns)[task_id] == starts[task_id],
    decreases turns.len(),
{
    if turns.len() > 0 {
        let rest = turns.drop_first();
        assert(turns[0] != ClockTurn::Stopped(task_id));
        assert forall|i: int| 0 <= i < rest.len() implies #[trigger] rest[i]
            != ClockTurn::Stopped(task_id) by {
            assert(rest[i] == turns[i + 1]);
        }
        let next = match turns[0] {
            ClockTurn::Asked(other, now) => started(starts, other, now),
            ClockTurn::Stopped(other) => starts.remove(other),
        };
        law_start_survives_until_stopped(next, task_id, rest);
    }
}

/// A task that has been stopped starts over when it is next asked for.
pub proof fn law_stopped_task_starts_over(
    starts: Map<Seq<char>, u128>,
    task_id: Seq<char>,
    now: u128,
)
    ensures
        started(starts.remove(task_id), task_id, now)[task_id] == now,
        whole_secs(started(starts.remove(task_id), task_id, now)[task_id], now) == 0,
{
}

/// To ask for one task, or to stop it, leaves every other task as it is.
pub proof fn law_tasks_are_independent(
    starts: Map<Seq<char>, u128>,
    task_id: Seq<char>,
    other: Seq<char>,
    now: u128,
)
    requires
        task_id != other,
    ensures
        started(starts, task_id, now).contains_key(other) == starts.contains_key(other),
        starts.remove(task_id).contains_key(other) == starts.contains_key(other),
        starts.contains_key(other) ==> started(starts, task_id, now)[other] == starts[other]
            && starts.remove(task_id)[other] == starts[other],
{
}

/// The seconds that a task has been running are the whole ones that fit between its start and now.
pub proof fn law_elapsed_counts_whole_seconds(start: u128, now: u128)
    ensures
        start <= now ==> start + whole_secs(start, now) * 1_000_000_000 <= now,
        start <= now ==> now < start + (whole_secs(start, now) + 1) * 1_000_000_000,
        now < start ==> whole_secs(start, now) == 0,
{
}

/// The first time that a task is asked for is its start, and no later time is.
pub proof fn law_first_turn_is_the_start(
    starts: Map<Seq<char>, u128>,
    task_id: Seq<char>,
    first: u128,
    later: u128,
)
    requires
        !starts.contains_key(task_id),
    ensures
        started(starts, task_id, first).contains_key(task_id),
        started(starts, task_id, first)[task_id] == first,
        started(started(starts, task_id, first), task_id, later)[task_id] == first,
{
}

} // verus!
