use vstd::prelude::*;

use vstd::string::StringSliceAdditionalSpecFns;

verus! {

// ---------------------------------------------------------------------------
// The per-task scheduler state machine
// ---------------------------------------------------------------------------
/// The lifecycle of one scheduled task: waiting for its next tick, running
/// one invocation, or cancelled for good.
#[derive(Clone, Copy, Debug, PartialEq, Eq, Structural)]
pub enum TaskPhase {
    /// Between ticks; the timer is armed.
    Waiting,
    /// A run is in progress; a cancellation that arrives meanwhile is
    /// remembered and honoured when the run resolves.
    Running { cancel_requested: bool },
    /// No more ticks fire for the task.
    Cancelled,
}

/// What can happen to a waiting or running task.
#[derive(Clone, Copy, Debug, PartialEq, Eq, Structural)]
pub enum TaskEvent {
    /// The task's own interval elapsed.
    Tick,
    /// The in-flight run resolved, successfully or not.
    RunFinished { failed: bool },
    /// The process-wide shutdown signal.
    Cancel,
}

/// What the scheduler loop does next.
#[derive(Clone, Copy, Debug, PartialEq, Eq, Structural)]
pub enum TaskAction {
    /// Invoke the task's run operation.
    StartRun,
    /// Re-arm the timer and wait.
    Wait,
    /// Leave the loop; the task has observed cancellation.
    Stop,
}

/// One transition of the per-task loop.
///
/// A tick starts a run only from the waiting state: runs are never
/// re-entrant within one task.  A failed run is logged by the caller and
/// does not stop the schedule: the next tick still fires.  Cancellation
/// wins the race against the timer when the task is waiting; a run already
/// in progress completes first and the task exits when it resolves.
pub open spec fn spec_task_step(phase: TaskPhase, event: TaskEvent) -> (TaskPhase, TaskAction) {
    match (phase, event) {
        (TaskPhase::Waiting, TaskEvent::Tick) => (
            TaskPhase::Running { cancel_requested: false },
            TaskAction::StartRun,
        ),
        (TaskPhase::Waiting, TaskEvent::Cancel) => (TaskPhase::Cancelled, TaskAction::Stop),
        (TaskPhase::Waiting, TaskEvent::RunFinished { .. }) => (
            TaskPhase::Waiting,
            TaskAction::Wait,
        ),
        (TaskPhase::Running { cancel_requested }, TaskEvent::RunFinished { .. }) => {
            if cancel_requested {
                (TaskPhase::Cancelled, TaskAction::Stop)
            } else {
                (TaskPhase::Waiting, TaskAction::Wait)
            }
        },
        (TaskPhase::Running { .. }, TaskEvent::Cancel) => (
            TaskPhase::Running { cancel_requested: true },
            TaskAction::Wait,
        ),
        (TaskPhase::Running { cancel_requested }, TaskEvent::Tick) => (
            TaskPhase::Running { cancel_requested },
            TaskAction::Wait,
        ),
        (TaskPhase::Cancelled, _) => (TaskPhase::Cancelled, TaskAction::Stop),
    }
}

/// Executes one transition of the per-task loop.
pub fn task_step(phase: TaskPhase, event: TaskEvent) -> (r: (TaskPhase, TaskAction))
    ensures
        r == spec_task_step(phase, event),
{
    match (phase, event) {
        (TaskPhase::Waiting, TaskEvent::Tick) => (
            TaskPhase::Running { cancel_requested: false },
            TaskAction::StartRun,
        ),
        (TaskPhase::Waiting, TaskEvent::Cancel) => (TaskPhase::Cancelled, TaskAction::Stop),
        (TaskPhase::Waiting, TaskEvent::RunFinished { .. }) => (
            TaskPhase::Waiting,
            TaskAction::Wait,
        ),
        (TaskPhase::Running { cancel_requested }, TaskEvent::RunFinished { .. }) => {
            if cancel_requested {
                (TaskPhase::Cancelled, TaskAction::Stop)
            } else {
                (TaskPhase::Waiting, TaskAction::Wait)
            }
        },
        (TaskPhase::Running { .. }, TaskEvent::Cancel) => (
            TaskPhase::Running { cancel_requested: true },
            TaskAction::Wait,
        ),
        (TaskPhase::Running { cancel_requested }, TaskEvent::Tick) => (
            TaskPhase::Running { cancel_requested },
            TaskAction::Wait,
        ),
        (TaskPhase::Cancelled, _) => (TaskPhase::Cancelled, TaskAction::Stop),
    }
}

/// Cancellation is for good: no event leaves the cancelled state, and the
/// loop is always told to stop there.
pub proof fn lemma_cancelled_is_final(event: TaskEvent)
    ensures
        spec_task_step(TaskPhase::Cancelled, event) == (TaskPhase::Cancelled, TaskAction::Stop),
{
}

/// A failed run does not stop the schedule: without a pending
/// cancellation the task goes back to waiting, whatever the run's
/// outcome, and the next tick starts a new run at the nominal interval.
pub proof fn lemma_failure_keeps_schedule(failed: bool)
    ensures
        spec_task_step(
            TaskPhase::Running { cancel_requested: false },
            TaskEvent::RunFinished { failed },
        ) == (TaskPhase::Waiting, TaskAction::Wait),
        spec_task_step(TaskPhase::Waiting, TaskEvent::Tick) == (
            TaskPhase::Running { cancel_requested: false },
            TaskAction::StartRun,
        ),
{
}

/// A run in progress is never preempted: cancellation during a run only
/// records the request, and the task exits when the run resolves.
pub proof fn lemma_cancellation_cooperative(failed: bool)
    ensures
        spec_task_step(TaskPhase::Running { cancel_requested: false }, TaskEvent::Cancel) == (
            TaskPhase::Running { cancel_requested: true },
            TaskAction::Wait,
        ),
        spec_task_step(
            TaskPhase::Running { cancel_requested: true },
            TaskEvent::RunFinished { failed },
        ) == (TaskPhase::Cancelled, TaskAction::Stop),
{
}

// ---------------------------------------------------------------------------
// The recurring tasks
// ---------------------------------------------------------------------------
/// A named unit of recurring work: a stable name and a fixed interval.
/// The run operation itself lives with the I/O layer that drives it.
pub trait CronTask: Sized {
    /// The task's name, in contracts.
    spec fn spec_name(&self) -> Seq<char>;

    /// The task's interval in seconds, in contracts.
    spec fn spec_interval_secs(&self) -> u64;

    /// The task's stable name.
    fn name(&self) -> (r: String)
        ensures
            r@ == self.spec_name(),
    ;

    /// The fixed interval between the task's ticks, in seconds.
    fn interval_secs(&self) -> (r: u64)
        ensures
            r == self.spec_interval_secs(),
    ;
}

/// Boxing helper, so that tasks of different types share one collection.
pub trait CronTaskExtension: Sized {
    /// Moves the task to the heap unchanged.
    fn into_boxed(self) -> (r: Box<Self>)
        ensures
            *r == self,
    ;
}

impl<C: CronTask> CronTaskExtension for C {
    fn into_boxed(self) -> (r: Box<Self>) {
        Box::new(self)
    }
}

/// The recurring ingestion run: every twelve hours, diff the catalog
/// against the store and load what is new.
#[derive(Debug)]
pub struct GetSleepoverDataTask;

impl CronTask for GetSleepoverDataTask {
    open spec fn spec_name(&self) -> Seq<char> {
        "GetSleepoverData"@
    }

    open spec fn spec_interval_secs(&self) -> u64 {
        43200
    }

    fn name(&self) -> (r: String) {
        "GetSleepoverData".to_owned()
    }

    fn interval_secs(&self) -> (r: u64) {
        60 * 60 * 12
    }
}

/// A five-minute heartbeat that publishes the change marker.
#[derive(Debug)]
pub struct SendDummyEventTask;

impl CronTask for SendDummyEventTask {
    open spec fn spec_name(&self) -> Seq<char> {
        "SendDummyEvent"@
    }

    open spec fn spec_interval_secs(&self) -> u64 {
        300
    }

    fn name(&self) -> (r: String) {
        "SendDummyEvent".to_owned()
    }

    fn interval_secs(&self) -> (r: u64) {
        60 * 5
    }
}

/// A weekly ping that asks the holiday pipeline to refresh.
#[derive(Debug)]
pub struct StartFerienUpdateTask;

impl CronTask for StartFerienUpdateTask {
    open spec fn spec_name(&self) -> Seq<char> {
        "StartFerienUpdate"@
    }

    open spec fn spec_interval_secs(&self) -> u64 {
        604800
    }

    fn name(&self) -> (r: String) {
        "StartFerienUpdate".to_owned()
    }

    fn interval_secs(&self) -> (r: u64) {
        7 * 24 * 60 * 60
    }
}

// ---------------------------------------------------------------------------
// The change notification
// ---------------------------------------------------------------------------
/// The fixed topic the change notification is published to.
pub fn notification_topic() -> (r: String)
    ensures
        r@ == "new-data-added"@,
{
    "new-data-added".to_owned()
}

/// The notification's payload: an opaque marker, carried as the bytes of
/// a fixed phrase; consumers key off the topic and the message's
/// presence, not its content.
pub fn notification_payload() -> (r: Vec<u8>)
    ensures
        r@ == "new data added".spec_bytes(),
{
    "new data added".as_bytes_vec()
}

} // verus!
