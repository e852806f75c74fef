//! The decisions of the two tournament background workers, written as state
//! machines. The driver performs each action (a database query, a poll of one
//! of the tournament services, waiting for the next tick) and hands its
//! outcome back as the next event.
use vstd::prelude::*;

verus! {

/// Where the polling worker stands within one tick.
#[derive(Debug, Clone, Copy, PartialEq, Eq, Structural)]
pub enum PollPhase {
    /// Waiting for the next tick of the interval.
    Idle,
    /// The advisory lock was asked for.
    AwaitingLock,
    /// Stale rounds are being advanced.
    AdvancingRounds,
    /// Unfinalized payouts are being settled.
    SettlingPayouts,
    /// Finished tournaments are being cleaned up.
    CleaningUp,
    /// The advisory lock is being released.
    Unlocking,
}

/// What the driver reports back to the polling worker.
#[derive(Debug, Clone, Copy, PartialEq, Eq, Structural)]
pub enum PollEvent {
    /// The interval ticked.
    Tick,
    /// The answer to the lock query; a failed query counts as `false`.
    LockResult(bool),
    /// One of the three polls finished; `true` when it succeeded.
    StepFinished(bool),
    /// The unlock query returned (its outcome is not looked at).
    Unlocked,
}

/// What the polling worker asks the driver to do next.
#[derive(Debug, Clone, Copy, PartialEq, Eq, Structural)]
pub enum PollAction {
    /// Wait for the next tick.
    AwaitTick,
    /// Try to take the advisory lock of the poller.
    TryLock,
    /// Advance the rounds that have gone stale.
    PollStaleRounds,
    /// Settle the payouts of finished tournaments.
    PollUnfinalized,
    /// Clean up what finished tournaments left behind.
    PollCleanup,
    /// Release the advisory lock.
    ReleaseLock,
}

/// The polling worker's transition: `None` when the event cannot come in
/// that phase.
pub open spec fn poll_step_spec(phase: PollPhase, event: PollEvent) -> Option<(PollPhase, PollAction)> {
    match (phase, event) {
        (PollPhase::Idle, PollEvent::Tick) => Some((PollPhase::AwaitingLock, PollAction::TryLock)),
        (PollPhase::AwaitingLock, PollEvent::LockResult(locked)) => {
            if locked {
                Some((PollPhase::AdvancingRounds, PollAction::PollStaleRounds))
            } else {
                Some((PollPhase::Idle, PollAction::AwaitTick))
            }
        },
        (PollPhase::AdvancingRounds, PollEvent::StepFinished(_)) => Some(
            (PollPhase::SettlingPayouts, PollAction::PollUnfinalized),
        ),
        (PollPhase::SettlingPayouts, PollEvent::StepFinished(_)) => Some(
            (PollPhase::CleaningUp, PollAction::PollCleanup),
        ),
        (PollPhase::CleaningUp, PollEvent::StepFinished(_)) => Some(
            (PollPhase::Unlocking, PollAction::ReleaseLock),
        ),
        (PollPhase::Unlocking, PollEvent::Unlocked) => Some((PollPhase::Idle, PollAction::AwaitTick)),
        _ => None,
    }
}

/// Feeds `events` one by one from `phase`: the final phase and the actions
/// asked for, or `None` when some event does not fit its phase.
pub open spec fn run_poll(phase: PollPhase, events: Seq<PollEvent>) -> Option<(PollPhase, Seq<PollAction>)>
    decreases events.len(),
{
    if events.len() == 0 {
        Some((phase, Seq::empty()))
    } else {
        match poll_step_spec(phase, events[0]) {
            None => None,
            Some((next, action)) => match run_poll(next, events.drop_first()) {
                None => None,
                Some((last, actions)) => Some((last, seq![action] + actions)),
            },
        }
    }
}

/// One step of the polling worker: skip the tick when another instance
/// holds the lock; otherwise run the three polls in order, whatever each of
/// them returns, and release the lock.
pub fn poll_step(phase: PollPhase, event: PollEvent) -> (r: Option<(PollPhase, PollAction)>)
    ensures
        r == poll_step_spec(phase, event),
{
    match (phase, event) {
        (PollPhase::Idle, PollEvent::Tick) => Some((PollPhase::AwaitingLock, PollAction::TryLock)),
        (PollPhase::AwaitingLock, PollEvent::LockResult(locked)) => {
            if locked {
                Some((PollPhase::AdvancingRounds, PollAction::PollStaleRounds))
            } else {
                Some((PollPhase::Idle, PollAction::AwaitTick))
            }
        },
        (PollPhase::AdvancingRounds, PollEvent::StepFinished(_)) => Some(
            (PollPhase::SettlingPayouts, PollAction::PollUnfinalized),
        ),
        (PollPhase::SettlingPayouts, PollEvent::StepFinished(_)) => Some(
            (PollPhase::CleaningUp, PollAction::PollCleanup),
        ),
        (PollPhase::CleaningUp, PollEvent::StepFinished(_)) => Some(
            (PollPhase::Unlocking, PollAction::ReleaseLock),
        ),
        (PollPhase::Unlocking, PollEvent::Unlocked) => Some((PollPhase::Idle, PollAction::AwaitTick)),
        _ => None,
    }
}

/// Where the job worker stands within one tick.
#[derive(Debug, Clone, Copy, PartialEq, Eq, Structural)]
pub enum JobPhase {
    /// Waiting for the next tick of the interval.
    Idle,
    /// The next queued job was asked for.
    Claiming,
    /// The claimed job is being processed.
    Processing,
    /// The failed job's retry state is being updated.
    MarkingFailed,
    /// The failed job is being recorded as a dead letter.
    RecordingDeadLetter,
}

/// What the driver reports back to the job worker.
#[derive(Debug, Clone, Copy, PartialEq, Eq, Structural)]
pub enum JobEvent {
    /// The interval ticked.
    Tick,
    /// The claim returned; `true` when a job came back (a failed claim counts
    /// as no job).
    Claimed(bool),
    /// Processing returned; `true` when the job succeeded.
    Processed(bool),
    /// The retry-state update returned (its outcome is only logged).
    MarkedFailed,
    /// The dead-letter record returned (its outcome is only logged).
    DeadLettered,
}

/// What the job worker asks the driver to do next; the job concerned is
/// always the one claimed last.
#[derive(Debug, Clone, Copy, PartialEq, Eq, Structural)]
pub enum JobAction {
    /// Wait for the next tick.
    AwaitTick,
    /// Claim the next queued job.
    ClaimNext,
    /// Process the claimed job.
    Process,
    /// Update the retry state of the failed job with its error.
    MarkFailed,
    /// Record the failed job and its error as a dead letter.
    RecordDeadLetter,
}

/// The job worker's transition: `None` when the event cannot come in that
/// phase.
pub open spec fn job_step_spec(phase: JobPhase, event: JobEvent) -> Option<(JobPhase, JobAction)> {
    match (phase, event) {
        (JobPhase::Idle, JobEvent::Tick) => Some((JobPhase::Claiming, JobAction::ClaimNext)),
        (JobPhase::Claiming, JobEvent::Claimed(found)) => {
            if found {
                Some((JobPhase::Processing, JobAction::Process))
            } else {
                Some((JobPhase::Idle, JobAction::AwaitTick))
            }
        },
        (JobPhase::Processing, JobEvent::Processed(ok)) => {
            if ok {
                Some((JobPhase::Idle, JobAction::AwaitTick))
            } else {
                Some((JobPhase::MarkingFailed, JobAction::MarkFailed))
            }
        },
        (JobPhase::MarkingFailed, JobEvent::MarkedFailed) => Some(
            (JobPhase::RecordingDeadLetter, JobAction::RecordDeadLetter),
        ),
        (JobPhase::RecordingDeadLetter, JobEvent::DeadLettered) => Some(
            (JobPhase::Idle, JobAction::AwaitTick),
        ),
        _ => None,
    }
}

/// Feeds `events` one by one from `phase`: the final phase and the actions
/// asked for, or `None` when some event does not fit its phase.
pub open spec fn run_jobs(phase: JobPhase, events: Seq<JobEvent>) -> Option<(JobPhase, Seq<JobAction>)>
    decreases events.len(),
{
    if events.len() == 0 {
        Some((phase, Seq::empty()))
    } else {
        match job_step_spec(phase, events[0]) {
            None => None,
            Some((next, action)) => match run_jobs(next, events.drop_first()) {
                None => None,
                Some((last, actions)) => Some((last, seq![action] + actions)),
            },
        }
    }
}

/// One step of the job worker: claim the next job each tick; process it;
/// when processing fails, update its retry state and then record it as a
/// dead letter, whatever the update returned.
pub fn job_step(phase: JobPhase, event: JobEvent) -> (r: Option<(JobPhase, JobAction)>)
    ensures
        r == job_step_spec(phase, event),
{
    match (phase, event) {
        (JobPhase::Idle, JobEvent::Tick) => Some((JobPhase::Claiming, JobAction::ClaimNext)),
        (JobPhase::Claiming, JobEvent::Claimed(found)) => {
            if found {
                Some((JobPhase::Processing, JobAction::Process))
            } else {
                Some((JobPhase::Idle, JobAction::AwaitTick))
            }
        },
        (JobPhase::Processing, JobEvent::Processed(ok)) => {
            if ok {
                Some((JobPhase::Idle, JobAction::AwaitTick))
            } else {
                Some((JobPhase::MarkingFailed, JobAction::MarkFailed))
            }
        },
        (JobPhase::MarkingFailed, JobEvent::MarkedFailed) => Some(
            (JobPhase::RecordingDeadLetter, JobAction::RecordDeadLetter),
        ),
        (JobPhase::RecordingDeadLetter, JobEvent::DeadLettered) => Some(
            (JobPhase::Idle, JobAction::AwaitTick),
        ),
        _ => None,
    }
}

} // verus!
