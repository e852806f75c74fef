use backend::orchestrator::{
    job_step, poll_step, JobAction, JobEvent, JobPhase, PollAction, PollEvent, PollPhase,
};

fn run_poll(events: &[PollEvent]) -> Option<(PollPhase, Vec<PollAction>)> {
    let mut phase = PollPhase::Idle;
    let mut actions = Vec::new();
    for event in events {
        let (next, action) = poll_step(phase, *event)?;
        phase = next;
        actions.push(action);
    }
    Some((phase, actions))
}

fn run_jobs(events: &[JobEvent]) -> Option<(JobPhase, Vec<JobAction>)> {
    let mut phase = JobPhase::Idle;
    let mut actions = Vec::new();
    for event in events {
        let (next, action) = job_step(phase, *event)?;
        phase = next;
        actions.push(action);
    }
    Some((phase, actions))
}

#[test]
fn poller_runs_all_sweeps_even_when_they_fail() {
    let (phase, actions) = run_poll(&[
        PollEvent::Tick,
        PollEvent::LockResult(true),
        PollEvent::StepFinished(false),
        PollEvent::StepFinished(false),
        PollEvent::StepFinished(true),
        PollEvent::Unlocked,
    ])
    .unwrap();
    assert_eq!(phase, PollPhase::Idle);
    assert_eq!(
        actions,
        vec![
            PollAction::TryLock,
            PollAction::PollStaleRounds,
            PollAction::PollUnfinalized,
            PollAction::PollCleanup,
            PollAction::ReleaseLock,
            PollAction::AwaitTick,
        ]
    );
}

#[test]
fn poller_skips_tick_without_lock() {
    let (phase, actions) = run_poll(&[PollEvent::Tick, PollEvent::LockResult(false)]).unwrap();
    assert_eq!(phase, PollPhase::Idle);
    assert_eq!(actions, vec![PollAction::TryLock, PollAction::AwaitTick]);
}

#[test]
fn poller_rejects_out_of_order_events() {
    assert_eq!(poll_step(PollPhase::Idle, PollEvent::Unlocked), None);
    assert_eq!(poll_step(PollPhase::AwaitingLock, PollEvent::Tick), None);
    assert_eq!(poll_step(PollPhase::Unlocking, PollEvent::StepFinished(true)), None);
}

#[test]
fn job_worker_dead_letters_failed_job() {
    let (phase, actions) = run_jobs(&[
        JobEvent::Tick,
        JobEvent::Claimed(true),
        JobEvent::Processed(false),
        JobEvent::MarkedFailed,
        JobEvent::DeadLettered,
    ])
    .unwrap();
    assert_eq!(phase, JobPhase::Idle);
    assert_eq!(
        actions,
        vec![
            JobAction::ClaimNext,
            JobAction::Process,
            JobAction::MarkFailed,
            JobAction::RecordDeadLetter,
            JobAction::AwaitTick,
        ]
    );
}

#[test]
fn job_worker_completes_successful_job() {
    let (phase, actions) =
        run_jobs(&[JobEvent::Tick, JobEvent::Claimed(true), JobEvent::Processed(true)]).unwrap();
    assert_eq!(phase, JobPhase::Idle);
    assert_eq!(actions, vec![JobAction::ClaimNext, JobAction::Process, JobAction::AwaitTick]);
}

#[test]
fn job_worker_idles_when_queue_empty() {
    let (phase, actions) = run_jobs(&[JobEvent::Tick, JobEvent::Claimed(false)]).unwrap();
    assert_eq!(phase, JobPhase::Idle);
    assert_eq!(actions, vec![JobAction::ClaimNext, JobAction::AwaitTick]);
    assert_eq!(job_step(JobPhase::Idle, JobEvent::Processed(true)), None);
}
