use vstd::prelude::*;

verus! {

/// Seconds between registering a job and its one-shot run.
pub const ONE_SHOT_DELAY_SECS: u64 = 10;

/// Why a job could not be registered.
#[derive(Debug)]
pub enum SchedulingError {
    /// The one-shot run could not be added to the scheduler.
    OneShotErr,
    /// The periodic run could not be added to the scheduler.
    PeriodicErr,
    /// The schedule expression was refused; the scheduler's message.
    ScheduleErr(String),
}

/// What the outside scheduler answered to the last registration step.
#[derive(Debug)]
pub enum RegisterEvent {
    /// Registration begins.
    Start,
    /// The one-shot run was added, or not.
    OneShotAdded(bool),
    /// The periodic job was built from the schedule expression, or the
    /// expression was refused with a message.
    PeriodicCreated(Result<(), String>),
    /// The periodic run was added, or not.
    PeriodicAdded(bool),
}

/// The next registration step for the caller to perform.
#[derive(Debug)]
pub enum RegisterAction {
    AddOneShot,
    CreatePeriodic,
    AddPeriodic,
    Finish(Result<(), SchedulingError>),
}

/// Registration adds the one-shot run first, then builds and adds the
/// periodic run; the first step that fails ends it with its error.
pub open spec fn register_next(event: RegisterEvent) -> RegisterAction {
    match event {
        RegisterEvent::Start => RegisterAction::AddOneShot,
        RegisterEvent::OneShotAdded(added) => if added {
            RegisterAction::CreatePeriodic
        } else {
            RegisterAction::Finish(Err(SchedulingError::OneShotErr))
        },
        RegisterEvent::PeriodicCreated(created) => match created {
            Ok(_) => RegisterAction::AddPeriodic,
            Err(message) => RegisterAction::Finish(Err(SchedulingError::ScheduleErr(message))),
        },
        RegisterEvent::PeriodicAdded(added) => if added {
            RegisterAction::Finish(Ok(()))
        } else {
            RegisterAction::Finish(Err(SchedulingError::PeriodicErr))
        },
    }
}

/// Decides the next registration step from the scheduler's answer.
pub fn register_step(event: RegisterEvent) -> (r: RegisterAction)
    ensures
        r == register_next(event),
{
    match event {
        RegisterEvent::Start => RegisterAction::AddOneShot,
        RegisterEvent::OneShotAdded(added) => if added {
            RegisterAction::CreatePeriodic
        } else {
            RegisterAction::Finish(Err(SchedulingError::OneShotErr))
        },
        RegisterEvent::PeriodicCreated(created) => match created {
            Ok(_) => RegisterAction::AddPeriodic,
            Err(message) => RegisterAction::Finish(Err(SchedulingError::ScheduleErr(message))),
        },
        RegisterEvent::PeriodicAdded(added) => if added {
            RegisterAction::Finish(Ok(()))
        } else {
            RegisterAction::Finish(Err(SchedulingError::PeriodicErr))
        },
    }
}

/// A registered job runs once or on every tick of its schedule.
#[derive(Clone, Copy, PartialEq, Eq, Structural, Debug)]
pub enum JobKind {
    OneShot,
    Periodic,
}

/// The life of a registered job.
#[derive(Clone, Copy, PartialEq, Eq, Structural, Debug)]
pub enum JobState {
    Pending,
    Scheduled,
    Running,
    Completed,
    Failed,
}

/// What happens to a job.
#[derive(Clone, Copy, PartialEq, Eq, Structural, Debug)]
pub enum JobEvent {
    /// The scheduler accepted the job.
    Registered,
    /// Its time came.
    Fired,
    /// A run ended, well or not.
    Finished { ok: bool },
}

/// The state a job moves to on an event, or `None` where the event cannot
/// happen in that state. A one-shot job ends after its run; a periodic one
/// is scheduled again after each run.
pub open spec fn job_next(kind: JobKind, state: JobState, event: JobEvent) -> Option<JobState> {
    match (state, event) {
        (JobState::Pending, JobEvent::Registered) => Some(JobState::Scheduled),
        (JobState::Scheduled, JobEvent::Fired) => Some(JobState::Running),
        (JobState::Running, JobEvent::Finished { ok }) => match kind {
            JobKind::OneShot => if ok {
                Some(JobState::Completed)
            } else {
                Some(JobState::Failed)
            },
            JobKind::Periodic => Some(JobState::Scheduled),
        },
        _ => None,
    }
}

/// Moves a job along its life.
pub fn job_transition(kind: JobKind, state: JobState, event: JobEvent) -> (r: Option<JobState>)
    ensures
        r == job_next(kind, state, event),
{
    match (state, event) {
        (JobState::Pending, JobEvent::Registered) => Some(JobState::Scheduled),
        (JobState::Scheduled, JobEvent::Fired) => Some(JobState::Running),
        (JobState::Running, JobEvent::Finished { ok }) => match kind {
            JobKind::OneShot => if ok {
                Some(JobState::Completed)
            } else {
                Some(JobState::Failed)
            },
            JobKind::Periodic => Some(JobState::Scheduled),
        },
        _ => None,
    }
}

} // verus!
