//! Acquiring the LED at startup, retried for a while to ride out boot-time
//! USB enumeration races: the caller attempts and waits, `Startup::step`
//! decides whether to go on.
use crate::error::{Error, ErrorView};
use crate::led::{Led, LedView};
use vstd::prelude::*;

verus! {

/// How many times acquisition is tried before giving up.
pub const ACQUIRE_MAX_ATTEMPTS: u32 = 30;

/// How long to wait after a failed attempt, in milliseconds.
pub const ACQUIRE_RETRY_INTERVAL_MS: u64 = 1000;

/// Where startup acquisition stands.
#[derive(Debug)]
pub enum Startup {
    /// Attempt number `attempt` (from 1) is under way.
    Trying { attempt: u32 },
    /// Attempt number `attempt` failed with `last`; waiting before the next.
    Waiting { attempt: u32, last: Error },
}

pub enum StartupView {
    Trying { attempt: u32 },
    Waiting { attempt: u32, last: ErrorView },
}

impl View for Startup {
    type V = StartupView;

    open spec fn view(&self) -> StartupView {
        match self {
            Startup::Trying { attempt } => StartupView::Trying { attempt: *attempt },
            Startup::Waiting { attempt, last } => StartupView::Waiting {
                attempt: *attempt,
                last: last@,
            },
        }
    }
}

/// The outcome of a startup action.
#[derive(Debug)]
pub enum StartupEvent {
    /// Resolving the LED's path and acquiring it gave this.
    Attempted(Result<Led, Error>),
    /// The wait is over.
    Waited,
}

pub enum StartupEventView {
    Attempted(Result<LedView, ErrorView>),
    Waited,
}

impl View for StartupEvent {
    type V = StartupEventView;

    open spec fn view(&self) -> StartupEventView {
        match self {
            StartupEvent::Attempted(Ok(l)) => StartupEventView::Attempted(Ok(l@)),
            StartupEvent::Attempted(Err(e)) => StartupEventView::Attempted(Err(e@)),
            StartupEvent::Waited => StartupEventView::Waited,
        }
    }
}

/// What the caller does next.
#[derive(Debug, Clone, Copy, PartialEq, Eq, Structural)]
pub enum StartupAction {
    /// Resolve the LED's path and acquire it.
    Attempt,
    /// Wait `ms` milliseconds; `first_failure` says that the attempt that
    /// failed was the first (the one worth a warning).
    Wait { ms: u64, first_failure: bool },
}

/// How startup continues.
#[derive(Debug)]
pub enum StartupStep {
    Next(Startup, StartupAction),
    Finished(Result<Led, Error>),
}

pub enum StartupStepView {
    Next(StartupView, StartupAction),
    Finished(Result<LedView, ErrorView>),
}

impl View for StartupStep {
    type V = StartupStepView;

    open spec fn view(&self) -> StartupStepView {
        match self {
            StartupStep::Next(s, a) => StartupStepView::Next(s@, *a),
            StartupStep::Finished(Ok(l)) => StartupStepView::Finished(Ok(l@)),
            StartupStep::Finished(Err(e)) => StartupStepView::Finished(Err(e@)),
        }
    }
}

/// The wait after failed attempt number `attempt`.
pub open spec fn wait_after(attempt: u32) -> StartupAction {
    StartupAction::Wait { ms: ACQUIRE_RETRY_INTERVAL_MS, first_failure: attempt == 1 }
}

/// What an event does to startup: success ends it with the LED; a failure
/// waits; after the wait, the next attempt follows unless the last allowed
/// attempt has failed, which ends startup with that attempt's error. An
/// event of the wrong kind changes nothing.
pub open spec fn startup_step(s: StartupView, e: StartupEventView) -> StartupStepView {
    match (s, e) {
        (StartupView::Trying { attempt }, StartupEventView::Attempted(Ok(l))) =>
            StartupStepView::Finished(Ok(l)),
        (StartupView::Trying { attempt }, StartupEventView::Attempted(Err(err))) =>
            StartupStepView::Next(StartupView::Waiting { attempt, last: err }, wait_after(attempt)),
        (StartupView::Trying { attempt }, StartupEventView::Waited) => StartupStepView::Next(
            s,
            StartupAction::Attempt,
        ),
        (StartupView::Waiting { attempt, last }, StartupEventView::Waited) => if attempt
            < ACQUIRE_MAX_ATTEMPTS {
            StartupStepView::Next(
                StartupView::Trying { attempt: (attempt + 1) as u32 },
                StartupAction::Attempt,
            )
        } else {
            StartupStepView::Finished(Err(last))
        },
        (StartupView::Waiting { attempt, last }, StartupEventView::Attempted(_)) =>
            StartupStepView::Next(s, wait_after(attempt)),
    }
}

/// The attempt counter stays between 1 and the maximum.
pub open spec fn startup_wf(s: StartupView) -> bool {
    match s {
        StartupView::Trying { attempt } => 1 <= attempt <= ACQUIRE_MAX_ATTEMPTS,
        StartupView::Waiting { attempt, .. } => 1 <= attempt <= ACQUIRE_MAX_ATTEMPTS,
    }
}

impl Startup {
    /// Startup begins with the first attempt.
    pub fn start() -> (r: (Startup, StartupAction))
        ensures
            r.0@ == (StartupView::Trying { attempt: 1 }),
            r.1 == StartupAction::Attempt,
    {
        (Startup::Trying { attempt: 1 }, StartupAction::Attempt)
    }

    /// Takes the outcome of the last action and decides how to go on.
    pub fn step(self, e: StartupEvent) -> (r: StartupStep)
        ensures
            r@ == startup_step(self@, e@),
    {
        match (self, e) {
            (Startup::Trying { .. }, StartupEvent::Attempted(Ok(l))) => StartupStep::Finished(Ok(l)),
            (Startup::Trying { attempt }, StartupEvent::Attempted(Err(err))) => StartupStep::Next(
                Startup::Waiting { attempt, last: err },
                StartupAction::Wait { ms: ACQUIRE_RETRY_INTERVAL_MS, first_failure: attempt == 1 },
            ),
            (Startup::Trying { attempt }, StartupEvent::Waited) => StartupStep::Next(
                Startup::Trying { attempt },
                StartupAction::Attempt,
            ),
            (Startup::Waiting { attempt, last }, StartupEvent::Waited) => {
                if attempt < ACQUIRE_MAX_ATTEMPTS {
                    StartupStep::Next(Startup::Trying { attempt: attempt + 1 }, StartupAction::Attempt)
                } else {
                    StartupStep::Finished(Err(last))
                }
            },
            (Startup::Waiting { attempt, last }, StartupEvent::Attempted(_)) => StartupStep::Next(
                Startup::Waiting { attempt, last },
                StartupAction::Wait { ms: ACQUIRE_RETRY_INTERVAL_MS, first_failure: attempt == 1 },
            ),
        }
    }
}

/// Startup gives up only after the last allowed attempt failed and its
/// wait is over, and then with that attempt's error; before that, every
/// wait leads to another attempt.
pub proof fn law_gives_up_after_last_attempt(attempt: u32, last: ErrorView)
    requires
        1 <= attempt <= ACQUIRE_MAX_ATTEMPTS,
    ensures
        startup_step(StartupView::Waiting { attempt, last }, StartupEventView::Waited) == if attempt
            == ACQUIRE_MAX_ATTEMPTS {
            StartupStepView::Finished(Err(last))
        } else {
            StartupStepView::Next(
                StartupView::Trying { attempt: (attempt + 1) as u32 },
                StartupAction::Attempt,
            )
        },
{
}

/// A successful attempt ends startup with the LED; a failed one is
/// followed by a one-second wait, flagged as the first failure only after
/// the first attempt.
pub proof fn law_attempt_outcome(attempt: u32, outcome: Result<LedView, ErrorView>)
    ensures
        startup_step(StartupView::Trying { attempt }, StartupEventView::Attempted(outcome))
            == match outcome {
            Ok(l) => StartupStepView::Finished(Ok(l)),
            Err(err) => StartupStepView::Next(
                StartupView::Waiting { attempt, last: err },
                StartupAction::Wait { ms: 1000, first_failure: attempt == 1 },
            ),
        },
{
}

/// Every step keeps the attempt counter within bounds, so at most
/// `ACQUIRE_MAX_ATTEMPTS` attempts are made.
pub proof fn law_attempts_bounded(s: StartupView, e: StartupEventView)
    requires
        startup_wf(s),
    ensures
        startup_step(s, e) matches StartupStepView::Next(t, _) ==> startup_wf(t),
{
}

} // verus!
