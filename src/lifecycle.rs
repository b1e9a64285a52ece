//! Start and stop of the pipeline, and the order of its teardown.
//!
//! A pipeline is created idle, runs once started, and on stop goes through a
//! fixed teardown: signal the worker, release the capture source, join the
//! worker. It is stopped only once all three are done.
use vstd::prelude::*;

verus! {

/// Where a pipeline is in its life.
#[derive(Clone, Copy, Debug, PartialEq, Eq, Structural)]
pub enum LifecycleState {
    Idle,
    Running,
    Stopping,
    Stopped,
}

/// One step of the teardown, in the order they are taken.
#[derive(Clone, Copy, Debug, PartialEq, Eq, Structural)]
pub enum TeardownStep {
    /// Set the stop signal that the worker polls.
    SignalWorker,
    /// Release the capture source, so that nothing more is produced.
    ReleaseCapture,
    /// Wait until the worker's thread has ended.
    JoinWorker,
}

/// Why a start was refused.
#[derive(Clone, Copy, Debug, PartialEq, Eq, Structural)]
pub enum LifecycleError {
    /// The pipeline is already running.
    AlreadyStarted,
    /// The pipeline is stopping or stopped.
    AlreadyStopped,
}

impl LifecycleError {
    /// A short description of the error.
    pub fn message(&self) -> (r: String) {
        match self {
            LifecycleError::AlreadyStarted => String::from_str("pipeline already started"),
            LifecycleError::AlreadyStopped => String::from_str("pipeline already stopped"),
        }
    }
}

/// The teardown step taken when `done` steps are already behind.
pub open spec fn teardown_step(done: nat) -> TeardownStep {
    if done == 0 {
        TeardownStep::SignalWorker
    } else if done == 1 {
        TeardownStep::ReleaseCapture
    } else {
        TeardownStep::JoinWorker
    }
}

/// The state of a pipeline's life.
pub struct Lifecycle {
    state: LifecycleState,
    steps_done: u8,
}

impl Lifecycle {
    /// Where the pipeline is.
    pub closed spec fn spec_state(&self) -> LifecycleState {
        self.state
    }

    /// How many teardown steps have been handed out.
    pub closed spec fn spec_steps_done(&self) -> nat {
        self.steps_done as nat
    }

    /// No teardown before a stop; one to three steps while stopping; all
    /// three once stopped.
    pub closed spec fn wf(&self) -> bool {
        match self.state {
            LifecycleState::Idle | LifecycleState::Running => self.steps_done == 0,
            LifecycleState::Stopping => 1 <= self.steps_done <= 3,
            LifecycleState::Stopped => self.steps_done == 3,
        }
    }

    /// An idle pipeline.
    pub fn new() -> (r: Self)
        ensures
            r.wf(),
            r.spec_state() == LifecycleState::Idle,
            r.spec_steps_done() == 0,
    {
        Lifecycle { state: LifecycleState::Idle, steps_done: 0 }
    }

    /// Where the pipeline is.
    pub fn state(&self) -> (r: LifecycleState)
        ensures
            r == self.spec_state(),
    {
        self.state
    }

    /// Starts an idle pipeline. Starting twice, or after a stop, is refused
    /// and changes nothing.
    pub fn start(&mut self) -> (r: Result<(), LifecycleError>)
        requires
            old(self).wf(),
        ensures
            final(self).wf(),
            old(self).spec_state() == LifecycleState::Idle ==> r is Ok && final(self).spec_state()
                == LifecycleState::Running,
            old(self).spec_state() == LifecycleState::Running ==> r == Err::<(), LifecycleError>(
                LifecycleError::AlreadyStarted,
            ) && *final(self) == *old(self),
            (old(self).spec_state() == LifecycleState::Stopping || old(self).spec_state()
                == LifecycleState::Stopped) ==> r == Err::<(), LifecycleError>(
                LifecycleError::AlreadyStopped,
            ) && *final(self) == *old(self),
            final(self).spec_steps_done() == old(self).spec_steps_done(),
    {
        match self.state {
            LifecycleState::Idle => {
                self.state = LifecycleState::Running;
                Ok(())
            },
            LifecycleState::Running => Err(LifecycleError::AlreadyStarted),
            _ => Err(LifecycleError::AlreadyStopped),
        }
    }

    /// The next teardown step; a call means the step handed out before has
    /// been carried out. The first call moves an idle or running pipeline to
    /// stopping and asks for the worker to be signalled; the next ask for the
    /// capture source to be released and for the worker to be joined; the one
    /// after that marks the pipeline stopped and hands out nothing, as do all
    /// calls after it.
    pub fn next_teardown(&mut self) -> (r: Option<TeardownStep>)
        requires
            old(self).wf(),
        ensures
            final(self).wf(),
            old(self).spec_state() == LifecycleState::Stopped ==> r is None && *final(self) == *old(self),
            old(self).spec_state() != LifecycleState::Stopped && old(self).spec_steps_done() < 3
                ==> r == Some(teardown_step(old(self).spec_steps_done())) && final(self).spec_state()
                == LifecycleState::Stopping && final(self).spec_steps_done() == old(
                self,
            ).spec_steps_done() + 1,
            old(self).spec_state() == LifecycleState::Stopping && old(self).spec_steps_done() == 3
                ==> r is None && final(self).spec_state() == LifecycleState::Stopped
                && final(self).spec_steps_done() == 3,
    {
        match self.state {
            LifecycleState::Stopped => None,
            _ => {
                if self.steps_done == 3 {
                    self.state = LifecycleState::Stopped;
                    None
                } else {
                    let step = if self.steps_done == 0 {
                        TeardownStep::SignalWorker
                    } else if self.steps_done == 1 {
                        TeardownStep::ReleaseCapture
                    } else {
                        TeardownStep::JoinWorker
                    };
                    self.state = LifecycleState::Stopping;
                    self.steps_done = self.steps_done + 1;
                    Some(step)
                }
            },
        }
    }
}

} // verus!
