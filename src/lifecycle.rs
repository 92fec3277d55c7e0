//! The lifecycle of the background runtime, as a checked state machine: at most one
//! running instance, and `init` and `shutdown` only in their turn.
use vstd::prelude::*;

verus! {

#[derive(Clone, Copy, Debug, PartialEq, Eq, Structural)]
pub enum RelayState {
    Stopped,
    Starting,
    Running,
    Stopping,
}

#[derive(Clone, Copy, Debug, PartialEq, Eq, Structural)]
pub enum LifecycleEvent {
    /// The host asked to start the relay.
    Init,
    /// The service is up on its carrier thread.
    Started,
    /// Starting failed (a listen address that does not parse); nothing runs.
    StartFailed,
    /// The host asked to stop the relay.
    Shutdown,
    /// The carrier thread has been joined and the runtime released.
    Joined,
}

#[derive(Clone, Copy, Debug, PartialEq, Eq, Structural)]
pub enum LifecycleError {
    /// `init` while the relay is starting, running or stopping.
    AlreadyRunning,
    /// `shutdown` while the relay is not running.
    NotRunning,
    /// A report from the runtime that does not fit the current state.
    OutOfOrder,
}

/// The state after `e` in state `s`, or the error that refuses it.
pub open spec fn next_state(s: RelayState, e: LifecycleEvent) -> Result<RelayState, LifecycleError> {
    match e {
        LifecycleEvent::Init => if s == RelayState::Stopped {
            Ok(RelayState::Starting)
        } else {
            Err(LifecycleError::AlreadyRunning)
        },
        LifecycleEvent::Started => if s == RelayState::Starting {
            Ok(RelayState::Running)
        } else {
            Err(LifecycleError::OutOfOrder)
        },
        LifecycleEvent::StartFailed => if s == RelayState::Starting {
            Ok(RelayState::Stopped)
        } else {
            Err(LifecycleError::OutOfOrder)
        },
        LifecycleEvent::Shutdown => if s == RelayState::Running {
            Ok(RelayState::Stopping)
        } else {
            Err(LifecycleError::NotRunning)
        },
        LifecycleEvent::Joined => if s == RelayState::Stopping {
            Ok(RelayState::Stopped)
        } else {
            Err(LifecycleError::OutOfOrder)
        },
    }
}

/// The state after the events in turn, or the first error.
pub open spec fn run_events(s: RelayState, events: Seq<LifecycleEvent>) -> Result<
    RelayState,
    LifecycleError,
>
    decreases events.len(),
{
    if events.len() == 0 {
        Ok(s)
    } else {
        match next_state(s, events[0]) {
            Ok(t) => run_events(t, events.drop_first()),
            Err(x) => Err(x),
        }
    }
}

pub struct Lifecycle {
    state: RelayState,
}

impl View for Lifecycle {
    type V = RelayState;

    closed spec fn view(&self) -> RelayState {
        self.state
    }
}

impl Lifecycle {
    pub fn new() -> (r: Self)
        ensures
            r@ == RelayState::Stopped,
    {
        Lifecycle { state: RelayState::Stopped }
    }

    pub fn state(&self) -> (r: RelayState)
        ensures
            r == self@,
    {
        self.state
    }

    pub fn is_running(&self) -> (r: bool)
        ensures
            r == (self@ == RelayState::Running),
    {
        self.state == RelayState::Running
    }

    /// Takes the step that `e` calls for; a refused event leaves the state as it was.
    pub fn apply(&mut self, e: LifecycleEvent) -> (r: Result<(), LifecycleError>)
        ensures
            match next_state(old(self)@, e) {
                Ok(t) => r is Ok && final(self)@ == t,
                Err(x) => r == Err::<(), LifecycleError>(x) && final(self)@ == old(self)@,
            },
    {
        let s = self.state;
        let next: Result<RelayState, LifecycleError> = match e {
            LifecycleEvent::Init => if s == RelayState::Stopped {
                Ok(RelayState::Starting)
            } else {
                Err(LifecycleError::AlreadyRunning)
            },
            LifecycleEvent::Started => if s == RelayState::Starting {
                Ok(RelayState::Running)
            } else {
                Err(LifecycleError::OutOfOrder)
            },
            LifecycleEvent::StartFailed => if s == RelayState::Starting {
                Ok(RelayState::Stopped)
            } else {
                Err(LifecycleError::OutOfOrder)
            },
            LifecycleEvent::Shutdown => if s == RelayState::Running {
                Ok(RelayState::Stopping)
            } else {
                Err(LifecycleError::NotRunning)
            },
            LifecycleEvent::Joined => if s == RelayState::Stopping {
                Ok(RelayState::Stopped)
            } else {
                Err(LifecycleError::OutOfOrder)
            },
        };
        match next {
            Ok(t) => {
                self.state = t;
                Ok(())
            },
            Err(x) => Err(x),
        }
    }
}

/// A full start and stop from the stopped state ends stopped again, and a second start
/// is then accepted.
pub proof fn lemma_restart()
    ensures
        run_events(
            RelayState::Stopped,
            seq![
                LifecycleEvent::Init,
                LifecycleEvent::Started,
                LifecycleEvent::Shutdown,
                LifecycleEvent::Joined,
            ],
        ) == Ok::<RelayState, LifecycleError>(RelayState::Stopped),
        next_state(RelayState::Stopped, LifecycleEvent::Init) == Ok::<
            RelayState,
            LifecycleError,
        >(RelayState::Starting),
{
    let evs = seq![
        LifecycleEvent::Init,
        LifecycleEvent::Started,
        LifecycleEvent::Shutdown,
        LifecycleEvent::Joined,
    ];
    assert(evs.drop_first() =~= seq![
        LifecycleEvent::Started,
        LifecycleEvent::Shutdown,
        LifecycleEvent::Joined,
    ]);
    assert(evs.drop_first().drop_first() =~= seq![
        LifecycleEvent::Shutdown,
        LifecycleEvent::Joined,
    ]);
    assert(evs.drop_first().drop_first().drop_first() =~= seq![LifecycleEvent::Joined]);
    assert(evs.drop_first().drop_first().drop_first().drop_first() =~= Seq::<
        LifecycleEvent,
    >::empty());
    reveal_with_fuel(run_events, 5);
}

/// An `Init` is accepted exactly in the stopped state, so at most one instance runs.
pub proof fn lemma_single_instance(s: RelayState)
    ensures
        next_state(s, LifecycleEvent::Init) is Ok <==> s == RelayState::Stopped,
{
}

} // verus!
