//! The registration state machine: from configuration to on-chain registration.

use vstd::prelude::*;
use crate::backoff::{backoff_delay, backoff_secs};
use crate::epoch::{boundary_exists, next_boundary, next_registration_instant};

verus! {

/// Where the gateway stands in its registration.
#[derive(Debug, Clone, Copy, PartialEq, Eq, Structural)]
pub enum RegistrationPhase {
    WaitingConfig,
    ReadyToRegister,
    Registering,
    Registered,
    Failed,
}

/// What the scheduler is told.
#[derive(Debug, Clone, Copy, PartialEq, Eq, Structural)]
pub enum RegistrationEvent {
    /// The current state of the two configuration gates.
    GatesObserved { immutable_injected: bool, mutable_injected: bool },
    /// The current time, in seconds.
    Clock { now: u64 },
    /// The chain confirmed the registration transaction.
    Confirmed,
    /// A submission failed in a way worth retrying (timeout, nonce conflict).
    RecoverableError,
    /// A submission failed for good (bad contract address, chain id mismatch).
    UnrecoverableError,
}

/// What the scheduler asks its driver to do next.
#[derive(Debug, Clone, Copy, PartialEq, Eq, Structural)]
pub enum RegistrationAction {
    /// Nothing to do until the next event.
    Idle,
    /// Report the clock again at `instant`.
    WaitUntil { instant: u64 },
    /// Build, sign and submit the registration transaction now.
    Submit,
    /// Report the clock again after `seconds`.
    RetryAfter { seconds: u64 },
    /// Record that the gateway is registered.
    MarkRegistered,
    /// Log the failure; no retry follows.
    ReportFailure,
}

/// The scheduler's state: its phase, the epoch parameters, the chosen
/// registration instant and the number of retries so far.
#[derive(Debug, Clone, Copy, PartialEq, Eq, Structural)]
pub struct RegistrationScheduler {
    pub phase: RegistrationPhase,
    pub offset: u64,
    pub interval: u64,
    pub target: u64,
    pub attempts: u32,
}

/// The event that reports both configuration gates closed.
pub open spec fn opens_both_gates(e: RegistrationEvent) -> bool {
    e == (RegistrationEvent::GatesObserved { immutable_injected: true, mutable_injected: true })
}

/// One transition: the next state and the action for `e` in state `s`.
pub open spec fn step(s: RegistrationScheduler, e: RegistrationEvent) -> (
    RegistrationScheduler,
    RegistrationAction,
) {
    match (s.phase, e) {
        (
            RegistrationPhase::WaitingConfig,
            RegistrationEvent::GatesObserved { immutable_injected, mutable_injected },
        ) => if immutable_injected && mutable_injected {
            (
                RegistrationScheduler { phase: RegistrationPhase::ReadyToRegister, ..s },
                RegistrationAction::Idle,
            )
        } else {
            (s, RegistrationAction::Idle)
        },
        (RegistrationPhase::ReadyToRegister, RegistrationEvent::Clock { now }) => {
            let b = next_boundary(s.offset as int, s.interval as int, now as int);
            if boundary_exists(s.offset as int, s.interval as int, now as int) && b <= u64::MAX {
                (
                    RegistrationScheduler {
                        phase: RegistrationPhase::Registering,
                        target: b as u64,
                        attempts: 0,
                        ..s
                    },
                    RegistrationAction::WaitUntil { instant: b as u64 },
                )
            } else {
                (
                    RegistrationScheduler { phase: RegistrationPhase::Failed, ..s },
                    RegistrationAction::ReportFailure,
                )
            }
        },
        (RegistrationPhase::Registering, RegistrationEvent::Clock { now }) => if now >= s.target {
            (s, RegistrationAction::Submit)
        } else {
            (s, RegistrationAction::WaitUntil { instant: s.target })
        },
        (RegistrationPhase::Registering, RegistrationEvent::Confirmed) => (
            RegistrationScheduler { phase: RegistrationPhase::Registered, ..s },
            RegistrationAction::MarkRegistered,
        ),
        (RegistrationPhase::Registering, RegistrationEvent::RecoverableError) => (
            RegistrationScheduler {
                attempts: if s.attempts < u32::MAX {
                    (s.attempts + 1) as u32
                } else {
                    s.attempts
                },
                ..s
            },
            RegistrationAction::RetryAfter { seconds: backoff_secs(s.attempts as nat) as u64 },
        ),
        (RegistrationPhase::Registering, RegistrationEvent::UnrecoverableError) => (
            RegistrationScheduler { phase: RegistrationPhase::Failed, ..s },
            RegistrationAction::ReportFailure,
        ),
        _ => (s, RegistrationAction::Idle),
    }
}

/// The state after the events `evs`, applied in order from `s`.
pub open spec fn run(s: RegistrationScheduler, evs: Seq<RegistrationEvent>) -> RegistrationScheduler
    decreases evs.len(),
{
    if evs.len() == 0 {
        s
    } else {
        step(run(s, evs.drop_last()), evs.last()).0
    }
}

impl RegistrationScheduler {
    /// A scheduler waiting for configuration, for the schedule
    /// `offset + k * interval`.
    pub fn new(offset: u64, interval: u64) -> (r: RegistrationScheduler)
        ensures
            r.phase == RegistrationPhase::WaitingConfig,
            r.offset == offset,
            r.interval == interval,
            r.target == 0,
            r.attempts == 0,
    {
        RegistrationScheduler {
            phase: RegistrationPhase::WaitingConfig,
            offset,
            interval,
            target: 0,
            attempts: 0,
        }
    }

    /// Takes one event, moves to the next state and returns the action to perform.
    pub fn handle(&mut self, e: RegistrationEvent) -> (r: RegistrationAction)
        ensures
            (*final(self), r) == step(*old(self), e),
    {
        match (self.phase, e) {
            (
                RegistrationPhase::WaitingConfig,
                RegistrationEvent::GatesObserved { immutable_injected, mutable_injected },
            ) => {
                if immutable_injected && mutable_injected {
                    self.phase = RegistrationPhase::ReadyToRegister;
                }
                RegistrationAction::Idle
            },
            (RegistrationPhase::ReadyToRegister, RegistrationEvent::Clock { now }) => {
                match next_registration_instant(self.offset, self.interval, now) {
                    Some(b) => {
                        self.phase = RegistrationPhase::Registering;
                        self.target = b;
                        self.attempts = 0;
                        RegistrationAction::WaitUntil { instant: b }
                    },
                    None => {
                        self.phase = RegistrationPhase::Failed;
                        RegistrationAction::ReportFailure
                    },
                }
            },
            (RegistrationPhase::Registering, RegistrationEvent::Clock { now }) => {
                if now >= self.target {
                    RegistrationAction::Submit
                } else {
                    RegistrationAction::WaitUntil { instant: self.target }
                }
            },
            (RegistrationPhase::Registering, RegistrationEvent::Confirmed) => {
                self.phase = RegistrationPhase::Registered;
                RegistrationAction::MarkRegistered
            },
            (RegistrationPhase::Registering, RegistrationEvent::RecoverableError) => {
                let seconds = backoff_delay(self.attempts);
                if self.attempts < u32::MAX {
                    self.attempts = self.attempts + 1;
                }
                RegistrationAction::RetryAfter { seconds }
            },
            (RegistrationPhase::Registering, RegistrationEvent::UnrecoverableError) => {
                self.phase = RegistrationPhase::Failed;
                RegistrationAction::ReportFailure
            },
            _ => RegistrationAction::Idle,
        }
    }

    /// Whether the registration is confirmed.
    pub fn is_registered(&self) -> (r: bool)
        ensures
            r == (self.phase == RegistrationPhase::Registered),
    {
        self.phase == RegistrationPhase::Registered
    }
}

/// `Registered` and `Failed` are final, and no step returns to `WaitingConfig`.
pub proof fn lemma_step_monotone(s: RegistrationScheduler, e: RegistrationEvent)
    ensures
        s.phase == RegistrationPhase::Registered ==> step(s, e).0.phase
            == RegistrationPhase::Registered,
        s.phase == RegistrationPhase::Failed ==> step(s, e).0.phase == RegistrationPhase::Failed,
        s.phase != RegistrationPhase::WaitingConfig ==> step(s, e).0.phase
            != RegistrationPhase::WaitingConfig,
{
}

/// From a scheduler waiting for configuration, `Registered` is reached only in
/// histories where an event reporting both gates closed comes first and a
/// confirmation from the chain comes after it.
pub proof fn lemma_registered_needs_gates(s: RegistrationScheduler, evs: Seq<RegistrationEvent>)
    requires
        s.phase == RegistrationPhase::WaitingConfig,
    ensures
        run(s, evs).phase != RegistrationPhase::WaitingConfig ==> exists|i: int|
            0 <= i < evs.len() && opens_both_gates(#[trigger] evs[i]),
        run(s, evs).phase == RegistrationPhase::Registered ==> exists|i: int, m: int|
            0 <= i < m < evs.len() && opens_both_gates(#[trigger] evs[i]) && #[trigger] evs[m]
                == RegistrationEvent::Confirmed,
    decreases evs.len(),
{
    if evs.len() > 0 {
        let pre = evs.drop_last();
        let n = evs.len() - 1;
        lemma_registered_needs_gates(s, pre);
        let p = run(s, pre);
        lemma_step_monotone(p, evs.last());
        if p.phase == RegistrationPhase::WaitingConfig {
            if run(s, evs).phase != RegistrationPhase::WaitingConfig {
                assert(opens_both_gates(evs[n]));
            }
        } else {
            let i = choose|i: int| 0 <= i < pre.len() && opens_both_gates(#[trigger] pre[i]);
            assert(evs[i] == pre[i]);
            if run(s, evs).phase == RegistrationPhase::Registered {
                if p.phase == RegistrationPhase::Registered {
                    let (i2, m2) = choose|i: int, m: int|
                        0 <= i < m < pre.len() && opens_both_gates(#[trigger] pre[i])
                            && #[trigger] pre[m] == RegistrationEvent::Confirmed;
                    assert(evs[i2] == pre[i2] && evs[m2] == pre[m2]);
                } else {
                    assert(evs[n] == RegistrationEvent::Confirmed);
                }
            }
        }
    }
}

} // verus!
