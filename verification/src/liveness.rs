//! The liveness client of a session server: it registers with the
//! directory, sends heartbeats more often than the directory's liveness
//! window requires, and registers anew whenever a heartbeat fails.

use vstd::prelude::*;
use crate::directory::Server;

verus! {

/// One second, in nanoseconds: the first retry delay by default.
pub const DEFAULT_BACKOFF_BASE: u64 = 1_000_000_000;

/// The durations a liveness client works with, all in nanoseconds. The
/// heartbeat interval of a configuration is always shorter than its
/// liveness window.
#[derive(Clone, Copy, Debug, PartialEq, Eq)]
pub struct LivenessConfig {
    window: u64,
    interval: u64,
    backoff_base: u64,
    backoff_cap: u64,
}

/// `base` doubled `k` times.
pub open spec fn doubled(base: nat, k: nat) -> nat
    decreases k,
{
    if k == 0 {
        base
    } else {
        2 * doubled(base, (k - 1) as nat)
    }
}

/// How long to wait before the next registration after `failures` failed
/// ones in a row: `base` after the first, twice as long after each further
/// one, and never more than `cap`.
pub open spec fn backoff_delay(base: u64, cap: u64, failures: u32) -> u64 {
    if failures == 0 {
        0
    } else if doubled(base as nat, (failures - 1) as nat) >= cap {
        cap
    } else {
        doubled(base as nat, (failures - 1) as nat) as u64
    }
}

/// Doubling never shortens.
pub proof fn lemma_doubled_monotone(base: nat, i: nat, j: nat)
    requires
        i <= j,
    ensures
        doubled(base, i) <= doubled(base, j),
    decreases j,
{
    if i < j {
        lemma_doubled_monotone(base, i, (j - 1) as nat);
    }
}

/// Nothing doubled stays nothing.
pub proof fn lemma_doubled_zero(k: nat)
    ensures
        doubled(0, k) == 0,
    decreases k,
{
    if k > 0 {
        lemma_doubled_zero((k - 1) as nat);
    }
}

impl LivenessConfig {
    #[verifier::type_invariant]
    spec fn well_formed(self) -> bool {
        0 < self.interval < self.window
    }

    /// The liveness window of the directory.
    pub closed spec fn spec_window(self) -> u64 {
        self.window
    }

    /// The time between two heartbeats.
    pub closed spec fn spec_interval(self) -> u64 {
        self.interval
    }

    /// The delay before the first retry of a failed registration.
    pub closed spec fn spec_backoff_base(self) -> u64 {
        self.backoff_base
    }

    /// The longest delay between two registrations.
    pub closed spec fn spec_backoff_cap(self) -> u64 {
        self.backoff_cap
    }

    /// A configuration, if the heartbeat interval is positive and shorter
    /// than the liveness window.
    pub fn new(window: u64, interval: u64, backoff_base: u64, backoff_cap: u64) -> (c: Option<LivenessConfig>)
        ensures
            c.is_some() <==> 0 < interval < window,
            c matches Some(config) ==> config.spec_window() == window && config.spec_interval() == interval
                && config.spec_backoff_base() == backoff_base && config.spec_backoff_cap() == backoff_cap,
    {
        if 0 < interval && interval < window {
            Some(LivenessConfig { window, interval, backoff_base, backoff_cap })
        } else {
            None
        }
    }

    /// The configuration for a liveness window: a heartbeat every half
    /// window, retries from one second up to one window. A window of less
    /// than two nanoseconds leaves room for no interval.
    pub fn for_window(window: u64) -> (c: Option<LivenessConfig>)
        ensures
            c.is_some() <==> window >= 2,
            c matches Some(config) ==> config.spec_window() == window && config.spec_interval() == window / 2
                && config.spec_backoff_base() == DEFAULT_BACKOFF_BASE && config.spec_backoff_cap() == window,
    {
        LivenessConfig::new(window, window / 2, DEFAULT_BACKOFF_BASE, window)
    }

    /// The liveness window of the directory.
    #[verifier::when_used_as_spec(spec_window)]
    pub fn window(self) -> (w: u64)
        ensures
            w == self.spec_window(),
            self.spec_interval() < w,
    {
        proof {
            use_type_invariant(self);
        }
        self.window
    }

    /// The time between two heartbeats: positive, and shorter than the
    /// liveness window.
    #[verifier::when_used_as_spec(spec_interval)]
    pub fn interval(self) -> (i: u64)
        ensures
            i == self.spec_interval(),
            0 < i < self.spec_window(),
    {
        proof {
            use_type_invariant(self);
        }
        self.interval
    }

    /// The delay before the next registration after `failures` failed
    /// ones in a row.
    pub fn backoff(self, failures: u32) -> (delay: u64)
        ensures
            delay == backoff_delay(self.spec_backoff_base(), self.spec_backoff_cap(), failures),
            delay <= self.spec_backoff_cap(),
    {
        if failures == 0 {
            return 0;
        }
        let base = self.backoff_base;
        let cap = self.backoff_cap;
        if base == 0 {
            proof {
                lemma_doubled_zero((failures - 1) as nat);
            }
            return 0;
        }
        let mut delay: u64 = if base >= cap {
            cap
        } else {
            base
        };
        let mut i: u32 = 1;
        while i < failures && delay < cap
            invariant
                1 <= i <= failures,
                delay <= cap,
                delay == backoff_delay(base, cap, i),
            decreases failures - i,
        {
            delay = if delay >= cap - delay {
                cap
            } else {
                delay + delay
            };
            i = i + 1;
        }
        proof {
            if i < failures {
                lemma_doubled_monotone(base as nat, (i - 1) as nat, (failures - 1) as nat);
            }
        }
        delay
    }
}

/// What the liveness client knows of its own registration.
#[derive(Debug, PartialEq, Eq)]
pub enum LivenessState {
    /// Not listed, after `failures` failed registrations in a row.
    Unregistered { failures: u32 },
    /// Listed under the advertisement `server`.
    Registered { server: Server },
}

/// What came back from the directory.
#[derive(Debug, PartialEq, Eq)]
pub enum LivenessEvent {
    /// A registration was answered with this advertisement.
    RegisterSucceeded { server: Server },
    /// A registration failed.
    RegisterFailed,
    /// A heartbeat was answered with this advertisement.
    HeartbeatSucceeded { server: Server },
    /// A heartbeat failed: the directory does not know the id, or it
    /// could not be reached.
    HeartbeatFailed,
}

/// What the embedding task has to do next, after waiting `delay`
/// nanoseconds.
#[derive(Clone, Copy, Debug, PartialEq, Eq, Structural)]
pub enum LivenessAction {
    Register { delay: u64 },
    Heartbeat { id: u128, delay: u64 },
}

impl LivenessState {
    /// The state after `event`. An event that answers nothing the state
    /// could have asked for leaves it as it is.
    pub open spec fn after(self, event: LivenessEvent) -> LivenessState {
        match (self, event) {
            (LivenessState::Unregistered { .. }, LivenessEvent::RegisterSucceeded { server }) => {
                LivenessState::Registered { server }
            },
            (LivenessState::Unregistered { failures }, LivenessEvent::RegisterFailed) => {
                LivenessState::Unregistered {
                    failures: if failures == u32::MAX {
                        failures
                    } else {
                        (failures + 1) as u32
                    },
                }
            },
            (LivenessState::Registered { server: known }, LivenessEvent::HeartbeatSucceeded { server }) => {
                if server.id == known.id {
                    LivenessState::Registered { server }
                } else {
                    self
                }
            },
            (LivenessState::Registered { .. }, LivenessEvent::HeartbeatFailed) => {
                LivenessState::Unregistered { failures: 0 }
            },
            _ => self,
        }
    }

    /// Whether `event` answers something this state could have asked for.
    pub open spec fn expects(self, event: LivenessEvent) -> bool {
        match (self, event) {
            (LivenessState::Unregistered { .. }, LivenessEvent::RegisterSucceeded { .. }) => true,
            (LivenessState::Unregistered { .. }, LivenessEvent::RegisterFailed) => true,
            (LivenessState::Registered { server: known }, LivenessEvent::HeartbeatSucceeded { server }) => {
                server.id == known.id
            },
            (LivenessState::Registered { .. }, LivenessEvent::HeartbeatFailed) => true,
            _ => false,
        }
    }

    /// What to do in this state: register where not listed, after the
    /// backoff for the failures so far; send a heartbeat where listed, one
    /// interval from now.
    pub open spec fn next_action(self, config: LivenessConfig) -> LivenessAction {
        match self {
            LivenessState::Unregistered { failures } => LivenessAction::Register {
                delay: backoff_delay(config.spec_backoff_base(), config.spec_backoff_cap(), failures),
            },
            LivenessState::Registered { server } => LivenessAction::Heartbeat {
                id: server.id,
                delay: config.spec_interval(),
            },
        }
    }
}

/// The liveness client of one session server.
#[derive(Debug, PartialEq, Eq)]
pub struct LivenessClient {
    pub config: LivenessConfig,
    pub state: LivenessState,
}

impl LivenessClient {
    /// A client that is not listed yet, and its first action: to register
    /// at once.
    pub fn start(config: LivenessConfig) -> (r: (LivenessClient, LivenessAction))
        ensures
            r.0.config == config,
            r.0.state == (LivenessState::Unregistered { failures: 0 }),
            r.1 == (LivenessAction::Register { delay: 0 }),
    {
        (
            LivenessClient { config, state: LivenessState::Unregistered { failures: 0 } },
            LivenessAction::Register { delay: 0 },
        )
    }

    /// What to do in the present state.
    fn action(&self) -> (a: LivenessAction)
        ensures
            a == self.state.next_action(self.config),
    {
        match &self.state {
            LivenessState::Unregistered { failures } => LivenessAction::Register {
                delay: self.config.backoff(*failures),
            },
            LivenessState::Registered { server } => LivenessAction::Heartbeat {
                id: server.id,
                delay: self.config.interval(),
            },
        }
    }

    /// Takes an answer of the directory and says what to do next. An
    /// answer that fits nothing the client asked for changes nothing, and
    /// what the state asks for is asked again.
    pub fn handle(&mut self, event: LivenessEvent) -> (a: LivenessAction)
        ensures
            final(self).config == old(self).config,
            final(self).state == old(self).state.after(event),
            a == final(self).state.next_action(final(self).config),
    {
        let mut state = LivenessState::Unregistered { failures: 0 };
        core::mem::swap(&mut self.state, &mut state);
        let next = match (state, event) {
            (LivenessState::Unregistered { .. }, LivenessEvent::RegisterSucceeded { server }) => {
                LivenessState::Registered { server }
            },
            (LivenessState::Unregistered { failures }, LivenessEvent::RegisterFailed) => {
                let failures = if failures == u32::MAX {
                    failures
                } else {
                    failures + 1
                };
                LivenessState::Unregistered { failures }
            },
            (LivenessState::Registered { server: known }, LivenessEvent::HeartbeatSucceeded { server }) => {
                if server.id == known.id {
                    LivenessState::Registered { server }
                } else {
                    LivenessState::Registered { server: known }
                }
            },
            (LivenessState::Registered { .. }, LivenessEvent::HeartbeatFailed) => {
                LivenessState::Unregistered { failures: 0 }
            },
            (state, _) => state,
        };
        self.state = next;
        self.action()
    }

    /// The advertisement under which the server is listed, if it is.
    pub fn server(&self) -> (s: Option<Server>)
        ensures
            s == (match self.state {
                LivenessState::Registered { server } => Some(server),
                LivenessState::Unregistered { .. } => None,
            }),
    {
        match &self.state {
            LivenessState::Registered { server } => Some(server.clone()),
            LivenessState::Unregistered { .. } => None,
        }
    }
}

/// A failed heartbeat is never answered with another heartbeat: whatever
/// advertisement the client held, it registers anew, at once.
pub proof fn lemma_failed_heartbeat_registers_anew(state: LivenessState, config: LivenessConfig)
    requires
        state is Registered,
    ensures
        state.after(LivenessEvent::HeartbeatFailed) == (LivenessState::Unregistered { failures: 0 }),
        state.after(LivenessEvent::HeartbeatFailed).next_action(config) == (LivenessAction::Register {
            delay: 0,
        }),
{
}

/// An answer that fits nothing the state could have asked for leaves the
/// state as it is.
pub proof fn lemma_unexpected_answer_is_ignored(state: LivenessState, event: LivenessEvent)
    requires
        !state.expects(event),
    ensures
        state.after(event) == state,
{
}

/// A client that is listed sends its next heartbeat before the liveness
/// window has passed.
pub proof fn lemma_heartbeat_within_window(state: LivenessState, config: LivenessConfig)
    requires
        state is Registered,
        0 < config.spec_interval() < config.spec_window(),
    ensures
        state.next_action(config) matches LivenessAction::Heartbeat { id, delay } && id == state->server.id
            && 0 < delay < config.spec_window(),
{
}

} // verus!
