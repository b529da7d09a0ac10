//! Establishing the presence connection at startup.
//!
//! The chat client may not be running yet when the player starts, so the
//! connection is attempted a bounded number of times with a fixed delay after
//! every failure. When the attempts are used up the player goes on without a
//! connection; no error is raised.
//!
//! [`Bootstrap`] holds the decisions. The caller performs what
//! [`Bootstrap::action`] asks for (one connection attempt, or one delay) and
//! reports the outcome to [`Bootstrap::step`], until the action is
//! [`BootstrapAction::Finish`].

use vstd::prelude::*;

verus! {

/// Seconds to wait after a failed connection attempt.
pub const DISCORD_RETRY_INTERVAL: u64 = 2;

/// Number of connection attempts made at startup.
pub const DISCORD_RETRY_ATTEMPTS: u32 = 10;

/// Where the bootstrap stands.
#[derive(Clone, Copy, Debug, PartialEq, Eq, Structural)]
pub enum BootstrapPhase {
    /// A connection attempt is due.
    Connecting,
    /// The last attempt failed and the delay after it is due.
    Waiting,
    /// An attempt succeeded.
    Connected,
    /// All attempts failed, or none was allowed.
    GaveUp,
}

/// What the caller reports back.
#[derive(Clone, Copy, Debug, PartialEq, Eq, Structural)]
pub enum BootstrapEvent {
    ConnectSucceeded,
    ConnectFailed,
    DelayElapsed,
}

/// What the caller is asked to do next.
#[derive(Clone, Copy, Debug, PartialEq, Eq, Structural)]
pub enum BootstrapAction {
    /// Try to connect the transport once.
    Connect,
    /// Sleep for this many seconds.
    Wait { secs: u64 },
    /// Nothing is left to do.
    Finish,
}

/// Mathematical model of a [`BootstrapAction`].
pub enum ActionView {
    Connect,
    Wait { secs: nat },
    Finish,
}

impl View for BootstrapAction {
    type V = ActionView;

    open spec fn view(&self) -> ActionView {
        match self {
            BootstrapAction::Connect => ActionView::Connect,
            BootstrapAction::Wait { secs } => ActionView::Wait { secs: *secs as nat },
            BootstrapAction::Finish => ActionView::Finish,
        }
    }
}

/// Mathematical model of a [`Bootstrap`].
pub struct BootstrapView {
    pub max_attempts: nat,
    pub delay_secs: nat,
    /// Connection attempts whose outcome has been reported.
    pub attempts: nat,
    /// Seconds spent in delays that have elapsed.
    pub waited_secs: nat,
    pub phase: BootstrapPhase,
}

/// The state before anything has happened. With no attempt allowed the
/// bootstrap has given up at once.
pub open spec fn start_of(max_attempts: nat, delay_secs: nat) -> BootstrapView {
    BootstrapView {
        max_attempts,
        delay_secs,
        attempts: 0,
        waited_secs: 0,
        phase: if max_attempts == 0 {
            BootstrapPhase::GaveUp
        } else {
            BootstrapPhase::Connecting
        },
    }
}

/// The action that is due in a state.
pub open spec fn pending(state: BootstrapView) -> ActionView {
    match state.phase {
        BootstrapPhase::Connecting => ActionView::Connect,
        BootstrapPhase::Waiting => ActionView::Wait { secs: state.delay_secs },
        BootstrapPhase::Connected => ActionView::Finish,
        BootstrapPhase::GaveUp => ActionView::Finish,
    }
}

/// The state after an event. A successful attempt ends the bootstrap; a failed
/// one is followed by a delay, also when it was the last; after the delay the
/// next attempt is due while any is left. An event that does not answer the
/// pending action changes nothing.
pub open spec fn after(state: BootstrapView, event: BootstrapEvent) -> BootstrapView {
    match (state.phase, event) {
        (BootstrapPhase::Connecting, BootstrapEvent::ConnectSucceeded) => BootstrapView {
            attempts: state.attempts + 1,
            phase: BootstrapPhase::Connected,
            ..state
        },
        (BootstrapPhase::Connecting, BootstrapEvent::ConnectFailed) => BootstrapView {
            attempts: state.attempts + 1,
            phase: BootstrapPhase::Waiting,
            ..state
        },
        (BootstrapPhase::Waiting, BootstrapEvent::DelayElapsed) => BootstrapView {
            waited_secs: state.waited_secs + state.delay_secs,
            phase: if state.attempts < state.max_attempts {
                BootstrapPhase::Connecting
            } else {
                BootstrapPhase::GaveUp
            },
            ..state
        },
        _ => state,
    }
}

/// Number of delays that have elapsed in a state: one per failed attempt,
/// less the delay that is still due.
pub open spec fn delays_of(state: BootstrapView) -> nat {
    match state.phase {
        BootstrapPhase::Connecting => state.attempts,
        BootstrapPhase::GaveUp => state.attempts,
        BootstrapPhase::Waiting => (state.attempts - 1) as nat,
        BootstrapPhase::Connected => (state.attempts - 1) as nat,
    }
}

/// The state in which the bootstrap ends when it is driven against a
/// transport whose connection attempts turn out as `outcomes` says, in order
/// (`true` for success): the driver performs the pending action and reports
/// its outcome until the action is to finish. Should the outcomes run out
/// while an attempt is due, the run stops there.
pub open spec fn run(state: BootstrapView, outcomes: Seq<bool>) -> BootstrapView
    decreases outcomes.len(), (if state.phase is Waiting { 1nat } else { 0nat }),
{
    match pending(state) {
        ActionView::Connect => if outcomes.len() == 0 {
            state
        } else {
            run(after(state, outcome_event(outcomes[0])), outcomes.drop_first())
        },
        ActionView::Wait { .. } => run(after(state, BootstrapEvent::DelayElapsed), outcomes),
        ActionView::Finish => state,
    }
}

/// The event that reports how a connection attempt turned out.
pub open spec fn outcome_event(connected: bool) -> BootstrapEvent {
    if connected {
        BootstrapEvent::ConnectSucceeded
    } else {
        BootstrapEvent::ConnectFailed
    }
}

/// Whether the counters of a state agree with its phase, as they do in every
/// state a bootstrap can reach: never more attempts than allowed, and one
/// full delay waited for every delay that has elapsed.
pub open spec fn well_formed(state: BootstrapView) -> bool {
    &&& match state.phase {
        BootstrapPhase::Connecting => state.attempts < state.max_attempts,
        BootstrapPhase::Waiting => 1 <= state.attempts <= state.max_attempts,
        BootstrapPhase::Connected => 1 <= state.attempts <= state.max_attempts,
        BootstrapPhase::GaveUp => state.attempts == state.max_attempts,
    }
    &&& state.waited_secs == delays_of(state) * state.delay_secs
}

/// The retry state of one bootstrap.
#[derive(Clone, Copy, Debug)]
pub struct Bootstrap {
    max_attempts: u32,
    delay_secs: u64,
    attempts: u32,
    waited_secs: u128,
    phase: BootstrapPhase,
}

impl View for Bootstrap {
    type V = BootstrapView;

    closed spec fn view(&self) -> BootstrapView {
        BootstrapView {
            max_attempts: self.max_attempts as nat,
            delay_secs: self.delay_secs as nat,
            attempts: self.attempts as nat,
            waited_secs: self.waited_secs as nat,
            phase: self.phase,
        }
    }
}

impl Bootstrap {
    #[verifier::type_invariant]
    spec fn consistent(self) -> bool {
        well_formed(self@)
    }

    /// A bootstrap that allows `max_attempts` connection attempts and waits
    /// `delay_secs` seconds after each failed one.
    pub fn new(max_attempts: u32, delay_secs: u64) -> (state: Bootstrap)
        ensures
            state@ == start_of(max_attempts as nat, delay_secs as nat),
            well_formed(state@),
    {
        assert(0 * (delay_secs as nat) == 0);
        Bootstrap {
            max_attempts,
            delay_secs,
            attempts: 0,
            waited_secs: 0,
            phase: if max_attempts == 0 {
                BootstrapPhase::GaveUp
            } else {
                BootstrapPhase::Connecting
            },
        }
    }

    /// The action that is due.
    pub fn action(&self) -> (action: BootstrapAction)
        ensures
            action@ == pending(self@),
    {
        match self.phase {
            BootstrapPhase::Connecting => BootstrapAction::Connect,
            BootstrapPhase::Waiting => BootstrapAction::Wait { secs: self.delay_secs },
            BootstrapPhase::Connected => BootstrapAction::Finish,
            BootstrapPhase::GaveUp => BootstrapAction::Finish,
        }
    }

    /// Takes in the outcome of the action that was due and says what is due
    /// next.
    pub fn step(self, event: BootstrapEvent) -> (next: (Bootstrap, BootstrapAction))
        ensures
            next.0@ == after(self@, event),
            next.1@ == pending(next.0@),
            well_formed(next.0@),
    {
        proof {
            use_type_invariant(&self);
            lemma_after_well_formed(self@, event);
        }
        let state = match (self.phase, event) {
            (BootstrapPhase::Connecting, BootstrapEvent::ConnectSucceeded) => Bootstrap {
                attempts: self.attempts + 1,
                phase: BootstrapPhase::Connected,
                ..self
            },
            (BootstrapPhase::Connecting, BootstrapEvent::ConnectFailed) => Bootstrap {
                attempts: self.attempts + 1,
                phase: BootstrapPhase::Waiting,
                ..self
            },
            (BootstrapPhase::Waiting, BootstrapEvent::DelayElapsed) => {
                assert(self.waited_secs + self.delay_secs <= u128::MAX) by (nonlinear_arith)
                    requires
                        self.waited_secs == (self.attempts - 1) * self.delay_secs,
                        1 <= self.attempts <= u32::MAX,
                        self.delay_secs <= u64::MAX,
                ;
                Bootstrap {
                    waited_secs: self.waited_secs + self.delay_secs as u128,
                    phase: if self.attempts < self.max_attempts {
                        BootstrapPhase::Connecting
                    } else {
                        BootstrapPhase::GaveUp
                    },
                    ..self
                }
            },
            _ => self,
        };
        let action = state.action();
        (state, action)
    }

    /// The phase the bootstrap is in.
    pub fn phase(&self) -> (phase: BootstrapPhase)
        ensures
            phase == self@.phase,
    {
        self.phase
    }

    /// Whether the transport is connected.
    pub fn is_connected(&self) -> (connected: bool)
        ensures
            connected == (self@.phase is Connected),
    {
        match self.phase {
            BootstrapPhase::Connected => true,
            _ => false,
        }
    }

    /// Whether nothing is left to do.
    pub fn is_finished(&self) -> (finished: bool)
        ensures
            finished == (pending(self@) is Finish),
    {
        match self.phase {
            BootstrapPhase::Connected => true,
            BootstrapPhase::GaveUp => true,
            _ => false,
        }
    }

    /// Connection attempts made so far.
    pub fn attempts(&self) -> (attempts: u32)
        ensures
            attempts == self@.attempts,
    {
        self.attempts
    }

    /// Seconds spent waiting so far.
    pub fn waited_secs(&self) -> (secs: u128)
        ensures
            secs == self@.waited_secs,
    {
        self.waited_secs
    }

    /// Runs a whole bootstrap against a scripted transport: the attempts turn
    /// out as `outcomes` says, in order, and every delay elapses. Returns the
    /// state in which the bootstrap ends, or in which the script ran out.
    pub fn simulate(max_attempts: u32, delay_secs: u64, outcomes: &Vec<bool>) -> (end: Bootstrap)
        ensures
            end@ == run(start_of(max_attempts as nat, delay_secs as nat), outcomes@),
            well_formed(end@),
    {
        let mut state = Bootstrap::new(max_attempts, delay_secs);
        let mut used: usize = 0;
        assert(outcomes@.skip(0) =~= outcomes@);
        loop
            invariant
                used <= outcomes.len(),
                well_formed(state@),
                run(start_of(max_attempts as nat, delay_secs as nat), outcomes@) == run(
                    state@,
                    outcomes@.skip(used as int),
                ),
            decreases outcomes.len() - used, (if state@.phase is Waiting { 1nat } else { 0nat }),
        {
            let ghost left = outcomes@.skip(used as int);
            match state.action() {
                BootstrapAction::Connect => {
                    if used == outcomes.len() {
                        return state;
                    }
                    let event = if outcomes[used] {
                        BootstrapEvent::ConnectSucceeded
                    } else {
                        BootstrapEvent::ConnectFailed
                    };
                    assert(left[0] == outcomes@[used as int]);
                    assert(left.drop_first() =~= outcomes@.skip(used as int + 1));
                    state = state.step(event).0;
                    used += 1;
                },
                BootstrapAction::Wait { .. } => {
                    state = state.step(BootstrapEvent::DelayElapsed).0;
                },
                BootstrapAction::Finish => {
                    return state;
                },
            }
        }
    }
}

proof fn lemma_run_connects(state: BootstrapView, outcomes: Seq<bool>, failures: nat)
    requires
        state.phase is Connecting,
        state.attempts + failures < state.max_attempts,
        failures < outcomes.len(),
        forall|i: int| 0 <= i < failures ==> !outcomes[i],
        outcomes[failures as int],
    ensures
        run(state, outcomes) == (BootstrapView {
            attempts: state.attempts + failures + 1,
            waited_secs: state.waited_secs + failures * state.delay_secs,
            phase: BootstrapPhase::Connected,
            ..state
        }),
    decreases failures,
{
    let rest = outcomes.drop_first();
    if failures == 0 {
        let connected = after(state, BootstrapEvent::ConnectSucceeded);
        assert(run(state, outcomes) == run(connected, rest));
        assert(0 * state.delay_secs == 0);
    } else {
        let failed = after(state, BootstrapEvent::ConnectFailed);
        let again = after(failed, BootstrapEvent::DelayElapsed);
        assert(run(state, outcomes) == run(failed, rest));
        assert(run(failed, rest) == run(again, rest));
        assert forall|i: int| 0 <= i < failures - 1 implies !rest[i] by {
            assert(rest[i] == outcomes[i + 1]);
        }
        assert(rest[failures - 1] == outcomes[failures as int]);
        lemma_run_connects(again, rest, (failures - 1) as nat);
        assert(state.delay_secs + (failures - 1) * state.delay_secs == failures * state.delay_secs)
            by (nonlinear_arith);
    }
}

proof fn lemma_run_gives_up(state: BootstrapView, outcomes: Seq<bool>)
    requires
        state.phase is Connecting,
        state.attempts < state.max_attempts,
        state.max_attempts - state.attempts <= outcomes.len(),
        forall|i: int| 0 <= i < state.max_attempts - state.attempts ==> !outcomes[i],
    ensures
        run(state, outcomes) == (BootstrapView {
            attempts: state.max_attempts,
            waited_secs: (state.waited_secs + (state.max_attempts - state.attempts)
                * state.delay_secs) as nat,
            phase: BootstrapPhase::GaveUp,
            ..state
        }),
    decreases state.max_attempts - state.attempts,
{
    let rest = outcomes.drop_first();
    let failed = after(state, BootstrapEvent::ConnectFailed);
    let next = after(failed, BootstrapEvent::DelayElapsed);
    let left = state.max_attempts - state.attempts;
    assert(!outcomes[0]);
    assert(run(state, outcomes) == run(failed, rest));
    assert(run(failed, rest) == run(next, rest));
    if next.phase is Connecting {
        assert forall|i: int| 0 <= i < next.max_attempts - next.attempts implies !rest[i] by {
            assert(rest[i] == outcomes[i + 1]);
        }
        lemma_run_gives_up(next, rest);
        assert(state.delay_secs + (left - 1) * state.delay_secs == left * state.delay_secs)
            by (nonlinear_arith);
    } else {
        assert(left == 1);
        assert(1 * state.delay_secs == state.delay_secs);
    }
}

/// A well-formed state stays well-formed under every event, and no event
/// changes the limits the bootstrap was made with.
pub proof fn lemma_after_well_formed(state: BootstrapView, event: BootstrapEvent)
    requires
        well_formed(state),
    ensures
        well_formed(after(state, event)),
        after(state, event).max_attempts == state.max_attempts,
        after(state, event).delay_secs == state.delay_secs,
{
    if state.phase is Waiting && event is DelayElapsed {
        assert((state.attempts - 1) * state.delay_secs + state.delay_secs == state.attempts
            * state.delay_secs) by (nonlinear_arith);
    }
}

/// A transport that fails the first `failures` attempts and then succeeds,
/// with `failures` below the number of attempts allowed, leaves the bootstrap
/// connected after `failures + 1` attempts, and it has waited `failures` times
/// the delay by then.
pub proof fn lemma_connects_after_failures(
    max_attempts: nat,
    delay_secs: nat,
    outcomes: Seq<bool>,
    failures: nat,
)
    requires
        failures < max_attempts,
        failures < outcomes.len(),
        forall|i: int| 0 <= i < failures ==> !outcomes[i],
        outcomes[failures as int],
    ensures
        run(start_of(max_attempts, delay_secs), outcomes).phase is Connected,
        run(start_of(max_attempts, delay_secs), outcomes).attempts == failures + 1,
        run(start_of(max_attempts, delay_secs), outcomes).waited_secs == failures * delay_secs,
        pending(run(start_of(max_attempts, delay_secs), outcomes)) is Finish,
{
    lemma_run_connects(start_of(max_attempts, delay_secs), outcomes, failures);
}

/// A transport that fails every allowed attempt leaves the bootstrap
/// unconnected: it has given up after exactly `max_attempts` attempts and as
/// many delays, and what is due then is to finish, not an error.
pub proof fn lemma_gives_up_when_exhausted(
    max_attempts: nat,
    delay_secs: nat,
    outcomes: Seq<bool>,
)
    requires
        max_attempts <= outcomes.len(),
        forall|i: int| 0 <= i < max_attempts ==> !outcomes[i],
    ensures
        run(start_of(max_attempts, delay_secs), outcomes).phase is GaveUp,
        run(start_of(max_attempts, delay_secs), outcomes).attempts == max_attempts,
        run(start_of(max_attempts, delay_secs), outcomes).waited_secs == max_attempts
            * delay_secs,
        pending(run(start_of(max_attempts, delay_secs), outcomes)) is Finish,
{
    if max_attempts > 0 {
        lemma_run_gives_up(start_of(max_attempts, delay_secs), outcomes);
    } else {
        assert(0 * delay_secs == 0);
    }
}

/// Whatever the transport does, a run from a well-formed state ends in a
/// well-formed state with the same limits: never more attempts than allowed.
pub proof fn lemma_run_well_formed(state: BootstrapView, outcomes: Seq<bool>)
    requires
        well_formed(state),
    ensures
        well_formed(run(state, outcomes)),
        run(state, outcomes).attempts <= state.max_attempts,
        run(state, outcomes).max_attempts == state.max_attempts,
        run(state, outcomes).delay_secs == state.delay_secs,
    decreases outcomes.len(), (if state.phase is Waiting { 1nat } else { 0nat }),
{
    match state.phase {
        BootstrapPhase::Connecting => {
            if outcomes.len() > 0 {
                let event = outcome_event(outcomes[0]);
                lemma_after_well_formed(state, event);
                lemma_run_well_formed(after(state, event), outcomes.drop_first());
            }
        },
        BootstrapPhase::Waiting => {
            lemma_after_well_formed(state, BootstrapEvent::DelayElapsed);
            lemma_run_well_formed(after(state, BootstrapEvent::DelayElapsed), outcomes);
        },
        _ => {},
    }
}

} // verus!
