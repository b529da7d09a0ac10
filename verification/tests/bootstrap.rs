use galaxy_player::bootstrap::{
    Bootstrap, BootstrapAction, BootstrapEvent, BootstrapPhase, DISCORD_RETRY_ATTEMPTS,
    DISCORD_RETRY_INTERVAL,
};

/// Drives a bootstrap against a transport whose attempts turn out as
/// `outcomes` says, and returns the final state, the number of connection
/// attempts made and the seconds slept.
fn drive(max_attempts: u32, delay_secs: u64, outcomes: &[bool]) -> (Bootstrap, u32, u128) {
    let mut state = Bootstrap::new(max_attempts, delay_secs);
    let mut action = state.action();
    let mut attempts = 0u32;
    let mut slept = 0u128;
    let mut next_outcome = 0usize;
    loop {
        let event = match action {
            BootstrapAction::Connect => {
                let ok = outcomes[next_outcome];
                next_outcome += 1;
                attempts += 1;
                if ok {
                    BootstrapEvent::ConnectSucceeded
                } else {
                    BootstrapEvent::ConnectFailed
                }
            }
            BootstrapAction::Wait { secs } => {
                slept += secs as u128;
                BootstrapEvent::DelayElapsed
            }
            BootstrapAction::Finish => break,
        };
        let next = state.step(event);
        state = next.0;
        action = next.1;
    }
    (state, attempts, slept)
}

#[test]
fn default_policy_is_ten_attempts_two_seconds_apart() {
    assert_eq!(DISCORD_RETRY_ATTEMPTS, 10);
    assert_eq!(DISCORD_RETRY_INTERVAL, 2);
}

#[test]
fn first_attempt_succeeding_needs_no_wait() {
    let (state, attempts, slept) = drive(10, 2, &[true]);
    assert!(state.is_connected());
    assert_eq!(state.phase(), BootstrapPhase::Connected);
    assert_eq!(attempts, 1);
    assert_eq!(state.attempts(), 1);
    assert_eq!(slept, 0);
    assert_eq!(state.waited_secs(), 0);
}

#[test]
fn success_after_three_failures_waits_three_delays() {
    let (state, attempts, slept) = drive(10, 2, &[false, false, false, true]);
    assert!(state.is_connected());
    assert_eq!(attempts, 4);
    assert_eq!(state.attempts(), 4);
    assert_eq!(slept, 6);
    assert_eq!(state.waited_secs(), 6);
}

#[test]
fn success_on_the_last_allowed_attempt() {
    let mut outcomes = vec![false; 9];
    outcomes.push(true);
    let (state, attempts, slept) = drive(10, 2, &outcomes);
    assert!(state.is_connected());
    assert_eq!(attempts, 10);
    assert_eq!(slept, 18);
    assert_eq!(state.waited_secs(), 18);
}

#[test]
fn every_failure_count_below_the_limit_connects() {
    for failures in 0..7usize {
        let mut outcomes = vec![false; failures];
        outcomes.push(true);
        let (state, attempts, slept) = drive(7, 5, &outcomes);
        assert!(state.is_connected());
        assert_eq!(attempts as usize, failures + 1);
        assert_eq!(slept, 5 * failures as u128);
        assert_eq!(state.waited_secs(), 5 * failures as u128);
    }
}

#[test]
fn exhausting_all_attempts_gives_up_silently() {
    let (state, attempts, slept) = drive(10, 2, &[false; 10]);
    assert!(!state.is_connected());
    assert!(state.is_finished());
    assert_eq!(state.phase(), BootstrapPhase::GaveUp);
    assert_eq!(attempts, 10);
    assert_eq!(state.attempts(), 10);
    assert_eq!(slept, 20);
    assert_eq!(state.waited_secs(), 20);
    assert_eq!(state.action(), BootstrapAction::Finish);
}

#[test]
fn no_attempt_beyond_the_limit_even_if_it_would_succeed() {
    let (state, attempts, _) = drive(3, 1, &[false, false, false, true]);
    assert!(!state.is_connected());
    assert_eq!(attempts, 3);
}

#[test]
fn zero_attempts_gives_up_at_once() {
    let state = Bootstrap::new(0, 2);
    assert_eq!(state.action(), BootstrapAction::Finish);
    assert_eq!(state.phase(), BootstrapPhase::GaveUp);
    assert!(!state.is_connected());
    assert!(state.is_finished());
    assert_eq!(state.attempts(), 0);
    assert_eq!(state.waited_secs(), 0);
}

#[test]
fn single_attempt_that_fails_still_waits_once() {
    let (state, attempts, slept) = drive(1, 9, &[false]);
    assert_eq!(state.phase(), BootstrapPhase::GaveUp);
    assert_eq!(attempts, 1);
    assert_eq!(slept, 9);
}

#[test]
fn failure_is_followed_by_the_configured_delay() {
    let state = Bootstrap::new(2, 30);
    assert_eq!(state.action(), BootstrapAction::Connect);
    let (state, action) = state.step(BootstrapEvent::ConnectFailed);
    assert_eq!(action, BootstrapAction::Wait { secs: 30 });
    assert_eq!(state.phase(), BootstrapPhase::Waiting);
    assert_eq!(state.waited_secs(), 0);
    let (state, action) = state.step(BootstrapEvent::DelayElapsed);
    assert_eq!(action, BootstrapAction::Connect);
    assert_eq!(state.waited_secs(), 30);
    let (state, action) = state.step(BootstrapEvent::ConnectSucceeded);
    assert_eq!(action, BootstrapAction::Finish);
    assert!(state.is_connected());
    assert_eq!(state.attempts(), 2);
    assert_eq!(state.waited_secs(), 30);
}

#[test]
fn events_that_answer_nothing_are_ignored() {
    let state = Bootstrap::new(2, 1);
    let (state, action) = state.step(BootstrapEvent::DelayElapsed);
    assert_eq!(action, BootstrapAction::Connect);
    assert_eq!(state.attempts(), 0);
    let (state, action) = state.step(BootstrapEvent::ConnectFailed);
    assert_eq!(action, BootstrapAction::Wait { secs: 1 });
    let (state, action) = state.step(BootstrapEvent::ConnectSucceeded);
    assert_eq!(action, BootstrapAction::Wait { secs: 1 });
    assert_eq!(state.attempts(), 1);
    assert!(!state.is_connected());
}

#[test]
fn finished_bootstrap_stays_finished() {
    let (state, _, _) = drive(1, 1, &[true]);
    for event in [
        BootstrapEvent::ConnectSucceeded,
        BootstrapEvent::ConnectFailed,
        BootstrapEvent::DelayElapsed,
    ] {
        let (after, action) = state.step(event);
        assert_eq!(action, BootstrapAction::Finish);
        assert!(after.is_connected());
        assert_eq!(after.attempts(), 1);
    }
    let (gave_up, _, _) = drive(1, 1, &[false]);
    let (after, action) = gave_up.step(BootstrapEvent::ConnectSucceeded);
    assert_eq!(action, BootstrapAction::Finish);
    assert!(!after.is_connected());
}

#[test]
fn waiting_time_does_not_overflow_at_the_limits() {
    let mut state = Bootstrap::new(u32::MAX, u64::MAX);
    for _ in 0..3 {
        state = state.step(BootstrapEvent::ConnectFailed).0;
        state = state.step(BootstrapEvent::DelayElapsed).0;
    }
    assert_eq!(state.waited_secs(), 3 * (u64::MAX as u128));
    assert_eq!(state.attempts(), 3);
}

#[test]
fn zero_delay_is_allowed() {
    let (state, attempts, slept) = drive(4, 0, &[false, false, true]);
    assert!(state.is_connected());
    assert_eq!(attempts, 3);
    assert_eq!(slept, 0);
    assert_eq!(state.waited_secs(), 0);
}

#[test]
fn scripted_transport_connects_after_two_failures() {
    let end = Bootstrap::simulate(10, 2, &vec![false, false, true]);
    assert!(end.is_connected());
    assert_eq!(end.attempts(), 3);
    assert_eq!(end.waited_secs(), 4);
}

#[test]
fn scripted_transport_that_never_answers_exhausts_the_attempts() {
    let end = Bootstrap::simulate(10, 2, &vec![false; 12]);
    assert_eq!(end.phase(), BootstrapPhase::GaveUp);
    assert!(!end.is_connected());
    assert_eq!(end.attempts(), 10);
    assert_eq!(end.waited_secs(), 20);
}

#[test]
fn script_that_runs_out_leaves_an_attempt_due() {
    let end = Bootstrap::simulate(5, 3, &vec![false, false]);
    assert_eq!(end.phase(), BootstrapPhase::Connecting);
    assert_eq!(end.action(), BootstrapAction::Connect);
    assert_eq!(end.attempts(), 2);
    assert_eq!(end.waited_secs(), 6);
    let untouched = Bootstrap::simulate(5, 3, &Vec::new());
    assert_eq!(untouched.attempts(), 0);
    assert_eq!(untouched.action(), BootstrapAction::Connect);
}

#[test]
fn outcomes_after_the_first_success_are_never_asked_for() {
    let end = Bootstrap::simulate(10, 2, &vec![false, true, false, false, true]);
    assert!(end.is_connected());
    assert_eq!(end.attempts(), 2);
    assert_eq!(end.waited_secs(), 2);
}

#[test]
fn simulation_agrees_with_a_hand_driven_bootstrap() {
    for failures in 0..6usize {
        let mut outcomes = vec![false; failures];
        outcomes.push(true);
        let (driven, _, slept) = drive(4, 7, &outcomes);
        let simulated = Bootstrap::simulate(4, 7, &outcomes);
        assert_eq!(driven.phase(), simulated.phase());
        assert_eq!(driven.attempts(), simulated.attempts());
        assert_eq!(driven.waited_secs(), simulated.waited_secs());
        assert_eq!(slept, simulated.waited_secs());
    }
}
