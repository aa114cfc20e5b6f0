use event_reports::db::{
    ConnectError, ConnectStep, Connector, LogLevel, OpenOutcome, BUCKET_NAME, MAX_ATTEMPTS,
    RETRY_INTERVAL_MILLIS,
};

/// What a run over a list of outcomes came to.
#[derive(Debug, PartialEq)]
struct Run {
    result: Option<Result<usize, ConnectError>>,
    attempts: usize,
    infos: usize,
    warnings: usize,
    errors: usize,
    waited_millis: u64,
}

fn run(outcomes: &[OpenOutcome]) -> Run {
    let mut connector = Connector::new();
    let mut r = Run { result: None, attempts: 0, infos: 0, warnings: 0, errors: 0, waited_millis: 0 };
    for (i, outcome) in outcomes.iter().enumerate() {
        r.attempts += 1;
        match connector.on_outcome(*outcome) {
            ConnectStep::Connected => {
                r.infos += 1;
                r.result = Some(Ok(i));
                return r;
            }
            ConnectStep::GiveUp(e) => {
                r.errors += 1;
                r.result = Some(Err(e));
                return r;
            }
            ConnectStep::Retry { level, attempts_remaining, wait_millis } => {
                assert_eq!(attempts_remaining as usize, MAX_ATTEMPTS as usize - 1 - i);
                match level {
                    LogLevel::Warn => r.warnings += 1,
                    LogLevel::Error => r.errors += 1,
                    LogLevel::Info => panic!("a failure is not logged at info level"),
                }
                r.waited_millis += wait_millis;
            }
        }
    }
    r
}

#[test]
fn constants_have_their_values() {
    assert_eq!(BUCKET_NAME, "events");
    assert_eq!(MAX_ATTEMPTS, 60);
    assert_eq!(RETRY_INTERVAL_MILLIS, 1000);
    assert_eq!(Connector::new().attempts(), 60);
}

#[test]
fn first_attempt_succeeds() {
    let r = run(&[OpenOutcome::Opened]);
    assert_eq!(
        r,
        Run { result: Some(Ok(0)), attempts: 1, infos: 1, warnings: 0, errors: 0, waited_millis: 0 }
    );
}

#[test]
fn one_step_on_a_missing_bucket() {
    let mut c = Connector::new();
    let step = c.on_outcome(OpenOutcome::AuthFailed);
    assert_eq!(
        step,
        ConnectStep::Retry { level: LogLevel::Warn, attempts_remaining: 59, wait_millis: 1000 }
    );
    assert_eq!(c.attempts(), 59);
}

#[test]
fn one_step_on_another_failure() {
    let mut c = Connector::new();
    let step = c.on_outcome(OpenOutcome::Failed);
    assert_eq!(
        step,
        ConnectStep::Retry { level: LogLevel::Error, attempts_remaining: 59, wait_millis: 1000 }
    );
    assert_eq!(c.attempts(), 59);
}

#[test]
fn success_leaves_the_budget_alone() {
    let mut c = Connector::new();
    assert_eq!(c.on_outcome(OpenOutcome::Opened), ConnectStep::Connected);
    assert_eq!(c.attempts(), 60);
}

#[test]
fn retry_bound_on_authentication_failures() {
    let outcomes = vec![OpenOutcome::AuthFailed; 100];
    let r = run(&outcomes);
    assert_eq!(
        r,
        Run {
            result: Some(Err(ConnectError::Exhausted)),
            attempts: 60,
            infos: 0,
            warnings: 59,
            errors: 1,
            waited_millis: 59_000,
        }
    );
}

#[test]
fn retry_bound_on_other_failures() {
    let outcomes = vec![OpenOutcome::Failed; 60];
    let r = run(&outcomes);
    assert_eq!(r.result, Some(Err(ConnectError::Exhausted)));
    assert_eq!(r.attempts, 60);
    assert_eq!(r.warnings, 0);
    assert_eq!(r.errors, 60);
    assert_eq!(r.waited_millis, 59_000);
}

#[test]
fn exhausted_connector_keeps_giving_up() {
    let mut c = Connector::new();
    for _ in 0..59 {
        c.on_outcome(OpenOutcome::AuthFailed);
    }
    assert_eq!(c.attempts(), 1);
    assert_eq!(c.on_outcome(OpenOutcome::AuthFailed), ConnectStep::GiveUp(ConnectError::Exhausted));
    assert_eq!(c.attempts(), 0);
    assert_eq!(c.on_outcome(OpenOutcome::Failed), ConnectStep::GiveUp(ConnectError::Exhausted));
    assert_eq!(c.on_outcome(OpenOutcome::Opened), ConnectStep::GiveUp(ConnectError::Exhausted));
    assert_eq!(c.attempts(), 0);
}

#[test]
fn retry_recovery_after_some_failures() {
    for n in [1usize, 5, 30, 59] {
        let mut outcomes = vec![OpenOutcome::AuthFailed; n];
        outcomes.push(OpenOutcome::Opened);
        outcomes.push(OpenOutcome::AuthFailed);
        let r = run(&outcomes);
        assert_eq!(
            r,
            Run {
                result: Some(Ok(n)),
                attempts: n + 1,
                infos: 1,
                warnings: n,
                errors: 0,
                waited_millis: 1000 * n as u64,
            }
        );
    }
}

#[test]
fn retry_recovery_on_the_last_attempt() {
    let mut outcomes = vec![OpenOutcome::AuthFailed; 59];
    outcomes.push(OpenOutcome::Opened);
    let r = run(&outcomes);
    assert_eq!(r.result, Some(Ok(59)));
    assert_eq!(r.attempts, 60);
    assert_eq!(r.warnings, 59);
    assert_eq!(r.infos, 1);
    assert_eq!(r.errors, 0);
    assert_eq!(r.waited_millis, 59_000);
}

#[test]
fn no_attempt_is_made_beyond_the_budget() {
    let mut outcomes = vec![OpenOutcome::AuthFailed; 60];
    outcomes.push(OpenOutcome::Opened);
    let r = run(&outcomes);
    assert_eq!(r.result, Some(Err(ConnectError::Exhausted)));
    assert_eq!(r.attempts, 60);
    assert_eq!(r.infos, 0);
    assert_eq!(r.waited_millis, 59_000);
}

#[test]
fn no_run_makes_more_than_sixty_attempts() {
    let kinds = [OpenOutcome::AuthFailed, OpenOutcome::Failed, OpenOutcome::Opened];
    for first_success in [0usize, 1, 17, 59, 60, 61, 200] {
        let outcomes: Vec<OpenOutcome> = (0..300)
            .map(|i| if i >= first_success { kinds[2] } else { kinds[i % 2] })
            .collect();
        let r = run(&outcomes);
        assert!(r.attempts <= 60);
        assert!(r.waited_millis <= 59_000);
        assert_eq!(r.result.unwrap().is_ok(), first_success < 60);
        if first_success < 60 {
            assert_eq!(r.result, Some(Ok(first_success)));
        }
    }
}

#[test]
fn mixed_failures_are_logged_by_kind() {
    let outcomes = [
        OpenOutcome::AuthFailed,
        OpenOutcome::Failed,
        OpenOutcome::AuthFailed,
        OpenOutcome::Opened,
    ];
    let r = run(&outcomes);
    assert_eq!(r.result, Some(Ok(3)));
    assert_eq!(r.warnings, 2);
    assert_eq!(r.errors, 1);
    assert_eq!(r.waited_millis, 3000);
}

#[test]
fn each_call_has_its_own_budget() {
    let mut first = Connector::new();
    first.on_outcome(OpenOutcome::AuthFailed);
    let second = Connector::new();
    assert_eq!(first.attempts(), 59);
    assert_eq!(second.attempts(), 60);
}
