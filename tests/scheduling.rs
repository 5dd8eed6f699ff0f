use loadgen::executor::{remaining_ms, secs_to_millis, NextStep, StepResult, UserRun};
use loadgen::flow::{validate_flow, StepKind};
use loadgen::ramp::{clamp_rate, max, min, user_count, ConfigError, Ramp};
use loadgen::status::{summarize, FunctionStatus, TaskOutcome};

/// Users spawned per tick when the rate evaluated at tick `t` is `rate(t)`.
fn batches(total: u64, rate: impl Fn(u64) -> i64) -> Vec<u64> {
    let mut ramp = Ramp::new(total);
    let mut out = vec![0u64];
    while ramp.has_next() {
        let r = rate(ramp.tick);
        *out.last_mut().unwrap() += 1;
        if ramp.record_spawn(r) && ramp.has_next() {
            out.push(0);
        }
    }
    out
}

#[test]
fn max_and_min() {
    assert_eq!(max(3, 7), 7);
    assert_eq!(max(-2, -5), -2);
    assert_eq!(min(3, 7), 3);
    assert_eq!(min(-2, -5), -5);
}

#[test]
fn rate_is_at_least_one() {
    assert_eq!(clamp_rate(0), 1);
    assert_eq!(clamp_rate(-4), 1);
    assert_eq!(clamp_rate(1), 1);
    assert_eq!(clamp_rate(9), 9);
}

#[test]
fn max_tasks_must_be_positive() {
    assert_eq!(user_count(Some(4)), Ok(4));
    assert_eq!(user_count(Some(0)), Err(ConfigError::ZeroMaxTasks));
    assert_eq!(user_count(None), Err(ConfigError::MissingMaxTasks));
}

#[test]
fn constant_rate_spawns_rate_users_per_tick() {
    assert_eq!(batches(4, |_| 2), vec![2, 2]);
    assert_eq!(batches(7, |_| 3), vec![3, 3, 1]);
    assert_eq!(batches(3, |_| 1), vec![1, 1, 1]);
}

#[test]
fn zero_rate_still_spawns() {
    assert_eq!(batches(3, |_| 0), vec![1, 1, 1]);
}

#[test]
fn tick_rate_batches_follow_the_running_count() {
    // The sleep comes when the running count of spawns is a multiple of the
    // rate, so with the rate equal to the tick the batches settle at two.
    assert_eq!(batches(10, |t| t as i64), vec![1, 1, 2, 2, 2, 2]);
}

#[test]
fn ramp_sleeps_and_ticks_together() {
    let mut ramp = Ramp::new(4);
    assert!(!ramp.record_spawn(2));
    assert_eq!(ramp.tick, 0);
    assert!(ramp.record_spawn(2));
    assert_eq!(ramp.tick, 1);
    assert_eq!(ramp.spawned, 2);
}

#[test]
fn all_passed_users_pass_the_run() {
    let outcomes = vec![TaskOutcome::Finished(FunctionStatus::Passed); 4];
    let s = summarize(&outcomes);
    assert_eq!((s.total, s.passed, s.failed), (4, 4, 0));
    assert_eq!(s.status, FunctionStatus::Passed);
}

#[test]
fn any_failed_user_fails_the_run() {
    let outcomes = vec![
        TaskOutcome::Finished(FunctionStatus::Passed),
        TaskOutcome::Finished(FunctionStatus::Failed),
        TaskOutcome::Errored,
        TaskOutcome::JoinFailed,
        TaskOutcome::Finished(FunctionStatus::Passed),
    ];
    let s = summarize(&outcomes);
    assert_eq!((s.total, s.passed, s.failed), (5, 2, 3));
    assert_eq!(s.status, FunctionStatus::Failed);
}

#[test]
fn empty_run_passes() {
    let s = summarize(&Vec::new());
    assert_eq!((s.total, s.passed, s.failed), (0, 0, 0));
    assert_eq!(s.status, FunctionStatus::Passed);
}

#[test]
fn user_runs_steps_in_order() {
    let mut run = UserRun::new(2, 5);
    assert_eq!(run.deadline_ms, 5000);
    assert_eq!(run.next_action(0), NextStep::Run { index: 0, remaining_ms: 5000 });
    run.record(StepResult::Passed);
    assert_eq!(run.next_action(1200), NextStep::Run { index: 1, remaining_ms: 3800 });
    run.record(StepResult::Passed);
    assert_eq!(run.next_action(1300), NextStep::Finish(FunctionStatus::Passed));
}

#[test]
fn failed_step_stops_the_user() {
    let mut run = UserRun::new(3, 60);
    run.record(StepResult::Failed);
    assert_eq!(run.next_action(0), NextStep::Finish(FunctionStatus::Failed));
    let mut run = UserRun::new(3, 60);
    run.record(StepResult::Passed);
    run.record(StepResult::Error);
    assert_eq!(run.next_action(0), NextStep::Finish(FunctionStatus::Failed));
}

#[test]
fn no_step_starts_at_or_after_the_deadline() {
    let run = UserRun::new(3, 2);
    assert_eq!(run.next_action(2000), NextStep::Finish(FunctionStatus::Passed));
    assert_eq!(run.next_action(2001), NextStep::Finish(FunctionStatus::Passed));
    assert_eq!(run.next_action(1999), NextStep::Run { index: 0, remaining_ms: 1 });
    let run = UserRun::new(1, 0);
    assert_eq!(run.next_action(0), NextStep::Finish(FunctionStatus::Passed));
}

#[test]
fn time_conversions() {
    assert_eq!(secs_to_millis(3), 3000);
    assert_eq!(secs_to_millis(u64::MAX), u64::MAX);
    assert_eq!(remaining_ms(5000, 1000), Some(4000));
    assert_eq!(remaining_ms(5000, 5000), None);
    assert_eq!(remaining_ms(5000, 7000), None);
}

#[test]
fn top_level_steps_must_be_load_generators() {
    assert_eq!(validate_flow(&vec![StepKind::LoadGen, StepKind::LoadGen]), Ok(()));
    assert_eq!(validate_flow(&Vec::new()), Ok(()));
    assert_eq!(
        validate_flow(&vec![StepKind::LoadGen, StepKind::Sleep, StepKind::HttpRequest]),
        Err(ConfigError::NotLoadGen { index: 1 })
    );
}
