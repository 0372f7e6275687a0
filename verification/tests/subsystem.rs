use proc_daemon::subsystem::{RestartPolicy, SubsystemManager, SubsystemMetadata, SubsystemState};
use proc_daemon::time::Delay;
use std::time::Instant;

fn backoff(initial_ms: u64, max_secs: u64, attempts: u32) -> RestartPolicy {
    RestartPolicy::ExponentialBackoff {
        initial_delay: Delay::from_millis(initial_ms),
        max_delay: Delay::from_secs(max_secs),
        max_attempts: attempts,
    }
}

fn metadata(state: SubsystemState, restart_count: u32, policy: RestartPolicy) -> SubsystemMetadata {
    SubsystemMetadata {
        id: 1,
        name: "m".to_string(),
        state,
        registered_at: Instant::now(),
        started_at: None,
        stopped_at: None,
        restart_count,
        last_error: None,
        restart_policy: policy,
    }
}

#[test]
fn test_restart_policy() {
    let policy = RestartPolicy::ExponentialBackoff {
        initial_delay: Delay::from_millis(100),
        max_delay: Delay::from_secs(60),
        max_attempts: 5,
    };

    assert_ne!(policy, RestartPolicy::Never);
    assert_eq!(RestartPolicy::default(), RestartPolicy::Never);
}

#[test]
fn subsystem_test_subsystem_registration() {
    let mut manager = SubsystemManager::new();

    let id = manager.register("test", RestartPolicy::Never);

    let stats = manager.get_stats();
    assert_eq!(stats.total_subsystems, 1);
    assert_eq!(stats.running_subsystems, 0);

    let metadata = manager.get_subsystem_metadata(id).unwrap();
    assert_eq!(metadata.name, "test");
    assert_eq!(metadata.state, SubsystemState::Starting);
}

#[test]
fn subsystem_test_subsystem_start_stop() {
    let mut manager = SubsystemManager::new();
    let id = manager.register("test", RestartPolicy::Never);

    manager.start_subsystem(id).unwrap();
    let metadata = manager.get_subsystem_metadata(id).unwrap();
    assert_eq!(metadata.state, SubsystemState::Running);
    assert!(metadata.started_at.is_some());

    manager.stop_subsystem(id).unwrap();
    assert_eq!(manager.get_subsystem_metadata(id).unwrap().state, SubsystemState::Stopping);
    assert_eq!(manager.get_stats().stopping_subsystems, 1);
    manager.complete_stop(id);

    let metadata = manager.get_subsystem_metadata(id).unwrap();
    assert_eq!(metadata.state, SubsystemState::Stopped);
    assert!(metadata.stopped_at.is_some());
}

#[test]
fn subsystem_test_subsystem_failure() {
    let mut manager = SubsystemManager::new();
    let id = manager.register("failing", RestartPolicy::Never);

    manager.start_subsystem(id).unwrap();
    manager.record_exit(id, Err("Test failure".to_string()));

    let metadata = manager.get_subsystem_metadata(id).unwrap();
    assert_eq!(metadata.state, SubsystemState::Failed);
    assert!(metadata.last_error.is_some());
    assert_eq!(metadata.last_error.as_deref(), Some("Test failure"));
    assert_eq!(manager.get_stats().failed_subsystems, 1);
}

#[test]
fn subsystem_test_closure_subsystem() {
    let mut manager = SubsystemManager::new();
    let id = manager.register("closure_test", RestartPolicy::Never);

    manager.start_subsystem(id).unwrap();
    let metadata = manager.get_subsystem_metadata(id).unwrap();
    assert_eq!(metadata.state, SubsystemState::Running);

    manager.stop_subsystem(id).unwrap();
    manager.record_exit(id, Ok(()));
    manager.complete_stop(id);
    let metadata = manager.get_subsystem_metadata(id).unwrap();
    assert_eq!(metadata.state, SubsystemState::Stopped);
}

#[test]
fn identifiers_are_issued_in_sequence_from_one() {
    let mut manager = SubsystemManager::new();
    assert_eq!(manager.register("a", RestartPolicy::Never), 1);
    assert_eq!(manager.register("b", RestartPolicy::Always), 2);
    assert_eq!(manager.register("c", RestartPolicy::OnFailure), 3);
    assert_eq!(manager.subsystem_ids(), vec![1, 2, 3]);
    let names: Vec<String> = manager.get_all_metadata().into_iter().map(|m| m.name).collect();
    assert_eq!(names, vec!["a", "b", "c"]);
    let fresh = manager.clone();
    assert_eq!(fresh.get_stats().total_subsystems, 0);
    let mut fresh = fresh;
    assert_eq!(fresh.register("d", RestartPolicy::Never), 4);
}

#[test]
fn unknown_subsystem_is_reported() {
    let mut manager = SubsystemManager::new();
    assert!(manager.get_subsystem_metadata(7).is_none());
    let err = manager.start_subsystem(7).unwrap_err();
    assert_eq!(
        err,
        proc_daemon::error::Error::Subsystem {
            name: "unknown".to_string(),
            message: "Subsystem not found".to_string()
        }
    );
    assert!(manager.stop_subsystem(7).is_err());
    assert!(manager.restart_subsystem(7).is_err());
}

#[test]
fn restart_counts_and_waits() {
    let mut manager = SubsystemManager::new();
    let id = manager.register("worker", backoff(100, 60, 5));
    let first = manager.restart_subsystem(id).unwrap();
    assert_eq!(first.as_nanos(), 100_000_000);
    let second = manager.restart_subsystem(id).unwrap();
    assert_eq!(second.as_nanos(), 200_000_000);
    let metadata = manager.get_subsystem_metadata(id).unwrap();
    assert_eq!(metadata.restart_count, 2);
    assert_eq!(metadata.state, SubsystemState::Restarting);
    assert_eq!(manager.get_stats().total_restarts, 2);

    let plain = manager.register("plain", RestartPolicy::Always);
    assert!(manager.restart_subsystem(plain).unwrap().is_zero());
    assert_eq!(manager.get_stats().total_restarts, 3);
}

#[test]
fn backoff_delay_doubles_then_caps() {
    let policy = backoff(100, 60, 20);
    let expected_ms = [100u128, 200, 400, 800, 1600, 3200, 6400, 12800, 25600, 51200, 60000, 60000, 60000];
    for (count, ms) in expected_ms.iter().enumerate() {
        let delay = SubsystemManager::calculate_restart_delay(&metadata(
            SubsystemState::Failed,
            count as u32,
            policy,
        ));
        assert_eq!(delay.as_nanos(), ms * 1_000_000, "restart count {count}");
    }
    let uncapped = backoff(1, 3600, 20);
    let at_ten = SubsystemManager::calculate_restart_delay(&metadata(SubsystemState::Failed, 10, uncapped));
    let at_fifty = SubsystemManager::calculate_restart_delay(&metadata(SubsystemState::Failed, 50, uncapped));
    assert_eq!(at_ten.as_nanos(), 1024 * 1_000_000);
    assert_eq!(at_fifty, at_ten);
    let never = SubsystemManager::calculate_restart_delay(&metadata(SubsystemState::Failed, 3, RestartPolicy::Never));
    assert!(never.is_zero());
}

#[test]
fn restart_decisions_follow_policy() {
    let check = |state, count, policy| SubsystemManager::should_restart(&metadata(state, count, policy));
    assert!(!check(SubsystemState::Failed, 0, RestartPolicy::Never));
    assert!(check(SubsystemState::Stopped, 0, RestartPolicy::Always));
    assert!(check(SubsystemState::Failed, 0, RestartPolicy::OnFailure));
    assert!(!check(SubsystemState::Stopped, 0, RestartPolicy::OnFailure));
    assert!(check(SubsystemState::Failed, 4, backoff(100, 60, 5)));
    assert!(!check(SubsystemState::Failed, 5, backoff(100, 60, 5)));
    assert!(!check(SubsystemState::Stopped, 0, backoff(100, 60, 5)));
}

#[test]
fn health_checks_only_judge_running_subsystems() {
    let mut manager = SubsystemManager::new();
    let a = manager.register("a", RestartPolicy::Never);
    let b = manager.register("b", RestartPolicy::Never);
    let c = manager.register("c", RestartPolicy::Never);
    manager.start_subsystem(a).unwrap();
    manager.start_subsystem(b).unwrap();
    let report = manager.run_health_checks(&vec![Some(false), None, Some(false)]);
    assert_eq!(
        report,
        vec![(a, "a".to_string(), false), (b, "b".to_string(), true), (c, "c".to_string(), true)]
    );
}

#[test]
fn state_updates_record_times_and_errors() {
    let mut manager = SubsystemManager::new();
    let id = manager.register("x", RestartPolicy::Never);
    let t = Instant::now();
    manager.update_state_with_timestamp(id, SubsystemState::Running, Some(t), None);
    let m = manager.get_subsystem_metadata(id).unwrap();
    assert_eq!(m.state, SubsystemState::Running);
    assert_eq!(m.started_at, Some(t));
    assert_eq!(m.stopped_at, None);
    manager.update_state_with_error(id, SubsystemState::Stopping, "slow".to_string());
    let m = manager.get_subsystem_metadata(id).unwrap();
    assert_eq!(m.last_error.as_deref(), Some("slow"));
    assert_eq!(m.stopped_at, None);
    manager.update_state_with_error(id, SubsystemState::Failed, "boom".to_string());
    assert!(manager.get_subsystem_metadata(id).unwrap().stopped_at.is_some());
    manager.update_state(id, SubsystemState::Restarting);
    assert_eq!(manager.get_subsystem_metadata(id).unwrap().state, SubsystemState::Restarting);
}

#[test]
fn state_labels() {
    assert_eq!(SubsystemState::Starting.label(), "Starting");
    assert_eq!(SubsystemState::Running.label(), "Running");
    assert_eq!(SubsystemState::Stopping.label(), "Stopping");
    assert_eq!(SubsystemState::Stopped.label(), "Stopped");
    assert_eq!(SubsystemState::Failed.label(), "Failed");
    assert_eq!(SubsystemState::Restarting.label(), "Restarting");
}

#[test]
fn explicit_times_are_recorded_as_given() {
    let mut manager = SubsystemManager::new();
    let registered = Instant::now();
    let id = manager.register_at("timed", RestartPolicy::OnFailure, registered);
    let started = Instant::now();
    manager.start_subsystem_at(id, started).unwrap();
    let m = manager.get_subsystem_metadata(id).unwrap();
    assert_eq!(m.registered_at, registered);
    assert_eq!(m.started_at, Some(started));
    let stopped = Instant::now();
    manager.record_exit_at(id, Err("crashed".to_string()), stopped);
    let m = manager.get_subsystem_metadata(id).unwrap();
    assert_eq!(m.state, SubsystemState::Failed);
    assert_eq!(m.stopped_at, Some(stopped));
    assert_eq!(m.last_error.as_deref(), Some("crashed"));
    assert_eq!(m.started_at, Some(started));
    let later = Instant::now();
    manager.complete_stop_at(id, later);
    let m = manager.get_subsystem_metadata(id).unwrap();
    assert_eq!(m.state, SubsystemState::Stopped);
    assert_eq!(m.stopped_at, Some(later));
    let again = Instant::now();
    manager.update_state_with_error_at(id, SubsystemState::Running, "warn".to_string(), again);
    assert_eq!(manager.get_subsystem_metadata(id).unwrap().stopped_at, Some(later));
    manager.update_state_with_error_at(id, SubsystemState::Stopped, "done".to_string(), again);
    assert_eq!(manager.get_subsystem_metadata(id).unwrap().stopped_at, Some(again));
    assert!(manager.start_subsystem_at(99, again).is_err());
}

#[test]
fn total_restarts_is_the_sum_of_restart_counts() {
    let mut manager = SubsystemManager::new();
    let ids: Vec<u64> = (0..5).map(|i| manager.register(&format!("s{i}"), RestartPolicy::Always)).collect();
    assert_eq!(ids, vec![1, 2, 3, 4, 5]);
    for (k, id) in ids.iter().enumerate() {
        for _ in 0..k {
            manager.restart_subsystem(*id).unwrap();
        }
    }
    manager.start_subsystem(ids[1]).unwrap();
    manager.stop_subsystem(ids[2]).unwrap();
    manager.complete_stop(ids[2]);
    manager.record_exit(ids[3], Ok(()));
    let stats = manager.get_stats();
    let sum: u64 = stats.subsystems.iter().map(|m| u64::from(m.restart_count)).sum();
    assert_eq!(stats.total_restarts, 10);
    assert_eq!(stats.total_restarts, sum);
    let listed: Vec<u64> = stats.subsystems.iter().map(|m| m.id).collect();
    assert!(listed.windows(2).all(|w| w[0] < w[1]));
}

#[test]
fn restart_then_start_leaves_the_subsystem_running() {
    let mut manager = SubsystemManager::new();
    let id = manager.register("worker", backoff(10, 1, 3));
    let other = manager.register("other", RestartPolicy::Never);
    let before_other = manager.get_subsystem_metadata(other).unwrap();
    let delay = manager.restart_subsystem(id).unwrap();
    assert_eq!(delay.as_nanos(), 10_000_000);
    assert_eq!(manager.get_subsystem_metadata(id).unwrap().state, SubsystemState::Restarting);
    let at = Instant::now();
    manager.start_subsystem_at(id, at).unwrap();
    let m = manager.get_subsystem_metadata(id).unwrap();
    assert_eq!(m.state, SubsystemState::Running);
    assert_eq!(m.restart_count, 1);
    assert_eq!(m.started_at, Some(at));
    assert_eq!(manager.get_stats().total_restarts, 1);
    let after_other = manager.get_subsystem_metadata(other).unwrap();
    assert_eq!(after_other.state, before_other.state);
    assert_eq!(after_other.restart_count, before_other.restart_count);
}
