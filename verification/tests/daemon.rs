use proc_daemon::daemon::{unhealthy_subsystems, DaemonStats};
use proc_daemon::shutdown::{ShutdownCoordinator, ShutdownReason};
use proc_daemon::subsystem::{RestartPolicy, SubsystemManager};
use std::time::Instant;

#[test]
fn test_daemon_stats() {
    let coordinator = ShutdownCoordinator::new(5000, 10000, 15000);
    let manager = SubsystemManager::new();

    let stats = DaemonStats::gather("proc-daemon", None, &coordinator, &manager);
    assert_eq!(stats.name, "proc-daemon");
    assert!(stats.uptime.is_none()); // Not started yet
    assert!(!stats.is_shutdown);
}

#[test]
fn stats_follow_subsystems_and_shutdown() {
    let mut coordinator = ShutdownCoordinator::new(5000, 10000, 15000);
    let mut manager = SubsystemManager::new();
    let id = manager.register("struct_test", RestartPolicy::Always);
    manager.start_subsystem(id).unwrap();
    manager.restart_subsystem(id).unwrap();
    coordinator.initiate_shutdown(ShutdownReason::Requested);
    let stats = DaemonStats::gather("d", Some(Instant::now()), &coordinator, &manager);
    assert!(stats.uptime.is_some());
    assert!(stats.is_shutdown);
    assert_eq!(stats.shutdown_reason, Some(ShutdownReason::Requested));
    assert_eq!(stats.subsystem_stats.total_subsystems, 1);
    assert_eq!(stats.total_restarts, 1);
}

#[test]
fn unhealthy_entries_are_picked_in_order() {
    let report = vec![
        (1, "a".to_string(), true),
        (2, "b".to_string(), false),
        (3, "c".to_string(), true),
        (4, "d".to_string(), false),
    ];
    assert_eq!(unhealthy_subsystems(&report), vec![(2, "b".to_string()), (4, "d".to_string())]);
    assert!(unhealthy_subsystems(&vec![]).is_empty());
}

use proc_daemon::daemon::{run_step, RunAction, RunEvent, RunPhase};
use proc_daemon::error::Error;
use proc_daemon::shutdown::ReadinessStep;

#[test]
fn run_sequence_walks_the_shutdown_ladder() {
    let mut shutdown = ShutdownCoordinator::new(100, 200, 300);
    let (p, a) = run_step(RunPhase::Starting, RunEvent::Prepared(Ok(())), true, &shutdown);
    assert_eq!((p, a), (RunPhase::StartingSubsystems, RunAction::StartAll));
    let (p, a) = run_step(p, RunEvent::SubsystemsStarted(Ok(())), true, &shutdown);
    assert_eq!((p, a), (RunPhase::Running, RunAction::PollHealth));
    let (p, a) = run_step(p, RunEvent::HealthPolled, true, &shutdown);
    assert_eq!((p, a), (RunPhase::Running, RunAction::Sleep));
    let (p, a) = run_step(p, RunEvent::Tick, false, &shutdown);
    assert_eq!((p, a), (RunPhase::Running, RunAction::Sleep));
    shutdown.initiate_shutdown(ShutdownReason::Requested);
    let (p, a) = run_step(p, RunEvent::Tick, true, &shutdown);
    assert_eq!((p, a), (RunPhase::StoppingSignals, RunAction::StopSignals));
    let (p, a) = run_step(p, RunEvent::SignalsStopped, true, &shutdown);
    assert_eq!((p, a), (RunPhase::StoppingSubsystems, RunAction::StopAll));
    let (p, a) = run_step(p, RunEvent::SubsystemsStopped, true, &shutdown);
    assert_eq!((p, a), (RunPhase::GracefulWait, RunAction::Wait(100)));
    let (p, a) = run_step(p, RunEvent::WaitEnded { all_ready: false }, true, &shutdown);
    assert_eq!((p, a), (RunPhase::ForceWait, RunAction::Wait(200)));
    let (p2, a2) = run_step(p, RunEvent::WaitEnded { all_ready: true }, true, &shutdown);
    assert_eq!((p2, a2), (RunPhase::Done, RunAction::Finish(Ok(()))));
    let (p, a) = run_step(p, RunEvent::WaitEnded { all_ready: false }, true, &shutdown);
    assert_eq!((p, a), (RunPhase::KillWait, RunAction::Wait(300)));
    let (p, a) = run_step(p, RunEvent::WaitEnded { all_ready: false }, true, &shutdown);
    assert_eq!(
        (p, a),
        (RunPhase::Done, RunAction::Finish(Err(Error::timeout("kill shutdown", 300))))
    );
}

#[test]
fn run_ends_with_startup_errors_and_unexpected_events() {
    let shutdown = ShutdownCoordinator::new(100, 200, 300);
    let (p, a) = run_step(RunPhase::Starting, RunEvent::Prepared(Err(Error::config("bad"))), true, &shutdown);
    assert_eq!((p, a), (RunPhase::Done, RunAction::Finish(Err(Error::config("bad")))));
    let (p, a) = run_step(
        RunPhase::StartingSubsystems,
        RunEvent::SubsystemsStarted(Err(Error::subsystem("w", "boom"))),
        true,
        &shutdown,
    );
    assert_eq!((p, a), (RunPhase::Done, RunAction::Finish(Err(Error::subsystem("w", "boom")))));
    let (p, a) = run_step(RunPhase::GracefulWait, RunEvent::Tick, true, &shutdown);
    assert_eq!(p, RunPhase::Done);
    assert!(matches!(a, RunAction::Finish(Err(Error::Runtime { .. }))));
    let (p, a) = run_step(RunPhase::GracefulWait, RunEvent::WaitEnded { all_ready: true }, true, &shutdown);
    assert_eq!((p, a), (RunPhase::Done, RunAction::Finish(Ok(()))));
}

#[test]
fn readiness_waits_back_off_until_ready_or_timed_out() {
    let mut shutdown = ShutdownCoordinator::new(100, 200, 300);
    let h = shutdown.create_handle("worker");
    assert_eq!(shutdown.readiness_step(0, 100, 1), (ReadinessStep::SleepMs(1), 2));
    assert_eq!(shutdown.readiness_step(10, 100, 16), (ReadinessStep::SleepMs(16), 32));
    assert_eq!(shutdown.readiness_step(10, 100, 32), (ReadinessStep::SleepMs(32), 50));
    assert_eq!(shutdown.readiness_step(100, 100, 50), (ReadinessStep::TimedOut, 50));
    shutdown.mark_ready(h);
    assert_eq!(shutdown.readiness_step(500, 100, 4), (ReadinessStep::Ready, 8));
}
