use proc_daemon::shutdown::{validate_timeouts, ShutdownCoordinator, ShutdownReason};

#[test]
fn first_reason_wins() {
    let mut coordinator = ShutdownCoordinator::new(5000, 10000, 15000);
    assert!(!coordinator.is_shutdown());
    assert_eq!(coordinator.get_reason(), None);
    assert!(coordinator.initiate_shutdown(ShutdownReason::Signal(15)));
    assert!(!coordinator.initiate_shutdown(ShutdownReason::Requested));
    assert!(coordinator.is_shutdown());
    assert_eq!(coordinator.get_reason(), Some(ShutdownReason::Signal(15)));
    let stats = coordinator.get_stats();
    assert!(stats.is_shutdown);
    assert_eq!(stats.reason, Some(ShutdownReason::Signal(15)));
}

#[test]
fn readiness_of_handles() {
    let mut coordinator = ShutdownCoordinator::new(500, 1000, 2000);
    assert!(coordinator.all_ready());
    let a = coordinator.create_handle("a");
    let b = coordinator.create_handle("b");
    assert_eq!((a, b), (0, 1));
    assert!(!coordinator.all_ready());
    coordinator.mark_ready(b);
    assert!(coordinator.is_ready(b));
    assert!(!coordinator.is_ready(a));
    assert!(!coordinator.all_ready());
    coordinator.mark_ready(a);
    assert!(coordinator.all_ready());
}

#[test]
fn timeouts_are_kept_and_checked() {
    let mut coordinator = ShutdownCoordinator::new(1, 2, 3);
    assert_eq!(
        (coordinator.graceful_timeout_ms(), coordinator.force_timeout_ms(), coordinator.kill_timeout_ms()),
        (1, 2, 3)
    );
    coordinator.update_timeouts(30000, 45000, 60000);
    assert_eq!(coordinator.kill_timeout_ms(), 60000);
    assert!(validate_timeouts(30000, 45000, 60000).is_ok());
    assert!(validate_timeouts(0, 45000, 60000).is_err());
    assert!(validate_timeouts(30000, 30000, 60000).is_err());
    assert!(validate_timeouts(30000, 45000, 45000).is_err());
}

#[test]
fn forced_shutdown_and_remaining_budget() {
    let mut coordinator = ShutdownCoordinator::new(1000, 2000, 3000);
    assert!(!coordinator.is_forced());
    assert_eq!(coordinator.time_remaining_ms(10), None);
    coordinator.initiate_shutdown(ShutdownReason::Forced);
    assert!(coordinator.is_forced());
    assert_eq!(coordinator.time_remaining_ms(0), Some(1000));
    assert_eq!(coordinator.time_remaining_ms(250), Some(750));
    assert_eq!(coordinator.time_remaining_ms(1000), Some(0));
    assert_eq!(coordinator.time_remaining_ms(5000), Some(0));
    let mut requested = ShutdownCoordinator::new(1000, 2000, 3000);
    requested.initiate_shutdown(ShutdownReason::Requested);
    assert!(!requested.is_forced());
}
