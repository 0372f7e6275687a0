//! The daemon's run sequence, as steps from state and event to next state and
//! action, and daemon-level views over the subsystem registry and the shutdown
//! coordinator.
use std::time::{Duration, Instant};
use vstd::prelude::*;

use crate::error::Error;
use crate::shutdown::{ShutdownCoordinator, ShutdownReason};
use crate::subsystem::{count_in_state, SubsystemId, SubsystemManager, SubsystemState, SubsystemStats};
use crate::time::elapsed_since;

verus! {

/// Statistics about the daemon's current state.
#[derive(Debug)]
pub struct DaemonStats {
    /// Daemon name.
    pub name: String,
    /// Time since the daemon started, once it has.
    pub uptime: Option<Duration>,
    /// Whether shutdown has been initiated.
    pub is_shutdown: bool,
    /// Reason for shutdown (if any).
    pub shutdown_reason: Option<ShutdownReason>,
    /// Subsystem statistics.
    pub subsystem_stats: SubsystemStats,
    /// Total number of subsystem restarts.
    pub total_restarts: u64,
}

impl DaemonStats {
    /// The statistics of the daemon named `name`, started at `started_at` (if it
    /// has started), from its shutdown coordinator and subsystem registry.
    pub fn gather(
        name: &str,
        started_at: Option<Instant>,
        shutdown: &ShutdownCoordinator,
        subsystems: &SubsystemManager,
    ) -> (s: DaemonStats)
        ensures
            s.name@ == name@,
            s.uptime is Some <==> started_at is Some,
            s.is_shutdown == (shutdown@.reason is Some),
            s.shutdown_reason == shutdown@.reason,
            s.subsystem_stats.total_subsystems == subsystems@.entries.len(),
            s.subsystem_stats.running_subsystems == count_in_state(
                subsystems@.entries,
                SubsystemState::Running,
            ),
            s.subsystem_stats.failed_subsystems == count_in_state(
                subsystems@.entries,
                SubsystemState::Failed,
            ),
            s.subsystem_stats.stopping_subsystems == count_in_state(
                subsystems@.entries,
                SubsystemState::Stopping,
            ),
            s.subsystem_stats.total_restarts == subsystems@.total_restarts,
            s.subsystem_stats.subsystems@ == subsystems@.entries,
            s.total_restarts == subsystems@.total_restarts,
    {
        let subsystem_stats = subsystems.get_stats();
        let shutdown_stats = shutdown.get_stats();
        let total_restarts = subsystem_stats.total_restarts;
        let uptime = match started_at {
            Some(t) => Some(elapsed_since(t)),
            None => None,
        };
        DaemonStats {
            name: name.to_owned(),
            uptime,
            is_shutdown: shutdown_stats.is_shutdown,
            shutdown_reason: shutdown_stats.reason,
            subsystem_stats,
            total_restarts,
        }
    }
}

/// The entries of a health report that are marked unhealthy, as (identifier,
/// name), in the report's order.
pub open spec fn unhealthy_of(report: Seq<(SubsystemId, String, bool)>) -> Seq<(SubsystemId, String)>
    decreases report.len(),
{
    if report.len() == 0 {
        Seq::empty()
    } else {
        let rest = unhealthy_of(report.drop_last());
        if report.last().2 {
            rest
        } else {
            rest.push((report.last().0, report.last().1))
        }
    }
}

/// The subsystems that a health report lists as unhealthy, as (identifier, name),
/// in the report's order.
pub fn unhealthy_subsystems(report: &Vec<(SubsystemId, String, bool)>) -> (r: Vec<(SubsystemId, String)>)
    ensures
        r@ == unhealthy_of(report@),
{
    let mut out: Vec<(SubsystemId, String)> = Vec::new();
    let mut i: usize = 0;
    while i < report.len()
        invariant
            i <= report@.len(),
            out@ == unhealthy_of(report@.subrange(0, i as int)),
        decreases report@.len() - i,
    {
        let ghost next = report@.subrange(0, i + 1);
        assert(next.drop_last() =~= report@.subrange(0, i as int));
        let entry = &report[i];
        if !entry.2 {
            out.push((entry.0, entry.1.clone()));
        }
        i = i + 1;
    }
    assert(report@.subrange(0, report@.len() as int) =~= report@);
    out
}

/// Where a daemon's run stands.
#[derive(Debug, Clone, Copy, PartialEq, Eq, Structural)]
pub enum RunPhase {
    /// Logging and configuration are being set up.
    Starting,
    /// The subsystems are being started.
    StartingSubsystems,
    /// Serving: watching for shutdown and polling health.
    Running,
    /// Shutdown was initiated; signal handling is being stopped.
    StoppingSignals,
    /// The subsystems are being stopped.
    StoppingSubsystems,
    /// Waiting up to the graceful timeout for every subsystem to report ready.
    GracefulWait,
    /// Waiting up to the force timeout for the stragglers.
    ForceWait,
    /// Waiting up to the kill timeout, the final ceiling.
    KillWait,
    /// The run is over.
    Done,
}

/// What happened since the last step: the outcome of the last action.
#[derive(Debug)]
pub enum RunEvent {
    /// Logging and configuration were set up, or the first error doing so.
    Prepared(Result<(), Error>),
    /// The subsystems were started, or the error starting them.
    SubsystemsStarted(Result<(), Error>),
    /// The health of the subsystems was polled.
    HealthPolled,
    /// A pause ended, or shutdown was initiated during it.
    Tick,
    /// Signal handling stopped.
    SignalsStopped,
    /// The subsystems were stopped.
    SubsystemsStopped,
    /// A wait for readiness ended, with every subsystem ready or not.
    WaitEnded {
        /// Whether every subsystem reported ready in time.
        all_ready: bool,
    },
}

/// What the daemon does next.
#[derive(Debug, PartialEq, Eq)]
pub enum RunAction {
    /// Start every registered subsystem.
    StartAll,
    /// Poll the health of the subsystems.
    PollHealth,
    /// Pause for the health-check interval, or until shutdown is initiated.
    Sleep,
    /// Stop signal handling.
    StopSignals,
    /// Stop every subsystem.
    StopAll,
    /// Wait up to this many milliseconds for every subsystem to report ready.
    Wait(u64),
    /// End the run with this result.
    Finish(Result<(), Error>),
}

/// The step taken while running: shut down once a reason is recorded, otherwise
/// poll health when health checks are on, else pause.
pub open spec fn running_step(shutdown_initiated: bool, health_checks: bool) -> (RunPhase, RunAction) {
    if shutdown_initiated {
        (RunPhase::StoppingSignals, RunAction::StopSignals)
    } else if health_checks {
        (RunPhase::Running, RunAction::PollHealth)
    } else {
        (RunPhase::Running, RunAction::Sleep)
    }
}

/// Whether `e` is the error ending a run whose subsystems were still not all
/// ready when the kill timeout, the final ceiling of the shutdown, ran out.
pub open spec fn is_shutdown_timeout(e: Error, kill_timeout_ms: u64) -> bool {
    e matches Error::Timeout { operation, timeout_ms } && operation@ == "kill shutdown"@ && timeout_ms
        == kill_timeout_ms
}

/// One step of a daemon's run: from the phase it is in and the outcome of its
/// last action to the next phase and action.
///
/// Setting up logging and configuration, then starting the subsystems, ends the
/// run with the error of the first that fails. While running, the daemon leaves
/// the loop as soon as shutdown is initiated, and otherwise polls health when
/// health checks are on and pauses. Shutting down stops signal handling, then the
/// subsystems, then waits up to the graceful timeout for every subsystem to
/// report ready, then up to the force timeout, then up to the kill timeout; the
/// run succeeds at the first wait that ends with every subsystem ready, and fails
/// with a timeout when the last one does not. An event that does not belong to
/// the phase ends the run with a runtime error.
pub fn run_step(phase: RunPhase, event: RunEvent, health_checks: bool, shutdown: &ShutdownCoordinator) -> (r: (
    RunPhase,
    RunAction,
))
    ensures
        phase == RunPhase::Starting && event is Prepared ==> match event {
            RunEvent::Prepared(Ok(())) => r == (RunPhase::StartingSubsystems, RunAction::StartAll),
            RunEvent::Prepared(Err(e)) => r == (RunPhase::Done, RunAction::Finish(Err(e))),
            _ => true,
        },
        phase == RunPhase::StartingSubsystems && event is SubsystemsStarted ==> match event {
            RunEvent::SubsystemsStarted(Ok(())) => r == running_step(
                shutdown@.reason is Some,
                health_checks,
            ),
            RunEvent::SubsystemsStarted(Err(e)) => r == (RunPhase::Done, RunAction::Finish(Err(e))),
            _ => true,
        },
        phase == RunPhase::Running && event is Tick ==> r == running_step(
            shutdown@.reason is Some,
            health_checks,
        ),
        phase == RunPhase::Running && event is HealthPolled ==> r == (RunPhase::Running, RunAction::Sleep),
        phase == RunPhase::StoppingSignals && event is SignalsStopped ==> r == (
            RunPhase::StoppingSubsystems,
            RunAction::StopAll,
        ),
        phase == RunPhase::StoppingSubsystems && event is SubsystemsStopped ==> r == (
            RunPhase::GracefulWait,
            RunAction::Wait(shutdown@.graceful_timeout_ms),
        ),
        phase == RunPhase::GracefulWait && event is WaitEnded ==> r == if event->all_ready {
            (RunPhase::Done, RunAction::Finish(Ok(())))
        } else {
            (RunPhase::ForceWait, RunAction::Wait(shutdown@.force_timeout_ms))
        },
        phase == RunPhase::ForceWait && event is WaitEnded ==> r == if event->all_ready {
            (RunPhase::Done, RunAction::Finish(Ok(())))
        } else {
            (RunPhase::KillWait, RunAction::Wait(shutdown@.kill_timeout_ms))
        },
        phase == RunPhase::KillWait && event is WaitEnded ==> if event->all_ready {
            r == (RunPhase::Done, RunAction::Finish(Ok(())))
        } else {
            &&& r.0 == RunPhase::Done
            &&& r.1 matches RunAction::Finish(Err(e)) && is_shutdown_timeout(e, shutdown@.kill_timeout_ms)
        },
        !run_event_expected(phase, event) ==> {
            &&& r.0 == RunPhase::Done
            &&& r.1 matches RunAction::Finish(Err(Error::Runtime { .. }))
        },
{
    match (phase, event) {
        (RunPhase::Starting, RunEvent::Prepared(outcome)) => match outcome {
            Ok(()) => (RunPhase::StartingSubsystems, RunAction::StartAll),
            Err(e) => (RunPhase::Done, RunAction::Finish(Err(e))),
        },
        (RunPhase::StartingSubsystems, RunEvent::SubsystemsStarted(outcome)) => match outcome {
            Ok(()) => running_action(shutdown.is_shutdown(), health_checks),
            Err(e) => (RunPhase::Done, RunAction::Finish(Err(e))),
        },
        (RunPhase::Running, RunEvent::Tick) => running_action(shutdown.is_shutdown(), health_checks),
        (RunPhase::Running, RunEvent::HealthPolled) => (RunPhase::Running, RunAction::Sleep),
        (RunPhase::StoppingSignals, RunEvent::SignalsStopped) => (RunPhase::StoppingSubsystems, RunAction::StopAll),
        (RunPhase::StoppingSubsystems, RunEvent::SubsystemsStopped) => (
            RunPhase::GracefulWait,
            RunAction::Wait(shutdown.graceful_timeout_ms()),
        ),
        (RunPhase::GracefulWait, RunEvent::WaitEnded { all_ready }) => if all_ready {
            (RunPhase::Done, RunAction::Finish(Ok(())))
        } else {
            (RunPhase::ForceWait, RunAction::Wait(shutdown.force_timeout_ms()))
        },
        (RunPhase::ForceWait, RunEvent::WaitEnded { all_ready }) => if all_ready {
            (RunPhase::Done, RunAction::Finish(Ok(())))
        } else {
            (RunPhase::KillWait, RunAction::Wait(shutdown.kill_timeout_ms()))
        },
        (RunPhase::KillWait, RunEvent::WaitEnded { all_ready }) => if all_ready {
            (RunPhase::Done, RunAction::Finish(Ok(())))
        } else {
            (
                RunPhase::Done,
                RunAction::Finish(Err(Error::timeout("kill shutdown", shutdown.kill_timeout_ms()))),
            )
        },
        _ => (RunPhase::Done, RunAction::Finish(Err(Error::runtime("event does not fit the run phase")))),
    }
}

/// Whether `event` is an outcome that the action of `phase` can produce.
pub open spec fn run_event_expected(phase: RunPhase, event: RunEvent) -> bool {
    match phase {
        RunPhase::Starting => event is Prepared,
        RunPhase::StartingSubsystems => event is SubsystemsStarted,
        RunPhase::Running => event is Tick || event is HealthPolled,
        RunPhase::StoppingSignals => event is SignalsStopped,
        RunPhase::StoppingSubsystems => event is SubsystemsStopped,
        RunPhase::GracefulWait | RunPhase::ForceWait | RunPhase::KillWait => event is WaitEnded,
        RunPhase::Done => false,
    }
}

/// The step taken while running (see [`running_step`]).
fn running_action(shutdown_initiated: bool, health_checks: bool) -> (r: (RunPhase, RunAction))
    ensures
        r == running_step(shutdown_initiated, health_checks),
{
    if shutdown_initiated {
        (RunPhase::StoppingSignals, RunAction::StopSignals)
    } else if health_checks {
        (RunPhase::Running, RunAction::PollHealth)
    } else {
        (RunPhase::Running, RunAction::Sleep)
    }
}

/// While running, the daemon leaves its loop as soon as shutdown is initiated,
/// whether or not health checks are on; until then it never stops signal
/// handling, polls health exactly when health checks are on, and pauses otherwise.
pub proof fn lemma_running_loop_leaves_on_shutdown(health_checks: bool)
    ensures
        running_step(true, health_checks) == (RunPhase::StoppingSignals, RunAction::StopSignals),
        running_step(false, health_checks).0 == RunPhase::Running,
        running_step(false, health_checks).1 != RunAction::StopSignals,
        running_step(false, health_checks).1 == RunAction::PollHealth <==> health_checks,
        !health_checks ==> running_step(false, health_checks).1 == RunAction::Sleep,
{
}

/// The unhealthy subsystems of a report are exactly its entries whose health
/// flag is false, in the report's order, each as (identifier, name): every such
/// entry is listed and nothing else is.
pub proof fn lemma_unhealthy_are_the_failing_entries(report: Seq<(SubsystemId, String, bool)>)
    ensures
        unhealthy_of(report) == report.filter(|e: (SubsystemId, String, bool)| !e.2).map_values(
            |e: (SubsystemId, String, bool)| (e.0, e.1),
        ),
        unhealthy_of(report).len() == report.filter(|e: (SubsystemId, String, bool)| !e.2).len(),
        forall|i: int|
            0 <= i < report.len() && !(#[trigger] report[i]).2 ==> unhealthy_of(report).contains(
                (report[i].0, report[i].1),
            ),
    decreases report.len(),
{
    let pred = |e: (SubsystemId, String, bool)| !e.2;
    let strip = |e: (SubsystemId, String, bool)| (e.0, e.1);
    reveal(Seq::filter);
    if report.len() > 0 {
        lemma_unhealthy_are_the_failing_entries(report.drop_last());
        let sub = report.drop_last().filter(pred);
        if pred(report.last()) {
            assert(report.filter(pred) == sub.push(report.last()));
            assert(sub.push(report.last()).map_values(strip) =~= sub.map_values(strip).push(
                strip(report.last()),
            ));
        } else {
            assert(report.filter(pred) == sub);
        }
    }
    assert(unhealthy_of(report) =~= report.filter(pred).map_values(strip));
    assert forall|i: int| 0 <= i < report.len() && !(#[trigger] report[i]).2 implies unhealthy_of(
        report,
    ).contains((report[i].0, report[i].1)) by {
        assert(pred(report[i]));
        report.lemma_filter_contains(pred, i);
        assert(report.filter(pred).contains(report[i]));
        let j = choose|j: int| 0 <= j < report.filter(pred).len() && report.filter(pred)[j] == report[i];
        assert(unhealthy_of(report)[j] == strip(report[i]));
    }
}

} // verus!
