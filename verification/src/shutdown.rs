//! Shutdown coordination: the reason a daemon shuts down, the timeouts of the
//! graceful, forced and kill phases, and which subsystems have reported that
//! they finished their cleanup.
use vstd::prelude::*;

use crate::error::Error;

verus! {

/// Why the daemon is shutting down.
#[derive(Debug, Clone, Copy, PartialEq, Eq, Structural)]
pub enum ShutdownReason {
    /// An OS signal (SIGTERM = 15, SIGINT = 2, ...).
    Signal(i32),
    /// A programmatic request.
    Requested,
    /// A subsystem returned an error.
    Error,
    /// A resource limit was exhausted.
    ResourceExhausted,
    /// The graceful timeout was exceeded.
    Forced,
}

/// Shutdown state as reported by [`ShutdownCoordinator::get_stats`].
#[derive(Debug, Clone, Copy, PartialEq, Eq, Structural)]
pub struct ShutdownStats {
    /// Whether shutdown has been initiated.
    pub is_shutdown: bool,
    /// The reason, once shutdown has been initiated.
    pub reason: Option<ShutdownReason>,
}

/// What to do next while waiting for the subsystems to report ready.
#[derive(Debug, Clone, Copy, PartialEq, Eq, Structural)]
pub enum ReadinessStep {
    /// Every handle reported ready: the wait succeeded.
    Ready,
    /// The wait's time is up with some handle not ready.
    TimedOut,
    /// Check again after sleeping this many milliseconds.
    SleepMs(u64),
}

/// The longest pause, in milliseconds, between two readiness checks.
pub const MAX_READINESS_PAUSE_MS: u64 = 50;

/// Identifier of a shutdown handle handed to a subsystem.
pub type HandleId = usize;

/// One subsystem's shutdown handle: its name and whether it reported ready.
#[derive(Debug)]
pub struct HandleRecord {
    /// The subsystem the handle belongs to.
    pub name: String,
    /// Whether the subsystem reported that its cleanup is done.
    pub ready: bool,
}

/// The abstract state of a [`ShutdownCoordinator`].
pub struct ShutdownView {
    /// The reason of the shutdown, once initiated.
    pub reason: Option<ShutdownReason>,
    /// The handles created so far, as (subsystem name, ready).
    pub handles: Seq<(Seq<char>, bool)>,
    /// Time granted to subsystems to finish cleanly, in milliseconds.
    pub graceful_timeout_ms: u64,
    /// Time after which stragglers are aborted, in milliseconds.
    pub force_timeout_ms: u64,
    /// Final ceiling of the shutdown, in milliseconds.
    pub kill_timeout_ms: u64,
}

/// The reason recorded after asking to shut down for `reason` when `current` was
/// recorded before: the first reason stays.
pub open spec fn reason_after_request(
    current: Option<ShutdownReason>,
    reason: ShutdownReason,
) -> Option<ShutdownReason> {
    if current is Some {
        current
    } else {
        Some(reason)
    }
}

/// Whether every handle has reported ready.
pub open spec fn all_handles_ready(handles: Seq<(Seq<char>, bool)>) -> bool {
    forall|i: int| 0 <= i < handles.len() ==> (#[trigger] handles[i]).1
}

/// Broadcasts shutdown to the daemon's subsystems and tracks their readiness.
pub struct ShutdownCoordinator {
    reason: Option<ShutdownReason>,
    handles: Vec<HandleRecord>,
    graceful_timeout_ms: u64,
    force_timeout_ms: u64,
    kill_timeout_ms: u64,
}

impl View for ShutdownCoordinator {
    type V = ShutdownView;

    closed spec fn view(&self) -> ShutdownView {
        ShutdownView {
            reason: self.reason,
            handles: self.handles@.map_values(|h: HandleRecord| (h.name@, h.ready)),
            graceful_timeout_ms: self.graceful_timeout_ms,
            force_timeout_ms: self.force_timeout_ms,
            kill_timeout_ms: self.kill_timeout_ms,
        }
    }
}

impl ShutdownCoordinator {
    /// A coordinator that has not initiated shutdown and has no handles, with the
    /// given graceful, force and kill timeouts in milliseconds.
    pub fn new(graceful_timeout_ms: u64, force_timeout_ms: u64, kill_timeout_ms: u64) -> (c: Self)
        ensures
            c@.reason is None,
            c@.handles == Seq::<(Seq<char>, bool)>::empty(),
            c@.graceful_timeout_ms == graceful_timeout_ms,
            c@.force_timeout_ms == force_timeout_ms,
            c@.kill_timeout_ms == kill_timeout_ms,
    {
        let c = ShutdownCoordinator {
            reason: None,
            handles: Vec::new(),
            graceful_timeout_ms,
            force_timeout_ms,
            kill_timeout_ms,
        };
        assert(c@.handles =~= Seq::<(Seq<char>, bool)>::empty());
        c
    }

    /// Create the shutdown handle of subsystem `subsystem_name`; it starts not ready.
    pub fn create_handle(&mut self, subsystem_name: &str) -> (h: HandleId)
        ensures
            h == old(self)@.handles.len(),
            final(self)@.handles == old(self)@.handles.push((subsystem_name@, false)),
            final(self)@.reason == old(self)@.reason,
            final(self)@.graceful_timeout_ms == old(self)@.graceful_timeout_ms,
            final(self)@.force_timeout_ms == old(self)@.force_timeout_ms,
            final(self)@.kill_timeout_ms == old(self)@.kill_timeout_ms,
    {
        let h = self.handles.len();
        self.handles.push(HandleRecord { name: subsystem_name.to_owned(), ready: false });
        assert(self@.handles =~= old(self)@.handles.push((subsystem_name@, false)));
        h
    }

    /// Record that the subsystem holding `handle` finished its cleanup.
    pub fn mark_ready(&mut self, handle: HandleId)
        requires
            handle < old(self)@.handles.len(),
        ensures
            final(self)@.handles == old(self)@.handles.update(
                handle as int,
                (old(self)@.handles[handle as int].0, true),
            ),
            final(self)@.reason == old(self)@.reason,
            final(self)@.graceful_timeout_ms == old(self)@.graceful_timeout_ms,
            final(self)@.force_timeout_ms == old(self)@.force_timeout_ms,
            final(self)@.kill_timeout_ms == old(self)@.kill_timeout_ms,
    {
        self.handles[handle].ready = true;
        assert(self@.handles =~= old(self)@.handles.update(
            handle as int,
            (old(self)@.handles[handle as int].0, true),
        ));
    }

    /// Whether the subsystem holding `handle` reported ready.
    pub fn is_ready(&self, handle: HandleId) -> (b: bool)
        requires
            handle < self@.handles.len(),
        ensures
            b == self@.handles[handle as int].1,
    {
        self.handles[handle].ready
    }

    /// Whether every handle reported ready, which completes a graceful shutdown.
    pub fn all_ready(&self) -> (b: bool)
        ensures
            b == all_handles_ready(self@.handles),
    {
        let mut i: usize = 0;
        while i < self.handles.len()
            invariant
                i <= self.handles@.len(),
                forall|k: int| 0 <= k < i ==> (#[trigger] self.handles@[k]).ready,
            decreases self.handles@.len() - i,
        {
            if !self.handles[i].ready {
                assert(!self@.handles[i as int].1);
                return false;
            }
            i = i + 1;
        }
        assert forall|k: int| 0 <= k < self@.handles.len() implies (#[trigger] self@.handles[k]).1 by {
            assert(self.handles@[k].ready);
        }
        true
    }

    /// One round of waiting up to `timeout_ms` for every handle to report ready,
    /// `elapsed_ms` into the wait, where the last pause was `pause_ms`: ready when
    /// every handle is; timed out once the time is up; otherwise sleep `pause_ms`
    /// and pause twice as long next time, at most [`MAX_READINESS_PAUSE_MS`].
    /// Returns the step and the next pause.
    pub fn readiness_step(&self, elapsed_ms: u64, timeout_ms: u64, pause_ms: u64) -> (r: (
        ReadinessStep,
        u64,
    ))
        ensures
            r.0 == if all_handles_ready(self@.handles) {
                ReadinessStep::Ready
            } else if elapsed_ms >= timeout_ms {
                ReadinessStep::TimedOut
            } else {
                ReadinessStep::SleepMs(pause_ms)
            },
            r.1 == if 2 * pause_ms <= MAX_READINESS_PAUSE_MS {
                2 * pause_ms
            } else {
                MAX_READINESS_PAUSE_MS as int
            },
    {
        let next = if pause_ms <= MAX_READINESS_PAUSE_MS / 2 {
            2 * pause_ms
        } else {
            MAX_READINESS_PAUSE_MS
        };
        if self.all_ready() {
            (ReadinessStep::Ready, next)
        } else if elapsed_ms >= timeout_ms {
            (ReadinessStep::TimedOut, next)
        } else {
            (ReadinessStep::SleepMs(pause_ms), next)
        }
    }

    /// Initiate shutdown for `reason`. Returns `true` when this call initiated it;
    /// when shutdown was already initiated, nothing changes and `false` is returned.
    pub fn initiate_shutdown(&mut self, reason: ShutdownReason) -> (initiated: bool)
        ensures
            initiated == (old(self)@.reason is None),
            final(self)@.reason == reason_after_request(old(self)@.reason, reason),
            final(self)@.handles == old(self)@.handles,
            final(self)@.graceful_timeout_ms == old(self)@.graceful_timeout_ms,
            final(self)@.force_timeout_ms == old(self)@.force_timeout_ms,
            final(self)@.kill_timeout_ms == old(self)@.kill_timeout_ms,
    {
        if self.reason.is_some() {
            false
        } else {
            self.reason = Some(reason);
            true
        }
    }

    /// Whether shutdown has been initiated.
    pub fn is_shutdown(&self) -> (b: bool)
        ensures
            b == (self@.reason is Some),
    {
        self.reason.is_some()
    }

    /// Get the reason for shutdown, if any.
    pub fn get_reason(&self) -> (r: Option<ShutdownReason>)
        ensures
            r == self@.reason,
    {
        if self.is_shutdown() {
            self.reason
        } else {
            None
        }
    }

    /// Whether the shutdown was forced: its reason is that the graceful timeout
    /// was exceeded.
    pub fn is_forced(&self) -> (b: bool)
        ensures
            b == (self@.reason == Some(ShutdownReason::Forced)),
    {
        match self.reason {
            Some(ShutdownReason::Forced) => true,
            _ => false,
        }
    }

    /// What is left of the graceful budget `elapsed_ms` milliseconds after
    /// shutdown was initiated: the graceful timeout minus the elapsed time, and
    /// zero once it has passed; `None` while no shutdown has been initiated.
    pub fn time_remaining_ms(&self, elapsed_ms: u64) -> (r: Option<u64>)
        ensures
            r == if self@.reason is Some {
                Some(
                    if elapsed_ms < self@.graceful_timeout_ms {
                        (self@.graceful_timeout_ms - elapsed_ms) as u64
                    } else {
                        0u64
                    },
                )
            } else {
                None::<u64>
            },
    {
        if self.reason.is_none() {
            None
        } else if elapsed_ms < self.graceful_timeout_ms {
            Some(self.graceful_timeout_ms - elapsed_ms)
        } else {
            Some(0)
        }
    }

    /// Whether shutdown has been initiated, and why.
    pub fn get_stats(&self) -> (s: ShutdownStats)
        ensures
            s.is_shutdown == (self@.reason is Some),
            s.reason == self@.reason,
    {
        ShutdownStats { is_shutdown: self.is_shutdown(), reason: self.get_reason() }
    }

    /// Replace the graceful, force and kill timeouts, in milliseconds.
    pub fn update_timeouts(&mut self, graceful_timeout_ms: u64, force_timeout_ms: u64, kill_timeout_ms: u64)
        ensures
            final(self)@.graceful_timeout_ms == graceful_timeout_ms,
            final(self)@.force_timeout_ms == force_timeout_ms,
            final(self)@.kill_timeout_ms == kill_timeout_ms,
            final(self)@.reason == old(self)@.reason,
            final(self)@.handles == old(self)@.handles,
    {
        self.graceful_timeout_ms = graceful_timeout_ms;
        self.force_timeout_ms = force_timeout_ms;
        self.kill_timeout_ms = kill_timeout_ms;
    }

    /// Time granted to subsystems to finish cleanly, in milliseconds.
    pub fn graceful_timeout_ms(&self) -> (t: u64)
        ensures
            t == self@.graceful_timeout_ms,
    {
        self.graceful_timeout_ms
    }

    /// Time after which stragglers are aborted, in milliseconds.
    pub fn force_timeout_ms(&self) -> (t: u64)
        ensures
            t == self@.force_timeout_ms,
    {
        self.force_timeout_ms
    }

    /// Final ceiling of the shutdown, in milliseconds.
    pub fn kill_timeout_ms(&self) -> (t: u64)
        ensures
            t == self@.kill_timeout_ms,
    {
        self.kill_timeout_ms
    }
}

/// Whether shutdown timeouts are ordered as the phases they bound: a positive
/// graceful timeout, a longer force timeout and a longer kill timeout still.
pub open spec fn timeouts_ordered(graceful_timeout_ms: u64, force_timeout_ms: u64, kill_timeout_ms: u64) -> bool {
    0 < graceful_timeout_ms < force_timeout_ms < kill_timeout_ms
}

/// Check that shutdown timeouts satisfy `0 < graceful < force < kill`; a
/// configuration error otherwise.
pub fn validate_timeouts(graceful_timeout_ms: u64, force_timeout_ms: u64, kill_timeout_ms: u64) -> (r: Result<(), Error>)
    ensures
        r is Ok <==> timeouts_ordered(graceful_timeout_ms, force_timeout_ms, kill_timeout_ms),
        r is Err ==> r->Err_0 is Config,
{
    if graceful_timeout_ms == 0 {
        Err(Error::config("graceful shutdown timeout must be greater than zero"))
    } else if force_timeout_ms <= graceful_timeout_ms {
        Err(Error::config("force shutdown timeout must exceed the graceful shutdown timeout"))
    } else if kill_timeout_ms <= force_timeout_ms {
        Err(Error::config("kill timeout must exceed the force shutdown timeout"))
    } else {
        Ok(())
    }
}

/// Once shutdown is initiated, later requests change neither the shutdown state nor
/// its reason: the first reason wins, whatever is requested afterwards.
pub proof fn lemma_first_reason_wins(
    current: Option<ShutdownReason>,
    first: ShutdownReason,
    later: ShutdownReason,
)
    ensures
        reason_after_request(reason_after_request(current, first), later) == reason_after_request(
            current,
            first,
        ),
        reason_after_request(current, first) is Some,
        current is None ==> reason_after_request(current, first) == Some(first),
{
}

/// Marking a handle ready never makes another handle not ready, and once every
/// handle is ready, all stay ready.
pub proof fn lemma_ready_is_monotonic(handles: Seq<(Seq<char>, bool)>, h: int)
    requires
        0 <= h < handles.len(),
    ensures
        forall|i: int|
            0 <= i < handles.len() && handles[i].1 ==> (#[trigger] handles.update(
                h,
                (handles[h].0, true),
            )[i]).1,
        all_handles_ready(handles) ==> all_handles_ready(handles.update(h, (handles[h].0, true))),
{
}

/// Timeouts are accepted exactly when the graceful timeout is positive, the force
/// timeout exceeds it and the kill timeout exceeds the force timeout; in
/// particular a force timeout no longer than the graceful one, a kill timeout no
/// longer than the force one, or a zero graceful timeout is refused.
pub proof fn lemma_timeouts_ordered_exactly(graceful_timeout_ms: u64, force_timeout_ms: u64, kill_timeout_ms: u64)
    ensures
        timeouts_ordered(graceful_timeout_ms, force_timeout_ms, kill_timeout_ms) <==> (0 < graceful_timeout_ms
            && graceful_timeout_ms < force_timeout_ms && force_timeout_ms < kill_timeout_ms),
        force_timeout_ms <= graceful_timeout_ms ==> !timeouts_ordered(
            graceful_timeout_ms,
            force_timeout_ms,
            kill_timeout_ms,
        ),
        kill_timeout_ms <= force_timeout_ms ==> !timeouts_ordered(
            graceful_timeout_ms,
            force_timeout_ms,
            kill_timeout_ms,
        ),
        graceful_timeout_ms == 0 ==> !timeouts_ordered(graceful_timeout_ms, force_timeout_ms, kill_timeout_ms),
{
}

} // verus!
