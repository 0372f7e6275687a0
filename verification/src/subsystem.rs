//! Subsystem lifecycle: states, restart policies and the registry that tracks
//! every subsystem a daemon manages.
//!
//! The registry records what happens to each subsystem (registration, start,
//! stop, exit, restart) and answers queries about it. Running the subsystems'
//! futures is left to the caller, which reports each event here.
use std::time::Instant;
use vstd::arithmetic::power2::{lemma_pow2_strictly_increases, pow2};
use vstd::prelude::*;

use crate::error::Error;
use crate::time::{now, Delay, MAX_DELAY_NANOS};

verus! {

/// Unique identifier for a subsystem.
pub type SubsystemId = u64;

/// Restart policy for subsystems that exit.
#[derive(Debug, Clone, Copy, PartialEq, Eq, Structural)]
pub enum RestartPolicy {
    /// Never restart the subsystem.
    Never,
    /// Always restart the subsystem, whether it failed or stopped cleanly.
    Always,
    /// Restart only on failure (not clean shutdown).
    OnFailure,
    /// Restart on failure with exponentially growing delays.
    ExponentialBackoff {
        /// Delay before the first restart.
        initial_delay: Delay,
        /// Maximum delay between restarts.
        max_delay: Delay,
        /// Maximum number of restart attempts.
        max_attempts: u32,
    },
}

impl Default for RestartPolicy {
    fn default() -> (p: Self)
        ensures
            p == RestartPolicy::Never,
    {
        RestartPolicy::Never
    }
}

/// State of a subsystem.
#[derive(Debug, Clone, Copy, PartialEq, Eq, Structural)]
pub enum SubsystemState {
    /// Subsystem is starting up.
    Starting,
    /// Subsystem is running normally.
    Running,
    /// Subsystem is shutting down gracefully.
    Stopping,
    /// Subsystem has stopped successfully.
    Stopped,
    /// Subsystem has failed.
    Failed,
    /// Subsystem is restarting.
    Restarting,
}

/// The name under which a state is displayed.
pub open spec fn state_label(state: SubsystemState) -> Seq<char> {
    match state {
        SubsystemState::Starting => "Starting"@,
        SubsystemState::Running => "Running"@,
        SubsystemState::Stopping => "Stopping"@,
        SubsystemState::Stopped => "Stopped"@,
        SubsystemState::Failed => "Failed"@,
        SubsystemState::Restarting => "Restarting"@,
    }
}

impl SubsystemState {
    /// The state's display name, such as `"Running"`.
    pub fn label(&self) -> (s: String)
        ensures
            s@ == state_label(*self),
    {
        let text: &str = match self {
            SubsystemState::Starting => "Starting",
            SubsystemState::Running => "Running",
            SubsystemState::Stopping => "Stopping",
            SubsystemState::Stopped => "Stopped",
            SubsystemState::Failed => "Failed",
            SubsystemState::Restarting => "Restarting",
        };
        text.to_owned()
    }
}

/// Whether `policy` allows another restart of a subsystem that is in `state`
/// and has been restarted `restart_count` times.
pub open spec fn restart_allowed(policy: RestartPolicy, state: SubsystemState, restart_count: u32) -> bool {
    match policy {
        RestartPolicy::Never => false,
        RestartPolicy::Always => true,
        RestartPolicy::OnFailure => state == SubsystemState::Failed,
        RestartPolicy::ExponentialBackoff { max_attempts, .. } => state == SubsystemState::Failed
            && restart_count < max_attempts,
    }
}

/// The exponent of the backoff after `restart_count` restarts: the count, capped at 10.
pub open spec fn backoff_exponent(restart_count: u32) -> nat {
    if restart_count <= 10 {
        restart_count as nat
    } else {
        10
    }
}

/// The uncapped backoff span, in nanoseconds, before restart number `restart_count`.
pub open spec fn backoff_nanos(initial_delay: Delay, restart_count: u32) -> nat {
    initial_delay@ * pow2(backoff_exponent(restart_count))
}

/// Whether the delay for `policy` after `restart_count` restarts can be represented.
pub open spec fn restart_delay_fits(policy: RestartPolicy, restart_count: u32) -> bool {
    match policy {
        RestartPolicy::ExponentialBackoff { initial_delay, .. } => backoff_nanos(
            initial_delay,
            restart_count,
        ) <= MAX_DELAY_NANOS,
        _ => true,
    }
}

/// The wait, in nanoseconds, before restarting a subsystem under `policy` that has
/// been restarted `restart_count` times: the initial delay doubled once per restart
/// (at most ten doublings), capped at the maximum delay; no wait for other policies.
pub open spec fn restart_delay_nanos(policy: RestartPolicy, restart_count: u32) -> nat {
    match policy {
        RestartPolicy::ExponentialBackoff { initial_delay, max_delay, .. } => {
            let uncapped = backoff_nanos(initial_delay, restart_count);
            if uncapped <= max_delay@ {
                uncapped
            } else {
                max_delay@
            }
        },
        _ => 0,
    }
}

/// Two to the power `exp`, for `exp` at most 10.
fn power_of_two(exp: u32) -> (p: u32)
    requires
        exp <= 10,
    ensures
        p == pow2(exp as nat),
{
    let mut p: u32 = 1;
    let mut i: u32 = 0;
    proof {
        vstd::arithmetic::power2::lemma2_to64();
    }
    while i < exp
        invariant
            i <= exp <= 10,
            p == pow2(i as nat),
        decreases exp - i,
    {
        proof {
            vstd::arithmetic::power2::lemma2_to64();
            vstd::arithmetic::power2::lemma_pow2_unfold((i + 1) as nat);
        }
        p = p * 2;
        i = i + 1;
    }
    p
}

/// Whether the delay for `policy` after `restart_count` restarts can be represented.
pub fn restart_delay_representable(policy: RestartPolicy, restart_count: u32) -> (b: bool)
    ensures
        b == restart_delay_fits(policy, restart_count),
{
    match policy {
        RestartPolicy::ExponentialBackoff { initial_delay, .. } => {
            let exp: u32 = if restart_count <= 10 {
                restart_count
            } else {
                10
            };
            let factor = power_of_two(exp);
            let n = initial_delay.as_nanos();
            proof {
                vstd::arithmetic::power2::lemma2_to64();
                if exp < 10 {
                    lemma_pow2_strictly_increases(exp as nat, 10);
                }
                assert(n * factor <= MAX_DELAY_NANOS * 1024) by (nonlinear_arith)
                    requires
                        n <= MAX_DELAY_NANOS,
                        factor <= 1024,
                ;
            }
            n * (factor as u128) <= MAX_DELAY_NANOS
        },
        _ => true,
    }
}

/// The restart delay for `policy` after `restart_count` restarts.
pub fn restart_delay(policy: RestartPolicy, restart_count: u32) -> (d: Delay)
    requires
        restart_delay_fits(policy, restart_count),
    ensures
        d@ == restart_delay_nanos(policy, restart_count),
{
    match policy {
        RestartPolicy::ExponentialBackoff { initial_delay, max_delay, .. } => {
            let exp: u32 = if restart_count <= 10 {
                restart_count
            } else {
                10
            };
            let factor = power_of_two(exp);
            let delay = initial_delay.mul(factor);
            delay.min(max_delay)
        },
        _ => Delay::zero(),
    }
}

/// Metadata about a subsystem.
#[derive(Debug)]
pub struct SubsystemMetadata {
    /// Unique identifier.
    pub id: SubsystemId,
    /// Human-readable name.
    pub name: String,
    /// Current state.
    pub state: SubsystemState,
    /// When the subsystem was registered.
    pub registered_at: Instant,
    /// When the subsystem was last started.
    pub started_at: Option<Instant>,
    /// When the subsystem was last stopped.
    pub stopped_at: Option<Instant>,
    /// Number of restart attempts.
    pub restart_count: u32,
    /// Last error (if any).
    pub last_error: Option<String>,
    /// Restart policy.
    pub restart_policy: RestartPolicy,
}

impl Clone for SubsystemMetadata {
    fn clone(&self) -> (m: Self)
        ensures
            m == *self,
    {
        let last_error = match &self.last_error {
            Some(e) => Some(e.clone()),
            None => None,
        };
        SubsystemMetadata {
            id: self.id,
            name: self.name.clone(),
            state: self.state,
            registered_at: self.registered_at,
            started_at: self.started_at,
            stopped_at: self.stopped_at,
            restart_count: self.restart_count,
            last_error,
            restart_policy: self.restart_policy,
        }
    }
}

/// Statistics for subsystem monitoring.
#[derive(Debug)]
pub struct SubsystemStats {
    /// Total number of registered subsystems.
    pub total_subsystems: usize,
    /// Number of running subsystems.
    pub running_subsystems: usize,
    /// Number of failed subsystems.
    pub failed_subsystems: usize,
    /// Number of stopping subsystems.
    pub stopping_subsystems: usize,
    /// Total restart attempts across all subsystems.
    pub total_restarts: u64,
    /// Subsystem metadata.
    pub subsystems: Vec<SubsystemMetadata>,
}

impl Clone for SubsystemStats {
    fn clone(&self) -> (s: Self)
        ensures
            s.total_subsystems == self.total_subsystems,
            s.running_subsystems == self.running_subsystems,
            s.failed_subsystems == self.failed_subsystems,
            s.stopping_subsystems == self.stopping_subsystems,
            s.total_restarts == self.total_restarts,
            s.subsystems@ == self.subsystems@,
    {
        let mut subsystems: Vec<SubsystemMetadata> = Vec::new();
        let mut i: usize = 0;
        while i < self.subsystems.len()
            invariant
                i <= self.subsystems@.len(),
                subsystems@ == self.subsystems@.subrange(0, i as int),
            decreases self.subsystems@.len() - i,
        {
            subsystems.push(self.subsystems[i].clone());
            i = i + 1;
            assert(subsystems@ =~= self.subsystems@.subrange(0, i as int));
        }
        assert(subsystems@ =~= self.subsystems@);
        SubsystemStats {
            total_subsystems: self.total_subsystems,
            running_subsystems: self.running_subsystems,
            failed_subsystems: self.failed_subsystems,
            stopping_subsystems: self.stopping_subsystems,
            total_restarts: self.total_restarts,
            subsystems,
        }
    }
}

/// Whether no two entries share an identifier.
pub open spec fn ids_unique(entries: Seq<SubsystemMetadata>) -> bool {
    forall|i: int, j: int|
        0 <= i < entries.len() && 0 <= j < entries.len() && i != j ==> #[trigger] entries[i].id
            != #[trigger] entries[j].id
}

/// Whether some entry carries the identifier `id`.
pub open spec fn has_id(entries: Seq<SubsystemMetadata>, id: SubsystemId) -> bool {
    exists|i: int| 0 <= i < entries.len() && #[trigger] entries[i].id == id
}

/// The position of the entry with identifier `id` (meaningful when `has_id` holds).
pub open spec fn position_of(entries: Seq<SubsystemMetadata>, id: SubsystemId) -> int {
    choose|i: int| 0 <= i < entries.len() && #[trigger] entries[i].id == id
}

/// The entry with identifier `id`, if any.
pub open spec fn lookup(entries: Seq<SubsystemMetadata>, id: SubsystemId) -> Option<SubsystemMetadata> {
    if has_id(entries, id) {
        Some(entries[position_of(entries, id)])
    } else {
        None
    }
}

/// The number of entries in `state`.
pub open spec fn count_in_state(entries: Seq<SubsystemMetadata>, state: SubsystemState) -> nat
    decreases entries.len(),
{
    if entries.len() == 0 {
        0
    } else {
        count_in_state(entries.drop_last(), state) + if entries.last().state == state {
            1nat
        } else {
            0nat
        }
    }
}

/// The restart counts of all entries, added up.
pub open spec fn restart_sum(entries: Seq<SubsystemMetadata>) -> nat
    decreases entries.len(),
{
    if entries.len() == 0 {
        0
    } else {
        restart_sum(entries.drop_last()) + entries.last().restart_count as nat
    }
}

/// Whether the identifiers of `entries` increase strictly in registration order
/// and all lie below `next_id`, the identifier the next registration receives.
pub open spec fn ids_ascending_below(entries: Seq<SubsystemMetadata>, next_id: u64) -> bool {
    &&& forall|i: int, j: int|
        0 <= i < j < entries.len() ==> #[trigger] entries[i].id < #[trigger] entries[j].id
    &&& forall|i: int| 0 <= i < entries.len() ==> #[trigger] entries[i].id < next_id
}

/// Whether the registry's bookkeeping agrees with its entries: identifiers are
/// handed out in increasing order and are all below the next one, and the total
/// restart count is the sum of the subsystems' restart counts (wrapping at
/// `u64::MAX` as the total does).
pub open spec fn registry_consistent(v: RegistryView) -> bool {
    &&& ids_ascending_below(v.entries, v.next_id)
    &&& v.total_restarts as int == restart_sum(v.entries) as int % 0x1_0000_0000_0000_0000
}

/// How one registration that returned `id` moves a registry from `before` to
/// `after`: `id` is the next identifier, the counter advances (wrapping at
/// `u64::MAX`, which exhausts the identifiers), the restart total stays, and
/// until the identifiers are exhausted the registry gains one entry, `id`, and
/// stays consistent.
pub open spec fn registration_step(before: RegistryView, after: RegistryView, id: SubsystemId) -> bool {
    &&& id == before.next_id
    &&& after.next_id == (if before.next_id == u64::MAX {
        0
    } else {
        before.next_id + 1
    })
    &&& after.total_restarts == before.total_restarts
    &&& after.ids_exhausted == (before.ids_exhausted || before.next_id == u64::MAX)
    &&& !before.ids_exhausted ==> {
        &&& !has_id(before.entries, id)
        &&& after.entries.len() == before.entries.len() + 1
        &&& after.entries.last().id == id
        &&& after.entries.drop_last() == before.entries
    }
    &&& !after.ids_exhausted ==> registry_consistent(after)
}

/// `m` with its state replaced and the given timestamps recorded where present.
pub open spec fn with_state_and_times(
    m: SubsystemMetadata,
    state: SubsystemState,
    started_at: Option<Instant>,
    stopped_at: Option<Instant>,
) -> SubsystemMetadata {
    SubsystemMetadata {
        state,
        started_at: if started_at is Some {
            started_at
        } else {
            m.started_at
        },
        stopped_at: if stopped_at is Some {
            stopped_at
        } else {
            m.stopped_at
        },
        ..m
    }
}

/// The abstract contents of a [`SubsystemManager`].
pub struct RegistryView {
    /// The registered subsystems, in registration order.
    pub entries: Seq<SubsystemMetadata>,
    /// The identifier the next registration receives.
    pub next_id: u64,
    /// Restarts performed so far (wrapping at `u64::MAX`).
    pub total_restarts: u64,
    /// Whether the identifiers have run out: the identifier `u64::MAX` was handed
    /// out and the sequence wrapped to 0, so later identifiers may repeat.
    pub ids_exhausted: bool,
}

/// Registry of the subsystems a daemon manages.
pub struct SubsystemManager {
    entries: Vec<SubsystemMetadata>,
    next_id: u64,
    total_restarts: u64,
    ids_exhausted: Ghost<bool>,
}

impl View for SubsystemManager {
    type V = RegistryView;

    closed spec fn view(&self) -> RegistryView {
        RegistryView {
            entries: self.entries@,
            next_id: self.next_id,
            total_restarts: self.total_restarts,
            ids_exhausted: self.ids_exhausted@,
        }
    }
}

impl Clone for SubsystemManager {
    /// A registry with no subsystems that continues this one's identifier sequence
    /// and counts restarts from zero.
    fn clone(&self) -> (m: Self)
        ensures
            m@.entries == Seq::<SubsystemMetadata>::empty(),
            m@.next_id == self@.next_id,
            m@.total_restarts == 0,
            !m@.ids_exhausted,
            registry_consistent(m@),
    {
        SubsystemManager {
            entries: Vec::new(),
            next_id: self.next_id,
            total_restarts: 0,
            ids_exhausted: Ghost(false),
        }
    }
}

impl SubsystemManager {
    #[verifier::type_invariant]
    spec fn bookkeeping_consistent(self) -> bool {
        &&& ids_unique(self.entries@)
        &&& self.ids_exhausted@ || registry_consistent(self@)
    }

    /// Create an empty registry whose first identifier is 1.
    pub fn new() -> (m: Self)
        ensures
            m@.entries == Seq::<SubsystemMetadata>::empty(),
            m@.next_id == 1,
            m@.total_restarts == 0,
            !m@.ids_exhausted,
            registry_consistent(m@),
    {
        SubsystemManager { entries: Vec::new(), next_id: 1, total_restarts: 0, ids_exhausted: Ghost(false) }
    }

    /// The position of the subsystem with identifier `id`, if registered.
    fn find(&self, id: SubsystemId) -> (r: Option<usize>)
        ensures
            match r {
                Some(i) => i < self@.entries.len() && self@.entries[i as int].id == id
                    && has_id(self@.entries, id) && position_of(self@.entries, id) == i,
                None => !has_id(self@.entries, id),
            },
    {
        proof {
            use_type_invariant(self);
        }
        let mut i: usize = 0;
        while i < self.entries.len()
            invariant
                i <= self.entries@.len(),
                ids_unique(self.entries@),
                forall|k: int| 0 <= k < i ==> #[trigger] self.entries@[k].id != id,
            decreases self.entries@.len() - i,
        {
            if self.entries[i].id == id {
                proof {
                    assert(has_id(self.entries@, id));
                    let p = position_of(self.entries@, id);
                    assert(self.entries@[p].id == id);
                }
                return Some(i);
            }
            i = i + 1;
        }
        None
    }

    /// Register a subsystem named `name` with the given restart policy, registered
    /// at time `at`.
    ///
    /// It receives the next identifier in sequence and starts in the `Starting`
    /// state. Identifiers wrap at `u64::MAX`; a registration that reuses the
    /// identifier of an existing entry replaces that entry. Until the identifiers
    /// have run out (see [`registration_step`]) the identifier is always new and
    /// the registry stays consistent.
    pub fn register_at(&mut self, name: &str, restart_policy: RestartPolicy, at: Instant) -> (id: SubsystemId)
        ensures
            id == old(self)@.next_id,
            final(self)@.next_id == (if old(self)@.next_id == u64::MAX {
                0
            } else {
                old(self)@.next_id + 1
            }),
            final(self)@.total_restarts == old(self)@.total_restarts,
            ({
                let m = final(self)@.entries[position_of(final(self)@.entries, id)];
                &&& m.id == id
                &&& m.name@ == name@
                &&& m.state == SubsystemState::Starting
                &&& m.started_at is None
                &&& m.stopped_at is None
                &&& m.restart_count == 0
                &&& m.last_error is None
                &&& m.restart_policy == restart_policy
                &&& m.registered_at == at
                &&& has_id(final(self)@.entries, id)
                &&& if has_id(old(self)@.entries, id) {
                    final(self)@.entries == old(self)@.entries.update(
                        position_of(old(self)@.entries, id),
                        m,
                    )
                } else {
                    final(self)@.entries == old(self)@.entries.push(m)
                }
            }),
            ids_ascending_below(old(self)@.entries, old(self)@.next_id) ==> !has_id(
                old(self)@.entries,
                id,
            ),
            registry_consistent(old(self)@) && old(self)@.next_id < u64::MAX ==> registry_consistent(
                final(self)@,
            ),
            registration_step(old(self)@, final(self)@, id),
    {
        proof {
            use_type_invariant(&*self);
        }
        let id = self.next_id;
        let found = self.find(id);
        let metadata = SubsystemMetadata {
            id,
            name: name.to_owned(),
            state: SubsystemState::Starting,
            registered_at: at,
            started_at: None,
            stopped_at: None,
            restart_count: 0,
            last_error: None,
            restart_policy,
        };
        let mut taken = SubsystemManager::new();
        std::mem::swap(&mut taken, self);
        proof {
            use_type_invariant(&taken);
        }
        let SubsystemManager { mut entries, next_id, total_restarts, ids_exhausted } = taken;
        let ghost before = entries@;
        match found {
            Some(i) => {
                entries.set(i, metadata);
                proof {
                    assert(entries@[i as int].id == id);
                    assert(has_id(entries@, id));
                    let p = position_of(entries@, id);
                    assert(entries@[p].id == id);
                    assert forall|a: int, b: int|
                        0 <= a < entries@.len() && 0 <= b < entries@.len() && a != b implies #[trigger] entries@[a].id
                        != #[trigger] entries@[b].id by {
                        assert(before[a].id == entries@[a].id);
                        assert(before[b].id == entries@[b].id);
                    }
                }
            },
            None => {
                entries.push(metadata);
                proof {
                    let last = (entries@.len() - 1) as int;
                    assert(entries@[last].id == id);
                    assert(has_id(entries@, id));
                    let p = position_of(entries@, id);
                    assert(entries@[p].id == id);
                    if p != last {
                        assert(before[p].id == id);
                        assert(has_id(before, id));
                    }
                    assert forall|a: int, b: int|
                        0 <= a < entries@.len() && 0 <= b < entries@.len() && a != b implies #[trigger] entries@[a].id
                        != #[trigger] entries@[b].id by {
                        if a == last {
                            assert(!has_id(before, id));
                            assert(before[b].id != id);
                        } else if b == last {
                            assert(!has_id(before, id));
                            assert(before[a].id != id);
                        } else {
                            assert(before[a].id == entries@[a].id);
                            assert(before[b].id == entries@[b].id);
                        }
                    }
                }
            },
        }
        let ghost exhausted: bool = ids_exhausted@ || next_id == u64::MAX;
        proof {
            let before_v = old(self)@;
            if ids_ascending_below(before_v.entries, before_v.next_id) && has_id(before_v.entries, id) {
                let q = position_of(before_v.entries, id);
                assert(before_v.entries[q].id < before_v.next_id);
            }
            if registry_consistent(before_v) && before_v.next_id < u64::MAX {
                let after = entries@;
                assert(!has_id(before_v.entries, id)) by {
                    if has_id(before_v.entries, id) {
                        let q = position_of(before_v.entries, id);
                        assert(before_v.entries[q].id < before_v.next_id);
                    }
                }
                assert(after.drop_last() =~= before_v.entries);
                assert(restart_sum(after) == restart_sum(before_v.entries));
                assert forall|i: int, j: int| 0 <= i < j < after.len() implies #[trigger] after[i].id
                    < #[trigger] after[j].id by {
                    if j == after.len() - 1 {
                        assert(before_v.entries[i].id < before_v.next_id);
                    } else {
                        assert(before_v.entries[i].id < before_v.entries[j].id);
                    }
                }
                assert forall|i: int| 0 <= i < after.len() implies #[trigger] after[i].id
                    < next_id + 1 by {
                    if i < after.len() - 1 {
                        assert(before_v.entries[i].id < before_v.next_id);
                    }
                }
            }
        }
        *self = SubsystemManager {
            entries,
            next_id: next_id.wrapping_add(1),
            total_restarts,
            ids_exhausted: Ghost(exhausted),
        };
        proof {
            let before_v = old(self)@;
            if !before_v.ids_exhausted {
                assert(registry_consistent(before_v));
                assert(!has_id(before_v.entries, id)) by {
                    if has_id(before_v.entries, id) {
                        let q = position_of(before_v.entries, id);
                        assert(before_v.entries[q].id < before_v.next_id);
                    }
                }
                assert(self@.entries.drop_last() =~= before_v.entries);
            }
        }
        id
    }

    /// Register a subsystem named `name` with the given restart policy.
    ///
    /// As [`SubsystemManager::register_at`], with the current time as the
    /// registration time.
    pub fn register(&mut self, name: &str, restart_policy: RestartPolicy) -> (id: SubsystemId)
        ensures
            id == old(self)@.next_id,
            final(self)@.next_id == (if old(self)@.next_id == u64::MAX {
                0
            } else {
                old(self)@.next_id + 1
            }),
            final(self)@.total_restarts == old(self)@.total_restarts,
            ({
                let m = final(self)@.entries[position_of(final(self)@.entries, id)];
                &&& m.id == id
                &&& m.name@ == name@
                &&& m.state == SubsystemState::Starting
                &&& m.started_at is None
                &&& m.stopped_at is None
                &&& m.restart_count == 0
                &&& m.last_error is None
                &&& m.restart_policy == restart_policy
                &&& has_id(final(self)@.entries, id)
                &&& if has_id(old(self)@.entries, id) {
                    final(self)@.entries == old(self)@.entries.update(
                        position_of(old(self)@.entries, id),
                        m,
                    )
                } else {
                    final(self)@.entries == old(self)@.entries.push(m)
                }
            }),
            ids_ascending_below(old(self)@.entries, old(self)@.next_id) ==> !has_id(
                old(self)@.entries,
                id,
            ),
            registry_consistent(old(self)@) && old(self)@.next_id < u64::MAX ==> registry_consistent(
                final(self)@,
            ),
            registration_step(old(self)@, final(self)@, id),
    {
        self.register_at(name, restart_policy, now())
    }

    /// Replace the entry at position `i` by `m`, which keeps the identifier there.
    fn set_entry(&mut self, i: usize, m: SubsystemMetadata, total_restarts: u64)
        requires
            i < old(self)@.entries.len(),
            m.id == old(self)@.entries[i as int].id,
            old(self)@.ids_exhausted || registry_consistent(
                RegistryView { entries: old(self)@.entries.update(i as int, m), total_restarts, ..old(self)@ },
            ),
        ensures
            final(self)@ == (RegistryView {
                entries: old(self)@.entries.update(i as int, m),
                total_restarts,
                ..old(self)@
            }),
    {
        let mut taken = SubsystemManager::new();
        std::mem::swap(&mut taken, self);
        proof {
            use_type_invariant(&taken);
        }
        let SubsystemManager { mut entries, next_id, total_restarts: _, ids_exhausted } = taken;
        let ghost before = entries@;
        entries.set(i, m);
        proof {
            assert forall|a: int, b: int|
                0 <= a < entries@.len() && 0 <= b < entries@.len() && a != b implies #[trigger] entries@[a].id
                != #[trigger] entries@[b].id by {
                assert(before[a].id == entries@[a].id);
                assert(before[b].id == entries@[b].id);
            }
        }
        *self = SubsystemManager { entries, next_id, total_restarts, ids_exhausted };
    }

    /// Replace the entry at position `i` by `m`, which keeps the identifier and the
    /// restart count there.
    fn update_entry(&mut self, i: usize, m: SubsystemMetadata)
        requires
            i < old(self)@.entries.len(),
            m.id == old(self)@.entries[i as int].id,
            m.restart_count == old(self)@.entries[i as int].restart_count,
        ensures
            final(self)@ == (RegistryView { entries: old(self)@.entries.update(i as int, m), ..old(self)@ }),
            registry_consistent(old(self)@) ==> registry_consistent(final(self)@),
    {
        proof {
            use_type_invariant(&*self);
            if registry_consistent(self@) {
                lemma_consistent_after_update(self@, i as int, m);
            }
        }
        let total = self.total_restarts;
        self.set_entry(i, m, total);
    }

    /// Identifiers of all registered subsystems, in registration order.
    pub fn subsystem_ids(&self) -> (ids: Vec<SubsystemId>)
        ensures
            ids@.len() == self@.entries.len(),
            forall|i: int| 0 <= i < ids@.len() ==> ids@[i] == #[trigger] self@.entries[i].id,
    {
        let mut ids: Vec<SubsystemId> = Vec::new();
        let mut i: usize = 0;
        while i < self.entries.len()
            invariant
                i <= self.entries@.len(),
                ids@.len() == i,
                forall|k: int| 0 <= k < i ==> ids@[k] == #[trigger] self.entries@[k].id,
            decreases self.entries@.len() - i,
        {
            ids.push(self.entries[i].id);
            i = i + 1;
        }
        ids
    }

    /// Get metadata for a specific subsystem, or `None` if it is not registered.
    pub fn get_subsystem_metadata(&self, id: SubsystemId) -> (r: Option<SubsystemMetadata>)
        ensures
            r == lookup(self@.entries, id),
            ids_unique(self@.entries),
    {
        proof {
            use_type_invariant(self);
        }
        match self.find(id) {
            Some(i) => Some(self.entries[i].clone()),
            None => None,
        }
    }

    /// Get all metadata for all subsystems, in registration order.
    pub fn get_all_metadata(&self) -> (r: Vec<SubsystemMetadata>)
        ensures
            r@ == self@.entries,
            ids_unique(self@.entries),
            !self@.ids_exhausted ==> registry_consistent(self@),
    {
        proof {
            use_type_invariant(self);
        }
        let mut out: Vec<SubsystemMetadata> = Vec::new();
        let mut i: usize = 0;
        while i < self.entries.len()
            invariant
                i <= self.entries@.len(),
                out@ == self.entries@.subrange(0, i as int),
            decreases self.entries@.len() - i,
        {
            out.push(self.entries[i].clone());
            i = i + 1;
            assert(out@ =~= self.entries@.subrange(0, i as int));
        }
        assert(out@ =~= self.entries@);
        out
    }

    /// Get statistics about all subsystems.
    pub fn get_stats(&self) -> (stats: SubsystemStats)
        ensures
            stats.total_subsystems == self@.entries.len(),
            stats.running_subsystems == count_in_state(self@.entries, SubsystemState::Running),
            stats.failed_subsystems == count_in_state(self@.entries, SubsystemState::Failed),
            stats.stopping_subsystems == count_in_state(self@.entries, SubsystemState::Stopping),
            stats.total_restarts == self@.total_restarts,
            stats.subsystems@ == self@.entries,
            registry_consistent(self@) ==> stats.total_restarts as int == restart_sum(
                stats.subsystems@,
            ) as int % 0x1_0000_0000_0000_0000,
            registry_consistent(self@) ==> forall|i: int, j: int|
                0 <= i < j < stats.subsystems@.len() ==> #[trigger] stats.subsystems@[i].id
                    < #[trigger] stats.subsystems@[j].id,
            !self@.ids_exhausted ==> registry_consistent(self@),
    {
        proof {
            use_type_invariant(self);
        }
        let mut running: usize = 0;
        let mut failed: usize = 0;
        let mut stopping: usize = 0;
        let mut i: usize = 0;
        while i < self.entries.len()
            invariant
                i <= self.entries@.len(),
                running == count_in_state(self.entries@.subrange(0, i as int), SubsystemState::Running),
                failed == count_in_state(self.entries@.subrange(0, i as int), SubsystemState::Failed),
                stopping == count_in_state(self.entries@.subrange(0, i as int), SubsystemState::Stopping),
                running <= i,
                failed <= i,
                stopping <= i,
            decreases self.entries@.len() - i,
        {
            let ghost prefix = self.entries@.subrange(0, i as int);
            let ghost next = self.entries@.subrange(0, i + 1);
            assert(next.drop_last() =~= prefix);
            match self.entries[i].state {
                SubsystemState::Running => running = running + 1,
                SubsystemState::Failed => failed = failed + 1,
                SubsystemState::Stopping => stopping = stopping + 1,
                _ => {},
            }
            i = i + 1;
        }
        assert(self.entries@.subrange(0, self.entries@.len() as int) =~= self.entries@);
        SubsystemStats {
            total_subsystems: self.entries.len(),
            running_subsystems: running,
            failed_subsystems: failed,
            stopping_subsystems: stopping,
            total_restarts: self.total_restarts,
            subsystems: self.get_all_metadata(),
        }
    }

    /// Set the state of subsystem `id` and record the given timestamps where present.
    /// Does nothing when `id` is not registered.
    pub fn update_state_with_timestamp(
        &mut self,
        id: SubsystemId,
        new_state: SubsystemState,
        started_at: Option<Instant>,
        stopped_at: Option<Instant>,
    )
        ensures
            final(self)@.entries == if has_id(old(self)@.entries, id) {
                old(self)@.entries.update(
                    position_of(old(self)@.entries, id),
                    with_state_and_times(
                        old(self)@.entries[position_of(old(self)@.entries, id)],
                        new_state,
                        started_at,
                        stopped_at,
                    ),
                )
            } else {
                old(self)@.entries
            },
            final(self)@.next_id == old(self)@.next_id,
            final(self)@.ids_exhausted == old(self)@.ids_exhausted,
            final(self)@.total_restarts == old(self)@.total_restarts,
            registry_consistent(old(self)@) ==> registry_consistent(final(self)@),
    {
        if let Some(i) = self.find(id) {
            let mut m = self.entries[i].clone();
            m.state = new_state;
            if let Some(t) = started_at {
                m.started_at = Some(t);
            }
            if let Some(t) = stopped_at {
                m.stopped_at = Some(t);
            }
            self.update_entry(i, m);
        }
    }

    /// Set the state of subsystem `id`. Does nothing when `id` is not registered.
    pub fn update_state(&mut self, id: SubsystemId, new_state: SubsystemState)
        ensures
            final(self)@.entries == if has_id(old(self)@.entries, id) {
                old(self)@.entries.update(
                    position_of(old(self)@.entries, id),
                    SubsystemMetadata {
                        state: new_state,
                        ..old(self)@.entries[position_of(old(self)@.entries, id)]
                    },
                )
            } else {
                old(self)@.entries
            },
            final(self)@.next_id == old(self)@.next_id,
            final(self)@.ids_exhausted == old(self)@.ids_exhausted,
            final(self)@.total_restarts == old(self)@.total_restarts,
            registry_consistent(old(self)@) ==> registry_consistent(final(self)@),
    {
        self.update_state_with_timestamp(id, new_state, None, None);
        proof {
            if has_id(old(self)@.entries, id) {
                let p = position_of(old(self)@.entries, id);
                assert(with_state_and_times(old(self)@.entries[p], new_state, None, None)
                    == SubsystemMetadata { state: new_state, ..old(self)@.entries[p] });
            }
        }
    }

    /// Set the state of subsystem `id` and record `error` as its last error; a
    /// `Stopped` or `Failed` state also records `at` as the stop time. Does nothing
    /// when `id` is not registered.
    pub fn update_state_with_error_at(
        &mut self,
        id: SubsystemId,
        new_state: SubsystemState,
        error: String,
        at: Instant,
    )
        ensures
            has_id(old(self)@.entries, id) ==> {
                let p = position_of(old(self)@.entries, id);
                final(self)@.entries == old(self)@.entries.update(
                    p,
                    SubsystemMetadata {
                        state: new_state,
                        last_error: Some(error),
                        stopped_at: if new_state == SubsystemState::Stopped || new_state
                            == SubsystemState::Failed {
                            Some(at)
                        } else {
                            old(self)@.entries[p].stopped_at
                        },
                        ..old(self)@.entries[p]
                    },
                )
            },
            !has_id(old(self)@.entries, id) ==> final(self)@.entries == old(self)@.entries,
            final(self)@.next_id == old(self)@.next_id,
            final(self)@.ids_exhausted == old(self)@.ids_exhausted,
            final(self)@.total_restarts == old(self)@.total_restarts,
            registry_consistent(old(self)@) ==> registry_consistent(final(self)@),
    {
        if let Some(i) = self.find(id) {
            let mut m = self.entries[i].clone();
            m.state = new_state;
            m.last_error = Some(error);
            if new_state == SubsystemState::Stopped || new_state == SubsystemState::Failed {
                m.stopped_at = Some(at);
            }
            self.update_entry(i, m);
        }
    }

    /// Set the state of subsystem `id` and record `error` as its last error; a
    /// `Stopped` or `Failed` state also records the current time as the stop time.
    /// Does nothing when `id` is not registered.
    pub fn update_state_with_error(&mut self, id: SubsystemId, new_state: SubsystemState, error: String)
        ensures
            has_id(old(self)@.entries, id) ==> {
                let p = position_of(old(self)@.entries, id);
                let m = final(self)@.entries[p];
                &&& final(self)@.entries == old(self)@.entries.update(p, m)
                &&& m == SubsystemMetadata {
                    state: new_state,
                    last_error: Some(error),
                    stopped_at: m.stopped_at,
                    ..old(self)@.entries[p]
                }
                &&& if new_state == SubsystemState::Stopped || new_state == SubsystemState::Failed {
                    m.stopped_at is Some
                } else {
                    m.stopped_at == old(self)@.entries[p].stopped_at
                }
            },
            !has_id(old(self)@.entries, id) ==> final(self)@.entries == old(self)@.entries,
            final(self)@.next_id == old(self)@.next_id,
            final(self)@.ids_exhausted == old(self)@.ids_exhausted,
            final(self)@.total_restarts == old(self)@.total_restarts,
            registry_consistent(old(self)@) ==> registry_consistent(final(self)@),
    {
        self.update_state_with_error_at(id, new_state, error, now());
    }

    /// Start subsystem `id` at time `at`: it becomes `Running` with `at` as its
    /// start time. Fails when `id` is not registered.
    pub fn start_subsystem_at(&mut self, id: SubsystemId, at: Instant) -> (r: Result<(), Error>)
        ensures
            r is Err <==> !has_id(old(self)@.entries, id),
            r matches Err(e) ==> e matches Error::Subsystem { name, message } && name@ == "unknown"@
                && message@ == "Subsystem not found"@,
            r is Err ==> final(self)@ == old(self)@,
            r is Ok ==> {
                let p = position_of(old(self)@.entries, id);
                final(self)@.entries == old(self)@.entries.update(
                    p,
                    SubsystemMetadata {
                        state: SubsystemState::Running,
                        started_at: Some(at),
                        ..old(self)@.entries[p]
                    },
                )
            },
            final(self)@.next_id == old(self)@.next_id,
            final(self)@.ids_exhausted == old(self)@.ids_exhausted,
            final(self)@.total_restarts == old(self)@.total_restarts,
            registry_consistent(old(self)@) ==> registry_consistent(final(self)@),
    {
        match self.find(id) {
            None => Err(Error::subsystem("unknown", "Subsystem not found")),
            Some(i) => {
                let mut m = self.entries[i].clone();
                m.state = SubsystemState::Running;
                m.started_at = Some(at);
                self.update_entry(i, m);
                Ok(())
            },
        }
    }

    /// Start subsystem `id`: it becomes `Running` and the current time is recorded
    /// as its start time. Fails when `id` is not registered.
    pub fn start_subsystem(&mut self, id: SubsystemId) -> (r: Result<(), Error>)
        ensures
            r is Err <==> !has_id(old(self)@.entries, id),
            r matches Err(e) ==> e matches Error::Subsystem { name, message } && name@ == "unknown"@
                && message@ == "Subsystem not found"@,
            r is Err ==> final(self)@ == old(self)@,
            r is Ok ==> {
                let p = position_of(old(self)@.entries, id);
                let m = final(self)@.entries[p];
                &&& final(self)@.entries == old(self)@.entries.update(p, m)
                &&& m == SubsystemMetadata {
                    state: SubsystemState::Running,
                    started_at: m.started_at,
                    ..old(self)@.entries[p]
                }
                &&& m.started_at is Some
            },
            final(self)@.next_id == old(self)@.next_id,
            final(self)@.ids_exhausted == old(self)@.ids_exhausted,
            final(self)@.total_restarts == old(self)@.total_restarts,
            registry_consistent(old(self)@) ==> registry_consistent(final(self)@),
    {
        self.start_subsystem_at(id, now())
    }

    /// Begin stopping subsystem `id`: it becomes `Stopping` until
    /// [`SubsystemManager::complete_stop`] is called. Fails when `id` is not registered.
    pub fn stop_subsystem(&mut self, id: SubsystemId) -> (r: Result<(), Error>)
        ensures
            r is Err <==> !has_id(old(self)@.entries, id),
            r matches Err(e) ==> e matches Error::Subsystem { name, message } && name@ == "unknown"@
                && message@ == "Subsystem not found"@,
            r is Err ==> final(self)@ == old(self)@,
            r is Ok ==> {
                let p = position_of(old(self)@.entries, id);
                final(self)@.entries == old(self)@.entries.update(
                    p,
                    SubsystemMetadata { state: SubsystemState::Stopping, ..old(self)@.entries[p] },
                )
            },
            final(self)@.next_id == old(self)@.next_id,
            final(self)@.ids_exhausted == old(self)@.ids_exhausted,
            final(self)@.total_restarts == old(self)@.total_restarts,
            registry_consistent(old(self)@) ==> registry_consistent(final(self)@),
    {
        if self.find(id).is_none() {
            return Err(Error::subsystem("unknown", "Subsystem not found"));
        }
        self.update_state(id, SubsystemState::Stopping);
        Ok(())
    }

    /// Finish stopping subsystem `id` at time `at`: it becomes `Stopped` with `at`
    /// as its stop time. Does nothing when `id` is not registered.
    pub fn complete_stop_at(&mut self, id: SubsystemId, at: Instant)
        ensures
            has_id(old(self)@.entries, id) ==> {
                let p = position_of(old(self)@.entries, id);
                final(self)@.entries == old(self)@.entries.update(
                    p,
                    SubsystemMetadata {
                        state: SubsystemState::Stopped,
                        stopped_at: Some(at),
                        ..old(self)@.entries[p]
                    },
                )
            },
            !has_id(old(self)@.entries, id) ==> final(self)@.entries == old(self)@.entries,
            final(self)@.next_id == old(self)@.next_id,
            final(self)@.ids_exhausted == old(self)@.ids_exhausted,
            final(self)@.total_restarts == old(self)@.total_restarts,
            registry_consistent(old(self)@) ==> registry_consistent(final(self)@),
    {
        self.update_state_with_timestamp(id, SubsystemState::Stopped, None, Some(at));
    }

    /// Finish stopping subsystem `id`: it becomes `Stopped` and the current time is
    /// recorded as its stop time. Does nothing when `id` is not registered.
    pub fn complete_stop(&mut self, id: SubsystemId)
        ensures
            has_id(old(self)@.entries, id) ==> {
                let p = position_of(old(self)@.entries, id);
                let m = final(self)@.entries[p];
                &&& final(self)@.entries == old(self)@.entries.update(p, m)
                &&& m == SubsystemMetadata {
                    state: SubsystemState::Stopped,
                    stopped_at: m.stopped_at,
                    ..old(self)@.entries[p]
                }
                &&& m.stopped_at is Some
            },
            !has_id(old(self)@.entries, id) ==> final(self)@.entries == old(self)@.entries,
            final(self)@.next_id == old(self)@.next_id,
            final(self)@.ids_exhausted == old(self)@.ids_exhausted,
            final(self)@.total_restarts == old(self)@.total_restarts,
            registry_consistent(old(self)@) ==> registry_consistent(final(self)@),
    {
        self.complete_stop_at(id, now());
    }

    /// Record how the run of subsystem `id` ended, at time `at`: a clean exit makes
    /// it `Stopped`, an error makes it `Failed` with the error text as its last
    /// error; either way `at` becomes its stop time. Does nothing when `id` is not
    /// registered.
    pub fn record_exit_at(&mut self, id: SubsystemId, outcome: Result<(), String>, at: Instant)
        ensures
            has_id(old(self)@.entries, id) ==> {
                let p = position_of(old(self)@.entries, id);
                final(self)@.entries == old(self)@.entries.update(
                    p,
                    match outcome {
                        Ok(()) => SubsystemMetadata {
                            state: SubsystemState::Stopped,
                            stopped_at: Some(at),
                            ..old(self)@.entries[p]
                        },
                        Err(e) => SubsystemMetadata {
                            state: SubsystemState::Failed,
                            last_error: Some(e),
                            stopped_at: Some(at),
                            ..old(self)@.entries[p]
                        },
                    },
                )
            },
            !has_id(old(self)@.entries, id) ==> final(self)@.entries == old(self)@.entries,
            final(self)@.next_id == old(self)@.next_id,
            final(self)@.ids_exhausted == old(self)@.ids_exhausted,
            final(self)@.total_restarts == old(self)@.total_restarts,
            registry_consistent(old(self)@) ==> registry_consistent(final(self)@),
    {
        match outcome {
            Ok(()) => self.update_state_with_timestamp(id, SubsystemState::Stopped, None, Some(at)),
            Err(e) => self.update_state_with_error_at(id, SubsystemState::Failed, e, at),
        }
    }

    /// Record how the run of subsystem `id` ended: a clean exit makes it `Stopped`,
    /// an error makes it `Failed` with the error text as its last error; either way
    /// the current time is recorded as its stop time. Does nothing when `id` is not
    /// registered.
    pub fn record_exit(&mut self, id: SubsystemId, outcome: Result<(), String>)
        ensures
            has_id(old(self)@.entries, id) ==> {
                let p = position_of(old(self)@.entries, id);
                let m = final(self)@.entries[p];
                &&& final(self)@.entries == old(self)@.entries.update(p, m)
                &&& m.stopped_at is Some
                &&& match outcome {
                    Ok(()) => m == SubsystemMetadata {
                        state: SubsystemState::Stopped,
                        stopped_at: m.stopped_at,
                        ..old(self)@.entries[p]
                    },
                    Err(e) => m == SubsystemMetadata {
                        state: SubsystemState::Failed,
                        last_error: Some(e),
                        stopped_at: m.stopped_at,
                        ..old(self)@.entries[p]
                    },
                }
            },
            !has_id(old(self)@.entries, id) ==> final(self)@.entries == old(self)@.entries,
            final(self)@.next_id == old(self)@.next_id,
            final(self)@.ids_exhausted == old(self)@.ids_exhausted,
            final(self)@.total_restarts == old(self)@.total_restarts,
            registry_consistent(old(self)@) ==> registry_consistent(final(self)@),
    {
        self.record_exit_at(id, outcome, now());
    }

    /// Restart subsystem `id`: its restart count and the registry's total restart
    /// count go up by one and it becomes `Restarting`. Returns the delay to wait
    /// before starting it again, computed from its policy and the restarts it had
    /// before this one. Fails when `id` is not registered.
    pub fn restart_subsystem(&mut self, id: SubsystemId) -> (r: Result<Delay, Error>)
        requires
            has_id(old(self)@.entries, id) ==> {
                let m = old(self)@.entries[position_of(old(self)@.entries, id)];
                &&& m.restart_count < u32::MAX
                &&& restart_delay_fits(m.restart_policy, m.restart_count)
            },
        ensures
            r is Err <==> !has_id(old(self)@.entries, id),
            r matches Err(e) ==> e matches Error::Subsystem { name, message } && name@ == "unknown"@
                && message@ == "Subsystem not found"@,
            r is Err ==> final(self)@ == old(self)@,
            r matches Ok(delay) ==> {
                let p = position_of(old(self)@.entries, id);
                let m = old(self)@.entries[p];
                &&& final(self)@.entries == old(self)@.entries.update(
                    p,
                    SubsystemMetadata {
                        state: SubsystemState::Restarting,
                        restart_count: (m.restart_count + 1) as u32,
                        ..m
                    },
                )
                &&& final(self)@.total_restarts == (if old(self)@.total_restarts == u64::MAX {
                    0
                } else {
                    old(self)@.total_restarts + 1
                })
                &&& delay@ == restart_delay_nanos(m.restart_policy, m.restart_count)
            },
            final(self)@.next_id == old(self)@.next_id,
            final(self)@.ids_exhausted == old(self)@.ids_exhausted,
            registry_consistent(old(self)@) ==> registry_consistent(final(self)@),
    {
        match self.find(id) {
            None => Err(Error::subsystem("unknown", "Subsystem not found")),
            Some(i) => {
                let mut m = self.entries[i].clone();
                let delay = Self::calculate_restart_delay(&m);
                m.restart_count = m.restart_count + 1;
                m.state = SubsystemState::Restarting;
                let total = self.total_restarts.wrapping_add(1);
                proof {
                    use_type_invariant(&*self);
                    let before_v = old(self)@;
                    if registry_consistent(before_v) {
                        lemma_restart_sum_update(before_v.entries, i as int, m);
                        lemma_wrapping_succ(before_v.total_restarts, restart_sum(before_v.entries));
                        let after = before_v.entries.update(i as int, m);
                        assert forall|a: int, b: int| 0 <= a < b < after.len() implies #[trigger] after[a].id
                            < #[trigger] after[b].id by {
                            assert(after[a].id == before_v.entries[a].id);
                            assert(after[b].id == before_v.entries[b].id);
                        }
                        assert forall|a: int| 0 <= a < after.len() implies #[trigger] after[a].id
                            < before_v.next_id by {
                            assert(after[a].id == before_v.entries[a].id);
                        }
                    }
                }
                self.set_entry(i, m, total);
                Ok(delay)
            },
        }
    }

    /// Whether [`SubsystemManager::restart_subsystem`] can be called for `id`: the
    /// subsystem is unknown, or its restart count can still grow and its next
    /// restart delay can be represented.
    pub fn can_restart(&self, id: SubsystemId) -> (b: bool)
        ensures
            b == (has_id(self@.entries, id) ==> {
                let m = self@.entries[position_of(self@.entries, id)];
                &&& m.restart_count < u32::MAX
                &&& restart_delay_fits(m.restart_policy, m.restart_count)
            }),
    {
        match self.find(id) {
            None => true,
            Some(i) => {
                let m = &self.entries[i];
                m.restart_count < u32::MAX && restart_delay_representable(m.restart_policy, m.restart_count)
            },
        }
    }

    /// Whether the policy of the subsystem described by `metadata` allows restarting it.
    pub fn should_restart(metadata: &SubsystemMetadata) -> (b: bool)
        ensures
            b == restart_allowed(metadata.restart_policy, metadata.state, metadata.restart_count),
    {
        match metadata.restart_policy {
            RestartPolicy::Never => false,
            RestartPolicy::Always => true,
            RestartPolicy::OnFailure => metadata.state == SubsystemState::Failed,
            RestartPolicy::ExponentialBackoff { max_attempts, .. } => metadata.state
                == SubsystemState::Failed && metadata.restart_count < max_attempts,
        }
    }

    /// The delay before the next restart of the subsystem described by `metadata`.
    pub fn calculate_restart_delay(metadata: &SubsystemMetadata) -> (d: Delay)
        requires
            restart_delay_fits(metadata.restart_policy, metadata.restart_count),
        ensures
            d@ == restart_delay_nanos(metadata.restart_policy, metadata.restart_count),
    {
        restart_delay(metadata.restart_policy, metadata.restart_count)
    }

    /// Health of every subsystem, in registration order, as (identifier, name, healthy).
    ///
    /// `probes[i]` is the outcome of the health check of the `i`-th subsystem:
    /// `Some(ok)` when it has a check and was probed, `None` otherwise. A running
    /// subsystem is healthy unless its probe reported `Some(false)`; subsystems in
    /// any other state count as healthy.
    pub fn run_health_checks(&self, probes: &Vec<Option<bool>>) -> (r: Vec<(SubsystemId, String, bool)>)
        requires
            probes@.len() == self@.entries.len(),
        ensures
            r@.len() == self@.entries.len(),
            forall|i: int|
                0 <= i < r@.len() ==> {
                    &&& (#[trigger] r@[i]).0 == self@.entries[i].id
                    &&& r@[i].1@ == self@.entries[i].name@
                    &&& r@[i].2 == (self@.entries[i].state != SubsystemState::Running
                        || probes@[i] != Some(false))
                },
    {
        let mut out: Vec<(SubsystemId, String, bool)> = Vec::new();
        let mut i: usize = 0;
        while i < self.entries.len()
            invariant
                i <= self.entries@.len(),
                probes@.len() == self.entries@.len(),
                out@.len() == i,
                forall|k: int|
                    0 <= k < i ==> {
                        &&& (#[trigger] out@[k]).0 == self.entries@[k].id
                        &&& out@[k].1@ == self.entries@[k].name@
                        &&& out@[k].2 == (self.entries@[k].state != SubsystemState::Running
                            || probes@[k] != Some(false))
                    },
            decreases self.entries@.len() - i,
        {
            let m = &self.entries[i];
            let healthy = match m.state {
                SubsystemState::Running => match probes[i] {
                    Some(ok) => ok,
                    None => true,
                },
                _ => true,
            };
            out.push((m.id, m.name.clone(), healthy));
            i = i + 1;
        }
        out
    }
}

/// The backoff delay never exceeds the policy's maximum delay, and policies
/// without backoff restart without waiting.
pub proof fn lemma_restart_delay_capped(policy: RestartPolicy, restart_count: u32)
    ensures
        match policy {
            RestartPolicy::ExponentialBackoff { max_delay, .. } => restart_delay_nanos(
                policy,
                restart_count,
            ) <= max_delay@,
            _ => restart_delay_nanos(policy, restart_count) == 0,
        },
{
}

/// The `k`-th restart under exponential backoff (made when the subsystem has been
/// restarted `k - 1` times) waits the initial delay doubled `k - 1` times, at most
/// ten times, or the maximum delay if that is shorter.
pub proof fn lemma_kth_restart_delay(initial_delay: Delay, max_delay: Delay, max_attempts: u32, k: u32)
    requires
        k >= 1,
    ensures
        ({
            let doublings: nat = if k - 1 <= 10 {
                (k - 1) as nat
            } else {
                10
            };
            let uncapped = initial_delay@ * pow2(doublings);
            restart_delay_nanos(
                RestartPolicy::ExponentialBackoff { initial_delay, max_delay, max_attempts },
                (k - 1) as u32,
            ) == if uncapped <= max_delay@ {
                uncapped
            } else {
                max_delay@
            }
        }),
{
}

/// The first restart under exponential backoff waits the initial delay, or the
/// maximum delay if that is shorter.
pub proof fn lemma_first_restart_waits_initial_delay(
    initial_delay: Delay,
    max_delay: Delay,
    max_attempts: u32,
)
    ensures
        restart_delay_nanos(
            RestartPolicy::ExponentialBackoff { initial_delay, max_delay, max_attempts },
            0,
        ) == if initial_delay@ <= max_delay@ {
            initial_delay@
        } else {
            max_delay@
        },
{
    vstd::arithmetic::power2::lemma2_to64();
    assert(backoff_exponent(0) == 0);
    assert(pow2(0) == 1);
    assert(initial_delay@ * 1 == initial_delay@);
    assert(backoff_nanos(initial_delay, 0) == initial_delay@);
}

/// Below ten restarts, each further restart doubles the delay until the maximum is reached.
pub proof fn lemma_restart_delay_doubles(
    initial_delay: Delay,
    max_delay: Delay,
    max_attempts: u32,
    restart_count: u32,
)
    requires
        restart_count < 10,
        backoff_nanos(initial_delay, (restart_count + 1) as u32) <= max_delay@,
    ensures
        restart_delay_nanos(
            RestartPolicy::ExponentialBackoff { initial_delay, max_delay, max_attempts },
            (restart_count + 1) as u32,
        ) == 2 * restart_delay_nanos(
            RestartPolicy::ExponentialBackoff { initial_delay, max_delay, max_attempts },
            restart_count,
        ),
{
    let next = (restart_count + 1) as u32;
    vstd::arithmetic::power2::lemma_pow2_unfold(next as nat);
    let a = initial_delay@;
    let x = pow2(restart_count as nat);
    assert(a * (2 * x) == 2 * (a * x)) by (nonlinear_arith);
    assert(backoff_nanos(initial_delay, next) == 2 * backoff_nanos(initial_delay, restart_count));
    assert(backoff_nanos(initial_delay, restart_count) <= backoff_nanos(initial_delay, next));
}

/// From ten restarts on, the delay no longer grows.
pub proof fn lemma_restart_delay_settles(policy: RestartPolicy, restart_count: u32)
    requires
        restart_count >= 10,
    ensures
        restart_delay_nanos(policy, restart_count) == restart_delay_nanos(policy, 10),
{
}

/// More restarts never mean a shorter delay.
pub proof fn lemma_restart_delay_monotonic(policy: RestartPolicy, fewer: u32, more: u32)
    requires
        fewer <= more,
    ensures
        restart_delay_nanos(policy, fewer) <= restart_delay_nanos(policy, more),
{
    match policy {
        RestartPolicy::ExponentialBackoff { initial_delay, .. } => {
            let e1 = backoff_exponent(fewer);
            let e2 = backoff_exponent(more);
            if e1 < e2 {
                lemma_pow2_strictly_increases(e1, e2);
            }
            let a = initial_delay@;
            let x = pow2(e1);
            let y = pow2(e2);
            assert(a * x <= a * y) by (nonlinear_arith)
                requires
                    x <= y,
            ;
        },
        _ => {},
    }
}

/// `Never` never restarts, `Always` always does, and neither `OnFailure` nor
/// `ExponentialBackoff` restarts a subsystem that has not failed; backoff also
/// stops once the restart count reaches the maximum number of attempts.
pub proof fn lemma_restart_decisions(policy: RestartPolicy, state: SubsystemState, restart_count: u32)
    ensures
        policy == RestartPolicy::Never ==> !restart_allowed(policy, state, restart_count),
        policy == RestartPolicy::Always ==> restart_allowed(policy, state, restart_count),
        state != SubsystemState::Failed && policy != RestartPolicy::Always ==> !restart_allowed(
            policy,
            state,
            restart_count,
        ),
        policy matches RestartPolicy::ExponentialBackoff { max_attempts, .. } && restart_count
            >= max_attempts ==> !restart_allowed(policy, state, restart_count),
{
}

/// The running, failed and stopping counts together never exceed the number of subsystems.
pub proof fn lemma_state_counts_bounded(entries: Seq<SubsystemMetadata>)
    ensures
        count_in_state(entries, SubsystemState::Running) + count_in_state(
            entries,
            SubsystemState::Failed,
        ) + count_in_state(entries, SubsystemState::Stopping) <= entries.len(),
    decreases entries.len(),
{
    if entries.len() > 0 {
        lemma_state_counts_bounded(entries.drop_last());
    }
}

/// Changing the entry of one subsystem leaves what every other identifier looks up unchanged.
pub proof fn lemma_update_keeps_other_lookups(
    entries: Seq<SubsystemMetadata>,
    p: int,
    m: SubsystemMetadata,
    other: SubsystemId,
)
    requires
        ids_unique(entries),
        0 <= p < entries.len(),
        m.id == entries[p].id,
        other != m.id,
    ensures
        lookup(entries.update(p, m), other) == lookup(entries, other),
{
    let updated = entries.update(p, m);
    if has_id(entries, other) {
        let q = position_of(entries, other);
        assert(updated[q].id == other);
        assert(has_id(updated, other));
        let q2 = position_of(updated, other);
        assert(updated[q2].id == other);
        assert(q2 != p);
        assert(entries[q2].id == other);
    } else {
        if has_id(updated, other) {
            let q2 = position_of(updated, other);
            assert(entries[q2].id == other);
        }
    }
}

/// Adding a subsystem with a new identifier leaves what every other identifier looks up unchanged.
pub proof fn lemma_push_keeps_other_lookups(
    entries: Seq<SubsystemMetadata>,
    m: SubsystemMetadata,
    other: SubsystemId,
)
    requires
        ids_unique(entries),
        !has_id(entries, m.id),
        other != m.id,
    ensures
        lookup(entries.push(m), other) == lookup(entries, other),
{
    let pushed = entries.push(m);
    if has_id(entries, other) {
        let q = position_of(entries, other);
        assert(pushed[q].id == other);
        assert(has_id(pushed, other));
        let q2 = position_of(pushed, other);
        assert(pushed[q2].id == other);
        assert(q2 < entries.len());
        assert(entries[q2].id == other);
        if q2 != q {
            assert(entries[q].id == entries[q2].id);
        }
    } else {
        if has_id(pushed, other) {
            let q2 = position_of(pushed, other);
            assert(q2 < entries.len());
            assert(entries[q2].id == other);
        }
    }
}

/// A registered subsystem is found under its identifier with the metadata stored for it.
pub proof fn lemma_lookup_finds_entry(entries: Seq<SubsystemMetadata>, p: int)
    requires
        ids_unique(entries),
        0 <= p < entries.len(),
    ensures
        lookup(entries, entries[p].id) == Some(entries[p]),
{
    let id = entries[p].id;
    assert(has_id(entries, id));
    let q = position_of(entries, id);
    assert(entries[q].id == id);
}

/// Replacing one entry changes the restart sum by the difference of the two counts.
pub proof fn lemma_restart_sum_update(entries: Seq<SubsystemMetadata>, p: int, m: SubsystemMetadata)
    requires
        0 <= p < entries.len(),
    ensures
        restart_sum(entries.update(p, m)) + entries[p].restart_count == restart_sum(entries)
            + m.restart_count,
    decreases entries.len(),
{
    let updated = entries.update(p, m);
    if p == entries.len() - 1 {
        assert(updated.drop_last() =~= entries.drop_last());
    } else {
        lemma_restart_sum_update(entries.drop_last(), p, m);
        assert(updated.drop_last() =~= entries.drop_last().update(p, m));
    }
}

/// Replacing one entry by one with the same identifier and restart count keeps
/// the registry consistent.
pub proof fn lemma_consistent_after_update(v: RegistryView, p: int, m: SubsystemMetadata)
    requires
        registry_consistent(v),
        0 <= p < v.entries.len(),
        m.id == v.entries[p].id,
        m.restart_count == v.entries[p].restart_count,
    ensures
        registry_consistent(RegistryView { entries: v.entries.update(p, m), ..v }),
{
    lemma_restart_sum_update(v.entries, p, m);
    let updated = v.entries.update(p, m);
    assert forall|i: int, j: int| 0 <= i < j < updated.len() implies #[trigger] updated[i].id
        < #[trigger] updated[j].id by {
        assert(updated[i].id == v.entries[i].id);
        assert(updated[j].id == v.entries[j].id);
    }
    assert forall|i: int| 0 <= i < updated.len() implies #[trigger] updated[i].id < v.next_id by {
        assert(updated[i].id == v.entries[i].id);
    }
}

/// Adding one to a count and wrapping at `u64::MAX` keeps it equal to the
/// wrapped sum.
proof fn lemma_wrapping_succ(total: u64, sum: nat)
    requires
        total as int == sum as int % 0x1_0000_0000_0000_0000,
    ensures
        (if total == u64::MAX {
            0
        } else {
            total + 1
        }) == (sum + 1) as int % 0x1_0000_0000_0000_0000,
{
    let m: int = 0x1_0000_0000_0000_0000;
    let q = sum as int / m;
    vstd::arithmetic::div_mod::lemma_fundamental_div_mod(sum as int, m);
    assert(sum as int == m * q + total);
    if total == u64::MAX {
        assert((sum + 1) as int == (q + 1) * m) by (nonlinear_arith)
            requires
                sum as int == m * q + (m - 1),
        ;
        vstd::arithmetic::div_mod::lemma_mod_multiples_basic(q + 1, m);
    } else {
        vstd::arithmetic::div_mod::lemma_mod_multiples_vanish(q, (total + 1) as int, m);
        vstd::arithmetic::div_mod::lemma_small_mod((total + 1) as nat, m as nat);
    }
}

/// From a fresh registry, `k` registrations hand out the identifiers 1, 2, ..., k
/// in order: the registry then holds `k` entries whose identifiers are exactly
/// those, and it is consistent. (`views[i]` is the registry before the `i`-th
/// registration, which returned `ids[i]`.)
pub proof fn lemma_registrations_number_from_one(views: Seq<RegistryView>, ids: Seq<SubsystemId>)
    requires
        views.len() == ids.len() + 1,
        ids.len() < u64::MAX,
        views[0].entries.len() == 0,
        views[0].next_id == 1,
        views[0].total_restarts == 0,
        !views[0].ids_exhausted,
        forall|i: int| 0 <= i < ids.len() ==> registration_step(views[i], #[trigger] views[i + 1], ids[i]),
    ensures
        forall|j: int| 0 <= j < ids.len() ==> #[trigger] ids[j] == j + 1,
        views.last().entries.len() == ids.len(),
        forall|j: int| 0 <= j < ids.len() ==> #[trigger] views.last().entries[j].id == j + 1,
        !views.last().ids_exhausted,
        views.last().next_id == ids.len() + 1,
        registry_consistent(views.last()),
    decreases ids.len(),
{
    let k = ids.len() as int;
    if k == 0 {
        assert(registry_consistent(views[0])) by {
            assert(restart_sum(views[0].entries) == 0);
            assert(views[0].entries =~= Seq::<SubsystemMetadata>::empty());
        }
    } else {
        let shorter_views = views.drop_last();
        let shorter_ids = ids.drop_last();
        assert forall|i: int| 0 <= i < shorter_ids.len() implies registration_step(
            shorter_views[i],
            #[trigger] shorter_views[i + 1],
            shorter_ids[i],
        ) by {
            assert(registration_step(views[i], views[i + 1], ids[i]));
        }
        lemma_registrations_number_from_one(shorter_views, shorter_ids);
        let before = views[k - 1];
        let after = views[k];
        assert(shorter_views.last() == before);
        assert(registration_step(before, after, ids[k - 1]));
        assert(after.entries.drop_last() == before.entries);
        assert forall|j: int| 0 <= j < k implies #[trigger] after.entries[j].id == j + 1 by {
            if j < k - 1 {
                assert(after.entries.drop_last()[j] == after.entries[j]);
                assert(before.entries[j].id == j + 1);
            }
        }
        assert forall|j: int| 0 <= j < k implies #[trigger] ids[j] == j + 1 by {
            if j < k - 1 {
                assert(shorter_ids[j] == ids[j]);
            }
        }
    }
}

/// Restarting subsystem `id` and then starting it again at `at` leaves it
/// `Running` with `at` as its start time and one more restart, raises the
/// registry's restart total by one (wrapping at `u64::MAX`), and changes nothing
/// for any other identifier. (`v0`, `v1`, `v2` are the registry before the
/// restart, between the two calls, and after the start, as the contracts of
/// [`SubsystemManager::restart_subsystem`] and
/// [`SubsystemManager::start_subsystem_at`] give them.)
pub proof fn lemma_restart_then_start(
    v0: RegistryView,
    v1: RegistryView,
    v2: RegistryView,
    id: SubsystemId,
    at: Instant,
    other: SubsystemId,
)
    requires
        ids_unique(v0.entries),
        has_id(v0.entries, id),
        v0.entries[position_of(v0.entries, id)].restart_count < u32::MAX,
        v1.entries == v0.entries.update(
            position_of(v0.entries, id),
            SubsystemMetadata {
                state: SubsystemState::Restarting,
                restart_count: (v0.entries[position_of(v0.entries, id)].restart_count + 1) as u32,
                ..v0.entries[position_of(v0.entries, id)]
            },
        ),
        v1.total_restarts == (if v0.total_restarts == u64::MAX {
            0
        } else {
            v0.total_restarts + 1
        }),
        v2.entries == v1.entries.update(
            position_of(v1.entries, id),
            SubsystemMetadata {
                state: SubsystemState::Running,
                started_at: Some(at),
                ..v1.entries[position_of(v1.entries, id)]
            },
        ),
        v2.total_restarts == v1.total_restarts,
    ensures
        ({
            let m0 = v0.entries[position_of(v0.entries, id)];
            lookup(v2.entries, id) == Some(
                SubsystemMetadata {
                    state: SubsystemState::Running,
                    started_at: Some(at),
                    restart_count: (m0.restart_count + 1) as u32,
                    ..m0
                },
            )
        }),
        v2.total_restarts == (if v0.total_restarts == u64::MAX {
            0
        } else {
            v0.total_restarts + 1
        }),
        other != id ==> lookup(v2.entries, other) == lookup(v0.entries, other),
{
    let p = position_of(v0.entries, id);
    assert(v0.entries[p].id == id);
    let m1 = v1.entries[p];
    assert(m1.id == id);
    assert(ids_unique(v1.entries)) by {
        assert forall|a: int, b: int|
            0 <= a < v1.entries.len() && 0 <= b < v1.entries.len() && a != b implies #[trigger] v1.entries[a].id
            != #[trigger] v1.entries[b].id by {
            assert(v1.entries[a].id == v0.entries[a].id);
            assert(v1.entries[b].id == v0.entries[b].id);
        }
    }
    lemma_lookup_finds_entry(v1.entries, p);
    assert(has_id(v1.entries, id));
    let q = position_of(v1.entries, id);
    assert(v1.entries[q].id == id);
    assert(q == p);
    let m2 = SubsystemMetadata { state: SubsystemState::Running, started_at: Some(at), ..m1 };
    assert(ids_unique(v2.entries)) by {
        assert forall|a: int, b: int|
            0 <= a < v2.entries.len() && 0 <= b < v2.entries.len() && a != b implies #[trigger] v2.entries[a].id
            != #[trigger] v2.entries[b].id by {
            assert(v2.entries[a].id == v1.entries[a].id);
            assert(v2.entries[b].id == v1.entries[b].id);
        }
    }
    lemma_lookup_finds_entry(v2.entries, p);
    if other != id {
        lemma_update_keeps_other_lookups(v0.entries, p, m1, other);
        lemma_update_keeps_other_lookups(v1.entries, p, m2, other);
    }
}

/// Stopping subsystem `id` and then completing the stop at `at` leaves it
/// `Stopped` with `at` as its stop time, keeps the restart total, and changes
/// nothing for any other identifier. (`v0`, `v1`, `v2` are the registry before
/// [`SubsystemManager::stop_subsystem`], between the two calls, and after
/// [`SubsystemManager::complete_stop_at`], as their contracts give them.)
pub proof fn lemma_stop_then_complete(
    v0: RegistryView,
    v1: RegistryView,
    v2: RegistryView,
    id: SubsystemId,
    at: Instant,
    other: SubsystemId,
)
    requires
        ids_unique(v0.entries),
        has_id(v0.entries, id),
        v1.entries == v0.entries.update(
            position_of(v0.entries, id),
            SubsystemMetadata { state: SubsystemState::Stopping, ..v0.entries[position_of(v0.entries, id)] },
        ),
        v1.total_restarts == v0.total_restarts,
        v2.entries == v1.entries.update(
            position_of(v1.entries, id),
            SubsystemMetadata {
                state: SubsystemState::Stopped,
                stopped_at: Some(at),
                ..v1.entries[position_of(v1.entries, id)]
            },
        ),
        v2.total_restarts == v1.total_restarts,
    ensures
        lookup(v2.entries, id) == Some(
            SubsystemMetadata {
                state: SubsystemState::Stopped,
                stopped_at: Some(at),
                ..v0.entries[position_of(v0.entries, id)]
            },
        ),
        v2.total_restarts == v0.total_restarts,
        other != id ==> lookup(v2.entries, other) == lookup(v0.entries, other),
{
    let p = position_of(v0.entries, id);
    assert(v0.entries[p].id == id);
    let m1 = v1.entries[p];
    assert(ids_unique(v1.entries)) by {
        assert forall|a: int, b: int|
            0 <= a < v1.entries.len() && 0 <= b < v1.entries.len() && a != b implies #[trigger] v1.entries[a].id
            != #[trigger] v1.entries[b].id by {
            assert(v1.entries[a].id == v0.entries[a].id);
            assert(v1.entries[b].id == v0.entries[b].id);
        }
    }
    lemma_lookup_finds_entry(v1.entries, p);
    let q = position_of(v1.entries, id);
    assert(v1.entries[q].id == id);
    assert(q == p);
    let m2 = SubsystemMetadata { state: SubsystemState::Stopped, stopped_at: Some(at), ..m1 };
    assert(ids_unique(v2.entries)) by {
        assert forall|a: int, b: int|
            0 <= a < v2.entries.len() && 0 <= b < v2.entries.len() && a != b implies #[trigger] v2.entries[a].id
            != #[trigger] v2.entries[b].id by {
            assert(v2.entries[a].id == v1.entries[a].id);
            assert(v2.entries[b].id == v1.entries[b].id);
        }
    }
    lemma_lookup_finds_entry(v2.entries, p);
    if other != id {
        lemma_update_keeps_other_lookups(v0.entries, p, m1, other);
        lemma_update_keeps_other_lookups(v1.entries, p, m2, other);
    }
}

/// The number of entries in a state is the number of entries whose state equals
/// it: an entry in any other state adds nothing.
pub proof fn lemma_count_in_state_counts_matching(entries: Seq<SubsystemMetadata>, state: SubsystemState)
    ensures
        count_in_state(entries, state) == entries.filter(|m: SubsystemMetadata| m.state == state).len(),
        forall|m: SubsystemMetadata| #[trigger] count_in_state(entries.push(m), state) == count_in_state(
            entries,
            state,
        ) + if m.state == state {
            1int
        } else {
            0int
        },
    decreases entries.len(),
{
    let pred = |m: SubsystemMetadata| m.state == state;
    reveal(Seq::filter);
    if entries.len() > 0 {
        lemma_count_in_state_counts_matching(entries.drop_last(), state);
    }
    assert forall|m: SubsystemMetadata| #[trigger] count_in_state(entries.push(m), state) == count_in_state(
        entries,
        state,
    ) + if m.state == state {
        1int
    } else {
        0int
    } by {
        assert(entries.push(m).drop_last() =~= entries);
    }
}

/// Whether a policy restarts a subsystem, over every state and restart count:
/// `Never` never does, `Always` always does, `OnFailure` does exactly when the
/// subsystem failed, however often it was restarted before, and
/// `ExponentialBackoff` does exactly when it failed and the restart count is
/// below the maximum number of attempts.
pub proof fn lemma_restart_allowed_by_policy(
    state: SubsystemState,
    restart_count: u32,
    initial_delay: Delay,
    max_delay: Delay,
    max_attempts: u32,
)
    ensures
        !restart_allowed(RestartPolicy::Never, state, restart_count),
        restart_allowed(RestartPolicy::Always, state, restart_count),
        restart_allowed(RestartPolicy::OnFailure, state, restart_count) <==> state == SubsystemState::Failed,
        restart_allowed(RestartPolicy::OnFailure, SubsystemState::Failed, restart_count),
        restart_allowed(
            RestartPolicy::ExponentialBackoff { initial_delay, max_delay, max_attempts },
            state,
            restart_count,
        ) <==> (state == SubsystemState::Failed && restart_count < max_attempts),
{
}

} // verus!
