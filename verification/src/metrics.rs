//! Metrics collection: named counters, gauges and duration histograms.
use std::time::{Duration, Instant};
use vstd::prelude::*;

use crate::resources::newest;
use crate::time::{elapsed_since, now};

verus! {

/// Whether no two entries share a name.
pub open spec fn names_unique<V>(entries: Seq<(String, V)>) -> bool {
    forall|i: int, j: int|
        0 <= i < entries.len() && 0 <= j < entries.len() && i != j ==> (#[trigger] entries[i]).0@
            != (#[trigger] entries[j]).0@
}

/// The map from names to values that `entries` describes (a later entry for a
/// name overrides an earlier one).
pub open spec fn entries_to_map<V>(entries: Seq<(String, V)>) -> Map<Seq<char>, V>
    decreases entries.len(),
{
    if entries.len() == 0 {
        Map::empty()
    } else {
        entries_to_map(entries.drop_last()).insert(entries.last().0@, entries.last().1)
    }
}

/// A name is mapped exactly when some entry carries it.
proof fn lemma_map_domain<V>(entries: Seq<(String, V)>, name: Seq<char>)
    ensures
        entries_to_map(entries).dom().contains(name) <==> exists|i: int|
            0 <= i < entries.len() && (#[trigger] entries[i]).0@ == name,
    decreases entries.len(),
{
    if entries.len() > 0 {
        let prefix = entries.drop_last();
        lemma_map_domain(prefix, name);
        if entries_to_map(entries).dom().contains(name) && entries.last().0@ != name {
            let i = choose|i: int| 0 <= i < prefix.len() && (#[trigger] prefix[i]).0@ == name;
            assert(entries[i].0@ == name);
        }
        if exists|i: int| 0 <= i < entries.len() && (#[trigger] entries[i]).0@ == name {
            let i = choose|i: int| 0 <= i < entries.len() && (#[trigger] entries[i]).0@ == name;
            if i < entries.len() - 1 {
                assert(prefix[i].0@ == name);
            }
        }
    }
}

/// With unique names, each entry's value is what its name maps to.
proof fn lemma_map_value<V>(entries: Seq<(String, V)>, i: int)
    requires
        names_unique(entries),
        0 <= i < entries.len(),
    ensures
        entries_to_map(entries).dom().contains(entries[i].0@),
        entries_to_map(entries)[entries[i].0@] == entries[i].1,
    decreases entries.len(),
{
    if i < entries.len() - 1 {
        let prefix = entries.drop_last();
        assert(names_unique(prefix)) by {
            assert forall|a: int, b: int|
                0 <= a < prefix.len() && 0 <= b < prefix.len() && a != b implies (#[trigger] prefix[a]).0@
                != (#[trigger] prefix[b]).0@ by {
                assert(prefix[a] == entries[a]);
                assert(prefix[b] == entries[b]);
            }
        }
        assert(prefix[i] == entries[i]);
        lemma_map_value(prefix, i);
        assert(entries[i].0@ != entries[entries.len() - 1].0@);
    }
}

/// Replacing an entry by one with the same name, with unique names, updates the map at that name.
proof fn lemma_map_update<V>(entries: Seq<(String, V)>, i: int, name: String, value: V)
    requires
        names_unique(entries),
        0 <= i < entries.len(),
        name@ == entries[i].0@,
    ensures
        names_unique(entries.update(i, (name, value))),
        entries_to_map(entries.update(i, (name, value))) == entries_to_map(entries).insert(
            name@,
            value,
        ),
{
    let updated = entries.update(i, (name, value));
    assert(names_unique(updated)) by {
        assert forall|a: int, b: int|
            0 <= a < updated.len() && 0 <= b < updated.len() && a != b implies (#[trigger] updated[a]).0@
            != (#[trigger] updated[b]).0@ by {
            assert(updated[a].0@ == entries[a].0@);
            assert(updated[b].0@ == entries[b].0@);
        }
    }
    let m1 = entries_to_map(updated);
    let m2 = entries_to_map(entries).insert(name@, value);
    assert forall|k: Seq<char>| m1.dom().contains(k) <==> #[trigger] m2.dom().contains(k) by {
        lemma_map_domain(updated, k);
        lemma_map_domain(entries, k);
        if m2.dom().contains(k) {
            if k == name@ {
                assert(updated[i].0@ == k);
            } else {
                let j = choose|j: int| 0 <= j < entries.len() && (#[trigger] entries[j]).0@ == k;
                assert(updated[j].0@ == k);
            }
        }
        if m1.dom().contains(k) {
            let j = choose|j: int| 0 <= j < updated.len() && (#[trigger] updated[j]).0@ == k;
            assert(entries[j].0@ == k);
        }
    }
    assert forall|k: Seq<char>| m1.dom().contains(k) implies #[trigger] m1[k] == m2[k] by {
        lemma_map_domain(updated, k);
        let j = choose|j: int| 0 <= j < updated.len() && (#[trigger] updated[j]).0@ == k;
        lemma_map_value(updated, j);
        if j != i {
            lemma_map_value(entries, j);
        }
    }
    assert(m1 =~= m2);
}

/// Appending an entry under a new name adds that name to the map.
proof fn lemma_map_push<V>(entries: Seq<(String, V)>, name: String, value: V)
    requires
        names_unique(entries),
        !entries_to_map(entries).dom().contains(name@),
    ensures
        names_unique(entries.push((name, value))),
        entries_to_map(entries.push((name, value))) == entries_to_map(entries).insert(name@, value),
{
    let pushed = entries.push((name, value));
    assert(pushed.drop_last() =~= entries);
    assert(names_unique(pushed)) by {
        assert forall|a: int, b: int|
            0 <= a < pushed.len() && 0 <= b < pushed.len() && a != b implies (#[trigger] pushed[a]).0@
            != (#[trigger] pushed[b]).0@ by {
            if a == entries.len() {
                lemma_map_domain(entries, name@);
                assert(entries[b] == pushed[b]);
            } else if b == entries.len() {
                lemma_map_domain(entries, name@);
                assert(entries[a] == pushed[a]);
            } else {
                assert(entries[a] == pushed[a]);
                assert(entries[b] == pushed[b]);
            }
        }
    }
}

/// Values stored under names, each name at most once.
#[derive(Debug)]
pub struct NamedValues<V> {
    entries: Vec<(String, V)>,
}

impl<V> View for NamedValues<V> {
    type V = Map<Seq<char>, V>;

    closed spec fn view(&self) -> Map<Seq<char>, V> {
        entries_to_map(self.entries@)
    }
}

impl<V> NamedValues<V> {
    #[verifier::type_invariant]
    spec fn names_are_unique(self) -> bool {
        names_unique(self.entries@)
    }

    /// No names.
    pub fn new() -> (n: Self)
        ensures
            n@ == Map::<Seq<char>, V>::empty(),
    {
        NamedValues { entries: Vec::new() }
    }

    /// The number of names.
    pub fn len(&self) -> (n: usize)
        ensures
            n == self@.len(),
    {
        proof {
            use_type_invariant(self);
            lemma_len_of(self.entries@);
        }
        self.entries.len()
    }

    /// The position of the entry named `name`, if any.
    fn position(&self, name: &String) -> (r: Option<usize>)
        ensures
            match r {
                Some(i) => i < self.entries@.len() && self.entries@[i as int].0@ == name@,
                None => !self@.dom().contains(name@),
            },
    {
        let mut i: usize = 0;
        while i < self.entries.len()
            invariant
                i <= self.entries@.len(),
                forall|k: int| 0 <= k < i ==> (#[trigger] self.entries@[k]).0@ != name@,
            decreases self.entries@.len() - i,
        {
            if self.entries[i].0 == *name {
                return Some(i);
            }
            i = i + 1;
        }
        proof {
            lemma_map_domain(self.entries@, name@);
        }
        None
    }

    /// The value stored under `name`, if any.
    pub fn get(&self, name: &str) -> (r: Option<&V>)
        ensures
            r is Some <==> self@.dom().contains(name@),
            r matches Some(v) ==> *v == self@[name@],
    {
        proof {
            use_type_invariant(self);
        }
        let key = name.to_owned();
        match self.position(&key) {
            Some(i) => {
                proof {
                    lemma_map_value(self.entries@, i as int);
                }
                Some(&self.entries[i].1)
            },
            None => None,
        }
    }

    /// Store `value` under `name`, replacing any value stored there.
    pub fn insert(&mut self, name: &str, value: V)
        ensures
            final(self)@ == old(self)@.insert(name@, value),
    {
        proof {
            use_type_invariant(&*self);
        }
        let key = name.to_owned();
        let found = self.position(&key);
        let mut entries = Vec::new();
        std::mem::swap(&mut entries, &mut self.entries);
        let ghost before = entries@;
        match found {
            Some(i) => {
                proof {
                    lemma_map_update(before, i as int, key, value);
                }
                entries.set(i, (key, value));
            },
            None => {
                proof {
                    lemma_map_push(before, key, value);
                }
                entries.push((key, value));
            },
        }
        self.entries = entries;
    }

    /// Remove every name.
    pub fn clear(&mut self)
        ensures
            final(self)@ == Map::<Seq<char>, V>::empty(),
    {
        self.entries = Vec::new();
    }

    /// The stored names, each once.
    pub fn names(&self) -> (r: Vec<String>)
        ensures
            forall|k: Seq<char>|
                self@.dom().contains(k) <==> exists|i: int| 0 <= i < r@.len() && (#[trigger] r@[i])@ == k,
    {
        let mut out: Vec<String> = Vec::new();
        let mut i: usize = 0;
        while i < self.entries.len()
            invariant
                i <= self.entries@.len(),
                out@.len() == i,
                forall|k: int| 0 <= k < i ==> (#[trigger] out@[k])@ == self.entries@[k].0@,
            decreases self.entries@.len() - i,
        {
            out.push(self.entries[i].0.clone());
            i = i + 1;
        }
        proof {
            assert forall|k: Seq<char>|
                self@.dom().contains(k) <==> exists|i: int| 0 <= i < out@.len() && (#[trigger] out@[i])@ == k by {
                lemma_map_domain(self.entries@, k);
                if self@.dom().contains(k) {
                    let j = choose|j: int| 0 <= j < self.entries@.len() && (#[trigger] self.entries@[j]).0@ == k;
                    assert(out@[j]@ == k);
                }
                if exists|i: int| 0 <= i < out@.len() && (#[trigger] out@[i])@ == k {
                    let j = choose|j: int| 0 <= j < out@.len() && (#[trigger] out@[j])@ == k;
                    assert(self.entries@[j].0@ == k);
                }
            }
        }
        out
    }
}

impl NamedValues<u64> {
    /// A copy of these values.
    pub fn copy(&self) -> (r: Self)
        ensures
            r@ == self@,
    {
        proof {
            use_type_invariant(self);
        }
        let mut out: Vec<(String, u64)> = Vec::new();
        let mut i: usize = 0;
        while i < self.entries.len()
            invariant
                i <= self.entries@.len(),
                out@ == self.entries@.subrange(0, i as int),
            decreases self.entries@.len() - i,
        {
            let name = self.entries[i].0.clone();
            out.push((name, self.entries[i].1));
            i = i + 1;
            assert(out@ =~= self.entries@.subrange(0, i as int));
        }
        assert(out@ =~= self.entries@);
        NamedValues { entries: out }
    }
}

/// A copy of `items`.
fn copy_durations(items: &Vec<Duration>) -> (r: Vec<Duration>)
    ensures
        r@ == items@,
{
    let mut out: Vec<Duration> = Vec::new();
    let mut i: usize = 0;
    while i < items.len()
        invariant
            i <= items@.len(),
            out@ == items@.subrange(0, i as int),
        decreases items@.len() - i,
    {
        out.push(items[i]);
        i = i + 1;
        assert(out@ =~= items@.subrange(0, i as int));
    }
    assert(out@ =~= items@);
    out
}

impl NamedValues<Vec<Duration>> {
    /// The recorded spans of every name.
    pub open spec fn series(&self) -> Map<Seq<char>, Seq<Duration>> {
        self@.map_values(|v: Vec<Duration>| v@)
    }

    /// A copy of these series.
    pub fn copy(&self) -> (r: Self)
        ensures
            r.series() == self.series(),
    {
        proof {
            use_type_invariant(self);
        }
        let mut out: Vec<(String, Vec<Duration>)> = Vec::new();
        let mut i: usize = 0;
        while i < self.entries.len()
            invariant
                i <= self.entries@.len(),
                out@.len() == i,
                forall|k: int|
                    0 <= k < i ==> (#[trigger] out@[k]).0 == self.entries@[k].0 && out@[k].1@
                        == self.entries@[k].1@,
            decreases self.entries@.len() - i,
        {
            let name = self.entries[i].0.clone();
            let items = copy_durations(&self.entries[i].1);
            out.push((name, items));
            i = i + 1;
        }
        proof {
            assert(names_unique(out@)) by {
                assert forall|a: int, b: int|
                    0 <= a < out@.len() && 0 <= b < out@.len() && a != b implies (#[trigger] out@[a]).0@
                    != (#[trigger] out@[b]).0@ by {
                    assert(out@[a].0 == self.entries@[a].0);
                    assert(out@[b].0 == self.entries@[b].0);
                }
            }
            let m1 = entries_to_map(out@).map_values(|v: Vec<Duration>| v@);
            let m2 = entries_to_map(self.entries@).map_values(|v: Vec<Duration>| v@);
            assert forall|k: Seq<char>| #[trigger] m1.dom().contains(k) <==> m2.dom().contains(k) by {
                lemma_map_domain(out@, k);
                lemma_map_domain(self.entries@, k);
                if m1.dom().contains(k) {
                    let j = choose|j: int| 0 <= j < out@.len() && (#[trigger] out@[j]).0@ == k;
                    assert(self.entries@[j].0@ == k);
                }
                if m2.dom().contains(k) {
                    let j = choose|j: int|
                        0 <= j < self.entries@.len() && (#[trigger] self.entries@[j]).0@ == k;
                    assert(out@[j].0@ == k);
                }
            }
            assert forall|k: Seq<char>| m1.dom().contains(k) implies #[trigger] m1[k] == m2[k] by {
                lemma_map_domain(out@, k);
                let j = choose|j: int| 0 <= j < out@.len() && (#[trigger] out@[j]).0@ == k;
                lemma_map_value(out@, j);
                lemma_map_value(self.entries@, j);
            }
            assert(m1 =~= m2);
        }
        NamedValues { entries: out }
    }

    /// Append `item` to the series named `name`, starting the series when it is new;
    /// a series keeps only its newest [`MAX_HISTOGRAM_SAMPLES`] samples.
    pub fn push_onto(&mut self, name: &str, item: Duration)
        ensures
            final(self).series() == old(self).series().insert(
                name@,
                newest(
                    (if old(self)@.dom().contains(name@) {
                        old(self)@[name@]@
                    } else {
                        Seq::<Duration>::empty()
                    }).push(item),
                    MAX_HISTOGRAM_SAMPLES as nat,
                ),
            ),
    {
        proof {
            use_type_invariant(&*self);
        }
        let key = name.to_owned();
        let found = self.position(&key);
        let mut entries = Vec::new();
        std::mem::swap(&mut entries, &mut self.entries);
        let ghost before = entries@;
        match found {
            Some(i) => {
                proof {
                    lemma_map_value(before, i as int);
                }
                let mut slot: (String, Vec<Duration>) = (key, Vec::new());
                entries.set_and_swap(i, &mut slot);
                let (old_name, mut series) = slot;
                series.push(item);
                keep_newest(&mut series, MAX_HISTOGRAM_SAMPLES);
                let ghost t = (old_name, series);
                entries.set(i, (old_name, series));
                proof {
                    assert(entries@ =~= before.update(i as int, t));
                    lemma_map_update(before, i as int, t.0, t.1);
                }
            },
            None => {
                let mut items: Vec<Duration> = Vec::new();
                items.push(item);
                keep_newest(&mut items, MAX_HISTOGRAM_SAMPLES);
                proof {
                    lemma_map_push(before, key, items);
                }
                entries.push((key, items));
            },
        }
        self.entries = entries;
        proof {
            assert(self.series() =~= old(self).series().insert(
                name@,
                newest(
                    (if old(self)@.dom().contains(name@) {
                        old(self)@[name@]@
                    } else {
                        Seq::<Duration>::empty()
                    }).push(item),
                    MAX_HISTOGRAM_SAMPLES as nat,
                ),
            ));
        }
    }
}

/// The most samples a histogram keeps; older samples are dropped first.
pub const MAX_HISTOGRAM_SAMPLES: usize = 1024;

/// Drop the oldest elements of `series` until at most `cap` remain.
fn keep_newest(series: &mut Vec<Duration>, cap: usize)
    ensures
        final(series)@ == newest(old(series)@, cap as nat),
{
    let ghost before = series@;
    while series.len() > cap
        invariant
            series@ == before.subrange(before.len() - series@.len(), before.len() as int),
            series@.len() <= before.len(),
            series@.len() >= cap || series@.len() == before.len(),
        decreases series@.len(),
    {
        series.remove(0);
        assert(series@ =~= before.subrange(before.len() - series@.len(), before.len() as int));
    }
    proof {
        if before.len() <= cap {
            assert(series@ =~= before);
        } else {
            assert(series@.len() == cap);
        }
    }
}

/// The abstract state of a [`MetricsCollector`].
pub struct MetricsView {
    /// Counter values by name.
    pub counters: Map<Seq<char>, u64>,
    /// Gauge values by name.
    pub gauges: Map<Seq<char>, u64>,
    /// Recorded durations by histogram name, oldest first.
    pub histograms: Map<Seq<char>, Seq<Duration>>,
}

/// The value a counter holds after adding `value` to `current` (absent counts as
/// zero); like the atomic counters it models, it wraps around at `u64::MAX`.
pub open spec fn counter_after(current: Option<u64>, value: u64) -> u64 {
    let base: u64 = match current {
        Some(v) => v,
        None => 0,
    };
    ((base + value) % 0x1_0000_0000_0000_0000) as u64
}

/// The value of the counter `name` in `counters`, if it exists.
pub open spec fn counter_value(counters: Map<Seq<char>, u64>, name: Seq<char>) -> Option<u64> {
    if counters.dom().contains(name) {
        Some(counters[name])
    } else {
        None
    }
}

/// Metrics collector for daemon monitoring.
#[derive(Debug)]
pub struct MetricsCollector {
    counters: NamedValues<u64>,
    gauges: NamedValues<u64>,
    histograms: NamedValues<Vec<Duration>>,
    start_time: Instant,
}

impl View for MetricsCollector {
    type V = MetricsView;

    closed spec fn view(&self) -> MetricsView {
        MetricsView {
            counters: self.counters@,
            gauges: self.gauges@,
            histograms: self.histograms.series(),
        }
    }
}

/// Snapshot of current metrics.
#[derive(Debug)]
pub struct MetricsSnapshot {
    /// Time since the collector was created.
    pub uptime: Duration,
    /// Counter metrics.
    pub counters: NamedValues<u64>,
    /// Gauge metrics.
    pub gauges: NamedValues<u64>,
    /// Histogram metrics.
    pub histograms: NamedValues<Vec<Duration>>,
    /// When the snapshot was taken.
    pub timestamp: Instant,
}

impl MetricsCollector {
    /// Create a new metrics collector with no metrics; its uptime counts from now.
    pub fn new() -> (c: Self)
        ensures
            c@.counters == Map::<Seq<char>, u64>::empty(),
            c@.gauges == Map::<Seq<char>, u64>::empty(),
            c@.histograms == Map::<Seq<char>, Seq<Duration>>::empty(),
    {
        let c = MetricsCollector {
            counters: NamedValues::new(),
            gauges: NamedValues::new(),
            histograms: NamedValues::new(),
            start_time: now(),
        };
        assert(c@.histograms =~= Map::<Seq<char>, Seq<Duration>>::empty());
        c
    }

    /// Increment the counter `name` by `value`, creating it at zero if needed.
    pub fn increment_counter(&mut self, name: &str, value: u64)
        ensures
            final(self)@.counters == old(self)@.counters.insert(
                name@,
                counter_after(counter_value(old(self)@.counters, name@), value),
            ),
            final(self)@.gauges == old(self)@.gauges,
            final(self)@.histograms == old(self)@.histograms,
    {
        let current: u64 = match self.counters.get(name) {
            Some(v) => *v,
            None => 0,
        };
        self.counters.insert(name, current.wrapping_add(value));
    }

    /// Set the gauge `name` to `value`.
    pub fn set_gauge(&mut self, name: &str, value: u64)
        ensures
            final(self)@.gauges == old(self)@.gauges.insert(name@, value),
            final(self)@.counters == old(self)@.counters,
            final(self)@.histograms == old(self)@.histograms,
    {
        self.gauges.insert(name, value);
    }

    /// Record `duration` in the histogram `name`, which keeps its newest
    /// [`MAX_HISTOGRAM_SAMPLES`] samples.
    pub fn record_histogram(&mut self, name: &str, duration: Duration)
        ensures
            final(self)@.histograms == old(self)@.histograms.insert(
                name@,
                newest(
                    (if old(self)@.histograms.dom().contains(name@) {
                        old(self)@.histograms[name@]
                    } else {
                        Seq::<Duration>::empty()
                    }).push(duration),
                    MAX_HISTOGRAM_SAMPLES as nat,
                ),
            ),
            final(self)@.counters == old(self)@.counters,
            final(self)@.gauges == old(self)@.gauges,
    {
        self.histograms.push_onto(name, duration);
    }

    /// Get current metric values, with the uptime and the time of the snapshot.
    pub fn get_metrics(&self) -> (s: MetricsSnapshot)
        ensures
            s.counters@ == self@.counters,
            s.gauges@ == self@.gauges,
            s.histograms.series() == self@.histograms,
    {
        MetricsSnapshot {
            uptime: elapsed_since(self.start_time),
            counters: self.counters.copy(),
            gauges: self.gauges.copy(),
            histograms: self.histograms.copy(),
            timestamp: now(),
        }
    }

    /// Reset all metrics.
    pub fn reset(&mut self)
        ensures
            final(self)@.counters == Map::<Seq<char>, u64>::empty(),
            final(self)@.gauges == Map::<Seq<char>, u64>::empty(),
            final(self)@.histograms == Map::<Seq<char>, Seq<Duration>>::empty(),
    {
        self.counters.clear();
        self.gauges.clear();
        self.histograms.clear();
        assert(self@.histograms =~= Map::<Seq<char>, Seq<Duration>>::empty());
    }
}

impl Default for MetricsCollector {
    fn default() -> (c: Self)
        ensures
            c@.counters == Map::<Seq<char>, u64>::empty(),
            c@.gauges == Map::<Seq<char>, u64>::empty(),
            c@.histograms == Map::<Seq<char>, Seq<Duration>>::empty(),
    {
        Self::new()
    }
}

/// With unique names, the map has as many names as there are entries.
proof fn lemma_len_of<V>(s: Seq<(String, V)>)
    requires
        names_unique(s),
    ensures
        entries_to_map(s).len() == s.len(),
        entries_to_map(s).dom().finite(),
    decreases s.len(),
{
    if s.len() > 0 {
        let prefix = s.drop_last();
        assert(names_unique(prefix)) by {
            assert forall|a: int, b: int|
                0 <= a < prefix.len() && 0 <= b < prefix.len() && a != b implies (#[trigger] prefix[a]).0@
                != (#[trigger] prefix[b]).0@ by {
                assert(prefix[a] == s[a]);
                assert(prefix[b] == s[b]);
            }
        }
        lemma_len_of(prefix);
        lemma_map_domain(prefix, s.last().0@);
        if entries_to_map(prefix).dom().contains(s.last().0@) {
            let j = choose|j: int| 0 <= j < prefix.len() && (#[trigger] prefix[j]).0@ == s.last().0@;
            assert(s[j] == prefix[j]);
        }
    }
}

/// Adding `first` and then `second` to a counter leaves it where adding their
/// (wrapping) sum at once would.
pub proof fn lemma_counter_increments_add(current: Option<u64>, first: u64, second: u64)
    ensures
        counter_after(Some(counter_after(current, first)), second) == counter_after(
            current,
            ((first + second) % 0x1_0000_0000_0000_0000) as u64,
        ),
{
    let base: int = match current {
        Some(v) => v as int,
        None => 0,
    };
    let m: int = 0x1_0000_0000_0000_0000;
    let f = first as int;
    let g = second as int;
    vstd::arithmetic::div_mod::lemma_small_mod(g as nat, m as nat);
    vstd::arithmetic::div_mod::lemma_small_mod(base as nat, m as nat);
    vstd::arithmetic::div_mod::lemma_add_mod_noop(base + f, g, m);
    vstd::arithmetic::div_mod::lemma_add_mod_noop(base, f + g, m);
    assert(((base + f) % m + g) % m == (base + (f + g) % m) % m);
}

/// Setting a gauge twice leaves the second value, whatever the first was.
pub proof fn lemma_gauge_last_write_wins(gauges: Map<Seq<char>, u64>, name: Seq<char>, first: u64, second: u64)
    ensures
        gauges.insert(name, first).insert(name, second) == gauges.insert(name, second),
{
    assert(gauges.insert(name, first).insert(name, second) =~= gauges.insert(name, second));
}

/// Recording into a histogram makes the new sample its newest, keeps it within
/// [`MAX_HISTOGRAM_SAMPLES`] samples, drops the oldest sample only when it was
/// full, and leaves every other histogram unchanged.
pub proof fn lemma_histogram_capped(
    histograms: Map<Seq<char>, Seq<Duration>>,
    name: Seq<char>,
    duration: Duration,
    other: Seq<char>,
)
    ensures
        ({
            let before = if histograms.dom().contains(name) {
                histograms[name]
            } else {
                Seq::<Duration>::empty()
            };
            let after = histograms.insert(
                name,
                newest(before.push(duration), MAX_HISTOGRAM_SAMPLES as nat),
            );
            &&& after[name].len() <= MAX_HISTOGRAM_SAMPLES
            &&& after[name].last() == duration
            &&& before.len() < MAX_HISTOGRAM_SAMPLES ==> after[name] == before.push(duration)
            &&& before.len() == MAX_HISTOGRAM_SAMPLES ==> after[name] == before.drop_first().push(
                duration,
            )
            &&& other != name ==> (after.dom().contains(other) == histograms.dom().contains(other)
                && (histograms.dom().contains(other) ==> after[other] == histograms[other]))
        }),
{
    let before = if histograms.dom().contains(name) {
        histograms[name]
    } else {
        Seq::<Duration>::empty()
    };
    let pushed = before.push(duration);
    if before.len() == MAX_HISTOGRAM_SAMPLES {
        assert(newest(pushed, MAX_HISTOGRAM_SAMPLES as nat) =~= before.drop_first().push(duration));
    }
}

} // verus!
