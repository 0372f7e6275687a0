//! Process resource sampling: the bounded history of samples, and reading
//! memory and thread counts out of the Linux `/proc` files.
use vstd::prelude::*;

use crate::text::{
    chars_of, parse_unsigned, parse_unsigned_chars, split_whitespace, split_whitespace_chars,
    starts_with, starts_with_chars, trim, trim_chars, last_index_of, rfind_char, chars_from,
};

verus! {

/// The last `cap` elements of `s` (all of `s` when it is no longer).
pub open spec fn newest<T>(s: Seq<T>, cap: nat) -> Seq<T> {
    if s.len() > cap {
        s.subrange(s.len() - cap, s.len() as int)
    } else {
        s
    }
}

/// The most recent samples, up to a maximum count; the oldest is dropped first.
pub struct BoundedHistory<T> {
    items: Vec<T>,
    max_entries: usize,
}

impl<T> BoundedHistory<T> {
    #[verifier::type_invariant]
    spec fn within_maximum(self) -> bool {
        self.items@.len() <= self.max_entries
    }

    /// The samples, oldest first.
    pub closed spec fn items(&self) -> Seq<T> {
        self.items@
    }

    /// The number of samples kept.
    pub closed spec fn max_entries(&self) -> usize {
        self.max_entries
    }

    /// An empty history that keeps up to `max_entries` samples.
    pub fn new(max_entries: usize) -> (h: Self)
        ensures
            h.items() == Seq::<T>::empty(),
            h.max_entries() == max_entries,
    {
        BoundedHistory { items: Vec::new(), max_entries }
    }

    /// The number of samples kept.
    pub fn max_len(&self) -> (n: usize)
        ensures
            n == self.max_entries(),
            self.items().len() <= self.max_entries(),
    {
        proof {
            use_type_invariant(self);
        }
        self.max_entries
    }

    /// The number of samples held, which never exceeds the maximum.
    pub fn len(&self) -> (n: usize)
        ensures
            n == self.items().len(),
            n <= self.max_entries(),
    {
        proof {
            use_type_invariant(self);
        }
        self.items.len()
    }

    /// The samples, oldest first.
    pub fn as_slice(&self) -> (s: &[T])
        ensures
            s@ == self.items(),
            s@.len() <= self.max_entries(),
    {
        proof {
            use_type_invariant(self);
        }
        self.items.as_slice()
    }

    /// Keep up to `max_entries` samples from now on; when more are held, the
    /// oldest are dropped.
    pub fn set_max_entries(&mut self, max_entries: usize)
        ensures
            final(self).max_entries() == max_entries,
            final(self).items() == newest(old(self).items(), max_entries as nat),
    {
        let mut items = Vec::new();
        std::mem::swap(&mut items, &mut self.items);
        let ghost before = items@;
        while items.len() > max_entries
            invariant
                items@ == before.subrange(before.len() - items@.len(), before.len() as int),
                items@.len() <= before.len(),
                items@.len() >= max_entries || items@.len() == before.len(),
            decreases items@.len(),
        {
            items.remove(0);
            assert(items@ =~= before.subrange(before.len() - items@.len(), before.len() as int));
        }
        proof {
            if before.len() <= max_entries {
                assert(items@ =~= before);
            } else {
                assert(items@.len() == max_entries);
            }
        }
        *self = BoundedHistory { items, max_entries };
    }

    /// Record `item`: it is appended, and when the history then holds more than the
    /// maximum, the oldest sample is dropped.
    pub fn push(&mut self, item: T)
        ensures
            final(self).items() == newest(old(self).items().push(item), old(self).max_entries() as nat),
            final(self).items().len() <= final(self).max_entries(),
            final(self).max_entries() == old(self).max_entries(),
    {
        proof {
            use_type_invariant(&*self);
        }
        let max_entries = self.max_entries;
        let mut items = Vec::new();
        std::mem::swap(&mut items, &mut self.items);
        let ghost pushed = items@.push(item);
        items.push(item);
        if items.len() > max_entries {
            items.remove(0);
            assert(items@ =~= pushed.subrange(pushed.len() - max_entries, pushed.len() as int));
        }
        *self = BoundedHistory { items, max_entries };
    }
}

/// Recording a sample keeps a history within its maximum, makes the sample the
/// newest one, and drops the oldest sample exactly when the history was full.
pub proof fn lemma_history_stays_bounded<T>(items: Seq<T>, item: T, max_entries: usize)
    requires
        items.len() <= max_entries,
    ensures
        newest(items.push(item), max_entries as nat).len() <= max_entries,
        max_entries > 0 ==> newest(items.push(item), max_entries as nat).last() == item,
        items.len() < max_entries ==> newest(items.push(item), max_entries as nat) == items.push(item),
        0 < items.len() == max_entries ==> newest(items.push(item), max_entries as nat)
            == items.drop_first().push(item),
{
    let pushed = items.push(item);
    if 0 < items.len() && items.len() == max_entries {
        assert(newest(pushed, max_entries as nat) =~= items.drop_first().push(item));
    }
}

/// Whether a line of `/proc/<pid>/status` is the resident-set-size line.
pub open spec fn is_rss_line(line: Seq<char>) -> bool {
    starts_with(line, "VmRSS:"@)
}

/// Whether reading the resident set size out of `line` fails outright: it is the
/// `VmRSS:` line but has no second field, or its value in KiB overflows when
/// converted to bytes.
pub open spec fn rss_line_unreadable(line: Seq<char>) -> bool {
    let tokens = split_whitespace(line);
    is_rss_line(line) && (tokens.len() < 2 || match parse_unsigned(tokens[1], u64::MAX as nat) {
        Some(kib) => kib * 1024 > u64::MAX,
        None => false,
    })
}

/// The resident set size in bytes that `line` reports: on the `VmRSS:` line whose
/// second field is a number of KiB, that number times 1024; nothing otherwise.
pub open spec fn rss_bytes_of_line(line: Seq<char>) -> Option<nat> {
    let tokens = split_whitespace(line);
    if is_rss_line(line) && tokens.len() >= 2 {
        match parse_unsigned(tokens[1], u64::MAX as nat) {
            Some(kib) => Some(kib * 1024),
            None => None,
        }
    } else {
        None
    }
}

/// Whether reading the resident set size out of the `/proc/<pid>/status` line
/// `line` fails outright (see [`rss_line_unreadable`]).
pub fn status_line_unreadable(line: &str) -> (b: bool)
    ensures
        b == rss_line_unreadable(line@),
{
    let chars = chars_of(line);
    let prefix = chars_of("VmRSS:");
    if !starts_with_chars(&chars, &prefix) {
        return false;
    }
    let tokens = split_whitespace_chars(&chars);
    if tokens.len() < 2 {
        return true;
    }
    match parse_unsigned_chars(&tokens[1], u64::MAX) {
        Some(kib) => kib > u64::MAX / 1024,
        None => false,
    }
}

/// The resident set size in bytes reported by the `/proc/<pid>/status` line `line`,
/// if it is the `VmRSS:` line with a readable value.
pub fn rss_bytes_in_status_line(line: &str) -> (r: Option<u64>)
    requires
        !rss_line_unreadable(line@),
    ensures
        match rss_bytes_of_line(line@) {
            Some(n) => r == Some(n as u64),
            None => r is None,
        },
{
    let chars = chars_of(line);
    let prefix = chars_of("VmRSS:");
    if !starts_with_chars(&chars, &prefix) {
        return None;
    }
    let tokens = split_whitespace_chars(&chars);
    if tokens.len() < 2 {
        return None;
    }
    match parse_unsigned_chars(&tokens[1], u64::MAX) {
        Some(kib) => Some(kib * 1024),
        None => None,
    }
}

/// The fields of a `/proc/<pid>/stat` line from the third (the process state) on.
///
/// The second field is the command name in parentheses, which may itself hold
/// spaces and parentheses, so the later fields are the whitespace-separated
/// tokens after the line's last `)`. A line without `)` is split as a whole and
/// its first two tokens are skipped.
pub open spec fn stat_fields_after_comm(line: Seq<char>) -> Seq<Seq<char>> {
    match last_index_of(line, ')') {
        Some(p) => split_whitespace(line.subrange(p + 1, line.len() as int)),
        None => {
            let tokens = split_whitespace(line);
            if tokens.len() >= 2 {
                tokens.subrange(2, tokens.len() as int)
            } else {
                Seq::empty()
            }
        },
    }
}

/// The fields of a `/proc/<pid>/stat` line from the third on (see
/// [`stat_fields_after_comm`]); field `n` of the line is element `n - 3`.
pub fn stat_fields(line: &str) -> (r: Vec<Vec<char>>)
    ensures
        r@.len() == stat_fields_after_comm(line@).len(),
        forall|i: int| 0 <= i < r@.len() ==> (#[trigger] r@[i])@ == stat_fields_after_comm(line@)[i],
{
    let chars = chars_of(line);
    match rfind_char(&chars, ')') {
        Some(p) => {
            let n = chars.len();
            assert(p < n);
            let rest = chars_from(&chars, p + 1);
            let r = split_whitespace_chars(&rest);
            assert(last_index_of(line@, ')') == Some(p as int));
            assert(rest@ == line@.subrange(p + 1, line@.len() as int));
            r
        },
        None => {
            let tokens = split_whitespace_chars(&chars);
            let ghost all = split_whitespace(chars@);
            let mut out: Vec<Vec<char>> = Vec::new();
            if tokens.len() >= 2 {
                let mut i: usize = 2;
                while i < tokens.len()
                    invariant
                        2 <= i <= tokens@.len(),
                        tokens@.len() == all.len(),
                        forall|k: int| 0 <= k < tokens@.len() ==> (#[trigger] tokens@[k])@ == all[k],
                        out@.len() == i - 2,
                        forall|k: int| 0 <= k < out@.len() ==> (#[trigger] out@[k])@ == all[k + 2],
                    decreases tokens@.len() - i,
                {
                    let mut token: Vec<char> = Vec::new();
                    let mut j: usize = 0;
                    while j < tokens[i].len()
                        invariant
                            i < tokens@.len(),
                            j <= tokens@[i as int]@.len(),
                            token@ == tokens@[i as int]@.subrange(0, j as int),
                        decreases tokens@[i as int]@.len() - j,
                    {
                        token.push(tokens[i][j]);
                        j = j + 1;
                        assert(token@ =~= tokens@[i as int]@.subrange(0, j as int));
                    }
                    assert(token@ =~= tokens@[i as int]@);
                    out.push(token);
                    i = i + 1;
                }
            }
            proof {
                assert(last_index_of(line@, ')') is None);
                if all.len() >= 2 {
                    assert forall|k: int| 0 <= k < out@.len() implies (#[trigger] out@[k])@
                        == stat_fields_after_comm(line@)[k] by {
                        assert(all.subrange(2, all.len() as int)[k] == all[k + 2]);
                    }
                }
            }
            out
        },
    }
}

/// The thread count in the first line of `/proc/<pid>/stat`: its twentieth field
/// (counted as [`stat_fields_after_comm`] counts, so that command names with
/// spaces do not shift it) read as a `u32`, when the line has at least 24 fields
/// and that field reads; 0 otherwise.
pub open spec fn stat_thread_count(line: Seq<char>) -> nat {
    let fields = stat_fields_after_comm(line);
    if fields.len() >= 22 {
        match parse_unsigned(fields[17], u32::MAX as nat) {
            Some(n) => n,
            None => 0,
        }
    } else {
        0
    }
}

/// The thread count in the first line of `/proc/<pid>/stat` (see [`stat_thread_count`]).
pub fn thread_count_from_stat(line: &str) -> (n: u32)
    ensures
        n == stat_thread_count(line@),
{
    let fields = stat_fields(line);
    if fields.len() >= 22 {
        match parse_unsigned_chars(&fields[17], u32::MAX as u64) {
            Some(n) => n as u32,
            None => 0,
        }
    } else {
        0
    }
}

/// The resident set size in KiB that `ps -o rss=` printed: the whole output,
/// trimmed, read as a `u64`; 0 when it does not read.
pub open spec fn ps_rss_kib(output: Seq<char>) -> nat {
    match parse_unsigned(trim(output), u64::MAX as nat) {
        Some(kib) => kib,
        None => 0,
    }
}

/// Whether the resident set size printed by `ps -o rss=` overflows a `u64` when
/// converted to bytes.
pub fn ps_rss_overflows(output: &str) -> (b: bool)
    ensures
        b == (ps_rss_kib(output@) * 1024 > u64::MAX),
{
    let chars = chars_of(output);
    let trimmed = trim_chars(&chars);
    match parse_unsigned_chars(&trimmed, u64::MAX) {
        Some(kib) => kib > u64::MAX / 1024,
        None => false,
    }
}

/// The resident set size in bytes printed by `ps -o rss=` (see [`ps_rss_kib`]).
pub fn rss_bytes_from_ps(output: &str) -> (n: u64)
    requires
        ps_rss_kib(output@) * 1024 <= u64::MAX,
    ensures
        n == ps_rss_kib(output@) * 1024,
{
    let chars = chars_of(output);
    let trimmed = trim_chars(&chars);
    let kib = match parse_unsigned_chars(&trimmed, u64::MAX) {
        Some(v) => v,
        None => 0,
    };
    kib * 1024
}

/// The thread count printed by `ps -o %cpu,thcount=`: the second
/// whitespace-separated field read as a `u32`; 0 when it is missing or does not read.
pub open spec fn ps_thread_count(output: Seq<char>) -> nat {
    let tokens = split_whitespace(output);
    if tokens.len() > 1 {
        match parse_unsigned(tokens[1], u32::MAX as nat) {
            Some(n) => n,
            None => 0,
        }
    } else {
        0
    }
}

/// The thread count printed by `ps -o %cpu,thcount=` (see [`ps_thread_count`]).
pub fn thread_count_from_ps(output: &str) -> (n: u32)
    ensures
        n == ps_thread_count(output@),
{
    let chars = chars_of(output);
    let tokens = split_whitespace_chars(&chars);
    if tokens.len() > 1 {
        match parse_unsigned_chars(&tokens[1], u32::MAX as u64) {
            Some(n) => n as u32,
            None => 0,
        }
    } else {
        0
    }
}

/// Nanoseconds in a Windows `FILETIME` given by its high and low 32-bit halves,
/// which count 100-nanosecond ticks.
pub fn filetime_to_ns(high: u32, low: u32) -> (n: u64)
    requires
        (high as nat * 0x1_0000_0000 + low) * 100 <= u64::MAX,
    ensures
        n == (high as nat * 0x1_0000_0000 + low) * 100,
{
    let ticks = (high as u64) * 0x1_0000_0000u64 + low as u64;
    ticks * 100
}

} // verus!
