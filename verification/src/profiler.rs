//! Performance profiling of plugin runs: per-function call statistics,
//! memory samples and the time spent in each execution phase.
//!
//! Durations are counted in nanoseconds, as `u128`, up to the largest value
//! a `std::time::Duration` holds.

use vstd::prelude::*;
use crate::clock::{system_now_millis, DURATION_MAX_NANOS};
use crate::keyed::KeyedList;

verus! {

/// Call statistics of one function.
#[derive(Debug, Clone, Copy)]
pub struct FunctionStats {
    pub call_count: u64,
    /// Nanoseconds spent in all calls.
    pub total_time: u128,
    /// Nanoseconds per call, on average.
    pub avg_time: u128,
    /// Nanoseconds of the shortest call.
    pub min_time: u128,
    /// Nanoseconds of the longest call.
    pub max_time: u128,
    pub error_count: u64,
}

/// Memory samples.
#[derive(Debug, Clone)]
pub struct MemoryStats {
    pub peak_memory: u64,
    pub current_memory: u64,
    pub avg_memory: u64,
    pub allocation_count: u64,
    pub deallocation_count: u64,
}

/// Nanoseconds spent in each execution phase, and in all of them.
#[derive(Debug, Clone)]
pub struct ExecutionStats {
    pub total_time: u128,
    pub load_time: u128,
    pub init_time: u128,
    pub processing_time: u128,
    pub cleanup_time: u128,
}

/// A phase of a plugin run.
#[derive(Debug, Clone, Copy)]
pub enum ExecutionPhase {
    Load,
    Init,
    Processing,
    Cleanup,
}

/// The statistics of a function that has not been called yet.
pub open spec fn fresh_function_stats() -> FunctionStats {
    FunctionStats {
        call_count: 0,
        total_time: 0,
        avg_time: 0,
        min_time: DURATION_MAX_NANOS,
        max_time: 0,
        error_count: 0,
    }
}

/// Memory statistics with no sample.
pub open spec fn empty_memory_stats() -> MemoryStats {
    MemoryStats { peak_memory: 0, current_memory: 0, avg_memory: 0, allocation_count: 0, deallocation_count: 0 }
}

/// Execution statistics with no phase recorded.
pub open spec fn empty_execution_stats() -> ExecutionStats {
    ExecutionStats { total_time: 0, load_time: 0, init_time: 0, processing_time: 0, cleanup_time: 0 }
}

impl Default for FunctionStats {
    fn default() -> (s: Self)
        ensures
            s == fresh_function_stats(),
    {
        FunctionStats {
            call_count: 0,
            total_time: 0,
            avg_time: 0,
            min_time: DURATION_MAX_NANOS,
            max_time: 0,
            error_count: 0,
        }
    }
}

impl Default for MemoryStats {
    fn default() -> (s: Self)
        ensures
            s == empty_memory_stats(),
    {
        MemoryStats { peak_memory: 0, current_memory: 0, avg_memory: 0, allocation_count: 0, deallocation_count: 0 }
    }
}

impl Default for ExecutionStats {
    fn default() -> (s: Self)
        ensures
            s == empty_execution_stats(),
    {
        ExecutionStats { total_time: 0, load_time: 0, init_time: 0, processing_time: 0, cleanup_time: 0 }
    }
}

/// The divisor a call count gives when it is narrowed to 32 bits, as the
/// average is taken by dividing a duration by a `u32`.
pub open spec fn narrowed_count(count: int) -> int {
    count % 0x1_0000_0000
}

/// Whether a call of `t` nanoseconds can be added to `s`: the counters and
/// the total stay in range and the narrowed call count is not zero.
pub open spec fn call_recordable(s: FunctionStats, t: u128) -> bool {
    &&& s.call_count + 1 <= u64::MAX
    &&& s.total_time + t <= DURATION_MAX_NANOS
    &&& narrowed_count(s.call_count + 1) != 0
}

/// `s` after one more call of `t` nanoseconds that succeeded or failed.
pub open spec fn stats_after_call(s: FunctionStats, t: u128, success: bool) -> FunctionStats {
    let count = s.call_count + 1;
    let total = s.total_time + t;
    FunctionStats {
        call_count: count as u64,
        total_time: total as u128,
        avg_time: (total / narrowed_count(count)) as u128,
        min_time: if t < s.min_time { t } else { s.min_time },
        max_time: if t > s.max_time { t } else { s.max_time },
        error_count: if success { s.error_count } else { (s.error_count + 1) as u64 },
    }
}

/// Whether the call statistics `s` agree with themselves: with no call,
/// nothing spent, the shortest call at its starting bound and the longest at
/// 0; with calls, the total between the shortest and the longest call times
/// their number.
pub open spec fn stats_consistent(s: FunctionStats) -> bool {
    &&& s.call_count == 0 ==> s.total_time == 0 && s.min_time == DURATION_MAX_NANOS && s.max_time == 0
    &&& s.call_count > 0 ==> s.min_time * s.call_count <= s.total_time && s.total_time <= s.max_time * s.call_count
}

/// The statistics of a function not yet called agree with themselves.
pub proof fn lemma_fresh_stats_consistent()
    ensures
        stats_consistent(fresh_function_stats()),
{
}

/// Recording a call keeps the statistics in agreement, and, while the calls
/// number fewer than 2^32 (so that the average divides by the true count),
/// the average lies between the shortest and the longest call.
pub proof fn lemma_call_keeps_average_between(s: FunctionStats, t: u128, success: bool)
    requires
        stats_consistent(s),
        call_recordable(s, t),
        s.call_count + 1 < 0x1_0000_0000,
    ensures
        stats_consistent(stats_after_call(s, t, success)),
        stats_after_call(s, t, success).min_time <= stats_after_call(s, t, success).avg_time,
        stats_after_call(s, t, success).avg_time <= stats_after_call(s, t, success).max_time,
{
    let r = stats_after_call(s, t, success);
    let c = s.call_count as int;
    let n = c + 1;
    let total = s.total_time + t;
    assert(narrowed_count(n) == n);
    assert(r.total_time == total);
    assert(r.avg_time == total / n);
    let lo = r.min_time as int;
    let hi = r.max_time as int;
    if c == 0 {
        assert(lo == t && hi == t);
        assert(total == t);
    } else {
        assert(lo <= s.min_time && lo <= t);
        assert(hi >= s.max_time && hi >= t);
        assert(lo * c <= s.min_time * c) by (nonlinear_arith)
            requires
                lo <= s.min_time,
                c > 0,
        ;
        assert(hi * c >= s.max_time * c) by (nonlinear_arith)
            requires
                hi >= s.max_time,
                c > 0,
        ;
        assert(lo * n == lo * c + lo) by (nonlinear_arith)
            requires
                n == c + 1,
        ;
        assert(hi * n == hi * c + hi) by (nonlinear_arith)
            requires
                n == c + 1,
        ;
    }
    assert(lo * n <= total && total <= hi * n);
    assert(lo <= total / n && total / n <= hi) by (nonlinear_arith)
        requires
            lo * n <= total,
            total <= hi * n,
            n > 0,
            lo >= 0,
            total >= 0,
    ;
}

/// Whether a memory sample can be added to `m` without overflow.
pub open spec fn memory_recordable(m: MemoryStats, current: u64) -> bool {
    &&& m.allocation_count + 1 <= u64::MAX
    &&& m.allocation_count > 0 ==> m.avg_memory * m.allocation_count + current <= u64::MAX
}

/// `m` after a sample of `current` bytes: the running average is updated
/// with integer division.
pub open spec fn memory_after_sample(m: MemoryStats, current: u64) -> MemoryStats {
    MemoryStats {
        peak_memory: if current > m.peak_memory { current } else { m.peak_memory },
        current_memory: current,
        avg_memory: if m.allocation_count > 0 {
            ((m.avg_memory * m.allocation_count + current) / (m.allocation_count + 1)) as u64
        } else {
            current
        },
        allocation_count: (m.allocation_count + 1) as u64,
        deallocation_count: m.deallocation_count,
    }
}

/// The time recorded so far for `phase`.
pub open spec fn phase_time(e: ExecutionStats, phase: ExecutionPhase) -> u128 {
    match phase {
        ExecutionPhase::Load => e.load_time,
        ExecutionPhase::Init => e.init_time,
        ExecutionPhase::Processing => e.processing_time,
        ExecutionPhase::Cleanup => e.cleanup_time,
    }
}

/// Whether `d` more nanoseconds fit in `phase` and in the total.
pub open spec fn phase_recordable(e: ExecutionStats, phase: ExecutionPhase, d: u128) -> bool {
    &&& phase_time(e, phase) + d <= DURATION_MAX_NANOS
    &&& e.total_time + d <= DURATION_MAX_NANOS
}

/// `e` after `d` nanoseconds spent in `phase`.
pub open spec fn execution_after_phase(e: ExecutionStats, phase: ExecutionPhase, d: u128) -> ExecutionStats {
    let total = (e.total_time + d) as u128;
    match phase {
        ExecutionPhase::Load => ExecutionStats { load_time: (e.load_time + d) as u128, total_time: total, ..e },
        ExecutionPhase::Init => ExecutionStats { init_time: (e.init_time + d) as u128, total_time: total, ..e },
        ExecutionPhase::Processing => ExecutionStats {
            processing_time: (e.processing_time + d) as u128,
            total_time: total,
            ..e
        },
        ExecutionPhase::Cleanup => ExecutionStats { cleanup_time: (e.cleanup_time + d) as u128, total_time: total, ..e },
    }
}

/// The calls counted in a list of function statistics.
pub open spec fn sum_calls(s: Seq<(String, FunctionStats)>) -> int
    decreases s.len(),
{
    if s.len() == 0 { 0 } else { sum_calls(s.drop_last()) + s.last().1.call_count }
}

/// The errors counted in a list of function statistics.
pub open spec fn sum_errors(s: Seq<(String, FunctionStats)>) -> int
    decreases s.len(),
{
    if s.len() == 0 { 0 } else { sum_errors(s.drop_last()) + s.last().1.error_count }
}

/// What a profiling session sums up: its length, the statistics gathered,
/// the calls and errors counted and the average time per call.
#[derive(Debug, Clone)]
pub struct ReportBasis {
    /// Milliseconds between the start of the session and the report.
    pub duration_millis: u64,
    pub function_stats: KeyedList<FunctionStats>,
    pub memory_stats: MemoryStats,
    pub execution_stats: ExecutionStats,
    pub total_calls: u64,
    pub total_errors: u64,
    /// Nanoseconds of execution per call, or 0 with no call.
    pub avg_latency: u128,
}

/// Records call, memory and phase statistics while enabled.
#[derive(Debug)]
pub struct WasmProfiler {
    enabled: bool,
    /// Milliseconds on the system clock when the session started.
    start_time: Option<u64>,
    function_calls: KeyedList<FunctionStats>,
    memory_stats: MemoryStats,
    execution_stats: ExecutionStats,
}

impl Default for WasmProfiler {
    fn default() -> (p: Self)
        ensures
            p.wf(),
            !p.is_on(),
            p.started() is None,
            p.calls() == Map::<Seq<char>, FunctionStats>::empty(),
            p.memory() == empty_memory_stats(),
            p.execution() == empty_execution_stats(),
    {
        WasmProfiler::new()
    }
}

impl WasmProfiler {
    /// The statistics are kept under distinct function names, and no
    /// function has more errors than calls.
    pub closed spec fn wf(self) -> bool {
        &&& self.function_calls.wf()
        &&& forall|k: Seq<char>| #[trigger] self.function_calls.map().contains_key(k)
            ==> self.function_calls.map()[k].error_count <= self.function_calls.map()[k].call_count
    }

    /// Whether recording is on.
    pub closed spec fn is_on(self) -> bool {
        self.enabled
    }

    /// When the current session started, in milliseconds.
    pub closed spec fn started(self) -> Option<u64> {
        self.start_time
    }

    /// The call statistics by function name.
    pub closed spec fn calls(self) -> Map<Seq<char>, FunctionStats> {
        self.function_calls.map()
    }

    /// The call statistics in the order functions were first called.
    pub closed spec fn call_entries(self) -> Seq<(String, FunctionStats)> {
        self.function_calls.entries()
    }

    /// The memory statistics.
    pub closed spec fn memory(self) -> MemoryStats {
        self.memory_stats
    }

    /// The execution phase statistics.
    pub closed spec fn execution(self) -> ExecutionStats {
        self.execution_stats
    }

    /// A disabled profiler with no statistics.
    pub fn new() -> (p: Self)
        ensures
            p.wf(),
            !p.is_on(),
            p.started() is None,
            p.calls() == Map::<Seq<char>, FunctionStats>::empty(),
            p.memory() == empty_memory_stats(),
            p.execution() == empty_execution_stats(),
    {
        WasmProfiler {
            enabled: false,
            start_time: None,
            function_calls: KeyedList::new(),
            memory_stats: MemoryStats::default(),
            execution_stats: ExecutionStats::default(),
        }
    }

    /// Turns recording on; the statistics are kept.
    pub fn enable(&mut self)
        requires
            old(self).wf(),
        ensures
            final(self).wf(),
            final(self).is_on(),
            final(self).started() == old(self).started(),
            final(self).calls() == old(self).calls(),
            final(self).memory() == old(self).memory(),
            final(self).execution() == old(self).execution(),
    {
        self.enabled = true;
    }

    /// Turns recording off; the statistics are kept.
    pub fn disable(&mut self)
        requires
            old(self).wf(),
        ensures
            final(self).wf(),
            !final(self).is_on(),
            final(self).started() == old(self).started(),
            final(self).calls() == old(self).calls(),
            final(self).memory() == old(self).memory(),
            final(self).execution() == old(self).execution(),
    {
        self.enabled = false;
    }

    /// Whether recording is on.
    pub fn is_enabled(&self) -> (b: bool)
        ensures
            b == self.is_on(),
    {
        self.enabled
    }

    /// When the current session started, in milliseconds on the system clock.
    pub fn start_time(&self) -> (t: Option<u64>)
        ensures
            t == self.started(),
    {
        self.start_time
    }

    /// The call statistics by function name.
    pub fn function_calls(&self) -> (c: &KeyedList<FunctionStats>)
        requires
            self.wf(),
        ensures
            c.wf(),
            c.map() == self.calls(),
            c.entries() == self.call_entries(),
    {
        &self.function_calls
    }

    /// The memory statistics.
    pub fn memory_stats(&self) -> (m: &MemoryStats)
        ensures
            *m == self.memory(),
    {
        &self.memory_stats
    }

    /// The execution phase statistics.
    pub fn execution_stats(&self) -> (e: &ExecutionStats)
        ensures
            *e == self.execution(),
    {
        &self.execution_stats
    }

    /// Starts a session at the current time, clearing the statistics; does
    /// nothing while disabled.
    pub fn start_profiling(&mut self)
        requires
            old(self).wf(),
        ensures
            final(self).wf(),
            final(self).is_on() == old(self).is_on(),
            old(self).is_on() ==> {
                &&& final(self).started() is Some
                &&& final(self).calls() == Map::<Seq<char>, FunctionStats>::empty()
                &&& final(self).memory() == empty_memory_stats()
                &&& final(self).execution() == empty_execution_stats()
            },
            !old(self).is_on() ==> *final(self) == *old(self),
    {
        if !self.enabled {
            return;
        }
        self.start_time = Some(system_now_millis());
        self.function_calls.clear();
        self.memory_stats = MemoryStats::default();
        self.execution_stats = ExecutionStats::default();
    }

    /// Counts a call of `function_name` that took `execution_time`
    /// nanoseconds; does nothing while disabled.
    pub fn record_function_call(&mut self, function_name: &str, execution_time: u128, success: bool)
        requires
            old(self).wf(),
            old(self).is_on() ==> call_recordable(
                if old(self).calls().contains_key(function_name@) {
                    old(self).calls()[function_name@]
                } else {
                    fresh_function_stats()
                },
                execution_time,
            ),
        ensures
            final(self).wf(),
            final(self).is_on() == old(self).is_on(),
            final(self).started() == old(self).started(),
            final(self).memory() == old(self).memory(),
            final(self).execution() == old(self).execution(),
            old(self).is_on() ==> final(self).calls() == old(self).calls().insert(
                function_name@,
                stats_after_call(
                    if old(self).calls().contains_key(function_name@) {
                        old(self).calls()[function_name@]
                    } else {
                        fresh_function_stats()
                    },
                    execution_time,
                    success,
                ),
            ),
            !old(self).is_on() ==> final(self).calls() == old(self).calls(),
    {
        if !self.enabled {
            return;
        }
        let s: FunctionStats = match self.function_calls.get(function_name) {
            Some(s) => *s,
            None => FunctionStats::default(),
        };
        let count: u64 = s.call_count + 1;
        let total: u128 = s.total_time + execution_time;
        let divisor: u32 = (count % 0x1_0000_0000u64) as u32;
        let updated = FunctionStats {
            call_count: count,
            total_time: total,
            avg_time: total / (divisor as u128),
            min_time: if execution_time < s.min_time { execution_time } else { s.min_time },
            max_time: if execution_time > s.max_time { execution_time } else { s.max_time },
            error_count: if success { s.error_count } else { s.error_count + 1 },
        };
        assert(updated == stats_after_call(s, execution_time, success));
        self.function_calls.insert(String::from_str(function_name), updated);
        assert forall|k: Seq<char>| #[trigger] self.function_calls.map().contains_key(k)
            implies self.function_calls.map()[k].error_count <= self.function_calls.map()[k].call_count by {
            if k != function_name@ {
                assert(old(self).function_calls.map().contains_key(k));
            }
        }
    }

    /// Takes a memory sample of `current_memory` bytes; does nothing while
    /// disabled.
    pub fn record_memory_usage(&mut self, current_memory: u64)
        requires
            old(self).wf(),
            old(self).is_on() ==> memory_recordable(old(self).memory(), current_memory),
        ensures
            final(self).wf(),
            final(self).is_on() == old(self).is_on(),
            final(self).started() == old(self).started(),
            final(self).calls() == old(self).calls(),
            final(self).execution() == old(self).execution(),
            final(self).memory() == if old(self).is_on() {
                memory_after_sample(old(self).memory(), current_memory)
            } else {
                old(self).memory()
            },
    {
        if !self.enabled {
            return;
        }
        let m = &self.memory_stats;
        let avg: u64 = if m.allocation_count > 0 {
            (m.avg_memory * m.allocation_count + current_memory) / (m.allocation_count + 1)
        } else {
            current_memory
        };
        let updated = MemoryStats {
            peak_memory: if current_memory > m.peak_memory { current_memory } else { m.peak_memory },
            current_memory,
            avg_memory: avg,
            allocation_count: m.allocation_count + 1,
            deallocation_count: m.deallocation_count,
        };
        self.memory_stats = updated;
    }

    /// Adds `duration` nanoseconds to `phase` and to the total; does nothing
    /// while disabled.
    pub fn record_execution_phase(&mut self, phase: ExecutionPhase, duration: u128)
        requires
            old(self).wf(),
            old(self).is_on() ==> phase_recordable(old(self).execution(), phase, duration),
        ensures
            final(self).wf(),
            final(self).is_on() == old(self).is_on(),
            final(self).started() == old(self).started(),
            final(self).calls() == old(self).calls(),
            final(self).memory() == old(self).memory(),
            final(self).execution() == if old(self).is_on() {
                execution_after_phase(old(self).execution(), phase, duration)
            } else {
                old(self).execution()
            },
    {
        if !self.enabled {
            return;
        }
        match phase {
            ExecutionPhase::Load => self.execution_stats.load_time = self.execution_stats.load_time + duration,
            ExecutionPhase::Init => self.execution_stats.init_time = self.execution_stats.init_time + duration,
            ExecutionPhase::Processing => {
                self.execution_stats.processing_time = self.execution_stats.processing_time + duration
            },
            ExecutionPhase::Cleanup => {
                self.execution_stats.cleanup_time = self.execution_stats.cleanup_time + duration
            },
        }
        self.execution_stats.total_time = self.execution_stats.total_time + duration;
    }

    /// Clears the statistics and the session start; the enabled flag stays.
    pub fn reset(&mut self)
        requires
            old(self).wf(),
        ensures
            final(self).wf(),
            final(self).is_on() == old(self).is_on(),
            final(self).started() is None,
            final(self).calls() == Map::<Seq<char>, FunctionStats>::empty(),
            final(self).memory() == empty_memory_stats(),
            final(self).execution() == empty_execution_stats(),
    {
        self.function_calls.clear();
        self.memory_stats = MemoryStats::default();
        self.execution_stats = ExecutionStats::default();
        self.start_time = None;
    }

    /// Whether a report can be summed up: the counts fit in 64 bits and,
    /// with calls, their number narrowed to 32 bits is not zero.
    pub open spec fn report_computable(self) -> bool {
        &&& sum_calls(self.call_entries()) <= u64::MAX
        &&& sum_errors(self.call_entries()) <= u64::MAX
        &&& sum_calls(self.call_entries()) > 0 ==> narrowed_count(sum_calls(self.call_entries())) != 0
    }

    /// The report of a session that lasted `duration_millis`.
    pub fn generate_report(&self, duration_millis: u64) -> (r: ReportBasis)
        requires
            self.wf(),
            self.report_computable(),
        ensures
            r.duration_millis == duration_millis,
            r.function_stats.wf(),
            r.function_stats.map() == self.calls(),
            r.memory_stats == self.memory(),
            r.execution_stats == self.execution(),
            r.total_calls == sum_calls(self.call_entries()),
            r.total_errors == sum_errors(self.call_entries()),
            r.avg_latency == if r.total_calls > 0 {
                self.execution().total_time as int / narrowed_count(r.total_calls as int)
            } else {
                0
            },
    {
        let n = self.function_calls.entry_count();
        let mut calls: u64 = 0;
        let mut errors: u64 = 0;
        let mut i: usize = 0;
        while i < n
            invariant
                self.wf(),
                self.report_computable(),
                n == self.call_entries().len(),
                i <= n,
                calls == sum_calls(self.call_entries().subrange(0, i as int)),
                errors == sum_errors(self.call_entries().subrange(0, i as int)),
            decreases n - i,
        {
            let (_name, s) = self.function_calls.entry_at(i);
            let ghost prefix = self.call_entries().subrange(0, i as int + 1);
            assert(prefix.drop_last() =~= self.call_entries().subrange(0, i as int));
            proof {
                lemma_sum_prefix_bounded(self.call_entries(), i as int + 1);
            }
            calls = calls + s.call_count;
            errors = errors + s.error_count;
            i = i + 1;
        }
        assert(self.call_entries().subrange(0, n as int) =~= self.call_entries());
        let avg_latency: u128 = if calls > 0 {
            let divisor: u32 = (calls % 0x1_0000_0000u64) as u32;
            self.execution_stats.total_time / (divisor as u128)
        } else {
            0
        };
        ReportBasis {
            duration_millis,
            function_stats: self.function_calls.clone_list(),
            memory_stats: MemoryStats { ..self.memory_stats },
            execution_stats: ExecutionStats { ..self.execution_stats },
            total_calls: calls,
            total_errors: errors,
            avg_latency,
        }
    }

    /// Ends the session at the current time and sums it up; `None` while
    /// disabled or when no session was started. The statistics are kept.
    pub fn stop_profiling(&self) -> (r: Option<ReportBasis>)
        requires
            self.wf(),
            self.report_computable(),
        ensures
            match r {
                None => !self.is_on() || self.started() is None,
                Some(b) => self.is_on() && self.started() is Some
                    && b.function_stats.map() == self.calls()
                    && b.memory_stats == self.memory()
                    && b.execution_stats == self.execution()
                    && b.total_calls == sum_calls(self.call_entries())
                    && b.total_errors == sum_errors(self.call_entries()),
            },
    {
        if !self.enabled {
            return None;
        }
        match self.start_time {
            None => None,
            Some(start) => {
                let now = system_now_millis();
                let elapsed: u64 = if now > start { now - start } else { 0 };
                Some(self.generate_report(elapsed))
            },
        }
    }
}

/// A prefix of a list sums to no more calls and errors than the whole list.
pub proof fn lemma_sum_prefix_bounded(s: Seq<(String, FunctionStats)>, k: int)
    requires
        0 <= k <= s.len(),
    ensures
        sum_calls(s.subrange(0, k)) <= sum_calls(s),
        sum_errors(s.subrange(0, k)) <= sum_errors(s),
    decreases s.len(),
{
    if k < s.len() {
        assert(s.subrange(0, k) =~= s.drop_last().subrange(0, k));
        lemma_sum_prefix_bounded(s.drop_last(), k);
    } else {
        assert(s.subrange(0, k) =~= s);
    }
}

} // verus!
