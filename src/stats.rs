//! The counter model: raw simulator counters, the cache-tier summary derived
//! from them, calibration subtraction, the cycle estimate and the noise-floor
//! decision used when comparing two runs.
use vstd::prelude::*;

verus! {

/// The nine raw counters reported by the cache simulator for one run.
#[derive(Clone, Copy, Debug, PartialEq, Eq, Structural)]
pub struct CachegrindStats {
    pub instruction_reads: u64,
    pub instruction_l1_misses: u64,
    pub instruction_cache_misses: u64,
    pub data_reads: u64,
    pub data_l1_read_misses: u64,
    pub data_cache_read_misses: u64,
    pub data_writes: u64,
    pub data_l1_write_misses: u64,
    pub data_cache_write_misses: u64,
}

/// Hit counts per cache tier, derived from a `CachegrindStats`.
#[derive(Clone, Copy, Debug, PartialEq, Eq, Structural)]
pub struct CachegrindSummary {
    pub l1_hits: u64,
    pub l3_hits: u64,
    pub ram_hits: u64,
}

/// How a metric moved between an old and a new run.
#[derive(Clone, Copy, Debug, PartialEq, Eq, Structural)]
pub enum Change {
    /// Equal, or the relative change is under the noise floor.
    NoChange,
    Increase,
    Decrease,
}

/// Relative changes under this many parts per million count as no change.
pub const NOISE_FLOOR_PPM: u64 = 1;

/// `a - b`, clamped at zero.
pub open spec fn sat_sub(a: u64, b: u64) -> u64 {
    if a >= b {
        (a - b) as u64
    } else {
        0
    }
}

/// True when the move from `old` to `new` is too small to report.
pub open spec fn is_noise(new: u64, old: u64) -> bool {
    new == old || (if new >= old {
        new - old
    } else {
        old - new
    }) * 1_000_000 < old * NOISE_FLOOR_PPM
}

/// What `percentage_change` reports for `new` against `old`.
pub open spec fn change_spec(new: u64, old: u64) -> Change {
    if is_noise(new, old) {
        Change::NoChange
    } else if new > old {
        Change::Increase
    } else {
        Change::Decrease
    }
}

impl CachegrindStats {
    /// References that reached main memory.
    pub open spec fn ram_spec(self) -> int {
        self.instruction_cache_misses + self.data_cache_read_misses
            + self.data_cache_write_misses
    }

    /// References that missed the first-level caches.
    pub open spec fn l3_accesses_spec(self) -> int {
        self.instruction_l1_misses + self.data_l1_read_misses + self.data_l1_write_misses
    }

    /// All memory references.
    pub open spec fn total_memory_rw_spec(self) -> int {
        self.instruction_reads + self.data_reads + self.data_writes
    }

    /// Counters whose tiers nest: every reference to RAM missed the first
    /// level, every first-level miss was a reference, and the total fits a `u64`.
    pub open spec fn valid(self) -> bool {
        &&& self.ram_spec() <= self.l3_accesses_spec()
        &&& self.l3_accesses_spec() <= self.total_memory_rw_spec()
        &&& self.total_memory_rw_spec() <= u64::MAX
    }

    /// The tier summary of valid counters.
    pub open spec fn summary_spec(self) -> CachegrindSummary
        recommends
            self.valid(),
    {
        CachegrindSummary {
            l1_hits: (self.total_memory_rw_spec() - self.l3_accesses_spec()) as u64,
            l3_hits: (self.l3_accesses_spec() - self.ram_spec()) as u64,
            ram_hits: self.ram_spec() as u64,
        }
    }

    /// Every counter of `self` less the matching counter of `calibration`,
    /// clamped at zero.
    pub open spec fn subtract_spec(self, calibration: CachegrindStats) -> CachegrindStats {
        CachegrindStats {
            instruction_reads: sat_sub(self.instruction_reads, calibration.instruction_reads),
            instruction_l1_misses: sat_sub(
                self.instruction_l1_misses,
                calibration.instruction_l1_misses,
            ),
            instruction_cache_misses: sat_sub(
                self.instruction_cache_misses,
                calibration.instruction_cache_misses,
            ),
            data_reads: sat_sub(self.data_reads, calibration.data_reads),
            data_l1_read_misses: sat_sub(
                self.data_l1_read_misses,
                calibration.data_l1_read_misses,
            ),
            data_cache_read_misses: sat_sub(
                self.data_cache_read_misses,
                calibration.data_cache_read_misses,
            ),
            data_writes: sat_sub(self.data_writes, calibration.data_writes),
            data_l1_write_misses: sat_sub(
                self.data_l1_write_misses,
                calibration.data_l1_write_misses,
            ),
            data_cache_write_misses: sat_sub(
                self.data_cache_write_misses,
                calibration.data_cache_write_misses,
            ),
        }
    }

    /// References that reached main memory: last-level misses of instruction
    /// reads, data reads and data writes.
    pub fn ram_accesses(&self) -> (r: u64)
        requires
            self.ram_spec() <= u64::MAX,
        ensures
            r == self.ram_spec(),
    {
        self.instruction_cache_misses + self.data_cache_read_misses + self.data_cache_write_misses
    }

    /// Whether the counters are `valid`, computed without overflow.
    pub fn is_valid(&self) -> (r: bool)
        ensures
            r == self.valid(),
    {
        let ram = self.instruction_cache_misses as u128 + self.data_cache_read_misses as u128
            + self.data_cache_write_misses as u128;
        let l3 = self.instruction_l1_misses as u128 + self.data_l1_read_misses as u128
            + self.data_l1_write_misses as u128;
        let total = self.instruction_reads as u128 + self.data_reads as u128
            + self.data_writes as u128;
        ram <= l3 && l3 <= total && total <= u64::MAX as u128
    }

    /// Splits all memory references into L1 hits, L2/L3 hits and RAM hits.
    pub fn summarize(&self) -> (r: CachegrindSummary)
        requires
            self.valid(),
        ensures
            r == self.summary_spec(),
            r.ram_hits == self.ram_spec(),
            r.l3_hits == self.l3_accesses_spec() - self.ram_spec(),
            r.l1_hits == self.total_memory_rw_spec() - (self.ram_spec() + r.l3_hits),
    {
        let ram_hits = self.ram_accesses();
        let l3_accesses = self.instruction_l1_misses + self.data_l1_read_misses
            + self.data_l1_write_misses;
        let l3_hits = l3_accesses - ram_hits;

        let total_memory_rw = self.instruction_reads + self.data_reads + self.data_writes;
        let l1_hits = total_memory_rw - (ram_hits + l3_hits);

        CachegrindSummary { l1_hits, l3_hits, ram_hits }
    }

    /// The summary of the counters, or `None` where they are not `valid`.
    pub fn try_summarize(&self) -> (r: Option<CachegrindSummary>)
        ensures
            r == (if self.valid() {
                Some(self.summary_spec())
            } else {
                None::<CachegrindSummary>
            }),
    {
        if self.is_valid() {
            Some(self.summarize())
        } else {
            None
        }
    }

    /// Removes the calibration overhead from every counter, clamping at zero.
    pub fn subtract(&self, calibration: &CachegrindStats) -> (r: CachegrindStats)
        ensures
            r == self.subtract_spec(*calibration),
    {
        CachegrindStats {
            instruction_reads: self.instruction_reads.saturating_sub(calibration.instruction_reads),
            instruction_l1_misses: self.instruction_l1_misses.saturating_sub(
                calibration.instruction_l1_misses,
            ),
            instruction_cache_misses: self.instruction_cache_misses.saturating_sub(
                calibration.instruction_cache_misses,
            ),
            data_reads: self.data_reads.saturating_sub(calibration.data_reads),
            data_l1_read_misses: self.data_l1_read_misses.saturating_sub(
                calibration.data_l1_read_misses,
            ),
            data_cache_read_misses: self.data_cache_read_misses.saturating_sub(
                calibration.data_cache_read_misses,
            ),
            data_writes: self.data_writes.saturating_sub(calibration.data_writes),
            data_l1_write_misses: self.data_l1_write_misses.saturating_sub(
                calibration.data_l1_write_misses,
            ),
            data_cache_write_misses: self.data_cache_write_misses.saturating_sub(
                calibration.data_cache_write_misses,
            ),
        }
    }
}

impl CachegrindSummary {
    /// The weighted cycle estimate: 1 per L1 hit, 5 per L2/L3 hit, 35 per RAM hit.
    pub open spec fn cycles_spec(self) -> int {
        self.l1_hits + 5 * self.l3_hits + 35 * self.ram_hits
    }

    /// The cycle estimate of the summary.
    pub fn cycles(&self) -> (r: u64)
        requires
            self.cycles_spec() <= u64::MAX,
        ensures
            r == self.cycles_spec(),
    {
        self.l1_hits + (5 * self.l3_hits) + (35 * self.ram_hits)
    }

    /// The cycle estimate, or `None` where it does not fit a `u64`.
    pub fn try_cycles(&self) -> (r: Option<u64>)
        ensures
            r == (if self.cycles_spec() <= u64::MAX {
                Some(self.cycles_spec() as u64)
            } else {
                None::<u64>
            }),
    {
        let c = self.l1_hits as u128 + 5 * (self.l3_hits as u128) + 35 * (self.ram_hits as u128);
        if c <= u64::MAX as u128 {
            Some(self.cycles())
        } else {
            None
        }
    }
}

/// Compares a new value of a metric with its old value, treating a relative
/// change under the noise floor as no change.
pub fn percentage_change(new: u64, old: u64) -> (r: Change)
    ensures
        r == change_spec(new, old),
        new == old ==> r == Change::NoChange,
{
    if new == old {
        return Change::NoChange;
    }
    let diff: u128 = if new >= old {
        (new - old) as u128
    } else {
        (old - new) as u128
    };
    if diff * 1_000_000 < (old as u128) * (NOISE_FLOOR_PPM as u128) {
        Change::NoChange
    } else if new > old {
        Change::Increase
    } else {
        Change::Decrease
    }
}

/// A benchmark's counters with the calibration overhead removed, and the
/// previous run's counters with the previous calibration removed, where both
/// were kept.
pub fn normalize(
    stats: &CachegrindStats,
    old_stats: Option<CachegrindStats>,
    calibration: &CachegrindStats,
    old_calibration: Option<CachegrindStats>,
) -> (r: (CachegrindStats, Option<CachegrindStats>))
    ensures
        r.0 == stats.subtract_spec(*calibration),
        r.1 == (match (old_stats, old_calibration) {
            (Some(o), Some(c)) => Some(o.subtract_spec(c)),
            _ => None::<CachegrindStats>,
        }),
{
    let new = stats.subtract(calibration);
    let old = match (old_stats, old_calibration) {
        (Some(o), Some(c)) => Some(o.subtract(&c)),
        _ => None,
    };
    (new, old)
}

/// Subtraction saturates: each counter of the result is the difference of
/// the two counters where the first is at least the second, and zero otherwise.
pub proof fn lemma_subtract_saturates(a: CachegrindStats, b: CachegrindStats)
    ensures
        a.instruction_reads >= b.instruction_reads ==> a.subtract_spec(b).instruction_reads
            == a.instruction_reads - b.instruction_reads,
        a.instruction_reads < b.instruction_reads ==> a.subtract_spec(b).instruction_reads == 0,
        a.instruction_l1_misses >= b.instruction_l1_misses ==> a.subtract_spec(
            b,
        ).instruction_l1_misses == a.instruction_l1_misses - b.instruction_l1_misses,
        a.instruction_l1_misses < b.instruction_l1_misses ==> a.subtract_spec(
            b,
        ).instruction_l1_misses == 0,
        a.instruction_cache_misses >= b.instruction_cache_misses ==> a.subtract_spec(
            b,
        ).instruction_cache_misses == a.instruction_cache_misses - b.instruction_cache_misses,
        a.instruction_cache_misses < b.instruction_cache_misses ==> a.subtract_spec(
            b,
        ).instruction_cache_misses == 0,
        a.data_reads >= b.data_reads ==> a.subtract_spec(b).data_reads == a.data_reads
            - b.data_reads,
        a.data_reads < b.data_reads ==> a.subtract_spec(b).data_reads == 0,
        a.data_l1_read_misses >= b.data_l1_read_misses ==> a.subtract_spec(
            b,
        ).data_l1_read_misses == a.data_l1_read_misses - b.data_l1_read_misses,
        a.data_l1_read_misses < b.data_l1_read_misses ==> a.subtract_spec(b).data_l1_read_misses
            == 0,
        a.data_cache_read_misses >= b.data_cache_read_misses ==> a.subtract_spec(
            b,
        ).data_cache_read_misses == a.data_cache_read_misses - b.data_cache_read_misses,
        a.data_cache_read_misses < b.data_cache_read_misses ==> a.subtract_spec(
            b,
        ).data_cache_read_misses == 0,
        a.data_writes >= b.data_writes ==> a.subtract_spec(b).data_writes == a.data_writes
            - b.data_writes,
        a.data_writes < b.data_writes ==> a.subtract_spec(b).data_writes == 0,
        a.data_l1_write_misses >= b.data_l1_write_misses ==> a.subtract_spec(
            b,
        ).data_l1_write_misses == a.data_l1_write_misses - b.data_l1_write_misses,
        a.data_l1_write_misses < b.data_l1_write_misses ==> a.subtract_spec(
            b,
        ).data_l1_write_misses == 0,
        a.data_cache_write_misses >= b.data_cache_write_misses ==> a.subtract_spec(
            b,
        ).data_cache_write_misses == a.data_cache_write_misses - b.data_cache_write_misses,
        a.data_cache_write_misses < b.data_cache_write_misses ==> a.subtract_spec(
            b,
        ).data_cache_write_misses == 0,
{
}

/// The summary depends on the counters alone: equal counters give equal
/// summaries.
pub proof fn lemma_summary_deterministic(a: CachegrindStats, b: CachegrindStats)
    requires
        a.valid(),
        a == b,
    ensures
        a.summary_spec() == b.summary_spec(),
{
}

/// The three tiers account for every memory reference exactly once.
pub proof fn lemma_summary_conserves_references(s: CachegrindStats)
    requires
        s.valid(),
    ensures
        s.summary_spec().l1_hits + s.summary_spec().l3_hits + s.summary_spec().ram_hits
            == s.total_memory_rw_spec(),
{
}

/// The cycle estimate never decreases when any tier's hit count grows, and
/// each extra hit adds its tier's weight: 1, 5 or 35.
pub proof fn lemma_cycles_monotonic(a: CachegrindSummary, b: CachegrindSummary)
    requires
        a.l1_hits <= b.l1_hits,
        a.l3_hits <= b.l3_hits,
        a.ram_hits <= b.ram_hits,
    ensures
        a.cycles_spec() <= b.cycles_spec(),
        b.cycles_spec() - a.cycles_spec() == (b.l1_hits - a.l1_hits) + 5 * (b.l3_hits
            - a.l3_hits) + 35 * (b.ram_hits - a.ram_hits),
{
}

/// A metric compared with itself never reports a change.
pub proof fn lemma_no_change_on_equal(x: u64)
    ensures
        change_spec(x, x) == Change::NoChange,
{
}

/// A run whose calibrated counters equal those of the previous run reports no
/// change on any of its five metrics: instructions, the three tiers and the
/// cycle estimate.
pub proof fn lemma_identical_runs_no_change(
    stats: CachegrindStats,
    old_stats: CachegrindStats,
    calibration: CachegrindStats,
    old_calibration: CachegrindStats,
)
    requires
        stats.subtract_spec(calibration) == old_stats.subtract_spec(old_calibration),
    ensures
        ({
            let n = stats.subtract_spec(calibration);
            let o = old_stats.subtract_spec(old_calibration);
            &&& change_spec(n.instruction_reads, o.instruction_reads) == Change::NoChange
            &&& change_spec(n.summary_spec().l1_hits, o.summary_spec().l1_hits) == Change::NoChange
            &&& change_spec(n.summary_spec().l3_hits, o.summary_spec().l3_hits) == Change::NoChange
            &&& change_spec(n.summary_spec().ram_hits, o.summary_spec().ram_hits)
                == Change::NoChange
            &&& change_spec(
                n.summary_spec().cycles_spec() as u64,
                o.summary_spec().cycles_spec() as u64,
            ) == Change::NoChange
        }),
{
}

} // verus!
