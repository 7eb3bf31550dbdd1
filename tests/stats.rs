use iai::stats::{normalize, percentage_change, CachegrindStats, CachegrindSummary, Change};

fn counters(v: [u64; 9]) -> CachegrindStats {
    CachegrindStats {
        instruction_reads: v[0],
        instruction_l1_misses: v[1],
        instruction_cache_misses: v[2],
        data_reads: v[3],
        data_l1_read_misses: v[4],
        data_cache_read_misses: v[5],
        data_writes: v[6],
        data_l1_write_misses: v[7],
        data_cache_write_misses: v[8],
    }
}

fn sample() -> CachegrindStats {
    counters([1000, 10, 1, 500, 20, 2, 300, 15, 1])
}

#[test]
fn zero_calibration_summary_and_cycles() {
    let calibration = counters([0; 9]);
    let stats = sample().subtract(&calibration);
    assert_eq!(stats, sample());
    assert_eq!(stats.ram_accesses(), 4);
    let summary = stats.summarize();
    assert_eq!(summary.ram_hits, 4);
    assert_eq!(summary.l3_hits, 41);
    assert_eq!(summary.l1_hits, 1755);
    assert_eq!(summary.cycles(), 2100);
}

#[test]
fn subtract_saturates_at_zero() {
    let a = counters([10, 5, 0, 7, 3, 1, 9, 2, 0]);
    let b = counters([4, 6, 0, 7, 1, 2, 10, 0, 1]);
    let r = a.subtract(&b);
    assert_eq!(r, counters([6, 0, 0, 0, 2, 0, 0, 2, 0]));
    let max = counters([u64::MAX; 9]);
    assert_eq!(counters([0; 9]).subtract(&max), counters([0; 9]));
    assert_eq!(max.subtract(&counters([0; 9])), max);
}

#[test]
fn summarize_is_deterministic() {
    let a = sample();
    let b = sample();
    assert_eq!(a.summarize(), b.summarize());
    assert_eq!(a.summarize(), a.summarize());
}

#[test]
fn summary_conserves_references() {
    let s = counters([7000, 120, 30, 2500, 400, 60, 900, 80, 10]);
    let summary = s.summarize();
    assert_eq!(summary.l1_hits + summary.l3_hits + summary.ram_hits, 7000 + 2500 + 900);
}

#[test]
fn cycles_weights_and_monotonicity() {
    let base = CachegrindSummary { l1_hits: 10, l3_hits: 3, ram_hits: 2 };
    assert_eq!(base.cycles(), 10 + 15 + 70);
    let more_l1 = CachegrindSummary { l1_hits: 11, ..base };
    let more_l3 = CachegrindSummary { l3_hits: 4, ..base };
    let more_ram = CachegrindSummary { ram_hits: 3, ..base };
    assert_eq!(more_l1.cycles() - base.cycles(), 1);
    assert_eq!(more_l3.cycles() - base.cycles(), 5);
    assert_eq!(more_ram.cycles() - base.cycles(), 35);
    let huge = CachegrindSummary { l1_hits: u64::MAX, l3_hits: 1, ram_hits: 0 };
    assert_eq!(huge.try_cycles(), None);
    assert_eq!(base.try_cycles(), Some(95));
}

#[test]
fn invalid_counters_have_no_summary() {
    // more last-level misses than first-level misses
    let s = counters([100, 1, 5, 0, 0, 0, 0, 0, 0]);
    assert!(!s.is_valid());
    assert_eq!(s.try_summarize(), None);
    assert!(sample().is_valid());
    assert_eq!(sample().try_summarize(), Some(sample().summarize()));
}

#[test]
fn equal_values_report_no_change() {
    for x in [0u64, 1, 42, 1_000_000, u64::MAX] {
        assert_eq!(percentage_change(x, x), Change::NoChange);
    }
}

#[test]
fn noise_floor_and_direction() {
    assert_eq!(percentage_change(2_000_001, 2_000_000), Change::NoChange);
    assert_eq!(percentage_change(1_000_001, 1_000_000), Change::Increase);
    assert_eq!(percentage_change(1_999_999, 2_000_000), Change::NoChange);
    assert_eq!(percentage_change(90, 100), Change::Decrease);
    assert_eq!(percentage_change(110, 100), Change::Increase);
    assert_eq!(percentage_change(5, 0), Change::Increase);
}

#[test]
fn identical_old_run_reports_no_change_anywhere() {
    let calibration = counters([100, 1, 0, 50, 2, 0, 30, 1, 0]);
    let raw = counters([1100, 11, 1, 550, 22, 2, 330, 16, 1]);
    let (new, old) = normalize(&raw, Some(raw), &calibration, Some(calibration));
    let old = old.unwrap();
    assert_eq!(new, old);
    let (a, b) = (new.summarize(), old.summarize());
    assert_eq!(percentage_change(new.instruction_reads, old.instruction_reads), Change::NoChange);
    assert_eq!(percentage_change(a.l1_hits, b.l1_hits), Change::NoChange);
    assert_eq!(percentage_change(a.l3_hits, b.l3_hits), Change::NoChange);
    assert_eq!(percentage_change(a.ram_hits, b.ram_hits), Change::NoChange);
    assert_eq!(percentage_change(a.cycles(), b.cycles()), Change::NoChange);
}

#[test]
fn old_run_needs_both_counters_and_calibration() {
    let calibration = counters([1; 9]);
    let raw = counters([5; 9]);
    let (new, old) = normalize(&raw, Some(raw), &calibration, None);
    assert_eq!(new, counters([4; 9]));
    assert_eq!(old, None);
    let (_, old) = normalize(&raw, None, &calibration, Some(calibration));
    assert_eq!(old, None);
}

#[test]
fn black_box_returns_its_argument() {
    assert_eq!(iai::black_box(17u32), 17);
    assert_eq!(iai::black_box(String::from("x")), "x");
}
