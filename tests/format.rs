use iai::format::{metric_line, ran_event, run_event, stats_json, Metric};
use iai::stats::CachegrindStats;

fn sample() -> CachegrindStats {
    CachegrindStats {
        instruction_reads: 1000,
        instruction_l1_misses: 10,
        instruction_cache_misses: 1,
        data_reads: 500,
        data_l1_read_misses: 20,
        data_cache_read_misses: 2,
        data_writes: 300,
        data_l1_write_misses: 15,
        data_cache_write_misses: 1,
    }
}

#[test]
fn metric_lines_are_aligned() {
    assert_eq!(metric_line(Metric::Instructions, 1000, ""), format!("  Instructions:     {:>15}", 1000));
    assert_eq!(
        metric_line(Metric::EstimatedCycles, 2100, " (No change)"),
        "  Estimated Cycles:            2100 (No change)"
    );
    assert_eq!(metric_line(Metric::RamAccesses, 0, ""), format!("  RAM Accesses:     {:>15}", 0));
    assert_eq!(
        metric_line(Metric::L1Accesses, u64::MAX, ""),
        format!("  L1 Accesses:      {}", u64::MAX)
    );
    assert_eq!(metric_line(Metric::L2Accesses, 41, ""), format!("  L2 Accesses:      {:>15}", 41));
}

#[test]
fn stats_as_json() {
    let expected = r#"{"instruction_reads":1000,"instruction_l1_misses":10,"instruction_cache_misses":1,"data_reads":500,"data_l1_read_misses":20,"data_cache_read_misses":2,"data_writes":300,"data_l1_write_misses":15,"data_cache_write_misses":1,"cycles":2100"#;
    assert_eq!(stats_json(&sample(), None), format!("{expected}}}"));
    assert_eq!(
        stats_json(&sample(), Some("0.700μs")),
        format!("{expected},\"time_passed\":\"0.700μs\"}}")
    );
}

#[test]
fn events_as_json() {
    assert_eq!(run_event("fib"), r#"{"event":"run","benchmark":"fib"}"#);
    assert_eq!(ran_event("fib", "{}", None), r#"{"event":"ran","benchmark":"fib","stats":{}}"#);
    assert_eq!(
        ran_event("fib", "{}", Some("{\"a\":1}")),
        r#"{"event":"ran","benchmark":"fib","stats":{},"old_stats":{"a":1}}"#
    );
}
