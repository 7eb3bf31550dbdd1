//! Rendering of results: the aligned lines of the human-readable report and
//! the line-delimited JSON events.
use crate::stats::CachegrindStats;
use crate::text::{decimal, push_decimal, string_of};
use vstd::prelude::*;

verus! {

/// One line of the human-readable report of a benchmark.
#[derive(Clone, Copy, Debug, PartialEq, Eq, Structural)]
pub enum Metric {
    Instructions,
    L1Accesses,
    L2Accesses,
    RamAccesses,
    EstimatedCycles,
}

/// The label that starts a metric's line, padded to a common width.
pub open spec fn label_spec(m: Metric) -> Seq<char> {
    match m {
        Metric::Instructions => "  Instructions:     "@,
        Metric::L1Accesses => "  L1 Accesses:      "@,
        Metric::L2Accesses => "  L2 Accesses:      "@,
        Metric::RamAccesses => "  RAM Accesses:     "@,
        Metric::EstimatedCycles => "  Estimated Cycles: "@,
    }
}

/// The width in which values are right-aligned.
pub const VALUE_WIDTH: usize = 15;

/// `n` spaces.
pub open spec fn spaces(n: nat) -> Seq<char> {
    Seq::new(n, |i: int| ' ')
}

/// `v` in decimal, right-aligned in `VALUE_WIDTH` columns.
pub open spec fn aligned(v: u64) -> Seq<char> {
    let d = decimal(v as nat);
    if d.len() < VALUE_WIDTH {
        spaces((VALUE_WIDTH - d.len()) as nat) + d
    } else {
        d
    }
}

/// A metric's line: label, aligned value, then `suffix` (the change against
/// the previous run and the time estimate, where there are any).
pub open spec fn metric_line_spec(m: Metric, v: u64, suffix: Seq<char>) -> Seq<char> {
    label_spec(m) + aligned(v) + suffix
}

/// The JSON object of a run's counters and cycle estimate, with the time
/// estimate where one is given.
pub open spec fn stats_json_spec(s: CachegrindStats, time: Option<Seq<char>>) -> Seq<char> {
    "{\"instruction_reads\":"@ + decimal(s.instruction_reads as nat)
        + ",\"instruction_l1_misses\":"@ + decimal(s.instruction_l1_misses as nat)
        + ",\"instruction_cache_misses\":"@ + decimal(s.instruction_cache_misses as nat)
        + ",\"data_reads\":"@ + decimal(s.data_reads as nat)
        + ",\"data_l1_read_misses\":"@ + decimal(s.data_l1_read_misses as nat)
        + ",\"data_cache_read_misses\":"@ + decimal(s.data_cache_read_misses as nat)
        + ",\"data_writes\":"@ + decimal(s.data_writes as nat)
        + ",\"data_l1_write_misses\":"@ + decimal(s.data_l1_write_misses as nat)
        + ",\"data_cache_write_misses\":"@ + decimal(s.data_cache_write_misses as nat)
        + ",\"cycles\":"@ + decimal(s.summary_spec().cycles_spec() as nat) + match time {
        Some(t) => ",\"time_passed\":\""@ + t + "\"}"@,
        None => "}"@,
    }
}

/// The event printed before a benchmark runs.
pub open spec fn run_event_spec(name: Seq<char>) -> Seq<char> {
    "{\"event\":\"run\",\"benchmark\":\""@ + name + "\"}"@
}

/// The event printed after a benchmark ran, with its stats object and the
/// previous run's where there is one.
pub open spec fn ran_event_spec(name: Seq<char>, stats: Seq<char>, old: Option<Seq<char>>) -> Seq<
    char,
> {
    "{\"event\":\"ran\",\"benchmark\":\""@ + name + "\",\"stats\":"@ + stats + match old {
        Some(o) => ",\"old_stats\":"@ + o + "}"@,
        None => "}"@,
    }
}

fn append_decimal(out: &mut String, n: u64)
    ensures
        final(out)@ == old(out)@ + decimal(n as nat),
{
    let mut digits: Vec<char> = Vec::new();
    push_decimal(n, &mut digits);
    assert(digits@ =~= decimal(n as nat));
    let d = string_of(&digits);
    out.append(d.as_str());
}

/// The label of a metric's line.
pub fn label(m: Metric) -> (r: &'static str)
    ensures
        r@ == label_spec(m),
{
    match m {
        Metric::Instructions => "  Instructions:     ",
        Metric::L1Accesses => "  L1 Accesses:      ",
        Metric::L2Accesses => "  L2 Accesses:      ",
        Metric::RamAccesses => "  RAM Accesses:     ",
        Metric::EstimatedCycles => "  Estimated Cycles: ",
    }
}

/// A metric's line of the human-readable report.
pub fn metric_line(m: Metric, v: u64, suffix: &str) -> (r: String)
    ensures
        r@ == metric_line_spec(m, v, suffix@),
{
    let mut digits: Vec<char> = Vec::new();
    push_decimal(v, &mut digits);
    assert(digits@ =~= decimal(v as nat));
    let mut line: Vec<char> = Vec::new();
    if digits.len() < VALUE_WIDTH {
        let pad = VALUE_WIDTH - digits.len();
        let mut k: usize = 0;
        while k < pad
            invariant
                k <= pad,
                line@ == spaces(k as nat),
            decreases pad - k,
        {
            line.push(' ');
            assert(line@ =~= spaces((k + 1) as nat));
            k = k + 1;
        }
    }
    let mut j: usize = 0;
    let ghost pad_part = line@;
    while j < digits.len()
        invariant
            j <= digits@.len(),
            line@ == pad_part + digits@.take(j as int),
        decreases digits@.len() - j,
    {
        line.push(digits[j]);
        assert(line@ =~= pad_part + digits@.take(j + 1));
        j = j + 1;
    }
    assert(digits@.take(j as int) =~= digits@);
    assert(line@ =~= aligned(v));
    let mut out = label(m).to_owned();
    out.append(string_of(&line).as_str());
    out.append(suffix);
    assert(out@ =~= metric_line_spec(m, v, suffix@));
    out
}

/// The JSON object of `s`, with the time estimate `time` (already rendered)
/// where there is one.
pub fn stats_json(s: &CachegrindStats, time: Option<&str>) -> (r: String)
    requires
        s.valid(),
        s.summary_spec().cycles_spec() <= u64::MAX,
    ensures
        r@ == stats_json_spec(*s, match time {
            Some(t) => Some(t@),
            None => None,
        }),
{
    let mut out = String::new();
    out.append("{\"instruction_reads\":");
    append_decimal(&mut out, s.instruction_reads);
    out.append(",\"instruction_l1_misses\":");
    append_decimal(&mut out, s.instruction_l1_misses);
    out.append(",\"instruction_cache_misses\":");
    append_decimal(&mut out, s.instruction_cache_misses);
    out.append(",\"data_reads\":");
    append_decimal(&mut out, s.data_reads);
    out.append(",\"data_l1_read_misses\":");
    append_decimal(&mut out, s.data_l1_read_misses);
    out.append(",\"data_cache_read_misses\":");
    append_decimal(&mut out, s.data_cache_read_misses);
    out.append(",\"data_writes\":");
    append_decimal(&mut out, s.data_writes);
    out.append(",\"data_l1_write_misses\":");
    append_decimal(&mut out, s.data_l1_write_misses);
    out.append(",\"data_cache_write_misses\":");
    append_decimal(&mut out, s.data_cache_write_misses);
    out.append(",\"cycles\":");
    let cycles = s.summarize().cycles();
    append_decimal(&mut out, cycles);
    match time {
        Some(t) => {
            out.append(",\"time_passed\":\"");
            out.append(t);
            out.append("\"}");
        },
        None => {
            out.append("}");
        },
    }
    assert(out@ =~= stats_json_spec(*s, match time {
        Some(t) => Some(t@),
        None => None,
    }));
    out
}

/// The event printed before benchmark `name` runs.
pub fn run_event(name: &str) -> (r: String)
    ensures
        r@ == run_event_spec(name@),
{
    let mut out = "{\"event\":\"run\",\"benchmark\":\"".to_owned();
    out.append(name);
    out.append("\"}");
    out
}

/// The event printed after benchmark `name` ran.
pub fn ran_event(name: &str, stats: &str, old: Option<&str>) -> (r: String)
    ensures
        r@ == ran_event_spec(name@, stats@, match old {
            Some(o) => Some(o@),
            None => None,
        }),
{
    let mut out = "{\"event\":\"ran\",\"benchmark\":\"".to_owned();
    out.append(name);
    out.append("\",\"stats\":");
    out.append(stats);
    match old {
        Some(o) => {
            out.append(",\"old_stats\":");
            out.append(o);
            out.append("}");
        },
        None => {
            out.append("}");
        },
    }
    assert(out@ =~= ran_event_spec(name@, stats@, match old {
        Some(o) => Some(o@),
        None => None,
    }));
    out
}

} // verus!
