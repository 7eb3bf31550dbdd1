use iai::report::{parse_cachegrind_output, ParseError};
use iai::stats::CachegrindStats;

fn expected() -> CachegrindStats {
    CachegrindStats {
        instruction_reads: 1000,
        instruction_l1_misses: 10,
        instruction_cache_misses: 1,
        data_reads: 500,
        data_l1_read_misses: 20,
        data_cache_read_misses: 2,
        data_writes: 300,
        data_l1_write_misses: 15,
        data_cache_write_misses: 1,
    }
}

#[test]
fn parses_a_report() {
    let text = "desc: I1 cache: 32768 B, 64 B, 8-way associative\n\
                cmd: target/bench --iai-run 0\n\
                events: Ir I1mr ILmr Dr D1mr DLmr Dw D1mw DLmw\n\
                fl=foo.rs\n\
                fn=main\n\
                3 1 0 0 0 0 0 0 0 0\n\
                summary: 1000 10 1 500 20 2 300 15 1\n";
    assert_eq!(parse_cachegrind_output(text), Ok(expected()));
}

#[test]
fn counters_are_found_by_name() {
    let text = "summary: 15 1 300 2 20 500 1 10 1000\nevents: D1mw DLmw Dw DLmr D1mr Dr ILmr I1mr Ir\n";
    assert_eq!(parse_cachegrind_output(text), Ok(expected()));
}

#[test]
fn missing_summary_line_fails() {
    let text = "events: Ir I1mr ILmr Dr D1mr DLmr Dw D1mw DLmw\n";
    assert_eq!(parse_cachegrind_output(text), Err(ParseError::MissingEventsOrSummary));
    assert_eq!(
        parse_cachegrind_output("summary: 1 2 3 4 5 6 7 8 9\n"),
        Err(ParseError::MissingEventsOrSummary)
    );
    assert_eq!(parse_cachegrind_output(""), Err(ParseError::MissingEventsOrSummary));
    // the prefix needs its space
    assert_eq!(
        parse_cachegrind_output("events:Ir\nsummary: 1\n"),
        Err(ParseError::MissingEventsOrSummary)
    );
}

#[test]
fn non_numeric_value_fails() {
    let text = "events: Ir I1mr ILmr Dr D1mr DLmr Dw D1mw DLmw\nsummary: 1000 10 1 x 20 2 300 15 1\n";
    assert_eq!(parse_cachegrind_output(text), Err(ParseError::InvalidValue));
    let text = "events: Ir I1mr ILmr Dr D1mr DLmr Dw D1mw DLmw\nsummary: 1000 10 1 -5 20 2 300 15 1\n";
    assert_eq!(parse_cachegrind_output(text), Err(ParseError::InvalidValue));
    let text = "events: Ir I1mr ILmr Dr D1mr DLmr Dw D1mw DLmw\nsummary: 18446744073709551616 10 1 5 20 2 300 15 1\n";
    assert_eq!(parse_cachegrind_output(text), Err(ParseError::InvalidValue));
}

#[test]
fn missing_counter_fails() {
    let text = "events: Ir I1mr ILmr Dr D1mr DLmr Dw D1mw\nsummary: 1000 10 1 500 20 2 300 15\n";
    assert_eq!(parse_cachegrind_output(text), Err(ParseError::MissingCounter));
    // a name without a value is missing too
    let text = "events: Ir I1mr ILmr Dr D1mr DLmr Dw D1mw DLmw\nsummary: 1000 10 1 500 20 2 300 15\n";
    assert_eq!(parse_cachegrind_output(text), Err(ParseError::MissingCounter));
}

#[test]
fn last_lines_win_and_extra_values_are_ignored() {
    let text = "events: A B\nsummary: 1 2\nevents: Ir I1mr ILmr Dr D1mr DLmr Dw D1mw DLmw\n\
                summary: 9 9 9 9 9 9 9 9 9\nsummary: 1000 10 1 500 20 2 300 15 1 77 88\n";
    assert_eq!(parse_cachegrind_output(text), Ok(expected()));
}

#[test]
fn accepts_crlf_plus_signs_and_max_values() {
    let text = "events: Ir I1mr ILmr Dr D1mr DLmr Dw D1mw DLmw\r\n\
                summary:   +1000\t10 1 500 20 2 300 15 18446744073709551615  \r\n";
    let mut e = expected();
    e.data_cache_write_misses = u64::MAX;
    assert_eq!(parse_cachegrind_output(text), Ok(e));
}

#[test]
fn duplicate_names_take_the_later_value() {
    let text = "events: Ir Ir I1mr ILmr Dr D1mr DLmr Dw D1mw DLmw\nsummary: 5 1000 10 1 500 20 2 300 15 1\n";
    assert_eq!(parse_cachegrind_output(text), Ok(expected()));
}
