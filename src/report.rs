//! The simulator's counter report: an `events:` line naming the counters and
//! a `summary:` line holding their totals, paired by position.
use crate::stats::CachegrindStats;
use crate::text::{
    chars_eq, decimal, has_prefix, is_digit, is_token, is_u64_text, is_ws, join_words, last_tail,
    lemma_decimal_digits, lemma_join_has_no_newline, lemma_pieces_append, lemma_words_of_join,
    unsigned_digits, opt_view, parse_u64, pieces, split_words, tail_after,
    to_chars, u64_of, views, words,
};
use vstd::prelude::*;

verus! {

/// Why a counter report could not be read.
#[derive(Clone, Copy, Debug, PartialEq, Eq, Structural)]
pub enum ParseError {
    /// No line starts with `events: `, or none starts with `summary: `.
    MissingEventsOrSummary,
    /// A value of the `summary:` line is not a non-negative 64-bit integer.
    InvalidValue,
    /// One of the nine counters is not named by the `events:` line.
    MissingCounter,
}

pub open spec fn events_prefix() -> Seq<char> {
    seq!['e', 'v', 'e', 'n', 't', 's', ':', ' ']
}

pub open spec fn summary_prefix() -> Seq<char> {
    seq!['s', 'u', 'm', 'm', 'a', 'r', 'y', ':', ' ']
}

/// Keeps `tail` where it is `Some`, else `current`.
fn latest(current: Option<Vec<char>>, tail: Option<Vec<char>>) -> (r: Option<Vec<char>>)
    ensures
        opt_view(r) == (if tail is Some {
            opt_view(tail)
        } else {
            opt_view(current)
        }),
{
    match tail {
        Some(t) => Some(t),
        None => current,
    }
}

/// For the `events: ` and the `summary: ` prefix, what follows it on the
/// last line of `text` that starts with it.
fn find_report_lines(text: &Vec<char>) -> (r: (Option<Vec<char>>, Option<Vec<char>>))
    ensures
        opt_view(r.0) == last_tail(pieces(text@, '\n'), events_prefix()),
        opt_view(r.1) == last_tail(pieces(text@, '\n'), summary_prefix()),
{
    let ep: Vec<char> = vec!['e', 'v', 'e', 'n', 't', 's', ':', ' '];
    let sp: Vec<char> = vec!['s', 'u', 'm', 'm', 'a', 'r', 'y', ':', ' '];
    assert(ep@ =~= events_prefix());
    assert(sp@ =~= summary_prefix());
    let mut events: Option<Vec<char>> = None;
    let mut summary: Option<Vec<char>> = None;
    let mut cur: Vec<char> = Vec::new();
    let ghost mut done: Seq<Seq<char>> = Seq::empty();
    let n = text.len();
    let mut i: usize = 0;
    assert(pieces(text@.take(0), '\n') =~= done.push(cur@));
    while i < n
        invariant
            n == text@.len(),
            i <= n,
            ep@ == events_prefix(),
            sp@ == summary_prefix(),
            pieces(text@.take(i as int), '\n') == done.push(cur@),
            opt_view(events) == last_tail(done, events_prefix()),
            opt_view(summary) == last_tail(done, summary_prefix()),
        decreases n - i,
    {
        let c = text[i];
        assert(text@.take(i + 1).drop_last() =~= text@.take(i as int));
        assert(text@.take(i + 1).last() == c);
        if c == '\n' {
            events = latest(events, tail_after(&cur, &ep));
            summary = latest(summary, tail_after(&cur, &sp));
            proof {
                let lines = done.push(cur@);
                assert(lines.drop_last() =~= done);
                done = lines;
            }
            cur = Vec::new();
        } else {
            let ghost old_cur = cur@;
            cur.push(c);
            assert(done.push(cur@) =~= done.push(old_cur).update(done.len() as int, old_cur.push(c)));
        }
        i = i + 1;
    }
    events = latest(events, tail_after(&cur, &ep));
    summary = latest(summary, tail_after(&cur, &sp));
    assert(text@.take(n as int) =~= text@);
    assert(done.push(cur@).drop_last() =~= done);
    (events, summary)
}

/// The counter names of the `events:` line, one per field of
/// `CachegrindStats`.
pub open spec fn counter_name(field: int) -> Seq<char> {
    if field == 0 {
        seq!['I', 'r']
    } else if field == 1 {
        seq!['I', '1', 'm', 'r']
    } else if field == 2 {
        seq!['I', 'L', 'm', 'r']
    } else if field == 3 {
        seq!['D', 'r']
    } else if field == 4 {
        seq!['D', '1', 'm', 'r']
    } else if field == 5 {
        seq!['D', 'L', 'm', 'r']
    } else if field == 6 {
        seq!['D', 'w']
    } else if field == 7 {
        seq!['D', '1', 'm', 'w']
    } else {
        seq!['D', 'L', 'm', 'w']
    }
}

/// The value paired with `key` at the last of the first `k` positions that
/// names it.
pub open spec fn lookup_at(names: Seq<Seq<char>>, vals: Seq<u64>, key: Seq<char>, k: nat) -> Option<
    u64,
>
    decreases k,
{
    if k == 0 {
        None
    } else if names[k - 1] == key {
        Some(vals[k - 1])
    } else {
        lookup_at(names, vals, key, (k - 1) as nat)
    }
}

/// The value of counter `key`: names and values are paired by position, the
/// extra items of the longer sequence are ignored, and a later pair wins.
pub open spec fn counter(names: Seq<Seq<char>>, vals: Seq<u64>, key: Seq<char>) -> Option<u64> {
    lookup_at(
        names,
        vals,
        key,
        if names.len() <= vals.len() {
            names.len()
        } else {
            vals.len()
        },
    )
}

/// The counters named by `names` with values `vals`, or `MissingCounter`.
pub open spec fn stats_from(names: Seq<Seq<char>>, vals: Seq<u64>) -> Result<
    CachegrindStats,
    ParseError,
> {
    if forall|f: int| 0 <= f < 9 ==> (#[trigger] counter(names, vals, counter_name(f))) is Some {
        Ok(
            CachegrindStats {
                instruction_reads: counter(names, vals, counter_name(0))->0,
                instruction_l1_misses: counter(names, vals, counter_name(1))->0,
                instruction_cache_misses: counter(names, vals, counter_name(2))->0,
                data_reads: counter(names, vals, counter_name(3))->0,
                data_l1_read_misses: counter(names, vals, counter_name(4))->0,
                data_cache_read_misses: counter(names, vals, counter_name(5))->0,
                data_writes: counter(names, vals, counter_name(6))->0,
                data_l1_write_misses: counter(names, vals, counter_name(7))->0,
                data_cache_write_misses: counter(names, vals, counter_name(8))->0,
            },
        )
    } else {
        Err(ParseError::MissingCounter)
    }
}

/// What reading the report `text` gives.
pub open spec fn report_spec(text: Seq<char>) -> Result<CachegrindStats, ParseError> {
    let lines = pieces(text, '\n');
    match (last_tail(lines, events_prefix()), last_tail(lines, summary_prefix())) {
        (Some(e), Some(s)) => {
            let toks = words(s);
            if forall|i: int| 0 <= i < toks.len() ==> is_u64_text(#[trigger] toks[i]) {
                stats_from(words(e), toks.map_values(|t: Seq<char>| u64_of(t)))
            } else {
                Err(ParseError::InvalidValue)
            }
        },
        _ => Err(ParseError::MissingEventsOrSummary),
    }
}

/// The value of counter `key` among `names` paired with `vals`.
fn counter_of(names: &Vec<Vec<char>>, vals: &Vec<u64>, key: &Vec<char>) -> (r: Option<u64>)
    ensures
        r == counter(views(names@), vals@, key@),
{
    let ghost nv = views(names@);
    let mut k: usize = if names.len() <= vals.len() {
        names.len()
    } else {
        vals.len()
    };
    while k > 0
        invariant
            k <= names@.len(),
            k <= vals@.len(),
            nv == views(names@),
            counter(nv, vals@, key@) == lookup_at(nv, vals@, key@, k as nat),
        decreases k,
    {
        if chars_eq(&names[k - 1], key) {
            return Some(vals[k - 1]);
        }
        k = k - 1;
    }
    None
}

/// The counters named by `names`, each with the value at its position in `vals`.
pub fn stats_from_tokens(names: &Vec<Vec<char>>, vals: &Vec<u64>) -> (r: Result<
    CachegrindStats,
    ParseError,
>)
    ensures
        r == stats_from(views(names@), vals@),
{
    let ghost nv = views(names@);
    let key: Vec<char> = vec!['I', 'r'];
    assert(key@ =~= counter_name(0));
    let ir = match counter_of(names, vals, &key) {
        Some(v) => v,
        None => {
            return Err(ParseError::MissingCounter);
        },
    };
    let key: Vec<char> = vec!['I', '1', 'm', 'r'];
    assert(key@ =~= counter_name(1));
    let i1mr = match counter_of(names, vals, &key) {
        Some(v) => v,
        None => {
            return Err(ParseError::MissingCounter);
        },
    };
    let key: Vec<char> = vec!['I', 'L', 'm', 'r'];
    assert(key@ =~= counter_name(2));
    let ilmr = match counter_of(names, vals, &key) {
        Some(v) => v,
        None => {
            return Err(ParseError::MissingCounter);
        },
    };
    let key: Vec<char> = vec!['D', 'r'];
    assert(key@ =~= counter_name(3));
    let dr = match counter_of(names, vals, &key) {
        Some(v) => v,
        None => {
            return Err(ParseError::MissingCounter);
        },
    };
    let key: Vec<char> = vec!['D', '1', 'm', 'r'];
    assert(key@ =~= counter_name(4));
    let d1mr = match counter_of(names, vals, &key) {
        Some(v) => v,
        None => {
            return Err(ParseError::MissingCounter);
        },
    };
    let key: Vec<char> = vec!['D', 'L', 'm', 'r'];
    assert(key@ =~= counter_name(5));
    let dlmr = match counter_of(names, vals, &key) {
        Some(v) => v,
        None => {
            return Err(ParseError::MissingCounter);
        },
    };
    let key: Vec<char> = vec!['D', 'w'];
    assert(key@ =~= counter_name(6));
    let dw = match counter_of(names, vals, &key) {
        Some(v) => v,
        None => {
            return Err(ParseError::MissingCounter);
        },
    };
    let key: Vec<char> = vec!['D', '1', 'm', 'w'];
    assert(key@ =~= counter_name(7));
    let d1mw = match counter_of(names, vals, &key) {
        Some(v) => v,
        None => {
            return Err(ParseError::MissingCounter);
        },
    };
    let key: Vec<char> = vec!['D', 'L', 'm', 'w'];
    assert(key@ =~= counter_name(8));
    let dlmw = match counter_of(names, vals, &key) {
        Some(v) => v,
        None => {
            return Err(ParseError::MissingCounter);
        },
    };
    let r = CachegrindStats {
        instruction_reads: ir,
        instruction_l1_misses: i1mr,
        instruction_cache_misses: ilmr,
        data_reads: dr,
        data_l1_read_misses: d1mr,
        data_cache_read_misses: dlmr,
        data_writes: dw,
        data_l1_write_misses: d1mw,
        data_cache_write_misses: dlmw,
    };
    assert forall|f: int| 0 <= f < 9 implies (#[trigger] counter(nv, vals@, counter_name(f))) is Some by {
        assert(f == 0 || f == 1 || f == 2 || f == 3 || f == 4 || f == 5 || f == 6 || f == 7 || f == 8);
    }
    Ok(r)
}

/// Reads every token as a `u64`; `None` where one is not a number.
fn parse_values(toks: &Vec<Vec<char>>) -> (r: Option<Vec<u64>>)
    ensures
        r is Some <==> forall|i: int| 0 <= i < toks@.len() ==> is_u64_text(#[trigger] views(toks@)[i]),
        r is Some ==> r->0@ == views(toks@).map_values(|t: Seq<char>| u64_of(t)),
{
    let ghost tv = views(toks@);
    let mut vals: Vec<u64> = Vec::new();
    let mut i: usize = 0;
    while i < toks.len()
        invariant
            i <= toks@.len(),
            tv == views(toks@),
            forall|j: int| 0 <= j < i ==> is_u64_text(#[trigger] tv[j]),
            vals@ == tv.take(i as int).map_values(|t: Seq<char>| u64_of(t)),
        decreases toks@.len() - i,
    {
        match parse_u64(&toks[i]) {
            Some(v) => {
                vals.push(v);
                assert(vals@ =~= tv.take(i + 1).map_values(|t: Seq<char>| u64_of(t)));
            },
            None => {
                assert(!is_u64_text(tv[i as int]));
                return None;
            },
        }
        i = i + 1;
    }
    assert(tv.take(i as int) =~= tv);
    Some(vals)
}

/// Reads the nine counters out of a simulator report: the last line that
/// starts with `events: ` names the counters, the last that starts with
/// `summary: ` gives their values, paired by position.
pub fn parse_cachegrind_output(text: &str) -> (r: Result<CachegrindStats, ParseError>)
    ensures
        r == report_spec(text@),
        r is Err && r->Err_0 == ParseError::MissingEventsOrSummary <==> last_tail(
            pieces(text@, '\n'),
            events_prefix(),
        ) is None || last_tail(pieces(text@, '\n'), summary_prefix()) is None,
{
    let chars = to_chars(text);
    let (events, summary) = find_report_lines(&chars);
    match (events, summary) {
        (Some(e), Some(s)) => {
            let names = split_words(&e);
            let toks = split_words(&s);
            match parse_values(&toks) {
                Some(vals) => stats_from_tokens(&names, &vals),
                None => Err(ParseError::InvalidValue),
            }
        },
        _ => Err(ParseError::MissingEventsOrSummary),
    }
}

/// Field `f` of `s`, in the order of `counter_name`.
pub open spec fn field(s: CachegrindStats, f: int) -> u64 {
    if f == 0 {
        s.instruction_reads
    } else if f == 1 {
        s.instruction_l1_misses
    } else if f == 2 {
        s.instruction_cache_misses
    } else if f == 3 {
        s.data_reads
    } else if f == 4 {
        s.data_l1_read_misses
    } else if f == 5 {
        s.data_cache_read_misses
    } else if f == 6 {
        s.data_writes
    } else if f == 7 {
        s.data_l1_write_misses
    } else {
        s.data_cache_write_misses
    }
}

/// Names and values paired by position, with distinct names that include
/// every counter.
pub open spec fn well_formed_pairs(names: Seq<Seq<char>>, vals: Seq<u64>) -> bool {
    &&& names.len() == vals.len()
    &&& forall|i: int, j: int| 0 <= i < j < names.len() ==> names[i] != names[j]
    &&& forall|f: int| 0 <= f < 9 ==> exists|i: int| 0 <= i < names.len() && names[i] == #[trigger] counter_name(f)
}

proof fn lemma_lookup_finds(names: Seq<Seq<char>>, vals: Seq<u64>, i: int, k: nat)
    requires
        0 <= i < k <= names.len(),
        k <= vals.len(),
        forall|a: int, b: int| 0 <= a < b < names.len() ==> names[a] != names[b],
    ensures
        lookup_at(names, vals, names[i], k) == Some(vals[i]),
    decreases k,
{
    if i < k - 1 {
        assert(names[k - 1] != names[i]);
        lemma_lookup_finds(names, vals, i, (k - 1) as nat);
    }
}

/// Counters are found by name, not by position: where the names are distinct
/// and include all nine counters, each field holds the value paired with its
/// name, whatever order the names come in.
pub proof fn lemma_counters_by_name(names: Seq<Seq<char>>, vals: Seq<u64>)
    requires
        well_formed_pairs(names, vals),
    ensures
        stats_from(names, vals) is Ok,
        forall|f: int, i: int|
            #![trigger field(stats_from(names, vals)->Ok_0, f), names[i]]
            0 <= f < 9 && 0 <= i < names.len() && names[i] == counter_name(f) ==> field(
                stats_from(names, vals)->Ok_0,
                f,
            ) == vals[i],
{
    assert forall|f: int, i: int|
        0 <= f < 9 && 0 <= i < names.len() && names[i] == counter_name(f) implies counter(
        names,
        vals,
        counter_name(f),
    ) == Some(vals[i]) by {
        lemma_lookup_finds(names, vals, i, names.len());
    }
    assert forall|f: int| 0 <= f < 9 implies (#[trigger] counter(
        names,
        vals,
        counter_name(f),
    )) is Some by {
        let i = choose|i: int| 0 <= i < names.len() && names[i] == counter_name(f);
        lemma_lookup_finds(names, vals, i, names.len());
    }
}

/// The decimal texts of `vals`.
pub open spec fn decimals(vals: Seq<u64>) -> Seq<Seq<char>> {
    vals.map_values(|v: u64| decimal(v as nat))
}

/// A report of two lines: `events: ` and the names, then `summary: ` and
/// the values in decimal, each list joined by single spaces.
pub open spec fn report_text(names: Seq<Seq<char>>, vals: Seq<u64>) -> Seq<char> {
    events_prefix() + join_words(names) + seq!['\n'] + summary_prefix() + join_words(
        decimals(vals),
    )
}

/// Reading a report gives back the values written into its `summary:` line,
/// whatever the other lines and whichever of the two lines comes first: where
/// the last line that starts with `events: ` lists the names and the last that
/// starts with `summary: ` the values in decimal, each counter gets the value
/// at the position of its name.
pub proof fn lemma_report_lines_round_trip(text: Seq<char>, names: Seq<Seq<char>>, vals: Seq<u64>)
    requires
        well_formed_pairs(names, vals),
        forall|i: int| 0 <= i < names.len() ==> is_token(#[trigger] names[i]),
        last_tail(pieces(text, '\n'), events_prefix()) == Some(join_words(names)),
        last_tail(pieces(text, '\n'), summary_prefix()) == Some(join_words(decimals(vals))),
    ensures
        report_spec(text) == stats_from(names, vals),
        report_spec(text) is Ok,
        forall|f: int, i: int|
            #![trigger field(report_spec(text)->Ok_0, f), names[i]]
            0 <= f < 9 && 0 <= i < names.len() && names[i] == counter_name(f) ==> field(
                report_spec(text)->Ok_0,
                f,
            ) == vals[i],
{
    let ds = decimals(vals);
    assert forall|i: int| 0 <= i < ds.len() implies is_token(#[trigger] ds[i]) && is_u64_text(
        ds[i],
    ) && u64_of(ds[i]) == vals[i] by {
        lemma_decimal_digits(vals[i] as nat);
        let d = ds[i];
        assert forall|k: int| 0 <= k < d.len() implies !is_ws(#[trigger] d[k]) by {
            assert(is_digit(d[k]));
        }
        assert(is_digit(d[0]));
        assert(unsigned_digits(d) == d);
    }
    lemma_words_of_join(names);
    lemma_words_of_join(ds);
    assert(ds.map_values(|t: Seq<char>| u64_of(t)) =~= vals);
    lemma_counters_by_name(names, vals);
}

/// The two-line report `report_text` reads back as the values written into it.
pub proof fn lemma_report_round_trip(names: Seq<Seq<char>>, vals: Seq<u64>)
    requires
        well_formed_pairs(names, vals),
        forall|i: int| 0 <= i < names.len() ==> is_token(#[trigger] names[i]),
    ensures
        report_spec(report_text(names, vals)) == stats_from(names, vals),
        report_spec(report_text(names, vals)) is Ok,
        forall|f: int, i: int|
            #![trigger field(report_spec(report_text(names, vals))->Ok_0, f), names[i]]
            0 <= f < 9 && 0 <= i < names.len() && names[i] == counter_name(f) ==> field(
                report_spec(report_text(names, vals))->Ok_0,
                f,
            ) == vals[i],
{
    let ds = decimals(vals);
    assert forall|i: int| 0 <= i < ds.len() implies is_token(#[trigger] ds[i]) by {
        lemma_decimal_digits(vals[i] as nat);
        let d = ds[i];
        assert forall|k: int| 0 <= k < d.len() implies !is_ws(#[trigger] d[k]) by {
            assert(is_digit(d[k]));
        }
    }
    let jn = join_words(names);
    let jd = join_words(ds);
    let e = events_prefix() + jn;
    let s = summary_prefix() + jd;
    let nl = seq!['\n'];
    let text = report_text(names, vals);
    assert(text =~= (e + nl) + s);
    lemma_join_has_no_newline(names);
    lemma_join_has_no_newline(ds);
    assert forall|i: int| 0 <= i < e.len() implies #[trigger] e[i] != '\n' by {
        if i >= 8 {
            assert(e[i] == jn[i - 8]);
        }
    }
    assert forall|i: int| 0 <= i < s.len() implies #[trigger] s[i] != '\n' by {
        if i >= 9 {
            assert(s[i] == jd[i - 9]);
        }
    }
    lemma_pieces_append(Seq::empty(), e, '\n');
    assert(Seq::<char>::empty() + e =~= e);
    assert(pieces(e, '\n') =~= seq![e]);
    assert((e + nl).drop_last() =~= e);
    assert(pieces(e + nl, '\n') =~= seq![e, Seq::empty()]);
    lemma_pieces_append(e + nl, s, '\n');
    assert(Seq::<char>::empty() + s =~= s);
    let lines = pieces(text, '\n');
    assert(lines =~= seq![e, s]);
    assert(s.take(8)[0] != events_prefix()[0]);
    assert(!has_prefix(s, events_prefix()));
    assert(lines.drop_last() =~= seq![e]);
    assert(e.take(8) =~= events_prefix());
    assert(e.skip(8) =~= jn);
    assert(seq![e].drop_last() =~= Seq::<Seq<char>>::empty());
    assert(lines.last() == s);
    assert(last_tail(lines, events_prefix()) == last_tail(seq![e], events_prefix()));
    assert(seq![e].last() == e);
    assert(e.len() >= 8);
    assert(has_prefix(e, events_prefix()));
    assert(last_tail(seq![e], events_prefix()) == Some(e.skip(8)));
    assert(last_tail(lines, events_prefix()) == Some(jn));
    assert(s.take(9) =~= summary_prefix());
    assert(s.skip(9) =~= jd);
    assert(last_tail(lines, summary_prefix()) == Some(jd));
    lemma_report_lines_round_trip(text, names, vals);
}

} // verus!
