//! Reading the processor clock rate out of the text of `/proc/cpuinfo`.
use crate::text::{is_ws, pieces, split_at_char, string_of, to_chars, views, chars_eq};
use vstd::prelude::*;

verus! {

/// `i` is the first position of `c` in `s`.
pub open spec fn first_at(s: Seq<char>, c: char, i: int) -> bool {
    &&& 0 <= i < s.len()
    &&& s[i] == c
    &&& forall|j: int| 0 <= j < i ==> s[j] != c
}

/// The text before and after the first `c` of `s`, as `str::split_once` gives.
pub open spec fn split_once(s: Seq<char>, c: char) -> Option<(Seq<char>, Seq<char>)> {
    if exists|i: int| first_at(s, c, i) {
        let i = choose|i: int| first_at(s, c, i);
        Some((s.take(i), s.skip(i + 1)))
    } else {
        None
    }
}

pub open spec fn trim_start(s: Seq<char>) -> Seq<char>
    decreases s.len(),
{
    if s.len() > 0 && is_ws(s[0]) {
        trim_start(s.drop_first())
    } else {
        s
    }
}

pub open spec fn trim_end(s: Seq<char>) -> Seq<char>
    decreases s.len(),
{
    if s.len() > 0 && is_ws(s.last()) {
        trim_end(s.drop_last())
    } else {
        s
    }
}

/// `s` without leading and trailing whitespace, as `str::trim` gives.
pub open spec fn trim(s: Seq<char>) -> Seq<char> {
    trim_end(trim_start(s))
}

/// The unit suffixes of a clock rate with their powers of ten, largest unit
/// first, so that plain `Hz` is tried last.
pub open spec fn unit_suffixes() -> Seq<(Seq<char>, nat)> {
    seq![
        ("QHz"@, 30nat),
        ("RHz"@, 27nat),
        ("YHz"@, 24nat),
        ("ZHz"@, 21nat),
        ("EHz"@, 18nat),
        ("PHz"@, 15nat),
        ("THz"@, 12nat),
        ("GHz"@, 9nat),
        ("MHz"@, 6nat),
        ("kHz"@, 3nat),
        ("hHz"@, 2nat),
        ("daHz"@, 1nat),
        ("Hz"@, 0nat),
    ]
}

pub open spec fn has_suffix(s: Seq<char>, suffix: Seq<char>) -> bool {
    s.len() >= suffix.len() && s.skip(s.len() - suffix.len()) == suffix
}

/// The number text and power of ten of `clock`, by the first unit from
/// position `k` of `units` that it ends with.
pub open spec fn first_unit(clock: Seq<char>, units: Seq<(Seq<char>, nat)>, k: nat) -> Option<
    (Seq<char>, nat),
>
    decreases units.len() - k,
{
    if k >= units.len() {
        None
    } else if has_suffix(clock, units[k as int].0) {
        Some((clock.take(clock.len() - units[k as int].0.len()), units[k as int].1))
    } else {
        first_unit(clock, units, (k + 1) as nat)
    }
}

/// What one line of the processor description decides: `None` where it says
/// nothing of the clock, `Some(None)` where it ends the search without a
/// clock, `Some(Some(..))` where it gives the clock.
pub open spec fn line_clock(line: Seq<char>) -> Option<Option<(Seq<char>, nat)>> {
    match split_once(line, ':') {
        Some((k, v)) => if trim(k) == "model name"@ {
            match split_once(trim(v), '@') {
                None => Some(None),
                Some((_, c)) => match first_unit(trim(c), unit_suffixes(), 0) {
                    Some(r) => Some(Some(r)),
                    None => None,
                },
            }
        } else {
            None
        },
        None => None,
    }
}

/// The clock of the first line, from the start, that decides.
pub open spec fn clock_in_lines(lines: Seq<Seq<char>>) -> Option<(Seq<char>, nat)>
    decreases lines.len(),
{
    if lines.len() == 0 {
        None
    } else {
        match line_clock(lines[0]) {
            Some(d) => d,
            None => clock_in_lines(lines.drop_first()),
        }
    }
}

/// Splits `s` at its first `c`.
fn split_once_at(s: &Vec<char>, c: char) -> (r: Option<(Vec<char>, Vec<char>)>)
    ensures
        r matches Some((a, b)) ==> split_once(s@, c) == Some((a@, b@)),
        r is None ==> split_once(s@, c) is None,
{
    let n = s.len();
    let mut i: usize = 0;
    while i < n
        invariant
            n == s@.len(),
            i <= n,
            forall|j: int| 0 <= j < i ==> s@[j] != c,
        decreases n - i,
    {
        if s[i] == c {
            let ghost k = choose|k: int| first_at(s@, c, k);
            assert(first_at(s@, c, i as int));
            assert(k == i) by {
                if k < i {
                    assert(s@[k] != c);
                } else if k > i {
                    assert(s@[i as int] != c);
                }
            }
            let a = slice_of(s, 0, i);
            let b = slice_of(s, i + 1, n);
            assert(a@ =~= s@.take(i as int));
            assert(b@ =~= s@.skip(i + 1));
            return Some((a, b));
        }
        i = i + 1;
    }
    None
}

/// The characters of `s` from `from` up to `to`.
fn slice_of(s: &Vec<char>, from: usize, to: usize) -> (r: Vec<char>)
    requires
        from <= to <= s@.len(),
    ensures
        r@ == s@.subrange(from as int, to as int),
{
    let mut v: Vec<char> = Vec::new();
    let mut k: usize = from;
    while k < to
        invariant
            from <= k <= to <= s@.len(),
            v@ == s@.subrange(from as int, k as int),
        decreases to - k,
    {
        v.push(s[k]);
        assert(v@ =~= s@.subrange(from as int, k + 1));
        k = k + 1;
    }
    v
}

/// `s` without leading and trailing whitespace.
fn trimmed(s: &Vec<char>) -> (r: Vec<char>)
    ensures
        r@ == trim(s@),
{
    let n = s.len();
    let mut a: usize = 0;
    assert(s@.skip(0) =~= s@);
    while a < n && crate::text::is_whitespace(s[a])
        invariant
            a <= n == s@.len(),
            trim_start(s@) == trim_start(s@.skip(a as int)),
        decreases n - a,
    {
        assert(s@.skip(a as int).drop_first() =~= s@.skip(a + 1));
        a = a + 1;
    }
    let ghost st = s@.skip(a as int);
    assert(trim_start(st) == st);
    let mut b: usize = n;
    while b > a && crate::text::is_whitespace(s[b - 1])
        invariant
            a <= b <= n == s@.len(),
            st == s@.skip(a as int),
            trim_end(st) == trim_end(s@.subrange(a as int, b as int)),
        decreases b - a,
    {
        assert(s@.subrange(a as int, b as int).drop_last() =~= s@.subrange(a as int, b - 1));
        b = b - 1;
    }
    assert(st =~= s@.subrange(a as int, n as int)) by {
        assert(st =~= s@.skip(a as int));
    }
    slice_of(s, a, b)
}

/// Whether `s` ends with `suffix`.
fn ends_with(s: &Vec<char>, suffix: &Vec<char>) -> (r: bool)
    ensures
        r == has_suffix(s@, suffix@),
{
    if s.len() < suffix.len() {
        return false;
    }
    let tail = slice_of(s, s.len() - suffix.len(), s.len());
    assert(tail@ =~= s@.skip(s@.len() - suffix@.len()));
    chars_eq(&tail, suffix)
}

pub open spec fn unit_views(t: Seq<(Vec<char>, u32)>) -> Seq<(Seq<char>, nat)> {
    t.map_values(|e: (Vec<char>, u32)| (e.0@, e.1 as nat))
}

/// The number text and power of ten of a clock rate such as `3.60GHz`.
fn clock_unit(clock: &Vec<char>) -> (r: Option<(Vec<char>, u32)>)
    ensures
        r matches Some((m, p)) ==> first_unit(clock@, unit_suffixes(), 0) == Some((m@, p as nat)),
        r is None ==> first_unit(clock@, unit_suffixes(), 0) is None,
{
    let mut table: Vec<(Vec<char>, u32)> = Vec::new();
    table.push((to_chars("QHz"), 30));
    table.push((to_chars("RHz"), 27));
    table.push((to_chars("YHz"), 24));
    table.push((to_chars("ZHz"), 21));
    table.push((to_chars("EHz"), 18));
    table.push((to_chars("PHz"), 15));
    table.push((to_chars("THz"), 12));
    table.push((to_chars("GHz"), 9));
    table.push((to_chars("MHz"), 6));
    table.push((to_chars("kHz"), 3));
    table.push((to_chars("hHz"), 2));
    table.push((to_chars("daHz"), 1));
    table.push((to_chars("Hz"), 0));
    assert(unit_views(table@) =~= unit_suffixes());
    let mut k: usize = 0;
    while k < table.len()
        invariant
            k <= table@.len(),
            unit_views(table@) == unit_suffixes(),
            first_unit(clock@, unit_suffixes(), 0) == first_unit(clock@, unit_suffixes(), k as nat),
        decreases table@.len() - k,
    {
        let ghost u = unit_views(table@)[k as int];
        if ends_with(clock, &table[k].0) {
            let m = slice_of(clock, 0, clock.len() - table[k].0.len());
            assert(m@ =~= clock@.take(clock@.len() - u.0.len()));
            return Some((m, table[k].1));
        }
        k = k + 1;
    }
    None
}

/// The clock rate that the processor description `cpuinfo` gives: on the
/// first `model name` line that has one, the number before its unit and the
/// unit's power of ten (`3.60GHz` gives `3.60` and 9). `None` where no line
/// gives one, or the first `model name` line without an `@` is met first.
pub fn clock_text(cpuinfo: &str) -> (r: Option<(String, u32)>)
    ensures
        r matches Some((m, p)) ==> clock_in_lines(pieces(cpuinfo@, '\n')) == Some((m@, p as nat)),
        r is None ==> clock_in_lines(pieces(cpuinfo@, '\n')) is None,
{
    let lines = split_at_char(&to_chars(cpuinfo), '\n');
    let ghost lv = views(lines@);
    let model = to_chars("model name");
    let mut i: usize = 0;
    assert(lv.skip(0) =~= lv);
    while i < lines.len()
        invariant
            i <= lines@.len(),
            lv == views(lines@),
            lv == pieces(cpuinfo@, '\n'),
            model@ == "model name"@,
            clock_in_lines(lv) == clock_in_lines(lv.skip(i as int)),
        decreases lines@.len() - i,
    {
        let ghost rest = lv.skip(i as int);
        assert(rest[0] == lines@[i as int]@);
        assert(rest.drop_first() =~= lv.skip(i + 1));
        if let Some((k, v)) = split_once_at(&lines[i], ':') {
            if chars_eq(&trimmed(&k), &model) {
                match split_once_at(&trimmed(&v), '@') {
                    None => {
                        return None;
                    },
                    Some((_, c)) => {
                        if let Some((m, p)) = clock_unit(&trimmed(&c)) {
                            return Some((string_of(&m), p));
                        }
                    },
                }
            }
        }
        i = i + 1;
    }
    None
}

} // verus!
