//! The self-invocation protocol: how a process decides between measuring one
//! benchmark under the simulator and orchestrating the whole run, and the
//! simulator command lines and report paths that the orchestrator uses.
use crate::text::{
    chars_eq, is_u64_text, push_decimal, signed_decimal, split_words,
    string_of, string_views, to_chars, u64_of, views, words,
};
use vstd::prelude::*;

verus! {

/// What a process of the benchmark binary does, decided from its arguments.
#[derive(Clone, Copy, Debug, PartialEq, Eq, Structural)]
pub enum Mode {
    /// Run under the simulator and return at once, so that only startup and
    /// dispatch are measured.
    Calibrate,
    /// Run under the simulator and call the benchmark at this index once.
    Run(usize),
    /// Drive the simulator over every benchmark and report the results.
    Orchestrate { json: bool },
}

/// Why the arguments of a child process could not be read.
#[derive(Clone, Copy, Debug, PartialEq, Eq, Structural)]
pub enum DispatchError {
    /// The child marker is not followed by an index.
    MissingIndex,
    /// The index is not an integer.
    InvalidIndex,
    /// The index is neither `-1` nor the index of a registered benchmark.
    IndexOutOfRange,
}

/// The first argument that marks a process as a measured child.
pub open spec fn run_flag() -> Seq<char> {
    "--iai-run"@
}

/// The first argument that asks for line-delimited JSON output.
pub open spec fn json_flag() -> Seq<char> {
    "--json"@
}

/// The value of a signed decimal index: an optional `+` or `-`, then digits.
/// `None` where the text is no such number or its magnitude exceeds a `u64`.
pub open spec fn signed_index(t: Seq<char>) -> Option<int> {
    if t.len() > 0 && t[0] == '-' {
        let m = t.drop_first();
        if m.len() > 0 && m[0] != '+' && is_u64_text(m) {
            Some(-(u64_of(m) as int))
        } else {
            None
        }
    } else if is_u64_text(t) {
        Some(u64_of(t) as int)
    } else {
        None
    }
}

/// The mode of a child process given its index text, with `count`
/// registered benchmarks.
pub open spec fn child_mode(t: Seq<char>, count: nat) -> Result<Mode, DispatchError> {
    match signed_index(t) {
        Some(v) => if v == -1 {
            Ok(Mode::Calibrate)
        } else if 0 <= v < count {
            Ok(Mode::Run(v as usize))
        } else {
            Err(DispatchError::IndexOutOfRange)
        },
        None => Err(DispatchError::InvalidIndex),
    }
}

/// The mode chosen by the arguments that follow the executable's path.
pub open spec fn mode_spec(args: Seq<Seq<char>>, count: nat) -> Result<Mode, DispatchError> {
    if args.len() > 0 && args[0] == run_flag() {
        if args.len() > 1 {
            child_mode(args[1], count)
        } else {
            Err(DispatchError::MissingIndex)
        }
    } else {
        Ok(Mode::Orchestrate { json: args.len() > 0 && args[0] == json_flag() })
    }
}

/// Reads a signed decimal index.
fn parse_index(t: &Vec<char>) -> (r: Option<i128>)
    ensures
        r matches Some(v) ==> signed_index(t@) == Some(v as int),
        r is None ==> signed_index(t@) is None,
{
    if t.len() > 0 && t[0] == '-' {
        let mut m: Vec<char> = Vec::new();
        let mut i: usize = 1;
        while i < t.len()
            invariant
                1 <= i <= t@.len(),
                m@ == t@.subrange(1, i as int),
            decreases t@.len() - i,
        {
            m.push(t[i]);
            assert(m@ =~= t@.subrange(1, i + 1));
            i = i + 1;
        }
        assert(m@ =~= t@.drop_first());
        if m.len() > 0 && m[0] == '+' {
            return None;
        }
        match crate::text::parse_u64(&m) {
            Some(v) => Some(-(v as i128)),
            None => None,
        }
    } else {
        match crate::text::parse_u64(t) {
            Some(v) => Some(v as i128),
            None => None,
        }
    }
}

/// Decides the mode from the arguments after the executable's path, with
/// `count` registered benchmarks: `--iai-run <index>` makes a measured child,
/// anything else the orchestrator, with JSON output where the first argument
/// is `--json`.
pub fn dispatch_mode(args: &Vec<String>, count: usize) -> (r: Result<Mode, DispatchError>)
    ensures
        r == mode_spec(string_views(args@), count as nat),
{
    let ghost av = string_views(args@);
    let flag = to_chars("--iai-run");
    if args.len() > 0 {
        let first = to_chars(args[0].as_str());
        assert(first@ == av[0]);
        if chars_eq(&first, &flag) {
            if args.len() > 1 {
                let t = to_chars(args[1].as_str());
                assert(t@ == av[1]);
                return match parse_index(&t) {
                    Some(v) => if v == -1 {
                        Ok(Mode::Calibrate)
                    } else if 0 <= v && v < count as i128 {
                        Ok(Mode::Run(v as usize))
                    } else {
                        Err(DispatchError::IndexOutOfRange)
                    },
                    None => Err(DispatchError::InvalidIndex),
                };
            } else {
                return Err(DispatchError::MissingIndex);
            }
        }
        let json = to_chars("--json");
        Ok(Mode::Orchestrate { json: chars_eq(&first, &json) })
    } else {
        Ok(Mode::Orchestrate { json: false })
    }
}

/// The operating system, for the choice of the command that runs the
/// simulator with address-space layout randomization turned off.
#[derive(Clone, Copy, Debug, PartialEq, Eq, Structural)]
pub enum Platform {
    Linux,
    FreeBsd,
    /// A system on which randomization cannot be turned off.
    Other,
}

/// The words that start the simulator: `valgrind` itself where
/// randomization is allowed or cannot be turned off, else a launcher that
/// turns it off first.
pub open spec fn launcher_spec(platform: Platform, arch: Seq<char>, allow_aslr: bool) -> Seq<
    Seq<char>,
> {
    if allow_aslr {
        seq!["valgrind"@]
    } else {
        match platform {
            Platform::Linux => seq!["setarch"@, arch, "-R"@, "valgrind"@],
            Platform::FreeBsd => seq!["proccontrol"@, "-m"@, "aslr"@, "-s"@, "disable"@],
            Platform::Other => seq!["valgrind"@],
        }
    }
}

/// The extra simulator flags: the given text split at whitespace.
pub open spec fn flag_words(flags: Option<Seq<char>>) -> Seq<Seq<char>> {
    match flags {
        Some(f) => words(f),
        None => Seq::empty(),
    }
}

/// The full simulator command line for one measured child: launcher, extra
/// flags, the fixed cache geometry, the report file, then the child's own
/// arguments.
pub open spec fn command_spec(
    launcher: Seq<Seq<char>>,
    flags: Option<Seq<char>>,
    output_file: Seq<char>,
    executable: Seq<char>,
    index: int,
) -> Seq<Seq<char>> {
    launcher + flag_words(flags) + seq![
        "--tool=cachegrind"@,
        "--I1=32768,8,64"@,
        "--D1=32768,8,64"@,
        "--LL=8388608,16,64"@,
        "--cache-sim=yes"@,
        "--cachegrind-out-file="@ + output_file,
        executable,
        run_flag(),
        signed_decimal(index),
    ]
}

pub open spec fn opt_str_view(o: Option<&str>) -> Option<Seq<char>> {
    match o {
        Some(s) => Some(s@),
        None => None,
    }
}

fn push_word(v: &mut Vec<String>, w: String)
    ensures
        string_views(final(v)@) == string_views(old(v)@).push(w@),
{
    let ghost before = v@;
    v.push(w);
    assert(string_views(v@) =~= string_views(before).push(w@));
}

/// The launcher words for `platform`; `arch` is the machine architecture
/// that `setarch` expects.
pub fn launcher(platform: Platform, arch: &str, allow_aslr: bool) -> (r: Vec<String>)
    ensures
        string_views(r@) == launcher_spec(platform, arch@, allow_aslr),
{
    let mut v: Vec<String> = Vec::new();
    if allow_aslr {
        push_word(&mut v, "valgrind".to_owned());
    } else {
        match platform {
            Platform::Linux => {
                push_word(&mut v, "setarch".to_owned());
                push_word(&mut v, arch.to_owned());
                push_word(&mut v, "-R".to_owned());
                push_word(&mut v, "valgrind".to_owned());
            },
            Platform::FreeBsd => {
                push_word(&mut v, "proccontrol".to_owned());
                push_word(&mut v, "-m".to_owned());
                push_word(&mut v, "aslr".to_owned());
                push_word(&mut v, "-s".to_owned());
                push_word(&mut v, "disable".to_owned());
            },
            Platform::Other => {
                push_word(&mut v, "valgrind".to_owned());
            },
        }
    }
    assert(string_views(v@) =~= launcher_spec(platform, arch@, allow_aslr));
    v
}

/// The command line that measures the benchmark at `index` (`-1` for the
/// calibration run) under the simulator, writing its report to `output_file`.
pub fn cachegrind_command(
    launcher: Vec<String>,
    extra_flags: Option<&str>,
    output_file: &str,
    executable: &str,
    index: isize,
) -> (r: Vec<String>)
    requires
        index >= -1,
    ensures
        string_views(r@) == command_spec(
            string_views(launcher@),
            opt_str_view(extra_flags),
            output_file@,
            executable@,
            index as int,
        ),
{
    let ghost base = string_views(launcher@);
    let mut v = launcher;
    match extra_flags {
        Some(f) => {
            let ps = split_words(&to_chars(f));
            let mut j: usize = 0;
            while j < ps.len()
                invariant
                    j <= ps@.len(),
                    string_views(v@) == base + views(ps@).take(j as int),
                decreases ps@.len() - j,
            {
                push_word(&mut v, string_of(&ps[j]));
                assert(views(ps@).take(j + 1) =~= views(ps@).take(j as int).push(ps@[j as int]@));
                assert(base + views(ps@).take(j + 1) =~= (base + views(ps@).take(j as int)).push(
                    ps@[j as int]@,
                ));
                j = j + 1;
            }
            assert(views(ps@).take(j as int) =~= views(ps@));
        },
        None => {
            assert(base + Seq::<Seq<char>>::empty() =~= base);
        },
    }
    let ghost mid = string_views(v@);
    push_word(&mut v, "--tool=cachegrind".to_owned());
    push_word(&mut v, "--I1=32768,8,64".to_owned());
    push_word(&mut v, "--D1=32768,8,64".to_owned());
    push_word(&mut v, "--LL=8388608,16,64".to_owned());
    push_word(&mut v, "--cache-sim=yes".to_owned());
    let mut out = "--cachegrind-out-file=".to_owned();
    out.append(output_file);
    push_word(&mut v, out);
    push_word(&mut v, executable.to_owned());
    push_word(&mut v, "--iai-run".to_owned());
    let mut digits: Vec<char> = Vec::new();
    if index < 0 {
        digits.push('-');
        push_decimal(1, &mut digits);
        assert(digits@ =~= signed_decimal(index as int));
    } else {
        push_decimal(index as u64, &mut digits);
        assert(digits@ =~= signed_decimal(index as int));
    }
    push_word(&mut v, string_of(&digits));
    assert(string_views(v@) =~= command_spec(
        base,
        opt_str_view(extra_flags),
        output_file@,
        executable@,
        index as int,
    ));
    v
}

/// Where the report of benchmark `name` is written.
pub fn report_path(name: &str) -> (r: String)
    ensures
        r@ == "target/iai/cachegrind.out."@ + name@,
{
    let mut s = "target/iai/cachegrind.out.".to_owned();
    s.append(name);
    s
}

/// Where the previous report of benchmark `name` is kept.
pub fn old_report_path(name: &str) -> (r: String)
    ensures
        r@ == "target/iai/cachegrind.out."@ + name@ + ".old"@,
{
    let mut s = report_path(name);
    s.append(".old");
    s
}

} // verus!
