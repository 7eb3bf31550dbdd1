use iai::dispatch::{
    cachegrind_command, dispatch_mode, launcher, old_report_path, report_path, DispatchError,
    Mode, Platform,
};

fn args(v: &[&str]) -> Vec<String> {
    v.iter().map(|s| s.to_string()).collect()
}

#[test]
fn modes_from_arguments() {
    assert_eq!(dispatch_mode(&args(&[]), 3), Ok(Mode::Orchestrate { json: false }));
    assert_eq!(dispatch_mode(&args(&["--json"]), 3), Ok(Mode::Orchestrate { json: true }));
    assert_eq!(dispatch_mode(&args(&["--bench"]), 3), Ok(Mode::Orchestrate { json: false }));
    assert_eq!(dispatch_mode(&args(&["--iai-run", "-1"]), 3), Ok(Mode::Calibrate));
    assert_eq!(dispatch_mode(&args(&["--iai-run", "2"]), 3), Ok(Mode::Run(2)));
    assert_eq!(dispatch_mode(&args(&["--iai-run", "+0"]), 3), Ok(Mode::Run(0)));
    assert_eq!(dispatch_mode(&args(&["--iai-run", "-0"]), 3), Ok(Mode::Run(0)));
}

#[test]
fn bad_child_arguments() {
    assert_eq!(dispatch_mode(&args(&["--iai-run"]), 3), Err(DispatchError::MissingIndex));
    assert_eq!(dispatch_mode(&args(&["--iai-run", "x"]), 3), Err(DispatchError::InvalidIndex));
    assert_eq!(dispatch_mode(&args(&["--iai-run", "-+1"]), 3), Err(DispatchError::InvalidIndex));
    assert_eq!(dispatch_mode(&args(&["--iai-run", "3"]), 3), Err(DispatchError::IndexOutOfRange));
    assert_eq!(dispatch_mode(&args(&["--iai-run", "-2"]), 3), Err(DispatchError::IndexOutOfRange));
}

#[test]
fn launchers_per_platform() {
    assert_eq!(launcher(Platform::Linux, "x86_64", false), args(&["setarch", "x86_64", "-R", "valgrind"]));
    assert_eq!(
        launcher(Platform::FreeBsd, "amd64", false),
        args(&["proccontrol", "-m", "aslr", "-s", "disable"])
    );
    assert_eq!(launcher(Platform::Other, "arm", false), args(&["valgrind"]));
    assert_eq!(launcher(Platform::Linux, "x86_64", true), args(&["valgrind"]));
}

#[test]
fn command_line_of_a_child() {
    let cmd = cachegrind_command(
        args(&["valgrind"]),
        Some(" --a \t --b  "),
        "target/iai/cachegrind.out.fib",
        "./bench",
        12,
    );
    assert_eq!(
        cmd,
        args(&[
            "valgrind",
            "--a",
            "--b",
            "--tool=cachegrind",
            "--I1=32768,8,64",
            "--D1=32768,8,64",
            "--LL=8388608,16,64",
            "--cache-sim=yes",
            "--cachegrind-out-file=target/iai/cachegrind.out.fib",
            "./bench",
            "--iai-run",
            "12",
        ])
    );
    let empty = cachegrind_command(args(&["valgrind"]), Some(""), "out", "exe", 0);
    assert_eq!(empty[1], "--tool=cachegrind");
    assert_eq!(empty.len(), 10);
    let cal = cachegrind_command(args(&["valgrind"]), None, "out", "exe", -1);
    assert_eq!(cal.len(), 10);
    assert_eq!(cal[9], "-1");
    assert_eq!(cal[6], "--cachegrind-out-file=out");
}

#[test]
fn report_paths() {
    assert_eq!(report_path("fib"), "target/iai/cachegrind.out.fib");
    assert_eq!(old_report_path("fib"), "target/iai/cachegrind.out.fib.old");
}
