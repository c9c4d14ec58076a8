use fleetops::runner::{exit_summary, AppError, CannedRunner, CommandSpec};

#[test]
fn exit_summary_includes_code_and_stderr_tail() {
    let s = exit_summary(Some(2), b"line one\nline two\n");
    assert!(s.contains("exit 2"));
    assert!(s.contains("line two"));
}

#[test]
fn exit_summary_exact_shapes() {
    assert_eq!(exit_summary(None, b""), "exit signal");
    assert_eq!(exit_summary(Some(-1), b"a\nb\nc\nd\n"), "exit -1: b; c; d");
    assert_eq!(exit_summary(Some(0), b"\xffbad"), "exit 0: \u{fffd}bad");
}

#[test]
fn error_messages() {
    assert_eq!(AppError::Timeout { program: "wezterm.exe".to_string(), seconds: 5 }.message(), "wezterm.exe: timed out after 5s");
    assert_eq!(AppError::Subprocess { program: "p".to_string(), message: "exit 1".to_string() }.message(), "p: exit 1");
    assert_eq!(AppError::Parse("x".to_string()).message(), "parse error: x");
}

#[test]
fn canned_runner_answers_and_records() {
    let mut r = CannedRunner::new(b"out".to_vec());
    assert!(r.last_spec().is_none());
    let spec = CommandSpec { program: "p".to_string(), args: vec!["a".to_string()], env: Vec::new(), timeout_secs: 5 };
    assert_eq!(r.run(&spec), Ok(b"out".to_vec()));
    assert_eq!(r.last_spec(), Some(spec.clone()));
    assert_eq!(r.all_specs(), vec![spec]);
}
