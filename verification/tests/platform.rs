use fleetops::platform::linux::{argv_of, comm_of, pids_of, starttime_from_stat, LinuxProc, LinuxReads, HZ};
use fleetops::platform::macos::{env_outcome, parse_proc_start, procargs_outcome, MacProc, MacReads};
use fleetops::platform::procargs::{decode, decode_with_argc, ProcArgs};
use fleetops::platform::{AcqResult, Liveness, PlatformStats, ProcFacts, SnapshotOutcome, StartId};

#[test]
fn linux_starttime_survives_parens_and_spaces_in_comm() {
    let stat = "42 (weird) name)) R 1 2 3 4 5 6 7 8 9 10 11 12 13 14 15 16 17 18 START 23";
    assert_eq!(starttime_from_stat(stat).as_deref(), Some("START"));
    assert_eq!(starttime_from_stat("no parens here"), None);
}

#[test]
fn liveness_is_exact_string_equality_with_near_tripwire() {
    let p = LinuxProc::new("/nonexistent".to_string(), None);
    let id = StartId::Linux("1000".into());
    assert_eq!(p.liveness(&id, "1000"), Liveness::Match);
    assert_eq!(p.liveness(&id, "1150"), Liveness::Mismatch { near: true });
    assert_eq!(p.liveness(&id, "9999"), Liveness::Mismatch { near: false });
    assert_eq!(p.liveness(&id, "junk"), Liveness::Mismatch { near: false });
}

fn buf(argc: i32, tail: &[u8]) -> Vec<u8> {
    let mut b = argc.to_ne_bytes().to_vec();
    b.extend_from_slice(tail);
    b
}

#[test]
fn normal_buffer_splits_argv_and_env() {
    let b = buf(2, b"/usr/bin/codex\0\0\0codex\0--x\0HOME=/u\0TERM=xterm\0");
    let p = decode(&b).expect("well-formed");
    assert_eq!(p.argv, vec![b"codex".to_vec(), b"--x".to_vec()]);
    assert_eq!(p.env_region, b"HOME=/u\0TERM=xterm\0");
}

#[test]
fn argv_that_looks_like_env_stays_argv() {
    let b = buf(2, b"/bin/x\0\0x\0WEZTERM_PANE=9\0CLAUDE_ACCOUNT=real\0");
    let p = decode(&b).expect("well-formed");
    assert_eq!(p.argv[1], b"WEZTERM_PANE=9", "argc bounds argv — assignment-shaped args never leak into env");
    assert_eq!(p.env_region, b"CLAUDE_ACCOUNT=real\0");
}

#[test]
fn env_omitted_is_empty_region_argv_intact() {
    let b = buf(1, b"/bin/x\0\0\0x\0");
    let p = decode(&b).expect("well-formed");
    assert_eq!(p.argv, vec![b"x".to_vec()]);
    assert!(p.env_region.is_empty());
}

#[test]
fn empty_argv_entries_survive() {
    let b = buf(3, b"/bin/x\0\0a\0\0b\0E=1\0");
    let p = decode(&b).expect("well-formed");
    assert_eq!(p.argv, vec![b"a".to_vec(), Vec::new(), b"b".to_vec()]);
    assert_eq!(p.env_region, b"E=1\0");
}

#[test]
fn argc_zero_yields_no_argv_all_env() {
    let b = buf(0, b"/bin/x\0\0E=1\0");
    let p = decode(&b).expect("well-formed");
    assert!(p.argv.is_empty());
    assert_eq!(p.env_region, b"E=1\0");
}

#[test]
fn malformed_buffers_are_none_never_panic() {
    assert_eq!(decode(b""), None, "short header");
    assert_eq!(decode(&buf(-1, b"/x\0")), None, "negative argc");
    assert_eq!(decode(&buf(3, b"/bin/x\0\0only-one\0")), None, "argv truncated");
    assert_eq!(decode(&buf(1, b"no-nul-anywhere")), None, "unterminated exec path");
}

#[test]
fn decode_with_argc_is_the_header_independent_core() {
    let p = decode_with_argc(b"\0\0\0\0/x\0a\0E=1\0", 1).expect("well-formed");
    assert_eq!(p, ProcArgs { argv: vec![b"a".to_vec()], env_region: b"E=1\0".to_vec() });
    assert_eq!(decode_with_argc(b"\0\0\0\0/x\0a\0", 2), None);
}

#[test]
fn proc_start_ctime_parses_as_utc() {
    let secs = parse_proc_start("Mon Jul 20 15:58:39 2026").expect("parses");
    assert_eq!(secs, 1_784_563_119, "UTC interpretation, not local");
    assert!(parse_proc_start("Wed Jul  1 01:02:03 2026").is_some());
    assert!(parse_proc_start("not a date").is_none());
}

#[test]
fn mac_liveness_compares_whole_seconds() {
    let p = MacProc::new();
    let id = StartId::Mac { tvsec: 1_784_563_119, tvusec: 5 };
    assert_eq!(p.liveness(&id, " Mon Jul 20 15:58:39 2026\n"), Liveness::Match);
    assert_eq!(p.liveness(&id, "Mon Jul 20 15:58:41 2026"), Liveness::Mismatch { near: true });
    assert_eq!(p.liveness(&id, "Mon Jul 20 00:00:00 2020"), Liveness::Mismatch { near: false });
    assert_eq!(p.liveness(&id, "garbage"), Liveness::DateParseFailed);
    assert_eq!(p.liveness(&StartId::Linux("1".into()), "garbage"), Liveness::Mismatch { near: false });
}

#[test]
fn env_region_outcomes() {
    assert_eq!(env_outcome(Vec::new()), AcqResult::Unavailable);
    assert_eq!(env_outcome(vec![0, 0]), AcqResult::Unavailable);
    assert_eq!(env_outcome(b"A=1\0B=2".to_vec()), AcqResult::Malformed);
    assert_eq!(env_outcome(b"A=1\0".to_vec()), AcqResult::Acquired(b"A=1\0".to_vec()));
    assert_eq!(procargs_outcome(None), (AcqResult::Denied, AcqResult::Denied));
    assert_eq!(procargs_outcome(Some(b"xx".to_vec())), (AcqResult::Malformed, AcqResult::Malformed));
}

#[test]
fn mac_snapshot_is_race_guarded() {
    let p = MacProc::new();
    let reads = |before: Option<(u64, u64)>, after: Option<(u64, u64)>| MacReads {
        id_before: before,
        comm: Some("codex".to_string()),
        cwd: Some("/w".to_string()),
        procargs: Some(buf(1, b"/bin/codex\0\0codex\0HOME=/u\0")),
        fd1: Ok(Some("/dev/ttys004".to_string())),
        id_after: after,
    };
    assert!(matches!(p.snapshot(reads(None, Some((1, 2)))), SnapshotOutcome::Gone));
    assert!(matches!(p.snapshot(reads(Some((1, 2)), None)), SnapshotOutcome::Gone));
    assert!(matches!(p.snapshot(reads(Some((1, 2)), Some((1, 3)))), SnapshotOutcome::Raced));
    let SnapshotOutcome::Present(s) = p.snapshot(reads(Some((7, 2)), Some((7, 2)))) else {
        panic!("stable identity snapshots");
    };
    assert_eq!(s.start_id, StartId::Mac { tvsec: 7, tvusec: 2 });
    assert_eq!(s.start_epoch_secs, 7);
    assert_eq!(s.argv, AcqResult::Acquired(vec![b"codex".to_vec()]));
    assert_eq!(s.env_block, AcqResult::Acquired(b"HOME=/u\0".to_vec()));
    assert_eq!(s.fd1_pty, AcqResult::Acquired(Some("/dev/ttys004".to_string())));
}

fn stat(starttime: &str) -> String {
    format!("7 (agent) S 1 2 3 4 5 6 7 8 9 10 11 12 13 14 15 16 17 18 {starttime} 23")
}

#[test]
fn linux_snapshot_gathers_facts_and_start_identity() {
    let p = LinuxProc::new("/proc".to_string(), Some("cpu 1 2\nbtime 1000\n"));
    assert_eq!(p.btime(), 1000);
    let reads = LinuxReads {
        stat_before: Some(stat("1234")),
        comm: Some("agent\n".to_string()),
        cmdline: Some(b"agent\0--flag\0".to_vec()),
        cwd: None,
        environ: Some(b"CLAUDE_ACCOUNT=a\0".to_vec()),
        fd1: Some("/dev/null".to_string()),
        stat_after: Some(stat("1234")),
    };
    let SnapshotOutcome::Present(snap) = p.snapshot(reads) else {
        panic!("live process snapshots");
    };
    assert_eq!(snap.start_id, StartId::Linux("1234".into()));
    assert_eq!(snap.start_epoch_secs, 1000 + 1234 / HZ);
    assert_eq!(snap.comm.as_deref(), Some("agent"));
    assert_eq!(snap.argv, AcqResult::Acquired(vec![b"agent".to_vec(), b"--flag".to_vec()]));
    assert_eq!(snap.env_block, AcqResult::Acquired(b"CLAUDE_ACCOUNT=a\0".to_vec()));
    assert_eq!(snap.fd1_pty, AcqResult::Acquired(None));
}

#[test]
fn dead_pid_is_gone_and_reused_pid_is_raced() {
    let p = LinuxProc::new("/proc".to_string(), None);
    let gone = LinuxReads { stat_before: None, comm: None, cmdline: None, cwd: None, environ: None, fd1: None, stat_after: None };
    assert!(matches!(p.snapshot(gone), SnapshotOutcome::Gone));
    let raced = LinuxReads {
        stat_before: Some(stat("1")),
        comm: None,
        cmdline: None,
        cwd: None,
        environ: None,
        fd1: None,
        stat_after: Some(stat("2")),
    };
    assert!(matches!(p.snapshot(raced), SnapshotOutcome::Raced));
}

#[test]
fn btime_missing_or_garbled_degrades_to_zero() {
    assert_eq!(LinuxProc::new("/p".to_string(), None).btime(), 0);
    assert_eq!(LinuxProc::new("/p".to_string(), Some("btime x\nbtime 5\n")).btime(), 0);
    assert_eq!(LinuxProc::new("/p".to_string(), Some("btime  77 \n")).btime(), 77);
    assert_eq!(LinuxProc::new("/p".to_string(), None).pid_dir(12), "/p/12");
}

#[test]
fn pids_enumerate_numeric_entries_only() {
    assert_eq!(pids_of(&["12".to_string(), "not-a-pid".to_string(), "self".to_string(), "7".to_string()]), vec![12, 7]);
    assert_eq!(argv_of(b"a\0\0b\0"), vec![b"a".to_vec(), b"b".to_vec()]);
    assert_eq!(comm_of(Some("codex \n".to_string())).as_deref(), Some("codex"));
}

#[test]
fn stats_tally_and_absorb() {
    let mut s = PlatformStats::zero();
    s.count_env(&AcqResult::<Vec<u8>>::Denied);
    s.count_env(&AcqResult::<Vec<u8>>::Unavailable);
    s.count_env(&AcqResult::Acquired(vec![1u8]));
    s.count_liveness(Liveness::Mismatch { near: true });
    s.count_liveness(Liveness::Mismatch { near: false });
    s.count_liveness(Liveness::DateParseFailed);
    s.count_liveness(Liveness::Match);
    assert_eq!((s.env_denied, s.env_unavailable, s.env_malformed), (1, 1, 0));
    assert_eq!((s.start_mismatch, s.start_mismatch_near, s.date_parse_failed), (2, 1, 1));
    let mut total = PlatformStats::zero();
    total.absorb(&s);
    total.absorb(&s);
    assert_eq!(total.start_mismatch, 4);
    assert_eq!(total.env_denied, 2);
}

#[test]
fn acq_result_accessors() {
    assert_eq!(AcqResult::Acquired(3).ok(), Some(3));
    assert_eq!(AcqResult::<u8>::Denied.ok(), None);
    assert_eq!(AcqResult::Acquired(3).as_ref(), AcqResult::Acquired(&3));
    assert_eq!(AcqResult::<u8>::Malformed.as_ref(), AcqResult::Malformed);
}

#[test]
fn providers_report_their_pty_prefix() {
    assert_eq!(LinuxProc::new("/proc".to_string(), None).pty_prefix(), "/dev/pts/");
    assert_eq!(MacProc::new().pty_prefix(), "/dev/ttys");
}
