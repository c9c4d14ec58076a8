use fleetops::discovery::{
    is_live, parse_environ, parse_session_file, scan_entries, starttime_from_stat, EnvironFacts,
    NativeStatus, ScanEntry,
};

#[test]
fn unknown_status_is_preserved_not_dropped() {
    let json = br#"{"pid":1,"sessionId":"s","procStart":"9","status":"pondering"}"#;
    let f = parse_session_file(json).expect("tolerant");
    assert_eq!(f.status, NativeStatus::Other("pondering".to_string()));
    assert_eq!(f.cwd, "", "missing optionals defaulted");
}

#[test]
fn waiting_status_is_first_class() {
    let json = br#"{"pid":1,"sessionId":"s","procStart":"9","status":"waiting"}"#;
    let f = parse_session_file(json).expect("parses");
    assert_eq!(f.status, NativeStatus::Waiting);
}

#[test]
fn garbage_and_missing_required_fields_are_none() {
    assert!(parse_session_file(b"not json").is_none());
    assert!(parse_session_file(br#"{"pid":1}"#).is_none(), "sessionId required");
}

#[test]
fn discovery_starttime_survives_parens_and_spaces_in_comm() {
    let stat = "42 (weird) name)) R 1 2 3 4 5 6 7 8 9 10 11 12 13 14 15 16 17 18 START 23";
    assert_eq!(starttime_from_stat(stat).as_deref(), Some("START"));
    assert_eq!(starttime_from_stat("no parens here"), None);
}

#[test]
fn parse_environ_extracts_account_and_pane() {
    let environ = b"PATH=/usr/bin\0CLAUDE_ACCOUNT=alpha\0WEZTERM_PANE=26\0CLAUDE_CONFIG_DIR=/x\0";
    let facts = parse_environ(environ);
    assert_eq!(facts.account.as_deref(), Some("alpha"));
    assert_eq!(facts.wezterm_pane, Some(26));
    assert_eq!(parse_environ(b"PATH=/usr/bin\0"), EnvironFacts::default());
    let weird = parse_environ(b"WEZTERM_PANE=abc\0CLAUDE_ACCOUNT=bravo\0");
    assert_eq!(weird.wezterm_pane, None);
    assert_eq!(weird.account.as_deref(), Some("bravo"));
}

#[test]
fn scan_of_missing_dir_is_flagged_not_a_silent_empty_fleet() {
    let (live, stats) = scan_entries(None);
    assert!(live.is_empty());
    assert!(stats.dir_unreadable);
    assert_eq!(stats.total_files, 0);
}

fn session_json(pid: u32, proc_start: &str, status: &str) -> Vec<u8> {
    format!(
        r#"{{"pid":{pid},"sessionId":"sid-{pid}","cwd":"/w","procStart":"{proc_start}","name":"n{pid}","status":"{status}","updatedAt":1}}"#
    )
    .into_bytes()
}

fn stat(pid: u32, starttime: &str) -> String {
    format!("{pid} (agent) S 1 2 3 4 5 6 7 8 9 10 11 12 13 14 15 16 17 18 {starttime} 23")
}

fn entry(name: &str, content: Option<Vec<u8>>, stat: Option<String>, environ: Option<&[u8]>, fd1: Option<&str>) -> ScanEntry {
    ScanEntry {
        file_name: name.to_string(),
        content,
        stat,
        environ: environ.map(|e| e.to_vec()),
        fd1_target: fd1.map(str::to_string),
    }
}

#[test]
fn scan_keeps_live_drops_dead_and_reused_counts_parse_failures() {
    let listing = vec![
        entry("1.json", Some(session_json(1, "100", "busy")), Some(stat(1, "100")), Some(b"CLAUDE_ACCOUNT=alpha\0"), None),
        entry("2.json", Some(session_json(2, "200", "idle")), Some(stat(2, "999")), None, None),
        entry("3.json", Some(session_json(3, "300", "busy")), None, None, None),
        entry("4.json", Some(b"garbage".to_vec()), None, None, None),
        entry("README.md", Some(b"not a session".to_vec()), None, None, None),
    ];
    let (live, stats) = scan_entries(Some(listing));
    assert_eq!(stats.total_files, 4);
    assert_eq!(stats.parse_failed, 1);
    assert_eq!(stats.stale_dead, 2);
    assert_eq!(stats.live, 1);
    assert_eq!(live.len(), 1);
    assert_eq!(live[0].file.pid, 1);
    assert_eq!(live[0].account.as_deref(), Some("alpha"));
}

#[test]
fn live_session_without_environ_is_live_with_unknown_account() {
    let listing = vec![entry("5.json", Some(session_json(5, "500", "busy")), Some(stat(5, "500")), None, None)];
    let (live, stats) = scan_entries(Some(listing));
    assert_eq!(stats.live, 1, "unreadable environ never drops a live session");
    assert_eq!(live[0].account, None);
    assert_eq!(live[0].wezterm_pane, None);
}

#[test]
fn scan_reads_pts_from_fd_1_target_dev_pts_only() {
    let listing = vec![
        entry("1.json", Some(session_json(1, "100", "busy")), Some(stat(1, "100")), None, Some("/dev/pts/7")),
        entry("2.json", Some(session_json(2, "200", "busy")), Some(stat(2, "200")), None, Some("/dev/null")),
    ];
    let (live, _stats) = scan_entries(Some(listing));
    let pts_of = |pid: u32| live.iter().find(|s| s.file.pid == pid).unwrap().pts.clone();
    assert_eq!(pts_of(1), Some("/dev/pts/7".to_string()));
    assert_eq!(pts_of(2), None);
}

#[test]
fn liveness_is_exact_starttime_equality() {
    assert!(is_live(&stat(1, "100"), "100"));
    assert!(!is_live(&stat(1, "100"), "1000"));
    assert!(!is_live("no parens", "100"));
}

#[test]
fn session_file_fields_and_wrong_types() {
    let f = parse_session_file(
        br#"{"pid":7,"sessionId":"s","cwd":"/c","procStart":"9","name":"n","status":"busy","updatedAt":5,"version":"2.1.206","extra":[1]}"#,
    )
    .expect("parses");
    assert_eq!(f.pid, 7);
    assert_eq!(f.updated_at_ms, 5);
    assert_eq!(f.version.as_deref(), Some("2.1.206"));
    assert_eq!(f.status, NativeStatus::Busy);
    assert!(parse_session_file(br#"{"pid":"7","sessionId":"s","procStart":"9"}"#).is_none());
    assert!(parse_session_file(br#"{"pid":4294967296,"sessionId":"s","procStart":"9"}"#).is_none());
    assert!(parse_session_file(br#"{"pid":1,"sessionId":"s","procStart":"9","cwd":null}"#).is_none());
    let nulled = parse_session_file(br#"{"pid":1,"sessionId":"s","procStart":"9","version":null}"#).expect("null version");
    assert_eq!(nulled.version, None);
}

#[test]
fn environ_entries_that_are_not_utf8_are_skipped() {
    let facts = parse_environ(b"CLAUDE_ACCOUNT=caf\xe9\0WEZTERM_PANE=7\0");
    assert_eq!(facts.account, None);
    assert_eq!(facts.wezterm_pane, Some(7));
    let later = parse_environ(b"CLAUDE_ACCOUNT=\xff\0CLAUDE_ACCOUNT=ok\0");
    assert_eq!(later.account.as_deref(), Some("ok"));
}

#[test]
fn tasklist_output_that_is_not_utf8_is_read_lossily() {
    let csv = b"\"wezterm-gui.exe\",\"77\",\"Console\xff\"\r\n";
    assert_eq!(fleetops::panes::parse_tasklist_pids(csv), vec![77]);
}
