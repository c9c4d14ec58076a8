use fleetops::panes::{
    activate_pane_args, activate_pane_spec, activate_tab_args, activate_tab_spec, classify_title,
    instance_targets, list_args, list_clients_args, list_clients_spec, list_spec,
    live_sockets, merge_instance_results, parse_clients, parse_pane_list,
    parse_tasklist_pids, pick_focused_pane_id, pick_user_dir, resolve_sock_dir, resolve_wezterm,
    short_cwd, sock_dir_from_socket, sock_file_name, socket_env, tasklist_args, tasklist_spec,
    win_to_wsl, wsl_to_win, PaneCache, PaneRow, PaneStatus, WEZTERM, WEZTERM_ABSOLUTE,
};
use fleetops::runner::AppError;

#[test]
fn short_cwd_table() {
    let cases = [
        ("file://wsl.localhost/Ubuntu/tui/fleetops/", "/tui/fleetops"),
        ("file://wsl.localhost/Ubuntu/", "/"),
        ("file:///C:/Users/user/", "C:/Users/user"),
        ("", ""),
        ("weird", "weird"),
    ];
    for (input, want) in cases {
        assert_eq!(short_cwd(input), want, "cwd {input:?}");
    }
}

#[test]
fn argv_builders() {
    assert_eq!(list_args(), ["cli", "--no-auto-start", "list", "--format", "json"]);
    assert_eq!(activate_pane_args(42), ["cli", "--no-auto-start", "activate-pane", "--pane-id", "42"]);
    assert_eq!(activate_tab_args(7), ["cli", "--no-auto-start", "activate-tab", "--tab-id", "7"]);
}

fn row(id: u64) -> PaneRow {
    PaneRow {
        socket: "C:\\sock-a".to_string(),
        pane_id: id,
        tab_id: 1,
        tab_index: 1,
        status: PaneStatus::Working,
        name: "x".to_string(),
        cwd: "/x".to_string(),
        is_active: false,
    }
}

fn timeout() -> Result<Vec<PaneRow>, AppError> {
    Err(AppError::Timeout { program: WEZTERM.to_string(), seconds: 5 })
}

#[test]
fn merge_surfaces_partial_instance_failure_and_keeps_total_failure_an_error() {
    let (rows, err) = merge_instance_results(vec![Ok(vec![row(1)]), timeout()]).expect("partial is Ok");
    assert_eq!(rows.len(), 1);
    assert!(err.is_some_and(|e| e.contains("timed out")));
    let (rows, err) = merge_instance_results(vec![Ok(vec![row(1)]), Ok(vec![row(2)])]).expect("clean merge");
    assert_eq!(rows.len(), 2);
    assert_eq!(err, None);
    assert!(merge_instance_results(vec![timeout(), timeout()]).is_err());
}

#[test]
fn pane_cache_never_overwrites_last_good_with_a_partial_list() {
    let full = vec![
        PaneRow {
            socket: "C:\\sock-a".to_string(),
            pane_id: 1,
            tab_id: 1,
            tab_index: 1,
            status: PaneStatus::Working,
            name: "a".to_string(),
            cwd: "/a".to_string(),
            is_active: false,
        },
        PaneRow {
            socket: "C:\\sock-b".to_string(),
            pane_id: 1,
            tab_id: 1,
            tab_index: 1,
            status: PaneStatus::Idle,
            name: "b".to_string(),
            cwd: "/b".to_string(),
            is_active: false,
        },
    ];
    let mut cache = PaneCache::default();
    let (got, err) = cache.fold(Ok((full.clone(), None)));
    assert_eq!(got.len(), 2);
    assert_eq!(err, None);
    let partial = vec![full[0].clone()];
    let (got, err) = cache.fold(Ok((partial, Some("sock-b: timed out".to_string()))));
    assert_eq!(got, full, "stale full list beats fresh partial list");
    assert!(err.is_some_and(|e| e.contains("timed out")));
    let mut cold = PaneCache::default();
    let (got, err) = cold.fold(Ok((vec![full[0].clone()], Some("e".to_string()))));
    assert_eq!(got.len(), 1);
    assert!(err.is_some());
}

#[test]
fn pane_cache_keeps_last_good_list_on_lane_error() {
    let mut cache = PaneCache::default();
    let rows = vec![PaneRow {
        socket: String::new(),
        pane_id: 1,
        tab_id: 1,
        tab_index: 1,
        status: PaneStatus::Working,
        name: "x".to_string(),
        cwd: "/x".to_string(),
        is_active: false,
    }];
    let (got, err) = cache.fold(Ok((rows.clone(), None)));
    assert_eq!(got, rows);
    assert_eq!(err, None);
    let (got, err) = cache.fold(Err(AppError::Timeout { program: WEZTERM.to_string(), seconds: 5 }));
    assert_eq!(got, rows, "stale pane list survives a lane error");
    assert!(err.is_some_and(|e| e.contains("timed out")));
    let (got, err) = cache.fold(Ok((Vec::new(), None)));
    assert!(got.is_empty());
    assert_eq!(err, None);
}

#[test]
fn tasklist_csv_parses_to_pids() {
    let csv = b"\"Image Name\",\"PID\",\"Session Name\",\"Session#\",\"Mem Usage\"\r\n\
\"wezterm-gui.exe\",\"18840\",\"Console\",\"1\",\"139,280 K\"\r\n\
\"wezterm-gui.exe\",\"3428\",\"Console\",\"1\",\"218,680 K\"\r\n\
garbage line\r\n";
    assert_eq!(parse_tasklist_pids(csv), vec![18_840, 3_428]);
    assert!(parse_tasklist_pids(b"INFO: No tasks are running.\r\n").is_empty());
}

#[test]
fn tasklist_image_match_ignores_ascii_case() {
    assert_eq!(parse_tasklist_pids(b"\"WEZTERM-GUI.EXE\",\"9\",\"Console\"\n"), vec![9]);
    // The last field keeps its closing quote, so a two-field line has no readable pid.
    assert!(parse_tasklist_pids(b"\"WEZTERM-GUI.EXE\",\"9\"\n").is_empty());
    assert!(parse_tasklist_pids(b"\"wezterm-gui.exe\",\"-9\",\"Console\"\n").is_empty());
    assert!(parse_tasklist_pids(b"\"wezterm-gui.exe\"\n").is_empty());
}

#[test]
fn pick_focused_pane_id_prefers_the_least_idle_client() {
    assert_eq!(pick_focused_pane_id(&[(21, 3), (5, 100)]), Some(21));
    assert_eq!(pick_focused_pane_id(&[(5, 100), (21, 3)]), Some(21));
    assert_eq!(pick_focused_pane_id(&[]), None);
    assert_eq!(pick_focused_pane_id(&[(1, 4), (2, 4)]), Some(1), "first of equally idle clients");
}

#[test]
fn jump_specs_carry_the_socket_env() {
    let tab = activate_tab_spec("C:\\sock-a", 7);
    assert_eq!(tab.args, ["cli", "--no-auto-start", "activate-tab", "--tab-id", "7"]);
    assert_eq!(tab.env[0].1, "C:\\sock-a");
    let pane = activate_pane_spec("", 9);
    assert!(pane.env.is_empty(), "own instance needs no socket env");
}

#[test]
fn resolve_sock_dir_env_socket_is_authoritative_both_forms() {
    let got = resolve_sock_dir(Some("C:\\Users\\user\\.local\\share\\wezterm\\gui-sock-42"), &[], None).expect("env socket resolves");
    assert_eq!(got.win, "C:\\Users\\user\\.local\\share\\wezterm");
    assert_eq!(got.wsl, "/mnt/c/Users/user/.local/share/wezterm");
    let got = resolve_sock_dir(Some("/mnt/c/Users/user/.local/share/wezterm/gui-sock-42"), &[], None).expect("wsl-form env socket resolves");
    assert_eq!(got.wsl, "/mnt/c/Users/user/.local/share/wezterm");
    assert_eq!(got.win, "C:\\Users\\user\\.local\\share\\wezterm");
}

#[test]
fn path_converters_round_trip() {
    assert_eq!(wsl_to_win("/mnt/c/Users/user/x").unwrap(), "C:\\Users\\user\\x");
    assert_eq!(win_to_wsl("C:\\Users\\user\\x").unwrap(), "/mnt/c/Users/user/x");
    assert_eq!(win_to_wsl("C:/Users/user/x").unwrap(), "/mnt/c/Users/user/x");
    assert!(wsl_to_win("/home/user/x").is_none());
    assert!(win_to_wsl("not-a-win-path").is_none());
}

#[test]
fn classify_title_table() {
    let cases: &[(&str, Option<(PaneStatus, &str)>)] = &[
        ("⠂ Fix the bug", Some((PaneStatus::Working, "Fix the bug"))),
        ("⠐ Resume", Some((PaneStatus::Working, "Resume"))),
        ("⣿dense", Some((PaneStatus::Working, "dense"))),
        ("✳ Review skills", Some((PaneStatus::Idle, "Review skills"))),
        ("✳", Some((PaneStatus::Idle, ""))),
        ("wslhost.exe", None),
        ("", None),
        ("→ arrow title", None),
        ("plain shell", None),
    ];
    for (title, want) in cases {
        let got = classify_title(title);
        let want = want.map(|(s, n)| (s, n.to_string()));
        assert_eq!(got, want, "title {title:?}");
    }
}

#[test]
fn unknown_fields_and_missing_optionals_are_tolerated() {
    let json = r#"[{"pane_id": 7, "tab_id": 1, "title": "⠢ x", "novel_field": {"a": 1}}]"#;
    let rows = parse_pane_list(json.as_bytes(), "").expect("tolerant parse");
    assert_eq!(rows.len(), 1);
    assert_eq!(rows[0].pane_id, 7);
    assert_eq!(rows[0].cwd, "");
    assert!(!rows[0].is_active);
}

#[test]
fn garbage_input_is_a_parse_error() {
    assert!(matches!(parse_pane_list(b"not json", ""), Err(AppError::Parse(_))));
    assert!(matches!(parse_pane_list(br#"[{"tab_id": 1}]"#, ""), Err(AppError::Parse(_))));
    assert!(matches!(parse_pane_list(br#"{"pane_id": 1}"#, ""), Err(AppError::Parse(_))));
}

#[test]
fn pane_list_sorts_by_pane_id_indexes_tabs_per_window_and_stamps_the_instance() {
    let json = r#"[
        {"pane_id": 9, "tab_id": 1, "window_id": 0, "title": "⠂ a", "cwd": "file://wsl.localhost/Ubuntu/w/"},
        {"pane_id": 4, "tab_id": 2, "window_id": 0, "title": "bash"},
        {"pane_id": 3, "tab_id": 3, "window_id": 0, "title": "✳ c", "is_active": true},
        {"pane_id": 5, "tab_id": 8, "window_id": 1, "title": "✳ d"},
        {"pane_id": 6, "tab_id": 1, "window_id": 0, "title": "⠂ e"}
    ]"#;
    let rows = parse_pane_list(json.as_bytes(), "C:\\sock-a").expect("parses");
    let ids: Vec<u64> = rows.iter().map(|r| r.pane_id).collect();
    assert_eq!(ids, vec![3, 5, 6, 9]);
    let tab_of = |id: u64| rows.iter().find(|r| r.pane_id == id).unwrap().tab_index;
    assert_eq!(tab_of(9), 0);
    assert_eq!(tab_of(6), 0, "same tab, same index");
    assert_eq!(tab_of(3), 2, "the other tab counts");
    assert_eq!(tab_of(5), 0, "indices count per window");
    assert!(rows.iter().all(|r| r.socket == "C:\\sock-a"));
    assert_eq!(rows.iter().find(|r| r.pane_id == 9).unwrap().cwd, "/w");
    assert!(rows.iter().find(|r| r.pane_id == 3).unwrap().is_active);
}

#[test]
fn parse_clients_extracts_focused_pane_and_idle_secs() {
    let json = br#"[{"username":"user","hostname":"host","pid":12848,"connection_elapsed":{"secs":25969,"nanos":7},"idle_time":{"secs":3,"nanos":7},"workspace":"default","focused_pane_id":21,"ssh_auth_sock":null},{"pid":2,"idle_time":{"secs":100,"nanos":0},"focused_pane_id":5}]"#;
    assert_eq!(parse_clients(json), vec![(21, 3), (5, 100)]);
    let j2 = br#"[{"idle_time":{"secs":1}},{"focused_pane_id":9}]"#;
    assert_eq!(parse_clients(j2), vec![(9, u64::MAX)]);
    assert!(parse_clients(b"not json").is_empty());
    assert!(parse_clients(b"[]").is_empty());
}

#[test]
fn command_specs_target_their_instance() {
    let spec = list_spec("C:\\sock-b");
    assert_eq!(spec.program, WEZTERM);
    assert_eq!(spec.args, list_args());
    assert_eq!(spec.timeout_secs, 5);
    assert_eq!(
        spec.env,
        vec![
            ("WEZTERM_UNIX_SOCKET".to_string(), "C:\\sock-b".to_string()),
            ("WSLENV".to_string(), "WEZTERM_UNIX_SOCKET/w".to_string()),
        ]
    );
    assert_eq!(socket_env("C:\\s"), vec![
        ("WEZTERM_UNIX_SOCKET".to_string(), "C:\\s".to_string()),
        ("WSLENV".to_string(), "WEZTERM_UNIX_SOCKET/w".to_string()),
    ]);
    assert_eq!(list_clients_spec("").args, list_clients_args());
    assert!(list_clients_spec("").env.is_empty());
    let t = tasklist_spec();
    assert_eq!(t.program, "tasklist.exe");
    assert_eq!(t.args, tasklist_args());
}

#[test]
fn wezterm_program_resolution() {
    assert_eq!(resolve_wezterm(true, true, WEZTERM_ABSOLUTE), WEZTERM);
    assert_eq!(resolve_wezterm(false, true, WEZTERM_ABSOLUTE), WEZTERM_ABSOLUTE);
    assert_eq!(resolve_wezterm(false, false, WEZTERM_ABSOLUTE), WEZTERM);
}

#[test]
fn sock_dirs_from_candidates() {
    let alice = ("/r/alice/.local/share/wezterm".to_string(), Some((9_000i64, 0u32)));
    let rob = ("/r/rob/.local/share/wezterm".to_string(), Some((1_000i64, 0u32)));
    assert_eq!(pick_user_dir(&[alice.clone(), rob.clone()], Some("rob")), "/r/rob/.local/share/wezterm");
    assert_eq!(pick_user_dir(&[alice.clone(), rob.clone()], Some("nobody")), "/r/alice/.local/share/wezterm");
    assert_eq!(pick_user_dir(&[alice.clone(), rob.clone()], None), "/r/alice/.local/share/wezterm");
    let one = resolve_sock_dir(None, &[rob.clone()], None).expect("one candidate");
    assert_eq!(one.wsl, "/r/rob/.local/share/wezterm");
    assert_eq!(one.win, "/r/rob/.local/share/wezterm", "not under /mnt — Windows form falls back");
    assert_eq!(resolve_sock_dir(None, &[], Some("rob")), None);
    assert_eq!(resolve_sock_dir(Some(""), &[], None), None);
    assert!(sock_dir_from_socket("gui-sock-1").is_none());
}

#[test]
fn live_instances_and_the_own_instance_fallback() {
    assert_eq!(sock_file_name(42), "gui-sock-42");
    assert_eq!(live_sockets("C:\\w", &[(1, true), (2, false), (3, true)]), vec!["C:\\w\\gui-sock-1".to_string(), "C:\\w\\gui-sock-3".to_string()]);
    assert_eq!(instance_targets(Vec::new()), vec![String::new()]);
    assert_eq!(instance_targets(vec!["a".to_string()]), vec!["a".to_string()]);
}

#[test]
fn socket_stats_count_found_stale_and_foreign_sockets() {
    let entries = vec![
        ("gui-sock-18840".to_string(), false),
        ("gui-sock-3428".to_string(), false),
        ("gui-sock-77".to_string(), true),
        ("gui-sock-x".to_string(), false),
        ("wezterm.log".to_string(), false),
    ];
    let stats = fleetops::panes::socket_stats(&entries, &[18_840, 77]);
    assert_eq!(stats.sockets_found, 4);
    assert_eq!(stats.sockets_stale, 2, "3428 is not live; gui-sock-x names no pid");
    assert_eq!(stats.sockets_foreign_uid, 1);
    assert_eq!(stats.instances_failed, 0);
}

#[test]
fn count_failures_counts_the_failed_instances() {
    let results: Vec<Result<Vec<PaneRow>, AppError>> = vec![
        Ok(Vec::new()),
        Err(AppError::Parse("x".to_string())),
        Err(AppError::Timeout { program: "wezterm.exe".to_string(), seconds: 5 }),
    ];
    assert_eq!(fleetops::panes::count_failures(&results), 2);
    assert_eq!(fleetops::panes::count_failures(&[]), 0);
}
