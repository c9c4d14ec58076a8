use fleetops::codex::{
    build_row, codex_procs, codex_rows, fold_rollout_tail, is_codex_tui, is_rollout_file_name,
    join_rollouts, parse_session_meta, path_for, rollout_candidates, select_rollout_files,
    tail_paths, CodexProc, ProcInfo, RolloutCandidate, RolloutFile, SessionMeta, MAX_ROLLOUTS,
};
use fleetops::fold::{Status, STALL_AFTER_SECS};
use fleetops::panes::{PaneRow, PaneStatus};
use fleetops::platform::{AcqResult, ProcSnapshot, SnapshotOutcome, StartId};

fn argv(args: &[&str]) -> Vec<Vec<u8>> {
    args.iter().map(|a| a.as_bytes().to_vec()).collect()
}

#[test]
fn is_codex_tui_table() {
    let cases: &[(&str, &[&str], Option<&str>, bool)] = &[
        ("codex\n", &["codex"], Some("/dev/pts/4"), true),
        ("codex\n", &["codex", "exec"], Some("/dev/pts/4"), false),
        ("codex\n", &["codex", "--version"], Some("/dev/pts/4"), false),
        ("node\n", &["codex"], Some("/dev/pts/4"), false),
        ("codex\n", &["codex"], Some("/dev/null"), false),
        ("codex\n", &["codex"], None, false),
    ];
    for (comm, args, fd1, want) in cases {
        assert_eq!(is_codex_tui(comm, &argv(args), *fd1, "/dev/pts/"), *want, "comm={comm:?} argv={args:?} fd1={fd1:?}");
    }
}

#[test]
fn is_codex_tui_macos_shapes() {
    assert!(is_codex_tui("codex", &argv(&["codex"]), Some("/dev/ttys004"), "/dev/ttys"));
    assert!(!is_codex_tui("codex", &argv(&["codex"]), Some("/dev/pts/4"), "/dev/ttys"));
    assert!(!is_codex_tui("codex", &argv(&["codex", "exec"]), Some("/dev/ttys004"), "/dev/ttys"));
}

#[test]
fn parse_session_meta_fixture_line() {
    let line = br#"{"timestamp":"2026-07-10T12:00:00Z","type":"session_meta","payload":{"id":"7c9e6679-7425-40de-944b-e07fc1f90ae7","cwd":"/home/user/x","originator":"codex-tui","cli_version":"0.144.1","source":"cli"}}"#;
    let want = SessionMeta { id: "7c9e6679-7425-40de-944b-e07fc1f90ae7".to_string(), cwd: "/home/user/x".to_string() };
    assert_eq!(parse_session_meta(line), Some(want));
}

#[test]
fn parse_session_meta_rejects_wrong_type_and_garbage() {
    assert!(parse_session_meta(b"not json").is_none());
    assert!(parse_session_meta(br#"{"type":"task_started"}"#).is_none());
}

fn event_line(event_type: &str) -> String {
    format!(r#"{{"timestamp":"2026-07-10T00:00:00Z","type":"event_msg","payload":{{"type":"{event_type}"}}}}"#)
}

fn response_item_line(item_type: &str) -> String {
    format!(r#"{{"timestamp":"2026-07-10T00:00:00Z","type":"response_item","payload":{{"type":"{item_type}","role":"assistant"}}}}"#)
}

fn token_count_line(total: u64, window: u64) -> String {
    format!(
        r#"{{"timestamp":"2026-07-10T00:00:00Z","type":"event_msg","payload":{{"type":"token_count","info":{{"total_token_usage":{{"input_tokens":1,"cached_input_tokens":2,"output_tokens":3,"reasoning_output_tokens":4,"total_tokens":{total}}},"model_context_window":{window}}},"rate_limits":null}}}}"#
    )
}

fn user_message_line(text: &str) -> String {
    format!(
        r#"{{"timestamp":"2026-07-10T00:00:00Z","type":"event_msg","payload":{{"type":"user_message","message":"{text}","images":[],"local_images":[]}}}}"#
    )
}

#[test]
fn fold_last_event_task_complete_is_idle() {
    let tail = [event_line("task_started"), event_line("task_complete")].join("\n");
    assert_eq!(fold_rollout_tail(tail.as_bytes(), Some(5)).status, Status::Idle);
}

#[test]
fn fold_task_started_after_complete_within_stall_window_is_working() {
    let tail = [event_line("task_complete"), event_line("task_started")].join("\n");
    assert_eq!(fold_rollout_tail(tail.as_bytes(), Some(10)).status, Status::Working);
}

#[test]
fn fold_response_item_after_complete_is_activity_too() {
    let tail = [event_line("task_complete"), response_item_line("message")].join("\n");
    assert_eq!(fold_rollout_tail(tail.as_bytes(), Some(10)).status, Status::Working);
}

#[test]
fn fold_task_started_after_complete_past_stall_window_is_stalled() {
    let tail = [event_line("task_complete"), event_line("task_started")].join("\n");
    assert_eq!(fold_rollout_tail(tail.as_bytes(), Some(STALL_AFTER_SECS + 1)).status, Status::Stalled);
}

#[test]
fn fold_approval_request_family_with_no_later_complete_is_needs_answer() {
    for kind in ["exec_approval_request", "apply_patch_approval_request", "elicitation_request", "request_user_input"] {
        let tail = [event_line("task_started"), event_line(kind)].join("\n");
        assert_eq!(fold_rollout_tail(tail.as_bytes(), Some(5)).status, Status::NeedsAnswer, "event kind {kind}");
    }
}

#[test]
fn fold_garbage_lines_are_skipped_not_fatal() {
    let tail = ["not json at all".to_string(), event_line("task_complete")].join("\n");
    assert_eq!(fold_rollout_tail(tail.as_bytes(), Some(5)).status, Status::Idle);
}

#[test]
fn fold_token_count_yields_tokens_and_ctx_pct_from_model_context_window() {
    let tail = token_count_line(120_000, 200_000);
    let facts = fold_rollout_tail(tail.as_bytes(), Some(5));
    assert_eq!(facts.tokens, Some(120_000));
    assert_eq!(facts.ctx_pct, Some(60));
}

#[test]
fn fold_last_user_message_becomes_the_name_truncated_to_60() {
    let long = "x".repeat(80);
    let tail = user_message_line(&long);
    let facts = fold_rollout_tail(tail.as_bytes(), Some(5));
    assert_eq!(facts.name.as_deref().map(str::len), Some(60));
}

#[test]
fn fold_last_user_message_uses_only_the_first_line() {
    let tail = user_message_line("first line\\nsecond line should never appear");
    let facts = fold_rollout_tail(tail.as_bytes(), Some(5));
    assert_eq!(facts.name.as_deref(), Some("first line"));
}

#[test]
fn fold_token_count_caps_ctx_pct_and_skips_a_zero_window() {
    let facts = fold_rollout_tail(token_count_line(u64::MAX, 1).as_bytes(), None);
    assert_eq!(facts.ctx_pct, Some(255));
    let facts = fold_rollout_tail(token_count_line(5, 0).as_bytes(), None);
    assert_eq!(facts.tokens, Some(5));
    assert_eq!(facts.ctx_pct, None);
}

const SLACK_SECS: u64 = 600;

fn codex_proc(cwd: &str, start_wallclock_secs: u64) -> CodexProc {
    CodexProc { cwd: cwd.to_string(), start_wallclock_secs }
}

fn candidate(session_id: &str, cwd: &str, mtime_secs: u64) -> RolloutCandidate {
    RolloutCandidate { session_id: session_id.to_string(), cwd: cwd.to_string(), mtime_secs }
}

#[test]
fn join_picks_the_newest_same_cwd_candidate() {
    let procs = [codex_proc("/a", 1_000)];
    let rollouts = [candidate("old", "/a", 500), candidate("new", "/a", 900)];
    assert_eq!(join_rollouts(&procs, &rollouts), vec![Some(&rollouts[1])]);
}

#[test]
fn join_never_joins_processes_sharing_a_cwd() {
    let procs = [codex_proc("/b", 1_000), codex_proc("/b", 1_000)];
    let rollouts = [candidate("only", "/b", 900)];
    assert_eq!(join_rollouts(&procs, &rollouts), vec![None, None]);
}

#[test]
fn join_rejects_a_rollout_older_than_start_minus_slack() {
    let procs = [codex_proc("/c", 10_000)];
    let rollouts = [candidate("stale", "/c", 10_000 - SLACK_SECS - 1)];
    assert_eq!(join_rollouts(&procs, &rollouts), vec![None]);
}

#[test]
fn join_accepts_a_rollout_exactly_at_the_slack_boundary() {
    let procs = [codex_proc("/d", 10_000)];
    let rollouts = [candidate("boundary", "/d", 10_000 - SLACK_SECS)];
    assert_eq!(join_rollouts(&procs, &rollouts), vec![Some(&rollouts[0])]);
}

#[test]
fn join_with_no_matching_cwd_is_unjoined() {
    let procs = [codex_proc("/e", 1_000)];
    let rollouts = [candidate("elsewhere", "/z", 900)];
    assert_eq!(join_rollouts(&procs, &rollouts), vec![None]);
}

#[test]
fn join_of_equally_new_rollouts_takes_the_last_listed() {
    let procs = [codex_proc("/a", 100)];
    let rollouts = [candidate("first", "/a", 50), candidate("second", "/a", 50)];
    assert_eq!(join_rollouts(&procs, &rollouts), vec![Some(&rollouts[1])]);
}

#[test]
fn rollout_file_names() {
    assert!(is_rollout_file_name("rollout-2026-07-10T00-00-00-x.jsonl"));
    assert!(!is_rollout_file_name("rollout-x.json"));
    assert!(!is_rollout_file_name("session-x.jsonl"));
    assert!(!is_rollout_file_name(".jsonl"));
}

#[test]
fn rollouts_are_selected_newest_mtime_first_and_capped() {
    let mut files: Vec<(String, u64)> = (0..MAX_ROLLOUTS).map(|i| (format!("filler-{i:04}"), 100)).collect();
    files.push(("long-running".to_string(), 500));
    let picked = select_rollout_files(files);
    assert_eq!(picked.len(), MAX_ROLLOUTS);
    assert_eq!(picked[0].0, "long-running", "the freshest mtime survives the cap");
    assert_eq!(picked[1].0, "filler-0000", "equal mtimes keep listing order");
}

fn meta_line(id: &str, cwd: &str) -> Vec<u8> {
    format!(r#"{{"timestamp":"t","type":"session_meta","payload":{{"id":"{id}","cwd":"{cwd}"}}}}"#).into_bytes()
}

#[test]
fn rollout_candidates_skip_unreadable_and_non_meta_files() {
    let files = vec![
        RolloutFile { path: "/r/a.jsonl".to_string(), mtime_secs: 9, first_line: Some(meta_line("a", "/w")) },
        RolloutFile { path: "/r/b.jsonl".to_string(), mtime_secs: 8, first_line: None },
        RolloutFile { path: "/r/c.jsonl".to_string(), mtime_secs: 7, first_line: Some(event_line("task_started").into_bytes()) },
    ];
    let (cands, paths) = rollout_candidates(files);
    assert_eq!(cands, vec![candidate("a", "/w", 9)]);
    assert_eq!(path_for(&paths, "a").as_deref(), Some("/r/a.jsonl"));
    assert_eq!(path_for(&paths, "b"), None);
}

fn info(pid: u32, cwd: &str, pane: Option<u64>, pts: Option<&str>) -> ProcInfo {
    ProcInfo { pid, cwd: cwd.to_string(), pts: pts.map(str::to_string), wezterm_pane: pane, start_wallclock_secs: 1_000 }
}

fn pane(pane_id: u64) -> PaneRow {
    PaneRow {
        socket: String::new(),
        pane_id,
        tab_id: 3,
        tab_index: 2,
        status: PaneStatus::Working,
        name: String::new(),
        cwd: String::new(),
        is_active: false,
    }
}

#[test]
fn joined_row_reads_its_tail_and_untitled_is_not_no_prompt() {
    let p = info(500, "/w", Some(27), Some("/dev/pts/8"));
    let c = candidate("11111111", "/w", 990);
    let tail = event_line("task_complete");
    let row = build_row(1_000, &p, Some(&c), tail.as_bytes(), false, &[pane(27)]);
    assert_eq!(row.account.as_deref(), Some("codex"));
    assert_eq!(row.pts.as_deref(), Some("/dev/pts/8"));
    assert_eq!(row.pane, Some((3, 27)), "matched via WEZTERM_PANE=27");
    assert_eq!(row.status, Status::Idle);
    assert_eq!(row.name, "codex (untitled)");
    assert_eq!(row.secs_since_append, Some(10));
    assert_eq!(row.session_id, "11111111");
}

#[test]
fn placeholder_rows_name_why_they_are_unjoined() {
    let p = info(600, "/w", None, Some("/dev/pts/9"));
    let row = build_row(1_000, &p, None, b"", false, &[]);
    assert_eq!(row.name, "codex — no prompt yet");
    assert_eq!(row.session_id, "codex-pid-600");
    assert_eq!(row.status, Status::Idle);
    assert_eq!(row.pts, None, "no pane, no highlight target");
    let shared = build_row(1_000, &p, None, b"", true, &[]);
    assert_eq!(shared.name, "codex — session ambiguous");
}

#[test]
fn codex_rows_join_and_tail_paths_agree() {
    let procs = [info(1, "/a", None, None), info(2, "/b", None, None), info(3, "/b", None, None)];
    let rollouts = [candidate("ra", "/a", 995), candidate("rb", "/b", 995)];
    let paths = vec![("ra".to_string(), "/x/ra.jsonl".to_string()), ("rb".to_string(), "/x/rb.jsonl".to_string())];
    let want = tail_paths(&procs, &rollouts, &paths);
    assert_eq!(want, vec![Some("/x/ra.jsonl".to_string()), None, None]);
    let tails = vec![user_message_line("hello").into_bytes(), Vec::new(), Vec::new()];
    let rows = codex_rows(1_000, &procs, &rollouts, &tails, &[]);
    assert_eq!(rows[0].name, "hello");
    assert_eq!(rows[1].name, "codex — session ambiguous");
    assert_eq!(rows[2].name, "codex — session ambiguous");
}

fn snap(comm: &str, argv_: &[&str], fd1: AcqResult<Option<String>>, env: AcqResult<Vec<u8>>, cwd: Option<&str>) -> SnapshotOutcome {
    SnapshotOutcome::Present(Box::new(ProcSnapshot {
        start_id: StartId::Linux("1".to_string()),
        start_epoch_secs: 42,
        comm: Some(comm.to_string()),
        argv: AcqResult::Acquired(argv(argv_)),
        cwd: cwd.map(str::to_string),
        env_block: env,
        fd1_pty: fd1,
    }))
}

#[test]
fn codex_procs_keep_live_tuis_and_tally_acquisition_failures() {
    let snaps = vec![
        (1, snap("codex", &["codex"], AcqResult::Acquired(Some("/dev/pts/1".to_string())), AcqResult::Acquired(b"WEZTERM_PANE=5\0".to_vec()), Some("/w"))),
        (2, SnapshotOutcome::Raced),
        (3, SnapshotOutcome::Gone),
        (4, snap("codex", &["codex", "exec"], AcqResult::Denied, AcqResult::Denied, Some("/w"))),
        (5, snap("codex", &["codex"], AcqResult::Acquired(Some("/dev/pts/2".to_string())), AcqResult::Unavailable, None)),
    ];
    let (procs, stats) = codex_procs(snaps, "/dev/pts/");
    assert_eq!(procs.len(), 1);
    assert_eq!(procs[0].pid, 1);
    assert_eq!(procs[0].wezterm_pane, Some(5));
    assert_eq!(procs[0].start_wallclock_secs, 42);
    assert_eq!(stats.identity_raced, 1);
    assert_eq!(stats.fd1_denied, 1, "counted even for a process that is no TUI");
    assert_eq!(stats.env_unavailable, 1, "env tallied for a TUI even without a cwd");
    assert_eq!(stats.env_denied, 0, "env of a non-TUI is not tallied");
}

#[test]
fn a_garbage_line_folds_as_if_absent() {
    let a = token_count_line(120_000, 200_000);
    let b = event_line("task_started");
    let with = [a.clone(), "{not json".to_string(), b.clone()].join("\n");
    let without = [a, b].join("\n");
    assert_eq!(
        fold_rollout_tail(with.as_bytes(), Some(400)),
        fold_rollout_tail(without.as_bytes(), Some(400))
    );
    assert_eq!(fold_rollout_tail(with.as_bytes(), Some(400)).status, Status::Stalled);
}
