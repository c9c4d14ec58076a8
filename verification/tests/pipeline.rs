use fleetops::board::SessionRow;
use fleetops::collect::collect;
use fleetops::discovery::{LiveSession, NativeStatus, ScanStats, SessionFile};
use fleetops::doctor::DoctorFacts;
use fleetops::fold::Status;
use fleetops::json::JsonValue;
use fleetops::panes::{PaneRow, PaneStatus};
use fleetops::paths::state_dir;
use fleetops::snapshot::snapshot_entries;
use fleetops::telemetry::{TailFacts, Telemetry};

fn codex_row(id: &str, name: &str, status: Status) -> SessionRow {
    SessionRow {
        session_id: id.to_string(),
        name: name.to_string(),
        account: Some("codex".to_string()),
        status,
        cwd: "/c".to_string(),
        context_tokens: Some(7),
        ctx_pct: Some(1),
        secs_since_append: Some(3),
        pane: Some((3, 47)),
        pane_socket: Some(String::new()),
        pane_tab_index: Some(1),
        pane_ambiguous: false,
        pts: None,
    }
}

fn session(id: &str, name: &str, status: NativeStatus, pane: Option<u64>) -> LiveSession {
    LiveSession {
        file: SessionFile {
            pid: 1,
            session_id: id.to_string(),
            cwd: "/w".to_string(),
            proc_start: "1".to_string(),
            name: name.to_string(),
            status,
            updated_at_ms: 0,
            version: Some("2.1.206".to_string()),
        },
        account: None,
        wezterm_pane: pane,
        pts: None,
    }
}

#[test]
fn collect_merges_claude_and_codex_rows_in_one_order() {
    let sessions = [session("s1", "b-agent", NativeStatus::Idle, None)];
    let tel = [Telemetry::default()];
    let codex = vec![codex_row("c1", "a-codex", Status::Idle), codex_row("c2", "z", Status::NeedsAnswer)];
    let out = collect(&sessions, ScanStats::default(), &tel, &[], Some("lane down".to_string()), codex);
    let ids: Vec<&str> = out.rows.iter().map(|r| r.session_id.as_str()).collect();
    assert_eq!(ids, vec!["c2", "c1", "s1"]);
    assert_eq!(out.codex_count, 2);
    assert_eq!(out.lane_error.as_deref(), Some("lane down"));
}

#[test]
fn snapshot_entries_follow_the_contract() {
    let mut unmatched = codex_row("s2", "young session", Status::Working);
    unmatched.pane = None;
    unmatched.pane_tab_index = None;
    unmatched.context_tokens = None;
    unmatched.ctx_pct = None;
    unmatched.secs_since_append = None;
    let rows = vec![codex_row("s1", "Pick an option", Status::NeedsAnswer), unmatched];
    let e = snapshot_entries(&rows);
    assert_eq!(e[0].n, 1);
    assert_eq!(e[0].status, "NeedsAnswer");
    assert_eq!(e[0].pane_id, Some(47));
    assert_eq!(e[0].tab_index, Some(1));
    assert_eq!(e[0].age_secs, Some(3));
    assert_eq!(e[1].n, 2);
    assert_eq!(e[1].status, "Working");
    assert_eq!(e[1].pane_id, None);
    assert_eq!(e[1].tab_index, None);
    assert_eq!(e[1].tokens, None);
    assert!(snapshot_entries(&[]).is_empty());
}

#[test]
fn state_dirs_prefer_the_override_then_home() {
    assert_eq!(state_dir(Some("/fixture".to_string()), Some("/home/u".to_string()), ".agent"), "/fixture");
    assert_eq!(state_dir(None, Some("/home/u".to_string()), ".agent"), "/home/u/.agent");
    assert_eq!(state_dir(None, None, ".codex"), "/.codex");
}

#[test]
fn doctor_gathers_per_session_facts() {
    let mut facts = DoctorFacts::default();
    let sessions = [
        session("s1", "one", NativeStatus::Other("pondering".to_string()), Some(5)),
        session("s2", "two", NativeStatus::Busy, None),
    ];
    let tel = [
        Telemetry { facts: Some(TailFacts::default()), secs_since_append: Some(1) },
        Telemetry::default(),
    ];
    let panes = [PaneRow {
        socket: String::new(),
        pane_id: 5,
        tab_id: 1,
        tab_index: 0,
        status: PaneStatus::Working,
        name: String::new(),
        cwd: String::new(),
        is_active: false,
    }];
    facts.add_sessions(&sessions, &tel, &panes);
    assert_eq!(facts.unknown_statuses, vec!["pondering".to_string()]);
    assert_eq!(facts.versions, vec!["2.1.206".to_string()]);
    assert_eq!(facts.exact_panes, 1);
    assert_eq!(facts.sessions, vec![("one".to_string(), true, false, true), ("two".to_string(), false, false, false)]);
}

#[test]
fn json_documents_and_lookups() {
    let v = JsonValue::Object(vec![
        ("a".to_string(), JsonValue::Number(Some(1))),
        ("b".to_string(), JsonValue::Str("x".to_string())),
        ("c".to_string(), JsonValue::Array(vec![JsonValue::Bool(true), JsonValue::Null])),
        ("d".to_string(), JsonValue::Number(None)),
    ]);
    assert_eq!(v.get("a").and_then(JsonValue::as_u64), Some(1));
    assert_eq!(v.get("b").and_then(JsonValue::as_str), Some("x".to_string()));
    assert_eq!(v.get("d").and_then(JsonValue::as_u64), None, "a number that is no u64");
    assert_eq!(v.get("c").and_then(JsonValue::as_bool), None);
    assert!(v.get("zz").is_none());
    assert!(JsonValue::Null.get("a").is_none());
}
