use fleetops::board::{assemble, format_age, match_pane, sort_rows, SessionRow};
use fleetops::discovery::{LiveSession, NativeStatus, SessionFile};
use fleetops::fold::Status;
use fleetops::panes::{PaneRow, PaneStatus};
use fleetops::telemetry::{TailFacts, Telemetry};

fn pane(pane_id: u64, cwd: &str, name: &str) -> PaneRow {
    PaneRow {
        socket: String::new(),
        pane_id,
        tab_id: 1,
        tab_index: 0,
        status: PaneStatus::Working,
        name: name.to_string(),
        cwd: cwd.to_string(),
        is_active: false,
    }
}

fn session(id: &str, cwd: &str, name: &str, status: NativeStatus) -> LiveSession {
    LiveSession {
        file: SessionFile {
            pid: 1,
            session_id: id.to_string(),
            cwd: cwd.to_string(),
            proc_start: "1".to_string(),
            name: name.to_string(),
            status,
            updated_at_ms: 0,
            version: None,
        },
        account: Some("golf-acct".to_string()),
        wezterm_pane: None,
        pts: None,
    }
}

fn telemetry(facts: Option<TailFacts>, age: Option<u64>) -> Telemetry {
    Telemetry { facts, secs_since_append: age }
}

#[test]
fn match_pane_table() {
    let panes = [
        pane(1, "/a", "one"),
        pane(2, "/b", "two"),
        pane(3, "/b", "three"),
        pane(4, "C:/Users/user", "dupe"),
        pane(5, "C:/Users/user", "dupe"),
    ];
    assert_eq!(match_pane("/z", &["three"], &panes), (Some((1, 3)), false));
    assert_eq!(match_pane("/z", &["no", "two"], &panes), (Some((1, 2)), false));
    assert_eq!(match_pane("/z", &["dupe"], &panes), (None, true));
    assert_eq!(match_pane("/z", &[""], &panes), (None, false));
    assert_eq!(match_pane("/a", &["nomatch"], &panes), (Some((1, 1)), false));
    assert_eq!(match_pane("/b", &["nomatch"], &panes), (None, true));
    assert_eq!(match_pane("/z", &["x"], &panes), (None, false));
}

#[test]
fn assemble_prefers_ai_title_and_sorts_attention_first() {
    let sessions = [
        session("s-idle", "/a", "idle native", NativeStatus::Idle),
        session("s-ask", "/b", "ask native", NativeStatus::Busy),
        session("s-work", "/c", "work native", NativeStatus::Busy),
    ];
    let tel = [
        telemetry(Some(TailFacts::default()), Some(10)),
        telemetry(
            Some(TailFacts {
                pending_question: true,
                ai_title: Some("Pick an option".to_string()),
                context_tokens: Some(120_000),
            }),
            Some(5),
        ),
        telemetry(Some(TailFacts::default()), Some(10)),
    ];
    let rows = assemble(&sessions, &tel, &[pane(7, "/b", "Pick an option")]);
    assert_eq!(rows[0].session_id, "s-ask", "NeedsAnswer sorts first");
    assert_eq!(rows[0].status, Status::NeedsAnswer);
    assert_eq!(rows[0].name, "Pick an option", "ai-title wins");
    assert_eq!(rows[0].pane, Some((1, 7)));
    assert_eq!(rows[0].context_tokens, Some(120_000));
    assert_eq!(rows[1].status, Status::Working);
    assert_eq!(rows[2].status, Status::Idle);
}

#[test]
fn assemble_without_transcript_uses_native_name_and_no_tokens() {
    let sessions = [session("s1", "/a", "native", NativeStatus::Busy)];
    let rows = assemble(&sessions, &[Telemetry::default()], &[]);
    assert_eq!(rows[0].name, "native");
    assert_eq!(rows[0].context_tokens, None);
    assert_eq!(rows[0].status, Status::Working, "no transcript = young, not stalled");
}

#[test]
fn format_age_table() {
    let cases = [(0, "0s"), (59, "59s"), (60, "1m"), (3_599, "59m"), (7_200, "2h"), (90_000, "1d")];
    for (secs, want) in cases {
        assert_eq!(format_age(secs), want, "secs={secs}");
    }
}

#[test]
fn exact_pane_identity_beats_title_and_cwd() {
    let mut s = session("s1", "/b", "two", NativeStatus::Busy);
    s.wezterm_pane = Some(3);
    let panes = [pane(2, "/b", "two"), pane(3, "/x", "other")];
    let rows = assemble(&[s], &[Telemetry::default()], &panes);
    assert_eq!(rows[0].pane, Some((1, 3)));
    assert!(!rows[0].pane_ambiguous);
}

#[test]
fn exact_pane_identity_missing_falls_through_to_title() {
    let mut s = session("s1", "/b", "two", NativeStatus::Busy);
    s.wezterm_pane = Some(99);
    let panes = [pane(2, "/b", "two"), pane(3, "/x", "other")];
    let rows = assemble(&[s], &[Telemetry::default()], &panes);
    assert_eq!(rows[0].pane, Some((1, 2)));
}

#[test]
fn matched_row_carries_socket_tab_index_and_ctx_pct() {
    let mut p = pane(7, "/b", "t");
    p.socket = "C:\\sock-a".to_string();
    p.tab_index = 2;
    let s = session("s1", "/b", "t", NativeStatus::Busy);
    let tel = telemetry(
        Some(TailFacts { context_tokens: Some(100_000), ai_title: None, pending_question: false }),
        Some(1),
    );
    let rows = assemble(&[s], &[tel], &[p]);
    assert_eq!(rows[0].pane_socket.as_deref(), Some("C:\\sock-a"));
    assert_eq!(rows[0].pane_tab_index, Some(2));
    assert_eq!(rows[0].ctx_pct, Some(50));
}

#[test]
fn sort_is_stable_within_a_bucket_and_orders_by_name() {
    let row = |id: &str, name: &str, status: Status| SessionRow {
        session_id: id.to_string(),
        name: name.to_string(),
        account: None,
        status,
        cwd: String::new(),
        context_tokens: None,
        ctx_pct: None,
        secs_since_append: None,
        pane: None,
        pane_socket: None,
        pane_tab_index: None,
        pane_ambiguous: false,
        pts: None,
    };
    let mut rows = vec![
        row("1", "b", Status::Idle),
        row("2", "a", Status::Idle),
        row("3", "z", Status::Stalled),
        row("4", "a", Status::Idle),
    ];
    sort_rows(&mut rows);
    let ids: Vec<&str> = rows.iter().map(|r| r.session_id.as_str()).collect();
    assert_eq!(ids, vec!["3", "2", "4", "1"]);
}
