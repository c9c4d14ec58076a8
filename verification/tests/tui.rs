use fleetops::panes::{PaneRow, PaneStatus};
use fleetops::tui::keys::{KeyCode, KeyInput};
use fleetops::tui::model::{Action, App, Msg};
use fleetops::tui::view::{footer_text, name_cell, status_label, target_cell};

fn row(pane_id: u64, name: &str) -> PaneRow {
    PaneRow {
        socket: String::new(),
        pane_id,
        tab_id: 1,
        tab_index: 0,
        status: PaneStatus::Working,
        name: name.to_string(),
        cwd: "/tui/x".to_string(),
        is_active: false,
    }
}

fn app_with(ids: &[u64]) -> App {
    let mut app = App::default();
    app.update(Msg::Panes(ids.iter().map(|&i| row(i, "t")).collect()));
    app
}

#[test]
fn first_panes_msg_selects_first_row() {
    let app = app_with(&[3, 7, 9]);
    assert_eq!(app.selected, Some(3));
    assert_eq!(app.selected_index(), Some(0));
}

#[test]
fn selection_moves_and_clamps_at_edges() {
    let mut app = app_with(&[3, 7, 9]);
    app.update(Msg::Key(Action::Up));
    assert_eq!(app.selected, Some(3), "clamped at top");
    app.update(Msg::Key(Action::Down));
    app.update(Msg::Key(Action::Down));
    app.update(Msg::Key(Action::Down));
    assert_eq!(app.selected, Some(9), "clamped at bottom");
}

#[test]
fn refresh_preserves_selection_by_pane_id() {
    let mut app = app_with(&[3, 7, 9]);
    app.update(Msg::Key(Action::Down));
    app.update(Msg::Panes(vec![row(3, "a"), row(5, "n"), row(7, "b"), row(9, "c")]));
    assert_eq!(app.selected, Some(7));
}

#[test]
fn vanished_selection_clamps_to_nearest_row() {
    let mut app = app_with(&[3, 7, 9]);
    app.update(Msg::Key(Action::Down));
    app.update(Msg::Key(Action::Down));
    app.update(Msg::Panes(vec![row(3, "a"), row(7, "b")]));
    assert_eq!(app.selected, Some(7), "clamped to last remaining row");
}

#[test]
fn empty_board_clears_selection_and_jump_is_noop() {
    let mut app = app_with(&[3]);
    app.update(Msg::Panes(Vec::new()));
    assert_eq!(app.selected, None);
    app.update(Msg::Key(Action::Jump));
    assert_eq!(app.pending_jump, None);
}

#[test]
fn jump_requests_selected_pane() {
    let mut app = app_with(&[3, 7]);
    app.update(Msg::Key(Action::Jump));
    assert_eq!(app.pending_jump, Some(3));
}

#[test]
fn good_refresh_resets_age_and_clears_error() {
    let mut app = app_with(&[3]);
    app.update(Msg::Tick);
    app.update(Msg::Tick);
    app.update(Msg::Error("boom".into()));
    assert_eq!(app.refresh_age_secs, 2);
    app.update(Msg::Panes(vec![row(3, "t")]));
    assert_eq!(app.refresh_age_secs, 0);
    assert_eq!(app.error, None);
}

#[test]
fn error_is_kept_with_stale_rows() {
    let mut app = app_with(&[3]);
    app.update(Msg::Error("wezterm.exe: timed out after 5s".into()));
    assert_eq!(app.rows.len(), 1, "last rows kept");
    assert!(app.error.as_deref().is_some_and(|e| e.contains("timed out")));
}

#[test]
fn quit_and_refresh_flags() {
    let mut app = app_with(&[3]);
    app.update(Msg::Key(Action::Refresh));
    assert!(app.refresh_requested);
    app.update(Msg::Key(Action::Quit));
    assert!(app.should_quit);
}

fn press(code: KeyCode) -> KeyInput {
    KeyInput { code, ctrl: false, press: true }
}

#[test]
fn key_table() {
    let cases = [
        (press(KeyCode::Char('q')), Some(Action::Quit)),
        (press(KeyCode::Esc), Some(Action::Quit)),
        (KeyInput { code: KeyCode::Char('c'), ctrl: true, press: true }, Some(Action::Quit)),
        (press(KeyCode::Char('j')), Some(Action::Down)),
        (press(KeyCode::Down), Some(Action::Down)),
        (press(KeyCode::Char('k')), Some(Action::Up)),
        (press(KeyCode::Up), Some(Action::Up)),
        (press(KeyCode::Char('r')), Some(Action::Refresh)),
        (press(KeyCode::Enter), Some(Action::Jump)),
        (press(KeyCode::Char('x')), None),
    ];
    for (event, want) in cases {
        assert_eq!(fleetops::tui::keys::map(event), want, "event {event:?}");
    }
}

#[test]
fn release_events_are_ignored() {
    let event = KeyInput { code: KeyCode::Char('q'), ctrl: false, press: false };
    assert_eq!(fleetops::tui::keys::map(event), None);
}

#[test]
fn board_text_cells_and_footer() {
    let mut app = App::default();
    let mut active = row(51, "Review skills");
    active.is_active = true;
    active.status = PaneStatus::Idle;
    active.tab_id = 3;
    app.update(Msg::Panes(vec![row(47, "Resume FleetOps conversation"), active.clone()]));
    assert_eq!(status_label(PaneStatus::Working), "⠿ working");
    assert_eq!(status_label(PaneStatus::Idle), "✳ idle");
    assert_eq!(name_cell(&active), "● Review skills");
    assert_eq!(target_cell(&active), "3:51");
    assert_eq!(footer_text(&app), "2 panes · refreshed 0s ago · j/k move · Enter jump · r refresh · q quit");
    app.update(Msg::Error("wezterm.exe: timed out after 5s".into()));
    assert_eq!(footer_text(&app), "! wezterm.exe: timed out after 5s");
    assert_eq!(footer_text(&App::default()), "0 panes · refreshed 0s ago · j/k move · Enter jump · r refresh · q quit");
}
