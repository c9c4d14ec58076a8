//! The key table: key presses map to actions; releases and everything unmapped are ignored.
use vstd::prelude::*;

use super::model::Action;

verus! {

/// The keys the board distinguishes.
#[derive(Debug, Clone, Copy, PartialEq, Eq, Structural)]
pub enum KeyCode {
    /// A character key.
    Char(char),
    /// Escape.
    Esc,
    /// Arrow up.
    Up,
    /// Arrow down.
    Down,
    /// Enter.
    Enter,
    /// Any other key.
    Other,
}

/// One key event.
#[derive(Debug, Clone, Copy, PartialEq, Eq, Structural)]
pub struct KeyInput {
    /// The key.
    pub code: KeyCode,
    /// Control held.
    pub ctrl: bool,
    /// A press (not a release or repeat).
    pub press: bool,
}

/// The table: only presses map; Ctrl-C, `q` and Esc quit; `j` / Down and `k` / Up move;
/// `r` refreshes; Enter jumps.
pub open spec fn map_spec(key: KeyInput) -> Option<Action> {
    if !key.press {
        None
    } else if key.ctrl && key.code == KeyCode::Char('c') {
        Some(Action::Quit)
    } else {
        match key.code {
            KeyCode::Char('q') | KeyCode::Esc => Some(Action::Quit),
            KeyCode::Char('j') | KeyCode::Down => Some(Action::Down),
            KeyCode::Char('k') | KeyCode::Up => Some(Action::Up),
            KeyCode::Char('r') => Some(Action::Refresh),
            KeyCode::Enter => Some(Action::Jump),
            _ => None,
        }
    }
}

/// Map a key event to a user action; `None` = ignored.
pub fn map(key: KeyInput) -> (r: Option<Action>)
    ensures
        r == map_spec(key),
{
    if !key.press {
        return None;
    }
    if key.ctrl && key.code == KeyCode::Char('c') {
        return Some(Action::Quit);
    }
    match key.code {
        KeyCode::Char('q') | KeyCode::Esc => Some(Action::Quit),
        KeyCode::Char('j') | KeyCode::Down => Some(Action::Down),
        KeyCode::Char('k') | KeyCode::Up => Some(Action::Up),
        KeyCode::Char('r') => Some(Action::Refresh),
        KeyCode::Enter => Some(Action::Jump),
        _ => None,
    }
}

} // verus!
