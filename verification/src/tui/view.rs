//! The text the board draws, as a function of the model: the status label of a row, its name
//! cell (with the active-pane marker), its `tab:pane` cell, and the footer (pane count,
//! refresh age and key hints — or the last error instead).
use vstd::prelude::*;

use crate::panes::{PaneRow, PaneRowView, PaneStatus};
use crate::text::{dec, push_dec, push_str, string_from};

use super::model::{App, AppView};

verus! {

/// The status column's label.
pub open spec fn status_label_spec(status: PaneStatus) -> Seq<char> {
    match status {
        PaneStatus::Working => "⠿ working"@,
        PaneStatus::Idle => "✳ idle"@,
    }
}

/// The status column's label.
pub fn status_label(status: PaneStatus) -> (r: &'static str)
    ensures
        r@ == status_label_spec(status),
{
    match status {
        PaneStatus::Working => "⠿ working",
        PaneStatus::Idle => "✳ idle",
    }
}

/// The session column: `● ` before the active pane's name.
pub open spec fn name_cell_spec(r: PaneRowView) -> Seq<char> {
    if r.is_active {
        "● "@ + r.name
    } else {
        r.name
    }
}

/// The session column of a row.
pub fn name_cell(r: &PaneRow) -> (s: String)
    ensures
        s@ == name_cell_spec(r@),
{
    if r.is_active {
        let mut s = string_from("● ");
        push_str(&mut s, r.name.as_str());
        s
    } else {
        string_from(r.name.as_str())
    }
}

/// The `TAB:PANE` column.
pub open spec fn target_cell_spec(r: PaneRowView) -> Seq<char> {
    dec(r.tab_id as nat) + ":"@ + dec(r.pane_id as nat)
}

/// The `TAB:PANE` column of a row.
pub fn target_cell(r: &PaneRow) -> (s: String)
    ensures
        s@ == target_cell_spec(r@),
{
    let mut s = String::new();
    push_dec(&mut s, r.tab_id);
    push_str(&mut s, ":");
    push_dec(&mut s, r.pane_id);
    s
}

/// The footer: `! <error>` while an error stands, else the pane count, the refresh age and the
/// key hints.
pub open spec fn footer_spec(a: AppView) -> Seq<char> {
    match a.error {
        Some(e) => "! "@ + e,
        None => dec(a.rows.len()) + " panes · refreshed "@ + dec(a.refresh_age_secs as nat)
            + "s ago · j/k move · Enter jump · r refresh · q quit"@,
    }
}

/// The footer line.
pub fn footer_text(app: &App) -> (s: String)
    ensures
        s@ == footer_spec(app@),
{
    match &app.error {
        Some(e) => {
            let mut s = string_from("! ");
            push_str(&mut s, e.as_str());
            s
        },
        None => {
            let mut s = String::new();
            push_dec(&mut s, app.rows.len() as u64);
            push_str(&mut s, " panes · refreshed ");
            push_dec(&mut s, app.refresh_age_secs);
            push_str(&mut s, "s ago · j/k move · Enter jump · r refresh · q quit");
            s
        },
    }
}

} // verus!
