//! The one row pipeline the live board and the snapshot share: agent-session rows assembled and
//! sorted, Codex rows appended, everything sorted once more — so the two can never disagree.
use vstd::prelude::*;

use crate::board::{
    assemble, claude_rows_spec, live_views, panes_of, row_views, rows_ordered, sort_rows,
    sorted_rows, sorted_rows_is_sorted_permutation, telemetry_views, SessionRow, SessionRowView,
};
use crate::discovery::{opt_view, LiveSession, ScanStats};
use crate::panes::PaneRow;
use crate::telemetry::Telemetry;

verus! {

/// One full sensor pass, ready for the board or the snapshot.
#[derive(Debug)]
pub struct Collected {
    /// Assembled, sorted session rows (agent and Codex sessions, one order).
    pub rows: Vec<SessionRow>,
    /// Discovery tallies.
    pub stats: ScanStats,
    /// A degraded lane — the rows are still valid.
    pub lane_error: Option<String>,
    /// Codex rows folded into `rows` this pass.
    pub codex_count: usize,
}

/// The pass's rows: the sorted agent-session rows with the Codex rows appended, sorted again.
pub open spec fn collected_rows(
    sessions: Seq<LiveSession>,
    telemetry: Seq<Telemetry>,
    panes: Seq<PaneRow>,
    codex: Seq<SessionRow>,
) -> Seq<SessionRowView> {
    sorted_rows(
        sorted_rows(claude_rows_spec(live_views(sessions), telemetry_views(telemetry), panes_of(panes)))
            + row_views(codex),
    )
}

/// Fold the pass into sorted rows: `pane_rows` / `lane_error` are the pane cache's answer and
/// `codex_rows` the Codex lane's rows (matched against those same panes).
pub fn collect(
    sessions: &[LiveSession],
    stats: ScanStats,
    telemetry: &[Telemetry],
    pane_rows: &[PaneRow],
    lane_error: Option<String>,
    codex_rows: Vec<SessionRow>,
) -> (r: Collected)
    ensures
        row_views(r.rows@) == collected_rows(sessions@, telemetry@, pane_rows@, codex_rows@),
        rows_ordered(row_views(r.rows@)),
        r.stats == stats,
        opt_view(r.lane_error) == opt_view(lane_error),
        r.codex_count == codex_rows.len(),
{
    let mut rows = assemble(sessions, telemetry, pane_rows);
    let codex_count = codex_rows.len();
    let ghost claude = row_views(rows@);
    let ghost codex = row_views(codex_rows@);
    let mut extra = codex_rows;
    rows.append(&mut extra);
    assert(row_views(rows@) =~= claude + codex);
    sort_rows(&mut rows);
    proof {
        sorted_rows_is_sorted_permutation(claude + codex);
    }
    Collected { rows, stats, lane_error, codex_count }
}

} // verus!
