//! `fleet snapshot`: the board's rows as the entries of the one-shot JSON contract — 1-based
//! order, status name, tokens, context fill, age, pane id and tab index (null when unmatched),
//! cwd and session id. Serializing them is the caller's job.
use vstd::prelude::*;

use crate::board::{row_views, SessionRow, SessionRowView};
use crate::fold::status_name_spec;
use crate::text::string_from;

verus! {

/// One session row in the snapshot contract.
#[derive(Debug, Clone, PartialEq, Eq)]
pub struct SnapshotEntry {
    /// 1-based board row order.
    pub n: usize,
    /// Shown name.
    pub name: String,
    /// Exact status variant name.
    pub status: &'static str,
    /// Context tokens.
    pub tokens: Option<u64>,
    /// Context-window fill, percent.
    pub ctx_pct: Option<u8>,
    /// Seconds since the transcript last grew.
    pub age_secs: Option<u64>,
    /// Matched pane id.
    pub pane_id: Option<u64>,
    /// Matched pane's 0-based tab index.
    pub tab_index: Option<u64>,
    /// Session cwd.
    pub cwd: String,
    /// Session id.
    pub session_id: String,
}

/// The entry of row `i` (0-based).
pub open spec fn entry_matches(e: SnapshotEntry, i: int, r: SessionRowView) -> bool {
    &&& e.n == i + 1
    &&& e.name@ == r.name
    &&& e.status@ == status_name_spec(r.status)
    &&& e.tokens == r.context_tokens
    &&& e.ctx_pct == r.ctx_pct
    &&& e.age_secs == r.secs_since_append
    &&& e.pane_id == match r.pane {
        Some(p) => Some(p.1),
        None => None,
    }
    &&& e.tab_index == r.pane_tab_index
    &&& e.cwd@ == r.cwd
    &&& e.session_id@ == r.session_id
}

/// The contract entries of the board's rows, in board order.
pub fn snapshot_entries(rows: &[SessionRow]) -> (r: Vec<SnapshotEntry>)
    ensures
        r.len() == rows.len(),
        forall|i: int| 0 <= i < rows.len() ==> entry_matches(#[trigger] r@[i], i, rows@[i]@),
{
    let mut out: Vec<SnapshotEntry> = Vec::new();
    let mut i: usize = 0;
    while i < rows.len()
        invariant
            i <= rows.len(),
            out.len() == i,
            forall|k: int| 0 <= k < i ==> entry_matches(#[trigger] out@[k], k, rows@[k]@),
        decreases rows.len() - i,
    {
        let r = &rows[i];
        out.push(
            SnapshotEntry {
                n: i + 1,
                name: string_from(r.name.as_str()),
                status: r.status.name(),
                tokens: r.context_tokens,
                ctx_pct: r.ctx_pct,
                age_secs: r.secs_since_append,
                pane_id: match r.pane {
                    Some(p) => Some(p.1),
                    None => None,
                },
                tab_index: r.pane_tab_index,
                cwd: string_from(r.cwd.as_str()),
                session_id: string_from(r.session_id.as_str()),
            },
        );
        i = i + 1;
    }
    out
}

} // verus!
