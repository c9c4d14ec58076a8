//! The board model: rows, a selection keyed by pane id (a refresh never steals the cursor),
//! refresh age in ticks, the last error, and the quit / jump / refresh requests the event loop
//! drains. Pure: no clocks, no subprocesses, no terminal.
use vstd::prelude::*;

use crate::discovery::opt_view;
use crate::panes::{pane_views, PaneRow, PaneRowView};

verus! {

/// User intent, mapped from keys.
#[derive(Debug, Clone, Copy, PartialEq, Eq, Structural)]
pub enum Action {
    /// Move the selection up one row.
    Up,
    /// Move the selection down one row.
    Down,
    /// Jump to the selected pane.
    Jump,
    /// Force a sensor refresh now.
    Refresh,
    /// Quit the board.
    Quit,
}

/// Everything the event loop can feed the model.
#[derive(Debug)]
pub enum Msg {
    /// Fresh pane rows from the sensor (sorted by pane id).
    Panes(Vec<PaneRow>),
    /// A sensor or jump failure to surface in the footer.
    Error(String),
    /// A key mapped to an action.
    Key(Action),
    /// One second elapsed.
    Tick,
}

/// The board state. The view reads it; only `update` writes it.
#[derive(Debug)]
pub struct App {
    /// Agent pane rows, sorted by pane id.
    pub rows: Vec<PaneRow>,
    /// The selected pane's id (survives refreshes); `None` when the board is empty.
    pub selected: Option<u64>,
    /// Seconds since the last successful refresh.
    pub refresh_age_secs: u64,
    /// Last sensor/jump error, shown until the next good refresh.
    pub error: Option<String>,
    /// Loop flag: exit.
    pub should_quit: bool,
    /// Effect request: jump to this pane.
    pub pending_jump: Option<u64>,
    /// Effect request: poll the sensor now.
    pub refresh_requested: bool,
}

/// Plain model of the board state.
pub struct AppView {
    pub rows: Seq<PaneRowView>,
    pub selected: Option<u64>,
    pub refresh_age_secs: u64,
    pub error: Option<Seq<char>>,
    pub should_quit: bool,
    pub pending_jump: Option<u64>,
    pub refresh_requested: bool,
}

impl View for App {
    type V = AppView;

    open spec fn view(&self) -> AppView {
        AppView {
            rows: pane_views(self.rows@),
            selected: self.selected,
            refresh_age_secs: self.refresh_age_secs,
            error: opt_view(self.error),
            should_quit: self.should_quit,
            pending_jump: self.pending_jump,
            refresh_requested: self.refresh_requested,
        }
    }
}

/// Plain model of a message.
pub enum MsgView {
    Panes(Seq<PaneRowView>),
    Error(Seq<char>),
    Key(Action),
    Tick,
}

impl View for Msg {
    type V = MsgView;

    open spec fn view(&self) -> MsgView {
        match self {
            Msg::Panes(rows) => MsgView::Panes(pane_views(rows@)),
            Msg::Error(e) => MsgView::Error(e@),
            Msg::Key(a) => MsgView::Key(*a),
            Msg::Tick => MsgView::Tick,
        }
    }
}

impl Default for App {
    /// The empty board: no rows, no selection, no error, no requests.
    fn default() -> (r: App)
        ensures
            r@ == (AppView {
                rows: Seq::empty(),
                selected: None,
                refresh_age_secs: 0,
                error: None,
                should_quit: false,
                pending_jump: None,
                refresh_requested: false,
            }),
    {
        let a = App {
            rows: Vec::new(),
            selected: None,
            refresh_age_secs: 0,
            error: None,
            should_quit: false,
            pending_jump: None,
            refresh_requested: false,
        };
        assert(pane_views(a.rows@) =~= Seq::<PaneRowView>::empty());
        a
    }
}

/// The first row holding pane `id`.
pub open spec fn index_of(rows: Seq<PaneRowView>, id: u64) -> Option<int>
    decreases rows.len(),
{
    if rows.len() == 0 {
        None
    } else {
        match index_of(rows.drop_last(), id) {
            Some(i) => Some(i),
            None => if rows.last().pane_id == id {
                Some(rows.len() - 1)
            } else {
                None
            },
        }
    }
}

/// The selected row's index, if the selected pane is still on the board.
pub open spec fn selected_index_spec(a: AppView) -> Option<int> {
    match a.selected {
        Some(id) => index_of(a.rows, id),
        None => None,
    }
}

/// The selection after new rows arrive: none on an empty board; kept when its pane survived;
/// else the row at the old index, clamped to the last row (the first row without an old
/// index).
pub open spec fn reselect_spec(rows: Seq<PaneRowView>, selected: Option<u64>, old_index: Option<int>) -> Option<u64> {
    if rows.len() == 0 {
        None
    } else if (match selected {
        Some(id) => index_of(rows, id) is Some,
        None => false,
    }) {
        selected
    } else {
        let want = match old_index {
            Some(i) => i,
            None => 0,
        };
        let i = if want < rows.len() - 1 {
            want
        } else {
            rows.len() - 1
        };
        Some(rows[i].pane_id)
    }
}

/// The selection after a move by `delta` rows: from the selected row (the first row without
/// one), clamped to the board; unchanged on an empty board.
pub open spec fn move_spec(a: AppView, delta: int) -> Option<u64> {
    if a.rows.len() == 0 {
        a.selected
    } else {
        let current = match selected_index_spec(a) {
            Some(i) => i,
            None => 0,
        };
        let raw = current + delta;
        let next = if raw < 0 {
            0
        } else if raw > a.rows.len() - 1 {
            a.rows.len() - 1
        } else {
            raw
        };
        Some(a.rows[next].pane_id)
    }
}

/// One message folded in: new rows reset the age and the error and reselect; an error is
/// kept with the stale rows; a tick ages the refresh (saturating); a key applies its action.
pub open spec fn update_spec(a: AppView, m: MsgView) -> AppView {
    match m {
        MsgView::Panes(rows) => AppView {
            rows,
            selected: reselect_spec(rows, a.selected, selected_index_spec(a)),
            refresh_age_secs: 0,
            error: None,
            ..a
        },
        MsgView::Error(e) => AppView { error: Some(e), ..a },
        MsgView::Tick => AppView {
            refresh_age_secs: if a.refresh_age_secs == u64::MAX {
                u64::MAX
            } else {
                (a.refresh_age_secs + 1) as u64
            },
            ..a
        },
        MsgView::Key(action) => match action {
            Action::Quit => AppView { should_quit: true, ..a },
            Action::Refresh => AppView { refresh_requested: true, ..a },
            Action::Jump => AppView { pending_jump: a.selected, ..a },
            Action::Up => AppView { selected: move_spec(a, -1), ..a },
            Action::Down => AppView { selected: move_spec(a, 1), ..a },
        },
    }
}

proof fn lemma_index_of(rows: Seq<PaneRowView>, id: u64)
    ensures
        match index_of(rows, id) {
            Some(i) => 0 <= i < rows.len() && rows[i].pane_id == id && forall|j: int|
                0 <= j < i ==> rows[j].pane_id != id,
            None => forall|j: int| 0 <= j < rows.len() ==> rows[j].pane_id != id,
        },
    decreases rows.len(),
{
    if rows.len() > 0 {
        let d = rows.drop_last();
        lemma_index_of(d, id);
        assert forall|j: int| 0 <= j < d.len() implies d[j] == rows[j] by {}
    }
}

fn index_of_exec(rows: &Vec<PaneRow>, id: u64) -> (r: Option<usize>)
    ensures
        match r {
            Some(i) => index_of(pane_views(rows@), id) == Some(i as int) && i < rows.len(),
            None => index_of(pane_views(rows@), id) is None,
        },
{
    let ghost rv = pane_views(rows@);
    let mut i: usize = 0;
    while i < rows.len()
        invariant
            i <= rows.len(),
            rv == pane_views(rows@),
            forall|j: int| 0 <= j < i ==> rv[j].pane_id != id,
        decreases rows.len() - i,
    {
        assert(rv[i as int] == rows@[i as int]@);
        if rows[i].pane_id == id {
            proof {
                lemma_index_of(rv, id);
            }
            return Some(i);
        }
        i = i + 1;
    }
    proof {
        lemma_index_of(rv, id);
    }
    None
}

impl App {
    /// Index of the selected row, if it still exists.
    pub fn selected_index(&self) -> (r: Option<usize>)
        ensures
            match r {
                Some(i) => selected_index_spec(self@) == Some(i as int) && i < self.rows.len(),
                None => selected_index_spec(self@) is None,
            },
    {
        match self.selected {
            Some(id) => index_of_exec(&self.rows, id),
            None => None,
        }
    }

    /// Fold one message into the next state.
    pub fn update(&mut self, msg: Msg)
        ensures
            final(self)@ == update_spec(old(self)@, msg@),
    {
        match msg {
            Msg::Panes(rows) => {
                let old_index = self.selected_index();
                self.rows = rows;
                self.refresh_age_secs = 0;
                self.error = None;
                self.reselect(old_index);
            },
            Msg::Error(e) => self.error = Some(e),
            Msg::Tick => {
                if self.refresh_age_secs < 0xffff_ffff_ffff_ffff {
                    self.refresh_age_secs = self.refresh_age_secs + 1;
                }
            },
            Msg::Key(action) => self.apply(action),
        }
    }

    /// Keep the selection on the same pane if it survived; otherwise clamp to the nearest row.
    fn reselect(&mut self, old_index: Option<usize>)
        ensures
            final(self)@ == (AppView {
                selected: reselect_spec(
                    old(self)@.rows,
                    old(self).selected,
                    match old_index {
                        Some(i) => Some(i as int),
                        None => None,
                    },
                ),
                ..old(self)@
            }),
    {
        if self.rows.len() == 0 {
            self.selected = None;
            return;
        }
        let still_there = match self.selected {
            Some(id) => index_of_exec(&self.rows, id).is_some(),
            None => false,
        };
        if still_there {
            return;
        }
        let want = match old_index {
            Some(i) => i,
            None => 0,
        };
        let last = self.rows.len() - 1;
        let index = if want < last {
            want
        } else {
            last
        };
        assert(pane_views(self.rows@)[index as int] == self.rows@[index as int]@);
        self.selected = Some(self.rows[index].pane_id);
    }

    fn apply(&mut self, action: Action)
        ensures
            final(self)@ == update_spec(old(self)@, MsgView::Key(action)),
    {
        match action {
            Action::Quit => self.should_quit = true,
            Action::Refresh => self.refresh_requested = true,
            Action::Jump => self.pending_jump = self.selected,
            Action::Up => self.move_selection(false),
            Action::Down => self.move_selection(true),
        }
    }

    fn move_selection(&mut self, down: bool)
        ensures
            final(self)@ == (AppView {
                selected: move_spec(
                    old(self)@,
                    if down {
                        1
                    } else {
                        -1
                    },
                ),
                ..old(self)@
            }),
    {
        if self.rows.len() == 0 {
            return;
        }
        let current = match self.selected_index() {
            Some(i) => i,
            None => 0,
        };
        let last = self.rows.len() - 1;
        let next = if down {
            if current < last {
                current + 1
            } else {
                last
            }
        } else {
            if current > 0 {
                current - 1
            } else {
                0
            }
        };
        assert(pane_views(self.rows@)[next as int] == self.rows@[next as int]@);
        self.selected = Some(self.rows[next].pane_id);
    }
}

// --- laws ---------------------------------------------------------------------------------------

/// A board is well-formed when it has a selection exactly when it has rows, and the selection
/// names a row on it.
pub open spec fn selection_ok(a: AppView) -> bool {
    &&& (a.rows.len() == 0 <==> a.selected is None)
    &&& (a.selected matches Some(id) ==> exists|i: int|
        0 <= i < a.rows.len() && (#[trigger] a.rows[i]).pane_id == id)
}

/// Every message keeps the board well-formed, and the empty board is well-formed: the
/// selection always names a row on the board, and a non-empty board always has one.
pub proof fn update_keeps_selection_on_the_board(a: AppView, m: MsgView)
    requires
        selection_ok(a),
    ensures
        selection_ok(update_spec(a, m)),
{
    let b = update_spec(a, m);
    match m {
        MsgView::Panes(rows) => {
            if rows.len() > 0 {
                let kept = match a.selected {
                    Some(id) => index_of(rows, id) is Some,
                    None => false,
                };
                if kept {
                    let id = a.selected->0;
                    lemma_index_of(rows, id);
                    let k = index_of(rows, id)->0;
                    assert(rows[k].pane_id == id);
                } else {
                    let want = match selected_index_spec(a) {
                        Some(i) => i,
                        None => 0,
                    };
                    let i = if want < rows.len() - 1 {
                        want
                    } else {
                        rows.len() - 1
                    };
                    if want < 0 {
                        match a.selected {
                            Some(id) => lemma_index_of(a.rows, id),
                            None => {},
                        }
                    }
                    assert(b.rows[i].pane_id == b.selected->0);
                }
            }
        },
        MsgView::Key(Action::Up) | MsgView::Key(Action::Down) => {
            if a.rows.len() > 0 {
                match a.selected {
                    Some(id) => lemma_index_of(a.rows, id),
                    None => {},
                }
                let current = match selected_index_spec(a) {
                    Some(i) => i,
                    None => 0,
                };
                let delta: int = if m == MsgView::Key(Action::Up) {
                    -1
                } else {
                    1
                };
                let raw = current + delta;
                let next = if raw < 0 {
                    0
                } else if raw > a.rows.len() - 1 {
                    a.rows.len() - 1
                } else {
                    raw
                };
                assert(b.rows[next].pane_id == b.selected->0);
            }
        },
        _ => {},
    }
}

/// A refresh keeps the cursor on the same pane whenever that pane is still on the board, and a
/// refresh resets the age and clears the error.
pub proof fn refresh_keeps_the_selected_pane(a: AppView, rows: Seq<PaneRowView>, id: u64, i: int)
    requires
        a.selected == Some(id),
        0 <= i < rows.len(),
        rows[i].pane_id == id,
    ensures
        update_spec(a, MsgView::Panes(rows)).selected == Some(id),
        update_spec(a, MsgView::Panes(rows)).refresh_age_secs == 0,
        update_spec(a, MsgView::Panes(rows)).error is None,
{
    lemma_index_of(rows, id);
}

/// Up and Down move the cursor by exactly one row, clamped to the board: on a board whose
/// pane ids are distinct, with the selection on row `i`, Up selects row `i - 1` (row 0 stays)
/// and Down selects row `i + 1` (the last row stays).
pub proof fn moves_step_one_row(a: AppView, i: int)
    requires
        0 <= i < a.rows.len(),
        a.selected == Some(a.rows[i].pane_id),
        forall|j: int, k: int|
            0 <= j < a.rows.len() && 0 <= k < a.rows.len() && j != k ==> (#[trigger] a.rows[j]).pane_id
                != (#[trigger] a.rows[k]).pane_id,
    ensures
        update_spec(a, MsgView::Key(Action::Up)).selected == Some(
            a.rows[if i > 0 {
                i - 1
            } else {
                0
            }].pane_id,
        ),
        update_spec(a, MsgView::Key(Action::Down)).selected == Some(
            a.rows[if i + 1 < a.rows.len() {
                i + 1
            } else {
                i
            }].pane_id,
        ),
{
    lemma_index_of(a.rows, a.rows[i].pane_id);
    let k = index_of(a.rows, a.rows[i].pane_id)->0;
    assert(k == i);
}

/// A jump requests exactly the selected pane — nothing on an empty board.
pub proof fn jump_requests_the_selection(a: AppView)
    requires
        selection_ok(a),
    ensures
        update_spec(a, MsgView::Key(Action::Jump)).pending_jump == a.selected,
        a.rows.len() == 0 ==> update_spec(a, MsgView::Key(Action::Jump)).pending_jump is None,
{
}

} // verus!
