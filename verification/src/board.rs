//! Board assembly: join discovery, telemetry and the pane list into sorted `SessionRow`s —
//! attention buckets first, then by name; pane matches that are ambiguous are marked, never
//! guessed.
use vstd::prelude::*;

use crate::discovery::{opt_view, LiveSession, LiveSessionView};
use crate::fold::{self, sort_key_spec, status_spec, Status};
use crate::panes::{PaneRow, PaneRowView};
use crate::telemetry::{ctx_used_pct, ctx_used_pct_spec, TailFactsView, Telemetry};
use crate::text::{
    chars_lt, chars_of, dec, lemma_lex_lt_asymmetric, lemma_lex_lt_irreflexive,
    lemma_lex_lt_transitive, lex_lt, push_char, push_dec, str_eq,
};

verus! {

/// One board row — a live session with everything the view renders.
#[derive(Debug, Clone, PartialEq, Eq)]
pub struct SessionRow {
    /// Session identity (selection survives refreshes on it).
    pub session_id: String,
    /// Semantic name: the transcript's AI title if present, else the native name.
    pub name: String,
    /// Account, if attributed.
    pub account: Option<String>,
    /// Folded status.
    pub status: Status,
    /// Session working directory.
    pub cwd: String,
    /// Context tokens; `None` = no transcript yet.
    pub context_tokens: Option<u64>,
    /// Context-window fill in percent, when known.
    pub ctx_pct: Option<u8>,
    /// Seconds since the transcript last grew.
    pub secs_since_append: Option<u64>,
    /// Matched pane `(tab_id, pane_id)` — the jump target.
    pub pane: Option<(u64, u64)>,
    /// The matched pane's instance socket (empty = the invoker's own instance).
    pub pane_socket: Option<String>,
    /// The matched pane's 0-based tab index within its window.
    pub pane_tab_index: Option<u64>,
    /// More than one pane matched and no tie-break settled it.
    pub pane_ambiguous: bool,
    /// The session's own pts — the highlight write target.
    pub pts: Option<String>,
}

/// Plain model of a board row.
pub struct SessionRowView {
    pub session_id: Seq<char>,
    pub name: Seq<char>,
    pub account: Option<Seq<char>>,
    pub status: Status,
    pub cwd: Seq<char>,
    pub context_tokens: Option<u64>,
    pub ctx_pct: Option<u8>,
    pub secs_since_append: Option<u64>,
    pub pane: Option<(u64, u64)>,
    pub pane_socket: Option<Seq<char>>,
    pub pane_tab_index: Option<u64>,
    pub pane_ambiguous: bool,
    pub pts: Option<Seq<char>>,
}

impl View for SessionRow {
    type V = SessionRowView;

    open spec fn view(&self) -> SessionRowView {
        SessionRowView {
            session_id: self.session_id@,
            name: self.name@,
            account: opt_view(self.account),
            status: self.status,
            cwd: self.cwd@,
            context_tokens: self.context_tokens,
            ctx_pct: self.ctx_pct,
            secs_since_append: self.secs_since_append,
            pane: self.pane,
            pane_socket: opt_view(self.pane_socket),
            pane_tab_index: self.pane_tab_index,
            pane_ambiguous: self.pane_ambiguous,
            pts: opt_view(self.pts),
        }
    }
}

pub open spec fn row_views(v: Seq<SessionRow>) -> Seq<SessionRowView> {
    v.map_values(|r: SessionRow| r@)
}

pub open spec fn name_views(v: Seq<&str>) -> Seq<Seq<char>> {
    v.map_values(|n: &str| n@)
}

pub open spec fn panes_of(v: Seq<PaneRow>) -> Seq<PaneRowView> {
    v.map_values(|p: PaneRow| p@)
}

// --- pane matching ----------------------------------------------------------------------------

/// The pane's title equals one of the non-empty `names`.
pub open spec fn title_matches(p: PaneRowView, names: Seq<Seq<char>>) -> bool {
    exists|k: int| 0 <= k < names.len() && names[k].len() > 0 && p.name == names[k]
}

/// What a pane is matched on.
pub enum MatchKey {
    /// Exact pane identity (`WEZTERM_PANE`).
    Id(u64),
    /// Title equal to one of the non-empty names.
    Title(Seq<Seq<char>>),
    /// Working directory.
    Cwd(Seq<char>),
}

pub open spec fn key_matches(p: PaneRowView, key: MatchKey) -> bool {
    match key {
        MatchKey::Id(id) => p.pane_id == id,
        MatchKey::Title(names) => title_matches(p, names),
        MatchKey::Cwd(cwd) => p.cwd == cwd,
    }
}

/// Indices of the panes matching `key`, in list order.
pub open spec fn hits(panes: Seq<PaneRowView>, key: MatchKey) -> Seq<int>
    decreases panes.len(),
{
    if panes.len() == 0 {
        Seq::empty()
    } else {
        let prev = hits(panes.drop_last(), key);
        if key_matches(panes.last(), key) {
            prev.push(panes.len() - 1)
        } else {
            prev
        }
    }
}

/// One hit is a match; several are ambiguous; none is no match.
pub open spec fn pick(h: Seq<int>) -> (Option<int>, bool) {
    if h.len() == 1 {
        (Some(h[0]), false)
    } else if h.len() >= 2 {
        (None, true)
    } else {
        (None, false)
    }
}

/// The match ladder: exact pane identity when the session carries one and a pane has it; else
/// title equal to one of the non-empty names; else cwd. At each rung one hit wins, several are
/// ambiguous (never guessed), none falls through (the last rung: no match).
pub open spec fn match_spec(
    wezterm_pane: Option<u64>,
    cwd: Seq<char>,
    names: Seq<Seq<char>>,
    panes: Seq<PaneRowView>,
) -> (Option<int>, bool) {
    let by_id = match wezterm_pane {
        Some(id) => hits(panes, MatchKey::Id(id)),
        None => Seq::empty(),
    };
    let by_title = hits(panes, MatchKey::Title(names));
    if by_id.len() > 0 {
        pick(by_id)
    } else if by_title.len() > 0 {
        pick(by_title)
    } else {
        pick(hits(panes, MatchKey::Cwd(cwd)))
    }
}

proof fn lemma_hits_in_range(panes: Seq<PaneRowView>, key: MatchKey)
    ensures
        forall|k: int| 0 <= k < hits(panes, key).len() ==> 0 <= #[trigger] hits(panes, key)[k]
            < panes.len(),
    decreases panes.len(),
{
    if panes.len() > 0 {
        lemma_hits_in_range(panes.drop_last(), key);
        let prev = hits(panes.drop_last(), key);
        if key_matches(panes.last(), key) {
            assert forall|k: int| 0 <= k < hits(panes, key).len() implies 0 <= #[trigger] hits(
                panes,
                key,
            )[k] < panes.len() by {
                if k < prev.len() {
                    assert(hits(panes, key)[k] == prev[k]);
                }
            }
        }
    }
}

fn title_matches_exec(p: &PaneRow, names: &[&str]) -> (r: bool)
    ensures
        r == title_matches(p@, name_views(names@)),
{
    let mut k: usize = 0;
    while k < names.len()
        invariant
            k <= names.len(),
            forall|j: int|
                0 <= j < k ==> !(names@[j]@.len() > 0 && p.name@ == #[trigger] names@[j]@),
        decreases names.len() - k,
    {
        if !names[k].is_empty() && str_eq(p.name.as_str(), names[k]) {
            assert(name_views(names@)[k as int] == names@[k as int]@);
            return true;
        }
        k = k + 1;
    }
    proof {
        assert forall|j: int| 0 <= j < names@.len() implies !(name_views(names@)[j].len() > 0
            && p.name@ == name_views(names@)[j]) by {
            assert(name_views(names@)[j] == names@[j]@);
        }
    }
    false
}

/// Indices of the panes matching a key.
fn hits_exec(panes: &[PaneRow], id: Option<u64>, names: &[&str], cwd: &str) -> (r: Vec<usize>)
    ensures
        r@.map_values(|i: usize| i as int) == hits(
            panes_of(panes@),
            match id {
                Some(n) => MatchKey::Id(n),
                None => if names.len() > 0 {
                    MatchKey::Title(name_views(names@))
                } else {
                    MatchKey::Cwd(cwd@)
                },
            },
        ),
{
    let ghost key = match id {
        Some(n) => MatchKey::Id(n),
        None => if names.len() > 0 {
            MatchKey::Title(name_views(names@))
        } else {
            MatchKey::Cwd(cwd@)
        },
    };
    let ghost pv = panes_of(panes@);
    let mut out: Vec<usize> = Vec::new();
    let mut j: usize = 0;
    assert(pv.take(0) =~= Seq::<PaneRowView>::empty());
    while j < panes.len()
        invariant
            j <= panes.len(),
            pv == panes_of(panes@),
            key == (match id {
                Some(n) => MatchKey::Id(n),
                None => if names.len() > 0 {
                    MatchKey::Title(name_views(names@))
                } else {
                    MatchKey::Cwd(cwd@)
                },
            }),
            out@.map_values(|i: usize| i as int) == hits(pv.take(j as int), key),
        decreases panes.len() - j,
    {
        let p = &panes[j];
        assert(pv.take(j + 1).drop_last() =~= pv.take(j as int));
        assert(pv.take(j + 1).last() == p@);
        let m = match id {
            Some(n) => p.pane_id == n,
            None => if names.len() > 0 {
                title_matches_exec(p, names)
            } else {
                str_eq(p.cwd.as_str(), cwd)
            },
        };
        assert(m == key_matches(p@, key));
        if m {
            let ghost before = out@;
            out.push(j);
            assert(out@.map_values(|i: usize| i as int) =~= before.map_values(|i: usize| i as int).push(
                j as int,
            ));
        }
        j = j + 1;
    }
    assert(pv.take(panes.len() as int) =~= pv);
    out
}

fn pick_exec(h: &Vec<usize>) -> (r: (Option<usize>, bool))
    ensures
        ({
            let s = pick(h@.map_values(|i: usize| i as int));
            &&& r.1 == s.1
            &&& match r.0 {
                Some(i) => s.0 == Some(i as int),
                None => s.0 is None,
            }
        }),
{
    if h.len() == 1 {
        (Some(h[0]), false)
    } else if h.len() >= 2 {
        (None, true)
    } else {
        (None, false)
    }
}

/// Match a session to a pane, returning the matched pane's index and the ambiguity flag.
pub fn match_pane_index(wezterm_pane: Option<u64>, cwd: &str, names: &[&str], panes: &[PaneRow]) -> (r: (
    Option<usize>,
    bool,
))
    ensures
        ({
            let s = match_spec(wezterm_pane, cwd@, name_views(names@), panes_of(panes@));
            &&& r.1 == s.1
            &&& match r.0 {
                Some(i) => s.0 == Some(i as int) && i < panes.len(),
                None => s.0 is None,
            }
        }),
{
    let ghost pv = panes_of(panes@);
    let no_names: Vec<&str> = Vec::new();
    proof {
        lemma_hits_in_range(pv, MatchKey::Title(name_views(names@)));
        lemma_hits_in_range(pv, MatchKey::Cwd(cwd@));
        if let Some(n) = wezterm_pane {
            lemma_hits_in_range(pv, MatchKey::Id(n));
        }
    }
    if let Some(n) = wezterm_pane {
        let by_id = hits_exec(panes, Some(n), no_names.as_slice(), cwd);
        if by_id.len() > 0 {
            let r = pick_exec(&by_id);
            return r;
        }
    }
    let by_title = if names.len() > 0 {
        hits_exec(panes, None, names, cwd)
    } else {
        Vec::new()
    };
    proof {
        if names.len() == 0 {
            assert forall|k: int| 0 <= k < pv.len() implies !key_matches(
                #[trigger] pv[k],
                MatchKey::Title(name_views(names@)),
            ) by {}
            lemma_no_hits(pv, MatchKey::Title(name_views(names@)));
        }
    }
    assert(by_title@.map_values(|i: usize| i as int) == hits(pv, MatchKey::Title(name_views(names@))));
    if by_title.len() > 0 {
        return pick_exec(&by_title);
    }
    let by_cwd = hits_exec(panes, None, no_names.as_slice(), cwd);
    pick_exec(&by_cwd)
}

proof fn lemma_no_hits(panes: Seq<PaneRowView>, key: MatchKey)
    requires
        forall|k: int| 0 <= k < panes.len() ==> !key_matches(#[trigger] panes[k], key),
    ensures
        hits(panes, key) == Seq::<int>::empty(),
    decreases panes.len(),
{
    if panes.len() > 0 {
        assert forall|k: int| 0 <= k < panes.len() - 1 implies !key_matches(
            #[trigger] panes.drop_last()[k],
            key,
        ) by {
            assert(panes.drop_last()[k] == panes[k]);
        }
        lemma_no_hits(panes.drop_last(), key);
        assert(!key_matches(panes[panes.len() - 1], key));
    }
}

proof fn lemma_hits_only(panes: Seq<PaneRowView>, key: MatchKey, j: int)
    requires
        0 <= j < panes.len(),
        key_matches(panes[j], key),
        forall|k: int| 0 <= k < panes.len() && k != j ==> !key_matches(#[trigger] panes[k], key),
    ensures
        hits(panes, key) == seq![j],
    decreases panes.len(),
{
    let d = panes.drop_last();
    if j < panes.len() - 1 {
        lemma_hits_only(d, key, j);
        assert(!key_matches(panes[panes.len() - 1], key));
    } else {
        lemma_hits_none(d, key);
        assert(hits(d, key) =~= Seq::<int>::empty());
        assert(seq![j] =~= Seq::<int>::empty().push(j));
    }
}

proof fn lemma_hits_none(panes: Seq<PaneRowView>, key: MatchKey)
    requires
        forall|k: int| 0 <= k < panes.len() ==> !key_matches(#[trigger] panes[k], key),
    ensures
        hits(panes, key).len() == 0,
    decreases panes.len(),
{
    if panes.len() > 0 {
        let d = panes.drop_last();
        assert forall|k: int| 0 <= k < d.len() implies !key_matches(#[trigger] d[k], key) by {
            assert(d[k] == panes[k]);
        }
        lemma_hits_none(d, key);
        assert(!key_matches(panes[panes.len() - 1], key));
    }
}

/// The `(tab_id, pane_id)` of a match.
pub open spec fn target_of(m: Option<int>, panes: Seq<PaneRowView>) -> Option<(u64, u64)> {
    match m {
        Some(i) => Some((panes[i].tab_id, panes[i].pane_id)),
        None => None,
    }
}

/// Match a session to a pane by title (primary — WSL panes report a Windows cwd, only titles
/// cross) with cwd as the fallback. Returns `((tab_id, pane_id), ambiguous)`.
pub fn match_pane(cwd: &str, names: &[&str], panes: &[PaneRow]) -> (r: (Option<(u64, u64)>, bool))
    ensures
        ({
            let s = match_spec(None, cwd@, name_views(names@), panes_of(panes@));
            r == (target_of(s.0, panes_of(panes@)), s.1)
        }),
{
    let (m, amb) = match_pane_index(None, cwd, names, panes);
    match m {
        Some(i) => (Some((panes[i].tab_id, panes[i].pane_id)), amb),
        None => (None, amb),
    }
}

// --- assembly -----------------------------------------------------------------------------------

/// Plain model of per-session telemetry.
pub struct TelemetryView {
    pub facts: Option<TailFactsView>,
    pub secs_since_append: Option<u64>,
}

impl View for Telemetry {
    type V = TelemetryView;

    open spec fn view(&self) -> TelemetryView {
        TelemetryView {
            facts: match self.facts {
                Some(f) => Some(f@),
                None => None,
            },
            secs_since_append: self.secs_since_append,
        }
    }
}

/// ctx% of a token count, capped at 255.
pub open spec fn pct_u8(tokens: Option<u64>) -> Option<u8> {
    match tokens {
        Some(t) => Some(
            if ctx_used_pct_spec(t) > 255 {
                255u8
            } else {
                ctx_used_pct_spec(t) as u8
            },
        ),
        None => None,
    }
}

/// The board row of one session: status folded from its native status, pending question and
/// transcript age; name = non-empty AI title, else the native name; pane matched on the
/// session's exact pane id, then the shown name or the native name, then the cwd.
pub open spec fn row_spec(s: LiveSessionView, t: TelemetryView, panes: Seq<PaneRowView>) -> SessionRowView {
    let facts = match t.facts {
        Some(f) => f,
        None => TailFactsView { context_tokens: None, ai_title: None, pending_question: false },
    };
    let name = match facts.ai_title {
        Some(x) => if x.len() > 0 {
            x
        } else {
            s.file.name
        },
        None => s.file.name,
    };
    let m = match_spec(s.wezterm_pane, s.file.cwd, seq![name, s.file.name], panes);
    SessionRowView {
        session_id: s.file.session_id,
        name,
        account: s.account,
        status: status_spec(s.file.status, facts.pending_question, t.secs_since_append),
        cwd: s.file.cwd,
        context_tokens: facts.context_tokens,
        ctx_pct: pct_u8(facts.context_tokens),
        secs_since_append: t.secs_since_append,
        pane: target_of(m.0, panes),
        pane_socket: match m.0 {
            Some(i) => Some(panes[i].socket),
            None => None,
        },
        pane_tab_index: match m.0 {
            Some(i) => Some(panes[i].tab_index),
            None => None,
        },
        pane_ambiguous: m.1,
        pts: s.pts,
    }
}

/// The title rung tries the shown name: when no pane carries the session's exact pane id and
/// exactly one pane's title is the session's (non-empty) AI title — no other pane's title being
/// the AI title or the native name — the row targets that pane, unambiguously, whatever its cwd.
pub proof fn title_rung_finds_the_shown_name(s: LiveSessionView, t: TelemetryView, panes: Seq<PaneRowView>, j: int)
    requires
        0 <= j < panes.len(),
        t.facts matches Some(f) && f.ai_title == Some(panes[j].name),
        panes[j].name.len() > 0,
        forall|k: int| 0 <= k < panes.len() ==> s.wezterm_pane != Some(#[trigger] panes[k].pane_id),
        forall|k: int|
            0 <= k < panes.len() && k != j ==> (#[trigger] panes[k]).name != panes[j].name && (
            s.file.name.len() == 0 || panes[k].name != s.file.name),
    ensures
        row_spec(s, t, panes).pane == Some((panes[j].tab_id, panes[j].pane_id)),
        !row_spec(s, t, panes).pane_ambiguous,
{
    let name = panes[j].name;
    let names = seq![name, s.file.name];
    let key = MatchKey::Title(names);
    assert(key_matches(panes[j], key)) by {
        assert(names[0] == name);
    }
    assert forall|k: int| 0 <= k < panes.len() && k != j implies !key_matches(#[trigger] panes[k], key) by {
        if title_matches(panes[k], names) {
            let q = choose|q: int| 0 <= q < names.len() && names[q].len() > 0 && panes[k].name == names[q];
            assert(q == 0 || q == 1);
        }
    }
    lemma_hits_only(panes, key, j);
    match s.wezterm_pane {
        Some(id) => {
            assert forall|k: int| 0 <= k < panes.len() implies !key_matches(#[trigger] panes[k], MatchKey::Id(id)) by {}
            lemma_hits_none(panes, MatchKey::Id(id));
        },
        None => {},
    }
}

/// `a` sorts strictly after `b`: a later attention bucket, or the same bucket and a later name.
pub open spec fn row_after(a: SessionRowView, b: SessionRowView) -> bool {
    sort_key_spec(a.status) > sort_key_spec(b.status) || (sort_key_spec(a.status) == sort_key_spec(
        b.status,
    ) && lex_lt(b.name, a.name))
}

/// Where `x` goes in `s`: before the first row that sorts strictly after it.
pub open spec fn insert_pos(s: Seq<SessionRowView>, x: SessionRowView) -> int
    decreases s.len(),
{
    if s.len() == 0 {
        0
    } else if row_after(s[0], x) {
        0
    } else {
        1 + insert_pos(s.drop_first(), x)
    }
}

/// The rows stably sorted by (attention bucket, name): each row inserted in input order after
/// every row that does not sort after it.
pub open spec fn sorted_rows(s: Seq<SessionRowView>) -> Seq<SessionRowView>
    decreases s.len(),
{
    if s.len() == 0 {
        s
    } else {
        let t = sorted_rows(s.drop_last());
        t.insert(insert_pos(t, s.last()), s.last())
    }
}

proof fn lemma_insert_pos_range(s: Seq<SessionRowView>, x: SessionRowView)
    ensures
        0 <= insert_pos(s, x) <= s.len(),
    decreases s.len(),
{
    if s.len() > 0 && !row_after(s[0], x) {
        lemma_insert_pos_range(s.drop_first(), x);
    }
}

fn row_after_exec(a: &SessionRow, b: &SessionRow) -> (r: bool)
    ensures
        r == row_after(a@, b@),
{
    let ka = fold::sort_key(a.status);
    let kb = fold::sort_key(b.status);
    if ka != kb {
        return ka > kb;
    }
    let an = chars_of(a.name.as_str());
    let bn = chars_of(b.name.as_str());
    chars_lt(bn.as_slice(), an.as_slice())
}

/// Sort rows by attention bucket, then name (stable).
pub fn sort_rows(rows: &mut Vec<SessionRow>)
    ensures
        row_views(final(rows)@) == sorted_rows(row_views(old(rows)@)),
{
    let mut input: Vec<SessionRow> = Vec::new();
    std::mem::swap(&mut input, rows);
    let ghost iv = row_views(input@);
    assert(iv.take(0) =~= Seq::<SessionRowView>::empty());
    let mut out: Vec<SessionRow> = Vec::new();
    for x in it: input
        invariant
            it.seq() == input@,
            iv == row_views(input@),
            row_views(out@) == sorted_rows(iv.take(it.index() as int)),
    {
        let ghost t = row_views(out@);
        let ghost k = it.index() as int;
        assert(iv.take(k + 1).drop_last() =~= iv.take(k));
        assert(iv.take(k + 1).last() == x@);
        let mut p: usize = 0;
        assert(t.skip(0) =~= t);
        while p < out.len() && !row_after_exec(&out[p], &x)
            invariant
                p <= out.len(),
                t == row_views(out@),
                insert_pos(t, x@) == p + insert_pos(t.skip(p as int), x@),
            decreases out.len() - p,
        {
            assert(t.skip(p as int)[0] == out@[p as int]@);
            assert(t.skip(p as int).drop_first() =~= t.skip(p + 1));
            p = p + 1;
        }
        proof {
            if p < out.len() {
                assert(t.skip(p as int)[0] == out@[p as int]@);
            }
        }
        assert(insert_pos(t, x@) == p);
        let ghost xv = x@;
        out.insert(p, x);
        assert(row_views(out@) =~= t.insert(p as int, xv));
    }
    assert(iv.take(iv.len() as int) =~= iv);
    *rows = out;
}

/// No row sorts strictly after a row that follows it.
pub open spec fn rows_ordered(s: Seq<SessionRowView>) -> bool {
    forall|i: int, j: int| 0 <= i < j < s.len() ==> !row_after(#[trigger] s[i], #[trigger] s[j])
}

proof fn lemma_row_after_strict(a: SessionRowView, b: SessionRowView, c: SessionRowView)
    ensures
        !row_after(a, a),
        row_after(a, b) ==> !row_after(b, a),
        row_after(a, b) && row_after(b, c) ==> row_after(a, c),
{
    lemma_lex_lt_irreflexive(a.name);
    lemma_lex_lt_asymmetric(a.name, b.name);
    lemma_lex_lt_transitive(c.name, b.name, a.name);
}

proof fn lemma_insert_pos_props(s: Seq<SessionRowView>, x: SessionRowView)
    ensures
        0 <= insert_pos(s, x) <= s.len(),
        forall|k: int| 0 <= k < insert_pos(s, x) ==> !row_after(#[trigger] s[k], x),
        insert_pos(s, x) < s.len() ==> row_after(s[insert_pos(s, x)], x),
    decreases s.len(),
{
    if s.len() > 0 && !row_after(s[0], x) {
        let t = s.drop_first();
        lemma_insert_pos_props(t, x);
        assert forall|k: int| 0 <= k < insert_pos(s, x) implies !row_after(#[trigger] s[k], x) by {
            if k > 0 {
                assert(s[k] == t[k - 1]);
            }
        }
        if insert_pos(s, x) < s.len() {
            assert(s[insert_pos(s, x)] == t[insert_pos(t, x)]);
        }
    }
}

/// The sort is a sort: its output is ordered (attention bucket, then name) and holds exactly
/// the input rows.
pub proof fn sorted_rows_is_sorted_permutation(s: Seq<SessionRowView>)
    ensures
        rows_ordered(sorted_rows(s)),
        sorted_rows(s).to_multiset() == s.to_multiset(),
        sorted_rows(s).len() == s.len(),
    decreases s.len(),
{
    broadcast use vstd::seq_lib::to_multiset_build, vstd::seq_lib::to_multiset_insert;

    if s.len() == 0 {
    } else {
        let u = s.drop_last();
        let x = s.last();
        sorted_rows_is_sorted_permutation(u);
        let t = sorted_rows(u);
        let p = insert_pos(t, x);
        lemma_insert_pos_props(t, x);
        let r = t.insert(p, x);
        assert(r == sorted_rows(s));
        assert(s =~= u.push(x));
        assert forall|i: int, j: int| 0 <= i < j < r.len() implies !row_after(
            #[trigger] r[i],
            #[trigger] r[j],
        ) by {
            if j < p {
                assert(r[i] == t[i] && r[j] == t[j]);
            } else if j == p {
                assert(r[i] == t[i]);
            } else if i < p {
                assert(r[i] == t[i] && r[j] == t[j - 1]);
                lemma_row_after_strict(t[i], t[j - 1], x);
            } else if i == p {
                assert(r[j] == t[j - 1]);
                lemma_row_after_strict(t[p], x, t[j - 1]);
                lemma_row_after_strict(x, t[j - 1], t[p]);
                if j - 1 > p {
                    assert(!row_after(t[p], t[j - 1]));
                }
                lemma_row_after_strict(t[p], x, t[j - 1]);
            } else {
                assert(r[i] == t[i - 1] && r[j] == t[j - 1]);
            }
        }
    }
}

fn pct_u8_exec(tokens: Option<u64>) -> (r: Option<u8>)
    ensures
        r == pct_u8(tokens),
{
    match tokens {
        Some(t) => {
            let p = ctx_used_pct(t);
            Some(
                if p > 255 {
                    255u8
                } else {
                    p as u8
                },
            )
        },
        None => None,
    }
}

fn clone_opt(s: &Option<String>) -> (r: Option<String>)
    ensures
        opt_view(r) == opt_view(*s),
{
    match s {
        Some(x) => Some(x.clone()),
        None => None,
    }
}

/// Build one session's row.
fn build_claude_row(s: &LiveSession, t: &Telemetry, panes: &[PaneRow]) -> (r: SessionRow)
    ensures
        r@ == row_spec(s@, t@, panes_of(panes@)),
{
    let (tokens, title, pending) = match &t.facts {
        Some(f) => (f.context_tokens, clone_opt(&f.ai_title), f.pending_question),
        None => (None, None, false),
    };
    let status = fold::status(&s.file.status, pending, t.secs_since_append);
    let name = match title {
        Some(x) => if !x.as_str().is_empty() {
            x
        } else {
            s.file.name.clone()
        },
        None => s.file.name.clone(),
    };
    let names: [&str; 2] = [name.as_str(), s.file.name.as_str()];
    assert(name_views(names@) =~= seq![name@, s.file.name@]);
    let (m, amb) = match_pane_index(s.wezterm_pane, s.file.cwd.as_str(), &names, panes);
    let (pane, socket, tab_index) = match m {
        Some(i) => (
            Some((panes[i].tab_id, panes[i].pane_id)),
            Some(panes[i].socket.clone()),
            Some(panes[i].tab_index),
        ),
        None => (None, None, None),
    };
    SessionRow {
        session_id: s.file.session_id.clone(),
        name,
        account: clone_opt(&s.account),
        status,
        cwd: s.file.cwd.clone(),
        context_tokens: tokens,
        ctx_pct: pct_u8_exec(tokens),
        secs_since_append: t.secs_since_append,
        pane,
        pane_socket: socket,
        pane_tab_index: tab_index,
        pane_ambiguous: amb,
        pts: clone_opt(&s.pts),
    }
}

/// The rows of the sessions paired with their telemetry (parallel lists; extra entries of the
/// longer one ignored), in session order.
pub open spec fn claude_rows_spec(
    sessions: Seq<LiveSessionView>,
    telemetry: Seq<TelemetryView>,
    panes: Seq<PaneRowView>,
) -> Seq<SessionRowView> {
    let n = if sessions.len() < telemetry.len() {
        sessions.len()
    } else {
        telemetry.len()
    };
    Seq::new(n, |i: int| row_spec(sessions[i], telemetry[i], panes))
}

pub open spec fn live_views(v: Seq<LiveSession>) -> Seq<LiveSessionView> {
    v.map_values(|s: LiveSession| s@)
}

pub open spec fn telemetry_views(v: Seq<Telemetry>) -> Seq<TelemetryView> {
    v.map_values(|t: Telemetry| t@)
}

/// Join sessions with their telemetry (parallel slices, same order) and the pane list; the
/// output is sorted: attention buckets first, then by name.
pub fn assemble(sessions: &[LiveSession], telemetry: &[Telemetry], panes: &[PaneRow]) -> (r: Vec<
    SessionRow,
>)
    ensures
        row_views(r@) == sorted_rows(
            claude_rows_spec(live_views(sessions@), telemetry_views(telemetry@), panes_of(panes@)),
        ),
{
    let n = if sessions.len() < telemetry.len() {
        sessions.len()
    } else {
        telemetry.len()
    };
    let ghost want = claude_rows_spec(
        live_views(sessions@),
        telemetry_views(telemetry@),
        panes_of(panes@),
    );
    let mut rows: Vec<SessionRow> = Vec::new();
    let mut i: usize = 0;
    while i < n
        invariant
            i <= n,
            n <= sessions.len(),
            n <= telemetry.len(),
            n == want.len(),
            want == claude_rows_spec(
                live_views(sessions@),
                telemetry_views(telemetry@),
                panes_of(panes@),
            ),
            rows.len() == i,
            forall|k: int| 0 <= k < i ==> (#[trigger] rows@[k])@ == want[k],
        decreases n - i,
    {
        let row = build_claude_row(&sessions[i], &telemetry[i], panes);
        assert(live_views(sessions@)[i as int] == sessions@[i as int]@);
        assert(telemetry_views(telemetry@)[i as int] == telemetry@[i as int]@);
        rows.push(row);
        i = i + 1;
    }
    assert(row_views(rows@) =~= want);
    sort_rows(&mut rows);
    rows
}

/// Humanized age: `7s`, `4m`, `2h`, `3d` (truncating).
pub open spec fn format_age_spec(secs: u64) -> Seq<char> {
    if secs <= 59 {
        dec(secs as nat) + seq!['s']
    } else if secs <= 3599 {
        dec((secs / 60) as nat) + seq!['m']
    } else if secs <= 86_399 {
        dec((secs / 3600) as nat) + seq!['h']
    } else {
        dec((secs / 86_400) as nat) + seq!['d']
    }
}

/// Humanized age.
pub fn format_age(secs: u64) -> (r: String)
    ensures
        r@ == format_age_spec(secs),
{
    let mut s = String::new();
    if secs <= 59 {
        push_dec(&mut s, secs);
        push_char(&mut s, 's');
    } else if secs <= 3599 {
        push_dec(&mut s, secs / 60);
        push_char(&mut s, 'm');
    } else if secs <= 86_399 {
        push_dec(&mut s, secs / 3600);
        push_char(&mut s, 'h');
    } else {
        push_dec(&mut s, secs / 86_400);
        push_char(&mut s, 'd');
    }
    s
}

} // verus!
