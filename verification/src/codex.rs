//! Codex CLI TUI sessions on the board: recognize the process, join it to its newest
//! same-cwd rollout (never when two live processes share the cwd), and fold the rollout tail
//! into status, tokens, context fill and name.
use vstd::prelude::*;

use crate::board::{match_pane_index, match_spec, name_views, panes_of, SessionRow, SessionRowView, target_of};
use crate::discovery::{extension_spec, opt_view, parse_environ, EnvironView, environ_spec};
use crate::fold::{Status, STALL_AFTER_SECS};
use crate::json::{get_str, get_str_is, jget, jget_opt, json_parse, jstr, ju64, parse_json, JsonValue};
use crate::panes::{PaneRow, PaneRowView};
use crate::platform::{AcqResult, PlatformStats, SnapshotOutcome};
use crate::telemetry::{line_docs, tail_docs};
use crate::text::{
    byte_views, chars_of, dec, has_prefix, last_index_of, lines, lines_spec, push_dec, push_str,
    slice_chars, str_eq, string_of, trim_end, trim_end_spec,
};

verus! {

// --- session_meta -----------------------------------------------------------------------------

/// `session_meta` line 0 of a rollout.
#[derive(Debug, Clone, PartialEq, Eq)]
pub struct SessionMeta {
    /// The rollout's session uuid.
    pub id: String,
    /// The Codex process's cwd at session start — the join key.
    pub cwd: String,
}

/// The session meta a JSON document describes: an object whose `type` is the string
/// `session_meta` and whose `payload` object carries string `id` and `cwd`; other members
/// ignored.
pub open spec fn session_meta_spec(v: JsonValue) -> Option<(Seq<char>, Seq<char>)> {
    match jget(v, "payload"@) {
        Some(p) => if v is Object && jstr(jget(v, "type"@)) == Some("session_meta"@) && p is Object
            && jstr(jget(p, "id"@)) is Some && jstr(jget(p, "cwd"@)) is Some {
            Some((jstr(jget(p, "id"@))->0, jstr(jget(p, "cwd"@))->0))
        } else {
            None
        },
        None => None,
    }
}

/// The session meta of a rollout's first line.
pub open spec fn session_meta_of(bytes: Seq<u8>) -> Option<(Seq<char>, Seq<char>)> {
    match json_parse(bytes) {
        Some(v) => session_meta_spec(v),
        None => None,
    }
}

/// Read the session meta from a JSON document.
pub fn session_meta_from_json(v: &JsonValue) -> (r: Option<SessionMeta>)
    ensures
        match r {
            Some(m) => session_meta_spec(*v) == Some((m.id@, m.cwd@)),
            None => session_meta_spec(*v) is None,
        },
{
    if !matches!(v, JsonValue::Object(_)) || !get_str_is(v, "type", "session_meta") {
        return None;
    }
    match v.get("payload") {
        Some(p) => {
            if !matches!(p, JsonValue::Object(_)) {
                return None;
            }
            match (get_str(p, "id"), get_str(p, "cwd")) {
                (Some(id), Some(cwd)) => Some(SessionMeta { id, cwd }),
                _ => None,
            }
        },
        None => None,
    }
}

/// Parse a rollout's line 0; unknown members are skipped.
pub fn parse_session_meta(bytes: &[u8]) -> (r: Option<SessionMeta>)
    ensures
        match r {
            Some(m) => session_meta_of(bytes@) == Some((m.id@, m.cwd@)),
            None => session_meta_of(bytes@) is None,
        },
{
    match parse_json(bytes) {
        Some(v) => session_meta_from_json(&v),
        None => None,
    }
}

// --- the rollout tail fold --------------------------------------------------------------------

/// Facts folded from a rollout tail.
#[derive(Debug, Clone, PartialEq, Eq)]
pub struct RolloutFacts {
    /// Folded status.
    pub status: Status,
    /// Total token usage from the last `token_count` line.
    pub tokens: Option<u64>,
    /// `total * 100 / model_context_window` from that same line, capped at 255.
    pub ctx_pct: Option<u8>,
    /// The last `user_message` text's first line, truncated to 60 chars — the name.
    pub name: Option<String>,
}

/// The last signal seen in a rollout.
#[derive(Debug, Clone, Copy, PartialEq, Eq, Structural)]
pub enum Signal {
    /// The turn completed.
    Complete,
    /// The turn is live (started, streaming, counting tokens).
    Activity,
    /// An approval or input request is open.
    NeedsAnswer,
}

/// The state of the rollout fold.
pub struct RolloutState {
    pub signal: Option<Signal>,
    pub tokens: Option<u64>,
    pub ctx_pct: Option<u8>,
    pub name: Option<Seq<char>>,
}

pub open spec fn payload_str(v: JsonValue, key: Seq<char>) -> Option<Seq<char>> {
    jstr(jget_opt(jget(v, "payload"@), key))
}

pub open spec fn token_total(v: JsonValue) -> Option<u64> {
    ju64(
        jget_opt(
            jget_opt(jget_opt(jget(v, "payload"@), "info"@), "total_token_usage"@),
            "total_tokens"@,
        ),
    )
}

pub open spec fn context_window(v: JsonValue) -> Option<u64> {
    ju64(jget_opt(jget_opt(jget(v, "payload"@), "info"@), "model_context_window"@))
}

/// An approval / input request event.
pub open spec fn is_request(k: Seq<char>) -> bool {
    k == "exec_approval_request"@ || k == "apply_patch_approval_request"@ || k
        == "elicitation_request"@ || k == "request_user_input"@
}

/// `total * 100 / window` (the product saturating at `u64::MAX`), capped at 255; none for a
/// missing or zero window.
pub open spec fn ctx_pct_spec(total: u64, window: Option<u64>) -> Option<u8> {
    match window {
        Some(w) => if w > 0 {
            let prod = if total * 100 > u64::MAX {
                u64::MAX as int
            } else {
                total * 100
            };
            let pct = prod / (w as int);
            Some(
                if pct > 255 {
                    255u8
                } else {
                    pct as u8
                },
            )
        } else {
            None
        },
        None => None,
    }
}

/// The first line of `text` (`str::lines().next()`), truncated to 60 chars.
pub open spec fn first_line_60(text: Seq<char>) -> Option<Seq<char>> {
    let ls = lines_spec(text);
    if ls.len() > 0 {
        Some(
            if ls[0].len() > 60 {
                ls[0].take(60)
            } else {
                ls[0]
            },
        )
    } else {
        None
    }
}

/// One rollout line folded in, in file order (the last-seen signal wins): `response_item` is
/// activity; an `event_msg` reads its `payload.type` — `task_complete` completes,
/// `task_started` / `token_count` are activity, the request family needs an answer,
/// `user_message` renames (first line, 60 chars), `token_count` carries the usage; other lines
/// are skipped.
pub open spec fn rollout_step(st: RolloutState, doc: Option<JsonValue>) -> RolloutState {
    match doc {
        None => st,
        Some(v) => {
            let ty = jstr(jget(v, "type"@));
            if ty == Some("response_item"@) {
                RolloutState { signal: Some(Signal::Activity), ..st }
            } else if ty == Some("event_msg"@) {
                match payload_str(v, "type"@) {
                    None => st,
                    Some(k) => {
                        let signal = if k == "task_complete"@ {
                            Some(Signal::Complete)
                        } else if k == "task_started"@ || k == "token_count"@ {
                            Some(Signal::Activity)
                        } else if is_request(k) {
                            Some(Signal::NeedsAnswer)
                        } else {
                            st.signal
                        };
                        let name = if k == "user_message"@ {
                            match payload_str(v, "message"@) {
                                Some(t) => first_line_60(t),
                                None => st.name,
                            }
                        } else {
                            st.name
                        };
                        let usage = if k == "token_count"@ {
                            match token_total(v) {
                                Some(t) => (Some(t), ctx_pct_spec(t, context_window(v))),
                                None => (st.tokens, st.ctx_pct),
                            }
                        } else {
                            (st.tokens, st.ctx_pct)
                        };
                        RolloutState { signal, tokens: usage.0, ctx_pct: usage.1, name }
                    },
                }
            } else {
                st
            }
        },
    }
}

pub open spec fn rollout_state(docs: Seq<Option<JsonValue>>) -> RolloutState
    decreases docs.len(),
{
    if docs.len() == 0 {
        RolloutState { signal: None, tokens: None, ctx_pct: None, name: None }
    } else {
        rollout_step(rollout_state(docs.drop_last()), docs.last())
    }
}

/// The text a rollout line renames the session with: an `event_msg` line whose payload is a
/// `user_message` carrying a `message`.
pub open spec fn user_message_text(doc: Option<JsonValue>) -> Option<Seq<char>> {
    match doc {
        Some(v) => if jstr(jget(v, "type"@)) == Some("event_msg"@) && payload_str(v, "type"@)
            == Some("user_message"@) {
            payload_str(v, "message"@)
        } else {
            None
        },
        None => None,
    }
}

/// The last user message names the session: a user-message line sets the name to its text's
/// first line (cut at 60 chars) whatever earlier lines said, and any other line leaves the name
/// as it was.
pub proof fn last_user_message_names_the_rollout(docs: Seq<Option<JsonValue>>, doc: Option<JsonValue>, age: Option<u64>)
    ensures
        user_message_text(doc) matches Some(t) ==> rollout_facts_spec(docs.push(doc), age).name
            == first_line_60(t),
        user_message_text(doc) is None ==> rollout_facts_spec(docs.push(doc), age).name
            == rollout_facts_spec(docs, age).name,
{
    let all = docs.push(doc);
    assert(all.drop_last() =~= docs);
    assert(all.last() == doc);
    reveal_strlit("event_msg");
    reveal_strlit("response_item");
    assert("event_msg"@ != "response_item"@) by {
        assert("event_msg"@.len() != "response_item"@.len());
    }
    assert(rollout_state(all) == rollout_step(rollout_state(docs), doc));
}

/// The status of the last signal: none or complete is idle; an open request needs an answer;
/// activity is working until the rollout has been silent longer than the stall window.
pub open spec fn signal_status(signal: Option<Signal>, age: Option<u64>) -> Status {
    match signal {
        None => Status::Idle,
        Some(Signal::Complete) => Status::Idle,
        Some(Signal::NeedsAnswer) => Status::NeedsAnswer,
        Some(Signal::Activity) => match age {
            Some(a) => if a > STALL_AFTER_SECS {
                Status::Stalled
            } else {
                Status::Working
            },
            None => Status::Working,
        },
    }
}

/// Plain model of rollout facts.
pub struct RolloutFactsView {
    pub status: Status,
    pub tokens: Option<u64>,
    pub ctx_pct: Option<u8>,
    pub name: Option<Seq<char>>,
}

impl View for RolloutFacts {
    type V = RolloutFactsView;

    open spec fn view(&self) -> RolloutFactsView {
        RolloutFactsView {
            status: self.status,
            tokens: self.tokens,
            ctx_pct: self.ctx_pct,
            name: opt_view(self.name),
        }
    }
}

/// The facts of parsed rollout lines and the rollout's age.
pub open spec fn rollout_facts_spec(docs: Seq<Option<JsonValue>>, age: Option<u64>) -> RolloutFactsView {
    let st = rollout_state(docs);
    RolloutFactsView {
        status: signal_status(st.signal, age),
        tokens: st.tokens,
        ctx_pct: st.ctx_pct,
        name: st.name,
    }
}

fn first_line_60_exec(text: &str) -> (r: Option<String>)
    ensures
        opt_view(r) == first_line_60(text@),
{
    let cs = chars_of(text);
    let ls = lines(cs.as_slice());
    if ls.len() > 0 {
        assert(ls@[0]@ == lines_spec(text@)[0]);
        let l = &ls[0];
        if l.len() > 60 {
            let t = slice_chars(l.as_slice(), 0, 60);
            assert(t@ =~= l@.take(60));
            Some(string_of(t.as_slice()))
        } else {
            Some(string_of(l.as_slice()))
        }
    } else {
        None
    }
}

fn ctx_pct_exec(total: u64, window: Option<u64>) -> (r: Option<u8>)
    ensures
        r == ctx_pct_spec(total, window),
{
    match window {
        Some(w) => if w > 0 {
            let prod = match total.checked_mul(100) {
                Some(p) => p,
                None => 0xffff_ffff_ffff_ffff,
            };
            let pct = prod / w;
            Some(
                if pct > 255 {
                    255u8
                } else {
                    pct as u8
                },
            )
        } else {
            None
        },
        None => None,
    }
}

fn payload_str_exec(v: &JsonValue, key: &str) -> (r: Option<String>)
    ensures
        opt_view(r) == payload_str(*v, key@),
{
    match v.get("payload") {
        Some(p) => get_str(p, key),
        None => None,
    }
}

fn token_usage_exec(v: &JsonValue) -> (r: (Option<u64>, Option<u64>))
    ensures
        r.0 == token_total(*v),
        r.1 == context_window(*v),
{
    match v.get("payload") {
        Some(p) => match p.get("info") {
            Some(info) => {
                let total = match info.get("total_token_usage") {
                    Some(u) => match u.get("total_tokens") {
                        Some(t) => t.as_u64(),
                        None => None,
                    },
                    None => None,
                };
                let window = match info.get("model_context_window") {
                    Some(w) => w.as_u64(),
                    None => None,
                };
                (total, window)
            },
            None => (None, None),
        },
        None => (None, None),
    }
}

/// Fold parsed rollout lines (`None` = an empty or unparseable line, skipped) and the rollout
/// file's age into its facts.
pub fn fold_rollout_docs(docs: &[Option<JsonValue>], age_secs: Option<u64>) -> (r: RolloutFacts)
    ensures
        r@ == rollout_facts_spec(docs@, age_secs),
{
    let mut signal: Option<Signal> = None;
    let mut tokens: Option<u64> = None;
    let mut ctx_pct: Option<u8> = None;
    let mut name: Option<String> = None;
    let mut i: usize = 0;
    assert(docs@.take(0) =~= Seq::<Option<JsonValue>>::empty());
    while i < docs.len()
        invariant
            i <= docs.len(),
            ({
                let st = rollout_state(docs@.take(i as int));
                &&& signal == st.signal
                &&& tokens == st.tokens
                &&& ctx_pct == st.ctx_pct
                &&& opt_view(name) == st.name
            }),
        decreases docs.len() - i,
    {
        assert(docs@.take(i + 1).drop_last() =~= docs@.take(i as int));
        assert(docs@.take(i + 1).last() == docs@[i as int]);
        match &docs[i] {
            None => {},
            Some(v) => {
                if get_str_is(v, "type", "response_item") {
                    signal = Some(Signal::Activity);
                } else if get_str_is(v, "type", "event_msg") {
                    match payload_str_exec(v, "type") {
                        None => {},
                        Some(k) => {
                            let ks = k.as_str();
                            if str_eq(ks, "task_complete") {
                                signal = Some(Signal::Complete);
                            } else if str_eq(ks, "task_started") || str_eq(ks, "token_count") {
                                signal = Some(Signal::Activity);
                            } else if str_eq(ks, "exec_approval_request") || str_eq(
                                ks,
                                "apply_patch_approval_request",
                            ) || str_eq(ks, "elicitation_request") || str_eq(
                                ks,
                                "request_user_input",
                            ) {
                                signal = Some(Signal::NeedsAnswer);
                            }
                            if str_eq(ks, "user_message") {
                                match payload_str_exec(v, "message") {
                                    Some(t) => {
                                        name = first_line_60_exec(t.as_str());
                                    },
                                    None => {},
                                }
                            }
                            if str_eq(ks, "token_count") {
                                let (total, window) = token_usage_exec(v);
                                match total {
                                    Some(t) => {
                                        tokens = Some(t);
                                        ctx_pct = ctx_pct_exec(t, window);
                                    },
                                    None => {},
                                }
                            }
                        },
                    }
                }
            },
        }
        i = i + 1;
    }
    assert(docs@.take(docs.len() as int) =~= docs@);
    let status = match signal {
        None => Status::Idle,
        Some(Signal::Complete) => Status::Idle,
        Some(Signal::NeedsAnswer) => Status::NeedsAnswer,
        Some(Signal::Activity) => match age_secs {
            Some(a) => if a > STALL_AFTER_SECS {
                Status::Stalled
            } else {
                Status::Working
            },
            None => Status::Working,
        },
    };
    RolloutFacts { status, tokens, ctx_pct, name }
}

/// Fold a rollout tail (the file's last bytes) and the file's mtime age into its facts.
/// Tolerant: empty, garbage and unknown lines are skipped, never fatal.
pub fn fold_rollout_tail(bytes: &[u8], age_secs: Option<u64>) -> (r: RolloutFacts)
    ensures
        r@ == rollout_facts_spec(tail_docs(bytes@, false), age_secs),
{
    let docs = line_docs(bytes, false);
    fold_rollout_docs(docs.as_slice(), age_secs)
}

/// A state fold is blind to a line that holds no document: dropping it changes nothing.
proof fn lemma_rollout_state_skips_none(d1: Seq<Option<JsonValue>>, d2: Seq<Option<JsonValue>>)
    ensures
        rollout_state(d1 + seq![None] + d2) == rollout_state(d1 + d2),
    decreases d2.len(),
{
    if d2.len() == 0 {
        assert((d1 + seq![None] + d2).drop_last() =~= d1);
        assert(d1 + d2 =~= d1);
    } else {
        lemma_rollout_state_skips_none(d1, d2.drop_last());
        assert((d1 + seq![None] + d2).drop_last() =~= d1 + seq![None] + d2.drop_last());
        assert((d1 + d2).drop_last() =~= d1 + d2.drop_last());
        assert((d1 + seq![None] + d2).last() == d2.last());
        assert((d1 + d2).last() == d2.last());
    }
}

/// Garbage lines are skipped, never fatal: a rollout line that holds no JSON document (and no
/// line break) folds exactly as if it were absent.
pub proof fn rollout_garbage_lines_are_skipped(a: Seq<u8>, g: Seq<u8>, b: Seq<u8>, age: Option<u64>)
    requires
        !g.contains(10u8),
        crate::telemetry::line_doc(g) is None,
    ensures
        rollout_facts_spec(tail_docs(a + seq![10u8] + g + seq![10u8] + b, false), age)
            == rollout_facts_spec(tail_docs(a + seq![10u8] + b, false), age),
{
    let with = a + seq![10u8] + g + seq![10u8] + b;
    let ag = a + seq![10u8] + g;
    assert(with =~= ag + seq![10u8] + b);
    crate::text::lemma_split_on_concat(ag, b, 10u8);
    crate::text::lemma_split_on_concat(a, g, 10u8);
    crate::text::lemma_split_on_concat(a, b, 10u8);
    crate::text::lemma_split_on_no_sep(g, 10u8);
    let f = |l: Seq<u8>| crate::telemetry::line_doc(l);
    let pa = crate::text::split_on(a, 10u8);
    let pb = crate::text::split_on(b, 10u8);
    let da = pa.map_values(f);
    let db = pb.map_values(f);
    assert(tail_docs(with, false) =~= da + seq![None] + db);
    assert(tail_docs(a + seq![10u8] + b, false) =~= da + db);
    lemma_rollout_state_skips_none(da, db);
}

// --- recognizing a Codex TUI ------------------------------------------------------------------

/// How many of the arguments are non-empty.
pub open spec fn nonempty_count(argv: Seq<Seq<u8>>) -> nat
    decreases argv.len(),
{
    if argv.len() == 0 {
        0
    } else {
        nonempty_count(argv.drop_last()) + if argv.last().len() > 0 {
            1nat
        } else {
            0nat
        }
    }
}

/// A Codex TUI: `comm` (trailing whitespace trimmed) is `codex`, exactly one non-empty
/// argument, and fd 1 on a pty under the platform prefix.
pub open spec fn is_codex_tui_spec(
    comm: Seq<char>,
    argv: Seq<Seq<u8>>,
    fd1_target: Option<Seq<char>>,
    pty_prefix: Seq<char>,
) -> bool {
    trim_end_spec(comm) == "codex"@ && nonempty_count(argv) == 1 && match fd1_target {
        Some(t) => has_prefix(t, pty_prefix),
        None => false,
    }
}

pub open spec fn opt_str_view(s: Option<&str>) -> Option<Seq<char>> {
    match s {
        Some(x) => Some(x@),
        None => None,
    }
}

/// Recognize a Codex TUI process — the node shim and `codex exec` / `--version` fail it.
pub fn is_codex_tui(comm: &str, argv: &[Vec<u8>], fd1_target: Option<&str>, pty_prefix: &str) -> (r:
    bool)
    ensures
        r == is_codex_tui_spec(comm@, byte_views(argv@), opt_str_view(fd1_target), pty_prefix@),
{
    let c = trim_end(chars_of(comm).as_slice());
    if !str_eq(string_of(c.as_slice()).as_str(), "codex") {
        return false;
    }
    let ghost av = byte_views(argv@);
    let mut n: usize = 0;
    let mut i: usize = 0;
    assert(av.take(0) =~= Seq::<Seq<u8>>::empty());
    while i < argv.len()
        invariant
            i <= argv.len(),
            av == byte_views(argv@),
            n == nonempty_count(av.take(i as int)),
            n <= i,
        decreases argv.len() - i,
    {
        assert(av.take(i + 1).drop_last() =~= av.take(i as int));
        assert(av.take(i + 1).last() == argv@[i as int]@);
        if argv[i].len() > 0 {
            n = n + 1;
        }
        i = i + 1;
    }
    assert(av.take(argv.len() as int) =~= av);
    if n != 1 {
        return false;
    }
    match fd1_target {
        Some(t) => crate::text::starts_with(chars_of(t).as_slice(), chars_of(pty_prefix).as_slice()),
        None => false,
    }
}

// --- the join ---------------------------------------------------------------------------------

/// One live Codex process's join facts.
#[derive(Debug, Clone, PartialEq, Eq)]
pub struct CodexProc {
    /// Process working directory.
    pub cwd: String,
    /// Wallclock seconds the process started (the liveness-guard baseline).
    pub start_wallclock_secs: u64,
}

/// One rollout candidate: its session meta plus the file's mtime.
#[derive(Debug, Clone, PartialEq, Eq)]
pub struct RolloutCandidate {
    /// The rollout's session uuid.
    pub session_id: String,
    /// `session_meta.cwd` — the join key.
    pub cwd: String,
    /// The rollout file's mtime, epoch seconds.
    pub mtime_secs: u64,
}

/// Liveness-join slack: a rollout cannot be older than its process's start minus this.
pub const JOIN_SLACK_SECS: u64 = 600;

/// Plain model of a process's join facts.
pub struct CodexProcView {
    pub cwd: Seq<char>,
    pub start_wallclock_secs: u64,
}

impl View for CodexProc {
    type V = CodexProcView;

    open spec fn view(&self) -> CodexProcView {
        CodexProcView { cwd: self.cwd@, start_wallclock_secs: self.start_wallclock_secs }
    }
}

pub open spec fn codex_views(v: Seq<CodexProc>) -> Seq<CodexProcView> {
    v.map_values(|p: CodexProc| p@)
}

/// How many processes run in `cwd`.
pub open spec fn cwd_count(procs: Seq<CodexProcView>, cwd: Seq<char>) -> nat
    decreases procs.len(),
{
    if procs.len() == 0 {
        0
    } else {
        cwd_count(procs.drop_last(), cwd) + if procs.last().cwd == cwd {
            1nat
        } else {
            0nat
        }
    }
}

/// The oldest mtime a process's rollout may have: its start minus the slack, floored at 0.
pub open spec fn min_mtime(p: CodexProcView) -> int {
    if p.start_wallclock_secs >= JOIN_SLACK_SECS {
        p.start_wallclock_secs - JOIN_SLACK_SECS
    } else {
        0
    }
}

/// A rollout eligible for a process: same cwd and not older than the guard.
pub open spec fn eligible(p: CodexProcView, r: RolloutCandidate) -> bool {
    r.cwd@ == p.cwd && r.mtime_secs >= min_mtime(p)
}

/// The newest eligible rollout among the first `n` (the last of equally new ones).
pub open spec fn newest_eligible(p: CodexProcView, rs: Seq<RolloutCandidate>, n: int) -> Option<int>
    decreases n,
{
    if n <= 0 {
        None
    } else {
        let prev = newest_eligible(p, rs, n - 1);
        if eligible(p, rs[n - 1]) && match prev {
            Some(k) => rs[k].mtime_secs <= rs[n - 1].mtime_secs,
            None => true,
        } {
            Some(n - 1)
        } else {
            prev
        }
    }
}

/// The join of process `i`: none when another live process shares its cwd, else the newest
/// eligible rollout.
pub open spec fn join_spec(procs: Seq<CodexProcView>, rs: Seq<RolloutCandidate>, i: int) -> Option<int> {
    if cwd_count(procs, procs[i].cwd) > 1 {
        None
    } else {
        newest_eligible(procs[i], rs, rs.len() as int)
    }
}

proof fn lemma_newest_eligible(p: CodexProcView, rs: Seq<RolloutCandidate>, n: int)
    requires
        0 <= n <= rs.len(),
    ensures
        match newest_eligible(p, rs, n) {
            Some(k) => 0 <= k < n && eligible(p, rs[k]) && forall|j: int|
                0 <= j < n && eligible(p, #[trigger] rs[j]) ==> rs[j].mtime_secs
                    <= rs[k].mtime_secs,
            None => forall|j: int| 0 <= j < n ==> !eligible(p, #[trigger] rs[j]),
        },
    decreases n,
{
    if n > 0 {
        lemma_newest_eligible(p, rs, n - 1);
    }
}

fn cwd_count_exec(procs: &[CodexProc], cwd: &str) -> (r: usize)
    ensures
        r == cwd_count(codex_views(procs@), cwd@),
{
    let ghost pv = codex_views(procs@);
    let mut n: usize = 0;
    let mut i: usize = 0;
    assert(pv.take(0) =~= Seq::<CodexProcView>::empty());
    while i < procs.len()
        invariant
            i <= procs.len(),
            pv == codex_views(procs@),
            n == cwd_count(pv.take(i as int), cwd@),
            n <= i,
        decreases procs.len() - i,
    {
        assert(pv.take(i + 1).drop_last() =~= pv.take(i as int));
        assert(pv.take(i + 1).last() == procs@[i as int]@);
        if str_eq(procs[i].cwd.as_str(), cwd) {
            n = n + 1;
        }
        i = i + 1;
    }
    assert(pv.take(procs.len() as int) =~= pv);
    n
}

fn newest_eligible_exec(p: &CodexProc, rollouts: &[RolloutCandidate]) -> (r: Option<usize>)
    ensures
        match r {
            Some(k) => newest_eligible(p@, rollouts@, rollouts.len() as int) == Some(k as int)
                && k < rollouts.len(),
            None => newest_eligible(p@, rollouts@, rollouts.len() as int) is None,
        },
{
    let min = if p.start_wallclock_secs >= JOIN_SLACK_SECS {
        p.start_wallclock_secs - JOIN_SLACK_SECS
    } else {
        0
    };
    let mut best: Option<usize> = None;
    let mut j: usize = 0;
    while j < rollouts.len()
        invariant
            j <= rollouts.len(),
            min == min_mtime(p@),
            match best {
                Some(k) => newest_eligible(p@, rollouts@, j as int) == Some(k as int) && k < j,
                None => newest_eligible(p@, rollouts@, j as int) is None,
            },
        decreases rollouts.len() - j,
    {
        let r = &rollouts[j];
        if str_eq(r.cwd.as_str(), p.cwd.as_str()) && r.mtime_secs >= min {
            let newer = match best {
                Some(k) => rollouts[k].mtime_secs <= r.mtime_secs,
                None => true,
            };
            if newer {
                best = Some(j);
            }
        }
        j = j + 1;
    }
    best
}

/// Join each process (same order in and out) to its newest same-cwd rollout whose mtime is not
/// older than the process's start minus the slack. Two processes sharing a cwd never join.
pub fn join_rollouts<'a>(procs: &[CodexProc], rollouts: &'a [RolloutCandidate]) -> (r: Vec<
    Option<&'a RolloutCandidate>,
>)
    ensures
        r.len() == procs.len(),
        forall|i: int|
            0 <= i < procs.len() ==> match join_spec(codex_views(procs@), rollouts@, i) {
                Some(k) => #[trigger] r@[i] == Some(&rollouts@[k]),
                None => r@[i] is None,
            },
        // never guessed: a process sharing its cwd stays unjoined
        forall|i: int|
            0 <= i < procs.len() && cwd_count(codex_views(procs@), procs@[i].cwd@) > 1
                ==> #[trigger] r@[i] is None,
        // a join is same-cwd, passes the liveness guard, and is the newest such rollout
        forall|i: int|
            0 <= i < procs.len() && #[trigger] r@[i] is Some ==> {
                let c = *r@[i]->0;
                &&& c.cwd@ == procs@[i].cwd@
                &&& c.mtime_secs >= min_mtime(procs@[i]@)
                &&& forall|j: int|
                    0 <= j < rollouts.len() && eligible(procs@[i]@, #[trigger] rollouts@[j])
                        ==> rollouts@[j].mtime_secs <= c.mtime_secs
            },
{
    let mut out: Vec<Option<&'a RolloutCandidate>> = Vec::new();
    let mut i: usize = 0;
    while i < procs.len()
        invariant
            i <= procs.len(),
            out.len() == i,
            forall|q: int|
                0 <= q < i ==> match join_spec(codex_views(procs@), rollouts@, q) {
                    Some(k) => #[trigger] out@[q] == Some(&rollouts@[k]),
                    None => out@[q] is None,
                },
        decreases procs.len() - i,
    {
        let shared = cwd_count_exec(procs, procs[i].cwd.as_str()) > 1;
        if shared {
            out.push(None);
        } else {
            match newest_eligible_exec(&procs[i], rollouts) {
                Some(k) => out.push(Some(&rollouts[k])),
                None => out.push(None),
            }
        }
        i = i + 1;
    }
    proof {
        assert forall|i: int| 0 <= i < procs.len() && #[trigger] out@[i] is Some implies {
            let c = *out@[i]->0;
            &&& c.cwd@ == procs@[i].cwd@
            &&& c.mtime_secs >= min_mtime(procs@[i]@)
            &&& forall|j: int|
                0 <= j < rollouts.len() && eligible(procs@[i]@, #[trigger] rollouts@[j])
                    ==> rollouts@[j].mtime_secs <= c.mtime_secs
        } by {
            lemma_newest_eligible(procs@[i]@, rollouts@, rollouts.len() as int);
        }
    }
    out
}

} // verus!

verus! {

// --- rollout files ----------------------------------------------------------------------------

/// Cap on rollout files considered per sweep.
pub const MAX_ROLLOUTS: usize = 300;

/// `Path::file_stem` of a file name: the text before the last `.`, unless that `.` starts the
/// name.
pub open spec fn stem_spec(name: Seq<char>) -> Seq<char> {
    match last_index_of(name, '.') {
        Some(i) => if i > 0 {
            name.take(i)
        } else {
            name
        },
        None => name,
    }
}

/// A rollout file: `rollout-*.jsonl`.
pub open spec fn is_rollout_name(name: Seq<char>) -> bool {
    extension_spec(name) == Some("jsonl"@) && has_prefix(stem_spec(name), "rollout-"@)
}

/// Is this directory entry a rollout file?
pub fn is_rollout_file_name(name: &str) -> (r: bool)
    ensures
        r == is_rollout_name(name@),
{
    let cs = chars_of(name);
    match crate::text::rfind_char(cs.as_slice(), '.') {
        Some(i) => {
            if i == 0 {
                return false;
            }
            let ext = slice_chars(cs.as_slice(), i + 1, cs.len());
            let stem = slice_chars(cs.as_slice(), 0, i);
            assert(stem@ =~= name@.take(i as int));
            let pre = chars_of("rollout-");
            str_eq(string_of(ext.as_slice()).as_str(), "jsonl") && crate::text::starts_with(
                stem.as_slice(),
                pre.as_slice(),
            )
        },
        None => false,
    }
}

/// `a` sorts after `b` newest-first: it is strictly older.
pub open spec fn older(a: (Seq<char>, u64), b: (Seq<char>, u64)) -> bool {
    a.1 < b.1
}

pub open spec fn newest_pos(s: Seq<(Seq<char>, u64)>, x: (Seq<char>, u64)) -> int
    decreases s.len(),
{
    if s.len() == 0 {
        0
    } else if older(s[0], x) {
        0
    } else {
        1 + newest_pos(s.drop_first(), x)
    }
}

/// The files stably sorted newest mtime first (equal mtimes keep their listing order).
pub open spec fn newest_first(s: Seq<(Seq<char>, u64)>) -> Seq<(Seq<char>, u64)>
    decreases s.len(),
{
    if s.len() == 0 {
        s
    } else {
        let t = newest_first(s.drop_last());
        t.insert(newest_pos(t, s.last()), s.last())
    }
}

pub open spec fn file_views(v: Seq<(String, u64)>) -> Seq<(Seq<char>, u64)> {
    v.map_values(|f: (String, u64)| (f.0@, f.1))
}

/// The files a sweep considers: newest mtime first, capped at `MAX_ROLLOUTS`.
pub open spec fn selected_files(files: Seq<(Seq<char>, u64)>) -> Seq<(Seq<char>, u64)> {
    let s = newest_first(files);
    if s.len() > MAX_ROLLOUTS {
        s.take(MAX_ROLLOUTS as int)
    } else {
        s
    }
}

/// Order `(path, mtime)` listings newest-first by mtime (not by name: a long-running session's
/// rollout keeps a fresh mtime under an old name) and keep the first `MAX_ROLLOUTS`.
pub fn select_rollout_files(files: Vec<(String, u64)>) -> (r: Vec<(String, u64)>)
    ensures
        file_views(r@) == selected_files(file_views(files@)),
{
    let ghost iv = file_views(files@);
    assert(iv.take(0) =~= Seq::<(Seq<char>, u64)>::empty());
    let mut out: Vec<(String, u64)> = Vec::new();
    for x in it: files
        invariant
            it.seq() == files@,
            iv == file_views(files@),
            file_views(out@) == newest_first(iv.take(it.index() as int)),
    {
        let ghost t = file_views(out@);
        let ghost k = it.index() as int;
        let ghost xv = (x.0@, x.1);
        assert(iv.take(k + 1).drop_last() =~= iv.take(k));
        assert(iv.take(k + 1).last() == xv);
        let mut p: usize = 0;
        assert(t.skip(0) =~= t);
        while p < out.len() && !(out[p].1 < x.1)
            invariant
                p <= out.len(),
                t == file_views(out@),
                xv == (x.0@, x.1),
                newest_pos(t, xv) == p + newest_pos(t.skip(p as int), xv),
            decreases out.len() - p,
        {
            assert(t.skip(p as int)[0] == t[p as int]);
            assert(t[p as int].1 == out@[p as int].1);
            assert(t.skip(p as int).drop_first() =~= t.skip(p + 1));
            p = p + 1;
        }
        proof {
            if p < out.len() {
                assert(t.skip(p as int)[0] == t[p as int]);
                assert(t[p as int].1 == out@[p as int].1);
            }
        }
        assert(newest_pos(t, xv) == p);
        out.insert(p, x);
        assert(file_views(out@) =~= t.insert(p as int, xv));
    }
    assert(iv.take(iv.len() as int) =~= iv);
    if out.len() > MAX_ROLLOUTS {
        let ghost full = file_views(out@);
        out.truncate(MAX_ROLLOUTS);
        assert(file_views(out@) =~= full.take(MAX_ROLLOUTS as int));
    }
    out
}

/// No file is followed by a strictly newer one.
pub open spec fn newest_ordered(s: Seq<(Seq<char>, u64)>) -> bool {
    forall|i: int, j: int| 0 <= i < j < s.len() ==> (#[trigger] s[j]).1 <= (#[trigger] s[i]).1
}

proof fn lemma_newest_pos(s: Seq<(Seq<char>, u64)>, x: (Seq<char>, u64))
    ensures
        0 <= newest_pos(s, x) <= s.len(),
        forall|k: int| 0 <= k < newest_pos(s, x) ==> !older(#[trigger] s[k], x),
        newest_pos(s, x) < s.len() ==> older(s[newest_pos(s, x)], x),
    decreases s.len(),
{
    if s.len() > 0 && !older(s[0], x) {
        let t = s.drop_first();
        lemma_newest_pos(t, x);
        assert forall|k: int| 0 <= k < newest_pos(s, x) implies !older(#[trigger] s[k], x) by {
            if k > 0 {
                assert(s[k] == t[k - 1]);
            }
        }
        if newest_pos(s, x) < s.len() {
            assert(s[newest_pos(s, x)] == t[newest_pos(t, x)]);
        }
    }
}

/// The newest-first order is a sort: ordered by mtime, holding exactly the listed files.
pub proof fn newest_first_is_sorted_permutation(s: Seq<(Seq<char>, u64)>)
    ensures
        newest_ordered(newest_first(s)),
        newest_first(s).to_multiset() == s.to_multiset(),
        newest_first(s).len() == s.len(),
    decreases s.len(),
{
    broadcast use vstd::seq_lib::to_multiset_build, vstd::seq_lib::to_multiset_insert;

    if s.len() > 0 {
        let u = s.drop_last();
        let x = s.last();
        newest_first_is_sorted_permutation(u);
        let t = newest_first(u);
        let p = newest_pos(t, x);
        lemma_newest_pos(t, x);
        let r = t.insert(p, x);
        assert(s =~= u.push(x));
        assert forall|i: int, j: int| 0 <= i < j < r.len() implies (#[trigger] r[j]).1 <= (
        #[trigger] r[i]).1 by {
            if j < p {
                assert(r[i] == t[i] && r[j] == t[j]);
            } else if j == p {
                assert(r[i] == t[i]);
            } else if i < p {
                assert(r[i] == t[i] && r[j] == t[j - 1]);
            } else if i == p {
                assert(r[j] == t[j - 1]);
                if j - 1 > p {
                    assert(t[j - 1].1 <= t[p].1);
                }
            } else {
                assert(r[i] == t[i - 1] && r[j] == t[j - 1]);
            }
        }
    }
}

/// The cap keeps the newest: every kept file is at least as new as every file left out, and
/// the kept files are the listed files' newest-first order cut at `MAX_ROLLOUTS`.
pub proof fn rollout_cap_keeps_the_newest(files: Seq<(Seq<char>, u64)>)
    ensures
        selected_files(files).len() <= MAX_ROLLOUTS,
        newest_ordered(selected_files(files)),
        forall|i: int, j: int|
            0 <= i < selected_files(files).len() <= j < files.len() ==> (#[trigger] newest_first(
                files,
            )[j]).1 <= (#[trigger] selected_files(files)[i]).1,
{
    newest_first_is_sorted_permutation(files);
    let s = newest_first(files);
    assert forall|i: int, j: int|
        0 <= i < selected_files(files).len() <= j < files.len() implies (#[trigger] newest_first(
        files,
    )[j]).1 <= (#[trigger] selected_files(files)[i]).1 by {
        assert(selected_files(files)[i] == s[i]);
    }
}

/// One selected rollout file with its first line as read (`None`: unreadable).
#[derive(Debug)]
pub struct RolloutFile {
    /// The file's path.
    pub path: String,
    /// Its mtime, epoch seconds.
    pub mtime_secs: u64,
    /// Its first line (with the line ending), when readable as text.
    pub first_line: Option<Vec<u8>>,
}

/// The candidates the read files yield, in file order: those whose first line is a session
/// meta.
pub open spec fn candidates_spec(files: Seq<RolloutFile>) -> Seq<(Seq<char>, Seq<char>, u64, Seq<char>)>
    decreases files.len(),
{
    if files.len() == 0 {
        Seq::empty()
    } else {
        let prev = candidates_spec(files.drop_last());
        let f = files.last();
        match f.first_line {
            Some(l) => match session_meta_of(l@) {
                Some((id, cwd)) => prev.push((id, cwd, f.mtime_secs, f.path@)),
                None => prev,
            },
            None => prev,
        }
    }
}

pub open spec fn candidate_views(cs: Seq<RolloutCandidate>, paths: Seq<(String, String)>) -> Seq<
    (Seq<char>, Seq<char>, u64, Seq<char>),
> {
    Seq::new(cs.len(), |i: int| (cs[i].session_id@, cs[i].cwd@, cs[i].mtime_secs, paths[i].1@))
}

/// Parse the selected files' first lines into join candidates plus an id → path index (same
/// order; a file whose first line is not a session meta is skipped).
pub fn rollout_candidates(files: Vec<RolloutFile>) -> (r: (Vec<RolloutCandidate>, Vec<(String, String)>))
    ensures
        r.0.len() == r.1.len(),
        candidate_views(r.0@, r.1@) == candidates_spec(files@),
        forall|i: int| 0 <= i < r.1.len() ==> (#[trigger] r.1@[i]).0@ == r.0@[i].session_id@,
{
    let ghost fv = files@;
    let mut cands: Vec<RolloutCandidate> = Vec::new();
    let mut paths: Vec<(String, String)> = Vec::new();
    assert(fv.take(0) =~= Seq::<RolloutFile>::empty());
    assert(candidate_views(cands@, paths@) =~= Seq::<(Seq<char>, Seq<char>, u64, Seq<char>)>::empty());
    for f in it: files
        invariant
            it.seq() == fv,
            cands.len() == paths.len(),
            candidate_views(cands@, paths@) == candidates_spec(fv.take(it.index() as int)),
            forall|i: int| 0 <= i < paths.len() ==> (#[trigger] paths@[i]).0@ == cands@[i].session_id@,
    {
        let ghost k = it.index() as int;
        assert(fv.take(k + 1).drop_last() =~= fv.take(k));
        assert(fv.take(k + 1).last() == f);
        let meta = match &f.first_line {
            Some(l) => parse_session_meta(l.as_slice()),
            None => None,
        };
        match meta {
            Some(m) => {
                let ghost before = candidate_views(cands@, paths@);
                let id2 = m.id.clone();
                paths.push((id2, f.path));
                cands.push(RolloutCandidate { session_id: m.id, cwd: m.cwd, mtime_secs: f.mtime_secs });
                assert(candidate_views(cands@, paths@) =~= before.push(
                    (cands@.last().session_id@, cands@.last().cwd@, f.mtime_secs, paths@.last().1@),
                ));
            },
            None => {},
        }
    }
    assert(fv.take(fv.len() as int) =~= fv);
    (cands, paths)
}

/// The path recorded for `id` (the last one recorded, as a map insert would keep).
pub open spec fn path_for_spec(paths: Seq<(String, String)>, id: Seq<char>) -> Option<Seq<char>>
    decreases paths.len(),
{
    if paths.len() == 0 {
        None
    } else if paths.last().0@ == id {
        Some(paths.last().1@)
    } else {
        path_for_spec(paths.drop_last(), id)
    }
}

/// Look up a session's rollout path.
pub fn path_for(paths: &[(String, String)], id: &str) -> (r: Option<String>)
    ensures
        opt_view(r) == path_for_spec(paths@, id@),
{
    let mut i = paths.len();
    assert(paths@.take(i as int) =~= paths@);
    while i > 0
        invariant
            i <= paths.len(),
            path_for_spec(paths@, id@) == path_for_spec(paths@.take(i as int), id@),
        decreases i,
    {
        assert(paths@.take(i as int).drop_last() =~= paths@.take(i - 1));
        assert(paths@.take(i as int).last() == paths@[i - 1]);
        if str_eq(paths[i - 1].0.as_str(), id) {
            return Some(paths[i - 1].1.clone());
        }
        i = i - 1;
    }
    None
}

} // verus!

verus! {

// --- live processes ---------------------------------------------------------------------------

/// One live Codex TUI process's facts.
#[derive(Debug, Clone, PartialEq, Eq)]
pub struct ProcInfo {
    /// Process id.
    pub pid: u32,
    /// Working directory.
    pub cwd: String,
    /// The pty on fd 1.
    pub pts: Option<String>,
    /// `WEZTERM_PANE` from the environment.
    pub wezterm_pane: Option<u64>,
    /// Wallclock start, epoch seconds.
    pub start_wallclock_secs: u64,
}

/// The comm pre-gate: only a process named `codex` is worth a full snapshot.
pub fn is_codex_comm(comm: &Option<String>) -> (r: bool)
    ensures
        r == (opt_view(*comm) == Some("codex"@)),
{
    match comm {
        Some(c) => str_eq(c.as_str(), "codex"),
        None => false,
    }
}

pub open spec fn fd1_kept(s: crate::platform::ProcSnapshot) -> Option<Seq<char>> {
    match s.fd1_pty {
        AcqResult::Acquired(t) => opt_view(t),
        _ => None,
    }
}

pub open spec fn argv_or_empty(s: crate::platform::ProcSnapshot) -> Seq<Seq<u8>> {
    match s.argv {
        AcqResult::Acquired(a) => byte_views(a@),
        _ => Seq::empty(),
    }
}

pub open spec fn comm_or_empty(s: crate::platform::ProcSnapshot) -> Seq<char> {
    match opt_view(s.comm) {
        Some(c) => c,
        None => Seq::empty(),
    }
}

/// The snapshot passes the Codex TUI test.
pub open spec fn snap_is_tui(s: crate::platform::ProcSnapshot, prefix: Seq<char>) -> bool {
    is_codex_tui_spec(comm_or_empty(s), argv_or_empty(s), fd1_kept(s), prefix)
}

/// The pane the snapshot's environment names.
pub open spec fn snap_pane(s: crate::platform::ProcSnapshot) -> Option<u64> {
    match s.env_block {
        AcqResult::Acquired(b) => environ_spec(b@).wezterm_pane,
        _ => None,
    }
}

/// Plain model of a process's facts.
pub struct ProcInfoView {
    pub pid: u32,
    pub cwd: Seq<char>,
    pub pts: Option<Seq<char>>,
    pub wezterm_pane: Option<u64>,
    pub start_wallclock_secs: u64,
}

impl View for ProcInfo {
    type V = ProcInfoView;

    open spec fn view(&self) -> ProcInfoView {
        ProcInfoView {
            pid: self.pid,
            cwd: self.cwd@,
            pts: opt_view(self.pts),
            wezterm_pane: self.wezterm_pane,
            start_wallclock_secs: self.start_wallclock_secs,
        }
    }
}

/// The process a snapshot entry yields: a present snapshot that passes the TUI test and has a
/// cwd.
pub open spec fn proc_of(e: (u32, SnapshotOutcome), prefix: Seq<char>) -> Option<ProcInfoView> {
    match e.1 {
        SnapshotOutcome::Present(s) => if snap_is_tui(*s, prefix) && s.cwd is Some {
            Some(
                ProcInfoView {
                    pid: e.0,
                    cwd: s.cwd->0@,
                    pts: fd1_kept(*s),
                    wezterm_pane: snap_pane(*s),
                    start_wallclock_secs: s.start_epoch_secs,
                },
            )
        } else {
            None
        },
        _ => None,
    }
}

pub open spec fn procs_spec(es: Seq<(u32, SnapshotOutcome)>, prefix: Seq<char>) -> Seq<ProcInfoView>
    decreases es.len(),
{
    if es.len() == 0 {
        Seq::empty()
    } else {
        let prev = procs_spec(es.drop_last(), prefix);
        match proc_of(es.last(), prefix) {
            Some(p) => prev.push(p),
            None => prev,
        }
    }
}

/// The acquisition tallies of one entry folded in: a raced snapshot, a refused fd 1, and —
/// for a TUI — its env outcome.
pub open spec fn tally_step(st: PlatformStats, e: (u32, SnapshotOutcome), prefix: Seq<char>) -> PlatformStats {
    match e.1 {
        SnapshotOutcome::Raced => PlatformStats {
            identity_raced: (st.identity_raced + 1) as usize,
            ..st
        },
        SnapshotOutcome::Present(s) => {
            let st1 = if s.fd1_pty is Denied {
                PlatformStats { fd1_denied: (st.fd1_denied + 1) as usize, ..st }
            } else {
                st
            };
            if snap_is_tui(*s, prefix) {
                match s.env_block {
                    AcqResult::Denied => PlatformStats {
                        env_denied: (st1.env_denied + 1) as usize,
                        ..st1
                    },
                    AcqResult::Unavailable => PlatformStats {
                        env_unavailable: (st1.env_unavailable + 1) as usize,
                        ..st1
                    },
                    AcqResult::Malformed => PlatformStats {
                        env_malformed: (st1.env_malformed + 1) as usize,
                        ..st1
                    },
                    AcqResult::Acquired(_) => st1,
                }
            } else {
                st1
            }
        },
        SnapshotOutcome::Gone => st,
    }
}

pub open spec fn tally_spec(es: Seq<(u32, SnapshotOutcome)>, prefix: Seq<char>) -> PlatformStats
    decreases es.len(),
{
    if es.len() == 0 {
        PlatformStats {
            date_parse_failed: 0,
            start_mismatch: 0,
            start_mismatch_near: 0,
            env_denied: 0,
            env_unavailable: 0,
            env_malformed: 0,
            fd1_denied: 0,
            identity_raced: 0,
        }
    } else {
        tally_step(tally_spec(es.drop_last(), prefix), es.last(), prefix)
    }
}

pub open spec fn proc_views(v: Seq<ProcInfo>) -> Seq<ProcInfoView> {
    v.map_values(|p: ProcInfo| p@)
}

pub open spec fn tally_bounded(st: PlatformStats, n: int) -> bool {
    st.date_parse_failed == 0 && st.start_mismatch == 0 && st.start_mismatch_near == 0
        && st.env_denied <= n && st.env_unavailable <= n && st.env_malformed <= n
        && st.fd1_denied <= n && st.identity_raced <= n
}

proof fn lemma_tally_bounded(es: Seq<(u32, SnapshotOutcome)>, prefix: Seq<char>)
    requires
        es.len() <= usize::MAX,
    ensures
        tally_bounded(tally_spec(es, prefix), es.len() as int),
    decreases es.len(),
{
    if es.len() > 0 {
        lemma_tally_bounded(es.drop_last(), prefix);
    }
}

/// The live Codex TUIs among the snapshots of `codex`-named processes, with the acquisition
/// tallies of the sweep.
pub fn codex_procs(snaps: Vec<(u32, SnapshotOutcome)>, pty_prefix: &str) -> (r: (Vec<ProcInfo>, PlatformStats))
    ensures
        proc_views(r.0@) == procs_spec(snaps@, pty_prefix@),
        r.1 == tally_spec(snaps@, pty_prefix@),
{
    let ghost sv = snaps@;
    assert(sv.len() == snaps.len());
    let mut stats = PlatformStats::zero();
    let mut infos: Vec<ProcInfo> = Vec::new();
    assert(sv.take(0) =~= Seq::<(u32, SnapshotOutcome)>::empty());
    for e in it: snaps
        invariant
            it.seq() == sv,
            sv.len() <= usize::MAX,
            proc_views(infos@) == procs_spec(sv.take(it.index() as int), pty_prefix@),
            stats == tally_spec(sv.take(it.index() as int), pty_prefix@),
    {
        let ghost k = it.index() as int;
        let ghost ev = e;
        assert(sv.take(k + 1).drop_last() =~= sv.take(k));
        assert(sv.take(k + 1).last() == e);
        proof {
            lemma_tally_bounded(sv.take(k), pty_prefix@);
        }
        let (pid, outcome) = e;
        match outcome {
            SnapshotOutcome::Gone => {},
            SnapshotOutcome::Raced => {
                stats.identity_raced = stats.identity_raced + 1;
            },
            SnapshotOutcome::Present(snap) => {
                let fd1_pty = match &snap.fd1_pty {
                    AcqResult::Acquired(t) => match t {
                        Some(x) => Some(x.clone()),
                        None => None,
                    },
                    AcqResult::Denied => {
                        stats.fd1_denied = stats.fd1_denied + 1;
                        None
                    },
                    _ => None,
                };
                let empty: Vec<Vec<u8>> = Vec::new();
                let argv: &[Vec<u8>] = match &snap.argv {
                    AcqResult::Acquired(a) => a.as_slice(),
                    _ => empty.as_slice(),
                };
                assert(byte_views(empty@) =~= Seq::<Seq<u8>>::empty());
                let comm: &str = match &snap.comm {
                    Some(c) => c.as_str(),
                    None => "",
                };
                proof {
                    reveal_strlit("");
                }
                let fd1_ref: Option<&str> = match &fd1_pty {
                    Some(x) => Some(x.as_str()),
                    None => None,
                };
                assert(comm@ == comm_or_empty(*snap));
                assert(byte_views(argv@) == argv_or_empty(*snap));
                assert(opt_str_view(fd1_ref) == fd1_kept(*snap));
                let tui = is_codex_tui(comm, argv, fd1_ref, pty_prefix);
                assert(tui == snap_is_tui(*snap, pty_prefix@));
                if tui {
                    stats.count_env(&snap.env_block);
                    let pane = match &snap.env_block {
                        AcqResult::Acquired(b) => parse_environ(b.as_slice()).wezterm_pane,
                        _ => None,
                    };
                    match &snap.cwd {
                        Some(cwd) => {
                            let ghost before = proc_views(infos@);
                            infos.push(
                                ProcInfo {
                                    pid,
                                    cwd: cwd.clone(),
                                    pts: fd1_pty,
                                    wezterm_pane: pane,
                                    start_wallclock_secs: snap.start_epoch_secs,
                                },
                            );
                            assert(proc_views(infos@) =~= before.push(infos@.last()@));
                        },
                        None => {},
                    }
                }
            },
        }
    }
    assert(sv.take(sv.len() as int) =~= sv);
    (infos, stats)
}

// --- rows -------------------------------------------------------------------------------------

/// The row of a live Codex process: its pane matched on the exact pane id, else the cwd; its
/// pts kept only when it renders in a wezterm pane. Unjoined, it is an idle placeholder named
/// for why (a cwd shared with another process, or no prompt yet). Joined, the rollout tail
/// and its age decide status, tokens, context fill and name ("codex (untitled)" before the
/// first prompt).
pub open spec fn codex_row_spec(
    now: u64,
    p: ProcInfoView,
    matched: Option<RolloutCandidate>,
    tail: Seq<u8>,
    shares_cwd: bool,
    panes: Seq<PaneRowView>,
) -> SessionRowView {
    let m = match_spec(p.wezterm_pane, p.cwd, Seq::empty(), panes);
    let pts = if p.wezterm_pane is Some {
        p.pts
    } else {
        None
    };
    let pane = target_of(m.0, panes);
    let pane_socket = match m.0 {
        Some(i) => Some(panes[i].socket),
        None => None,
    };
    let pane_tab_index = match m.0 {
        Some(i) => Some(panes[i].tab_index),
        None => None,
    };
    match matched {
        None => SessionRowView {
            session_id: "codex-pid-"@ + dec(p.pid as nat),
            name: if shares_cwd {
                "codex — session ambiguous"@
            } else {
                "codex — no prompt yet"@
            },
            account: Some("codex"@),
            status: Status::Idle,
            cwd: p.cwd,
            context_tokens: None,
            ctx_pct: None,
            secs_since_append: None,
            pane,
            pane_socket,
            pane_tab_index,
            pane_ambiguous: m.1,
            pts,
        },
        Some(c) => {
            let age = if now >= c.mtime_secs {
                Some((now - c.mtime_secs) as u64)
            } else {
                None
            };
            let f = rollout_facts_spec(tail_docs(tail, false), age);
            SessionRowView {
                session_id: c.session_id@,
                name: match f.name {
                    Some(n) => n,
                    None => "codex (untitled)"@,
                },
                account: Some("codex"@),
                status: f.status,
                cwd: p.cwd,
                context_tokens: f.tokens,
                ctx_pct: f.ctx_pct,
                secs_since_append: age,
                pane,
                pane_socket,
                pane_tab_index,
                pane_ambiguous: m.1,
                pts,
            }
        },
    }
}

/// Build one Codex session row from a live process, its joined rollout (if any) and that
/// rollout's tail bytes (empty when unread).
pub fn build_row(
    now_secs: u64,
    proc: &ProcInfo,
    matched: Option<&RolloutCandidate>,
    tail: &[u8],
    shares_cwd: bool,
    panes: &[PaneRow],
) -> (r: SessionRow)
    ensures
        r@ == codex_row_spec(
            now_secs,
            proc@,
            match matched {
                Some(c) => Some(*c),
                None => None,
            },
            tail@,
            shares_cwd,
            panes_of(panes@),
        ),
{
    let no_names: [&str; 0] = [];
    assert(name_views(no_names@) =~= Seq::<Seq<char>>::empty());
    let (m, amb) = match_pane_index(proc.wezterm_pane, proc.cwd.as_str(), &no_names, panes);
    let (pane, pane_socket, pane_tab_index) = match m {
        Some(i) => (
            Some((panes[i].tab_id, panes[i].pane_id)),
            Some(panes[i].socket.clone()),
            Some(panes[i].tab_index),
        ),
        None => (None, None, None),
    };
    let pts = if proc.wezterm_pane.is_some() {
        match &proc.pts {
            Some(p) => Some(p.clone()),
            None => None,
        }
    } else {
        None
    };
    match matched {
        None => {
            let mut id = String::new();
            push_str(&mut id, "codex-pid-");
            push_dec(&mut id, proc.pid as u64);
            let name = if shares_cwd {
                "codex — session ambiguous"
            } else {
                "codex — no prompt yet"
            };
            SessionRow {
                session_id: id,
                name: name.to_string(),
                account: Some("codex".to_string()),
                status: Status::Idle,
                cwd: proc.cwd.clone(),
                context_tokens: None,
                ctx_pct: None,
                secs_since_append: None,
                pane,
                pane_socket,
                pane_tab_index,
                pane_ambiguous: amb,
                pts,
            }
        },
        Some(c) => {
            let age = if now_secs >= c.mtime_secs {
                Some(now_secs - c.mtime_secs)
            } else {
                None
            };
            let facts = fold_rollout_tail(tail, age);
            let name = match facts.name {
                Some(n) => n,
                None => "codex (untitled)".to_string(),
            };
            SessionRow {
                session_id: c.session_id.clone(),
                name,
                account: Some("codex".to_string()),
                status: facts.status,
                cwd: proc.cwd.clone(),
                context_tokens: facts.tokens,
                ctx_pct: facts.ctx_pct,
                secs_since_append: age,
                pane,
                pane_socket,
                pane_tab_index,
                pane_ambiguous: amb,
                pts,
            }
        },
    }
}

pub open spec fn join_input(procs: Seq<ProcInfo>) -> Seq<CodexProcView> {
    procs.map_values(|p: ProcInfo| CodexProcView { cwd: p.cwd@, start_wallclock_secs: p.start_wallclock_secs })
}

/// The join inputs of the live processes.
pub fn join_procs(procs: &[ProcInfo]) -> (r: Vec<CodexProc>)
    ensures
        codex_views(r@) == join_input(procs@),
{
    let mut out: Vec<CodexProc> = Vec::new();
    let mut i: usize = 0;
    while i < procs.len()
        invariant
            i <= procs.len(),
            out.len() == i,
            forall|k: int|
                0 <= k < i ==> (#[trigger] out@[k]).cwd@ == procs@[k].cwd@
                    && out@[k].start_wallclock_secs == procs@[k].start_wallclock_secs,
        decreases procs.len() - i,
    {
        out.push(
            CodexProc { cwd: procs[i].cwd.clone(), start_wallclock_secs: procs[i].start_wallclock_secs },
        );
        i = i + 1;
    }
    assert(codex_views(out@) =~= join_input(procs@));
    out
}

} // verus!

verus! {

/// The rollout joined to process `i`, if any.
pub open spec fn joined(procs: Seq<ProcInfo>, rs: Seq<RolloutCandidate>, i: int) -> Option<RolloutCandidate> {
    match join_spec(join_input(procs), rs, i) {
        Some(k) => Some(rs[k]),
        None => None,
    }
}

/// Where each process's tail is read from: its joined rollout's path (none when unjoined or
/// when no path is recorded for it).
pub fn tail_paths(procs: &[ProcInfo], rollouts: &[RolloutCandidate], paths: &[(String, String)]) -> (r:
    Vec<Option<String>>)
    ensures
        r.len() == procs.len(),
        forall|i: int|
            0 <= i < procs.len() ==> opt_view(#[trigger] r@[i]) == match joined(procs@, rollouts@, i) {
                Some(c) => path_for_spec(paths@, c.session_id@),
                None => None,
            },
{
    let jp = join_procs(procs);
    let joins = join_rollouts(jp.as_slice(), rollouts);
    let mut out: Vec<Option<String>> = Vec::new();
    let mut i: usize = 0;
    while i < joins.len()
        invariant
            i <= joins.len(),
            joins.len() == procs.len(),
            codex_views(jp@) == join_input(procs@),
            forall|q: int|
                0 <= q < procs.len() ==> match join_spec(codex_views(jp@), rollouts@, q) {
                    Some(k) => #[trigger] joins@[q] == Some(&rollouts@[k]),
                    None => joins@[q] is None,
                },
            out.len() == i,
            forall|q: int|
                0 <= q < i ==> opt_view(#[trigger] out@[q]) == match joined(procs@, rollouts@, q) {
                    Some(c) => path_for_spec(paths@, c.session_id@),
                    None => None,
                },
        decreases joins.len() - i,
    {
        match joins[i] {
            Some(c) => out.push(path_for(paths, c.session_id.as_str())),
            None => out.push(None),
        }
        i = i + 1;
    }
    out
}

/// Every live Codex process's row: joined to its rollout, fed that rollout's tail (`tails[i]`
/// for process `i`; empty when unread).
pub fn codex_rows(
    now_secs: u64,
    procs: &[ProcInfo],
    rollouts: &[RolloutCandidate],
    tails: &[Vec<u8>],
    panes: &[PaneRow],
) -> (r: Vec<SessionRow>)
    requires
        tails.len() == procs.len(),
    ensures
        r.len() == procs.len(),
        forall|i: int|
            0 <= i < procs.len() ==> (#[trigger] r@[i])@ == codex_row_spec(
                now_secs,
                procs@[i]@,
                joined(procs@, rollouts@, i),
                tails@[i]@,
                cwd_count(join_input(procs@), procs@[i].cwd@) > 1,
                panes_of(panes@),
            ),
{
    let jp = join_procs(procs);
    let joins = join_rollouts(jp.as_slice(), rollouts);
    let mut out: Vec<SessionRow> = Vec::new();
    let mut i: usize = 0;
    while i < procs.len()
        invariant
            i <= procs.len(),
            tails.len() == procs.len(),
            joins.len() == procs.len(),
            codex_views(jp@) == join_input(procs@),
            forall|q: int|
                0 <= q < procs.len() ==> match join_spec(codex_views(jp@), rollouts@, q) {
                    Some(k) => #[trigger] joins@[q] == Some(&rollouts@[k]),
                    None => joins@[q] is None,
                },
            out.len() == i,
            forall|q: int|
                0 <= q < i ==> (#[trigger] out@[q])@ == codex_row_spec(
                    now_secs,
                    procs@[q]@,
                    joined(procs@, rollouts@, q),
                    tails@[q]@,
                    cwd_count(join_input(procs@), procs@[q].cwd@) > 1,
                    panes_of(panes@),
                ),
        decreases procs.len() - i,
    {
        let shares = cwd_count_exec(jp.as_slice(), procs[i].cwd.as_str()) > 1;
        let row = build_row(now_secs, &procs[i], joins[i], tails[i].as_slice(), shares, panes);
        out.push(row);
        i = i + 1;
    }
    out
}

} // verus!
