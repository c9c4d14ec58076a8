//! `fleet doctor` — the read-only drift report: are the undocumented sources still readable?
//! The report is rendered from gathered `DoctorFacts` alone; every drift class (parse failures,
//! unknown statuses, platform acquisition failures, an unreachable or partial pane lane, an
//! unreadable sessions dir) gets its own warning line.
use vstd::prelude::*;

use crate::board::{match_pane_index, name_views, panes_of};
use crate::discovery::{opt_view, LiveSession, NativeStatus, ScanStats};
use crate::panes::PaneRow;
use crate::platform::{PaneDiscoveryStats, PlatformStats};
use crate::telemetry::Telemetry;
use crate::text::{
    chars_lt, chars_of, dec, join_strings, joined, lex_lt, push_dec, push_str, str_eq, str_views,
    string_from,
};

verus! {

/// Everything the report renders — gathered once, rendered pure.
#[derive(Debug)]
pub struct DoctorFacts {
    /// Discovery tallies.
    pub scan: ScanStats,
    /// Platform fact-acquisition tallies.
    pub platform: PlatformStats,
    /// wezterm socket-discovery tallies.
    pub pane_stats: PaneDiscoveryStats,
    /// Unknown native status strings seen, as a set: ascending, each once.
    pub unknown_statuses: Vec<String>,
    /// Agent versions present in live session files, as a set: ascending, each once.
    pub versions: Vec<String>,
    /// Per live session: (name, transcript found, account attributed, pane matched).
    pub sessions: Vec<(String, bool, bool, bool)>,
    /// Sessions carrying exact pane identity.
    pub exact_panes: usize,
    /// Live wezterm instances discovered.
    pub instances: usize,
    /// `Ok(pane count)` or the wezterm failure.
    pub wezterm: Result<usize, String>,
    /// One instance answered, another failed — the pane list is partial.
    pub instance_error: Option<String>,
    /// The platform's process-facts source is absent.
    pub proc_missing: bool,
}

/// Strictly ascending: a set held in order.
pub open spec fn ascending(v: Seq<Seq<char>>) -> bool {
    forall|i: int, j: int| 0 <= i < j < v.len() ==> lex_lt(#[trigger] v[i], #[trigger] v[j])
}

impl Default for DoctorFacts {
    /// Nothing gathered yet: zero tallies, empty sets, the pane lane "not checked".
    fn default() -> (r: DoctorFacts)
        ensures
            r.scan == (ScanStats {
                total_files: 0,
                parse_failed: 0,
                stale_dead: 0,
                live: 0,
                dir_unreadable: false,
            }),
            r.platform == (PlatformStats {
                date_parse_failed: 0,
                start_mismatch: 0,
                start_mismatch_near: 0,
                env_denied: 0,
                env_unavailable: 0,
                env_malformed: 0,
                fd1_denied: 0,
                identity_raced: 0,
            }),
            r.pane_stats == (PaneDiscoveryStats {
                sockets_found: 0,
                sockets_stale: 0,
                sockets_foreign_uid: 0,
                instances_failed: 0,
            }),
            r.unknown_statuses@.len() == 0,
            r.versions@.len() == 0,
            r.sessions@.len() == 0,
            r.exact_panes == 0,
            r.instances == 0,
            r.wezterm matches Err(e) && e@ == "not checked"@,
            r.instance_error is None,
            !r.proc_missing,
    {
        DoctorFacts {
            scan: ScanStats {
                total_files: 0,
                parse_failed: 0,
                stale_dead: 0,
                live: 0,
                dir_unreadable: false,
            },
            platform: PlatformStats::zero(),
            pane_stats: PaneDiscoveryStats::zero(),
            unknown_statuses: Vec::new(),
            versions: Vec::new(),
            sessions: Vec::new(),
            exact_panes: 0,
            instances: 0,
            wezterm: Err(string_from("not checked")),
            instance_error: None,
            proc_missing: false,
        }
    }
}

/// Where `x` goes in an ascending set: the first element not below it.
pub open spec fn set_pos(v: Seq<Seq<char>>, x: Seq<char>) -> int
    decreases v.len(),
{
    if v.len() == 0 || !lex_lt(v[0], x) {
        0
    } else {
        1 + set_pos(v.drop_first(), x)
    }
}

/// The set with `x` added.
pub open spec fn set_insert_spec(v: Seq<Seq<char>>, x: Seq<char>) -> Seq<Seq<char>> {
    if v.contains(x) {
        v
    } else {
        v.insert(set_pos(v, x), x)
    }
}

proof fn lemma_set_pos(v: Seq<Seq<char>>, x: Seq<char>)
    requires
        ascending(v),
    ensures
        0 <= set_pos(v, x) <= v.len(),
        forall|k: int| 0 <= k < set_pos(v, x) ==> lex_lt(#[trigger] v[k], x),
        set_pos(v, x) < v.len() ==> !lex_lt(v[set_pos(v, x)], x),
    decreases v.len(),
{
    if v.len() > 0 && lex_lt(v[0], x) {
        let t = v.drop_first();
        assert(ascending(t)) by {
            assert forall|i: int, j: int| 0 <= i < j < t.len() implies lex_lt(
                #[trigger] t[i],
                #[trigger] t[j],
            ) by {
                assert(t[i] == v[i + 1] && t[j] == v[j + 1]);
            }
        }
        lemma_set_pos(t, x);
        assert forall|k: int| 0 <= k < set_pos(v, x) implies lex_lt(#[trigger] v[k], x) by {
            if k > 0 {
                assert(v[k] == t[k - 1]);
            }
        }
        if set_pos(v, x) < v.len() {
            assert(v[set_pos(v, x)] == t[set_pos(t, x)]);
        }
    }
}

/// Adding to a set keeps it a set: still ascending, and it holds exactly the old elements plus
/// the new one.
pub proof fn set_insert_keeps_a_set(v: Seq<Seq<char>>, x: Seq<char>)
    requires
        ascending(v),
    ensures
        ascending(set_insert_spec(v, x)),
        forall|y: Seq<char>| #[trigger] set_insert_spec(v, x).contains(y) <==> (v.contains(y) || y
            == x),
{
    if !v.contains(x) {
        lemma_set_pos(v, x);
        let p = set_pos(v, x);
        let r = v.insert(p, x);
        assert forall|i: int, j: int| 0 <= i < j < r.len() implies lex_lt(
            #[trigger] r[i],
            #[trigger] r[j],
        ) by {
            if j < p {
                assert(r[i] == v[i] && r[j] == v[j]);
            } else if j == p {
                assert(r[i] == v[i]);
            } else if i < p {
                assert(r[i] == v[i] && r[j] == v[j - 1]);
                crate::text::lemma_lex_lt_transitive(v[i], x, v[j - 1]);
                crate::text::lemma_lex_lt_total(v[p], x);
                if j - 1 > p {
                    crate::text::lemma_lex_lt_transitive(x, v[p], v[j - 1]);
                }
            } else if i == p {
                assert(r[j] == v[j - 1]);
                crate::text::lemma_lex_lt_total(v[p], x);
                if j - 1 > p {
                    crate::text::lemma_lex_lt_transitive(x, v[p], v[j - 1]);
                }
            } else {
                assert(r[i] == v[i - 1] && r[j] == v[j - 1]);
            }
        }
        assert forall|y: Seq<char>| #[trigger] r.contains(y) <==> (v.contains(y) || y == x) by {
            if r.contains(y) {
                let k = choose|k: int| 0 <= k < r.len() && r[k] == y;
                if k < p {
                    assert(v[k] == y);
                } else if k > p {
                    assert(v[k - 1] == y);
                }
            }
            if v.contains(y) {
                let k = choose|k: int| 0 <= k < v.len() && v[k] == y;
                if k < p {
                    assert(r[k] == y);
                } else {
                    assert(r[k + 1] == y);
                }
            }
            if y == x {
                assert(r[p] == x);
            }
        }
    }
}

/// Add `x` to an ascending set of strings (kept in place when already present).
pub fn set_insert(set: &mut Vec<String>, x: String)
    requires
        ascending(str_views(old(set)@)),
    ensures
        str_views(final(set)@) == set_insert_spec(str_views(old(set)@), x@),
        ascending(str_views(final(set)@)),
{
    let ghost v = str_views(set@);
    proof {
        lemma_set_pos(v, x@);
        set_insert_keeps_a_set(v, x@);
    }
    let xc = chars_of(x.as_str());
    let mut p: usize = 0;
    while p < set.len()
        invariant
            p <= set.len(),
            v == str_views(set@),
            xc@ == x@,
            ascending(v),
            forall|k: int| 0 <= k < p ==> lex_lt(#[trigger] v[k], x@),
        ensures
            p <= set.len(),
            forall|k: int| 0 <= k < p ==> lex_lt(#[trigger] v[k], x@),
            p < set.len() ==> !lex_lt(v[p as int], x@),
        decreases set.len() - p,
    {
        let e = chars_of(set[p].as_str());
        assert(v[p as int] == set@[p as int]@);
        if !chars_lt(e.as_slice(), xc.as_slice()) {
            break;
        }
        p = p + 1;
    }
    proof {
        lemma_set_pos(v, x@);
    }
    let present = p < set.len() && str_eq(set[p].as_str(), x.as_str());
    proof {
        // `set_pos` is the first element not below `x`, so it is `p`
        if p < set.len() {
            assert(v[p as int] == set@[p as int]@);
        }
        assert(set_pos(v, x@) == p) by {
            lemma_set_pos(v, x@);
            if set_pos(v, x@) < p {
                assert(lex_lt(v[set_pos(v, x@)], x@));
            }
            if set_pos(v, x@) > p as int {
                assert(lex_lt(v[p as int], x@));
            }
        }
        if !present && v.contains(x@) {
            let k = choose|k: int| 0 <= k < v.len() && v[k] == x@;
            crate::text::lemma_lex_lt_irreflexive(x@);
            if k > p {
                assert(lex_lt(v[p as int], v[k]));
                crate::text::lemma_lex_lt_total(v[p as int], x@);
            }
        }
    }
    if !present {
        let ghost before = set@;
        set.insert(p, x);
        assert(str_views(set@) =~= v.insert(p as int, x@));
    }
}

// --- the report text ----------------------------------------------------------------------------

/// `{:?}` of a string (`str`'s `Debug`: quoted, escaped as `char::escape_debug` does).
pub uninterp spec fn debug_text(s: Seq<char>) -> Seq<char>;

/// `format!("{:?}", s)` — std's `Debug` for `str`. Trusted: the escape rules are named, not
/// described.
#[verifier::external_body]
fn debug_quoted(s: &str) -> (r: String)
    ensures
        r@ == debug_text(s@),
{
    format!("{:?}", s)
}

/// `{:?}` of a string set: `{"a", "b"}`.
pub open spec fn debug_set(v: Seq<Seq<char>>) -> Seq<char> {
    "{"@ + joined(v.map_values(|s: Seq<char>| debug_text(s)), ", "@) + "}"@
}

pub open spec fn when(c: bool, s: Seq<char>) -> Seq<char> {
    if c {
        s
    } else {
        Seq::empty()
    }
}

pub open spec fn n(x: usize) -> Seq<char> {
    dec(x as nat)
}

/// The platform-acquisition drift block: one warning per nonzero tally class.
pub open spec fn drift_spec(p: PlatformStats) -> Seq<char> {
    when(
        p.date_parse_failed > 0,
        "  ⚠ procStart date-parse failures: "@ + n(p.date_parse_failed)
            + " — the procStart format may have drifted\n"@,
    ) + when(
        p.start_mismatch > 0,
        "  ⚠ start-identity mismatches: "@ + n(p.start_mismatch) + " ("@ + n(p.start_mismatch_near)
            + " within 2s) — PID reuse is normal, but many near-misses suggest procStart semantics drifted (TZ/derivation)\n"@,
    ) + when(
        p.identity_raced > 0,
        "  ⚠ snapshots discarded to PID-reuse races: "@ + n(p.identity_raced) + "\n"@,
    ) + when(
        p.env_denied + p.env_unavailable + p.env_malformed > 0,
        "  ⚠ env acquisition: "@ + n(p.env_denied) + " denied · "@ + n(p.env_unavailable)
            + " unavailable (possibly restricted) · "@ + n(p.env_malformed)
            + " malformed — account/pane attribution degraded for those sessions\n"@,
    ) + when(
        p.fd1_denied > 0,
        "  ⚠ fd-1 info denied for "@ + n(p.fd1_denied)
            + " live processes — highlight targets missing\n"@,
    )
}

pub open spec fn mark(b: bool) -> Seq<char> {
    if b {
        "✓"@
    } else {
        "✗"@
    }
}

pub open spec fn session_line(s: (String, bool, bool, bool)) -> Seq<char> {
    "  "@ + mark(s.1) + " transcript · "@ + mark(s.2) + " account · "@ + mark(s.3) + " pane — "@
        + s.0@ + "\n"@
}

pub open spec fn session_lines(v: Seq<(String, bool, bool, bool)>) -> Seq<char>
    decreases v.len(),
{
    if v.len() == 0 {
        Seq::empty()
    } else {
        session_lines(v.drop_last()) + session_line(v.last())
    }
}

/// The report's head: title, platform hint, session-file tallies and their warnings.
pub open spec fn report_head(f: DoctorFacts) -> Seq<char> {
    "fleet doctor — read-only drift report\n\n"@ + when(
        f.proc_missing,
        "  ⚠ /proc not found — this build discovers sessions via /proc (WSL2/Linux); the board is empty here\n"@,
    ) + "session files: "@ + n(f.scan.total_files) + " total · "@ + n(f.scan.live) + " live · "@
        + n(f.scan.stale_dead) + " stale-dead · "@ + n(f.scan.parse_failed) + " parse-failed\n"@
        + when(
        f.scan.dir_unreadable,
        "  ⚠ sessions dir unreadable — scan failed, this is NOT an empty fleet\n"@,
    ) + when(
        f.scan.parse_failed > 0,
        "  ⚠ parse failures — sessions/<pid>.json format may have drifted (A1)\n"@,
    )
}

/// The report's middle: statuses, versions, pane identity, the wezterm lane, sockets.
pub open spec fn report_middle(f: DoctorFacts) -> Seq<char> {
    (if f.unknown_statuses@.len() == 0 {
        "native statuses: all known (busy/idle/shell/waiting)\n"@
    } else {
        "  ⚠ unknown native statuses: "@ + debug_set(str_views(f.unknown_statuses@))
            + " — fold shows these as Unknown\n"@
    }) + "cc versions in live files: "@ + (if f.versions@.len() == 0 {
        "none"@
    } else {
        joined(str_views(f.versions@), ", "@)
    }) + "\n"@ + "pane identity: "@ + n(f.exact_panes) + " of "@ + dec(f.sessions@.len())
        + " sessions exact (WSLENV WEZTERM_PANE)\n"@ + (match f.wezterm {
        Ok(count) => "wezterm: "@ + n(f.instances) + " instances · "@ + n(count)
            + " agent panes\n"@,
        Err(e) => "  ⚠ wezterm unreachable: "@ + e@ + " — jump lane degraded (A2)\n"@,
    }) + (match f.instance_error {
        Some(e) => "  ⚠ instance degraded: "@ + e@
            + " — pane list is PARTIAL, counts above undercount\n"@,
        None => Seq::empty(),
    }) + when(
        f.pane_stats.sockets_stale + f.pane_stats.sockets_foreign_uid > 0,
        "sockets skipped: "@ + n(f.pane_stats.sockets_stale)
            + " stale (dead instance — would hang) · "@ + n(f.pane_stats.sockets_foreign_uid)
            + " foreign-uid\n"@,
    )
}

/// The whole report.
pub open spec fn report_spec(f: DoctorFacts) -> Seq<char> {
    report_head(f) + drift_spec(f.platform) + report_middle(f) + "\nlive sessions ("@ + dec(
        f.sessions@.len(),
    ) + "):\n"@ + session_lines(f.sessions@)
}

fn push_n(out: &mut String, x: usize)
    ensures
        final(out)@ == old(out)@ + n(x),
{
    push_dec(out, x as u64);
}

fn when_text(c: bool, s: String) -> (r: String)
    ensures
        r@ == when(c, s@),
{
    if c {
        s
    } else {
        String::new()
    }
}

/// The platform drift block appended to `out`.
#[verifier::spinoff_prover]
#[verifier::rlimit(40)]
fn render_platform_drift(out: &mut String, p: &PlatformStats)
    requires
        p.env_denied + p.env_unavailable + p.env_malformed <= usize::MAX,
    ensures
        final(out)@ == old(out)@ + drift_spec(*p),
{
    let mut a = String::new();
    push_str(&mut a, "  ⚠ procStart date-parse failures: ");
    push_n(&mut a, p.date_parse_failed);
    push_str(&mut a, " — the procStart format may have drifted\n");
    let a = when_text(p.date_parse_failed > 0, a);
    let mut b = String::new();
    push_str(&mut b, "  ⚠ start-identity mismatches: ");
    push_n(&mut b, p.start_mismatch);
    push_str(&mut b, " (");
    push_n(&mut b, p.start_mismatch_near);
    push_str(
        &mut b,
        " within 2s) — PID reuse is normal, but many near-misses suggest procStart semantics drifted (TZ/derivation)\n",
    );
    let b = when_text(p.start_mismatch > 0, b);
    let mut c = String::new();
    push_str(&mut c, "  ⚠ snapshots discarded to PID-reuse races: ");
    push_n(&mut c, p.identity_raced);
    push_str(&mut c, "\n");
    let c = when_text(p.identity_raced > 0, c);
    let mut d = String::new();
    push_str(&mut d, "  ⚠ env acquisition: ");
    push_n(&mut d, p.env_denied);
    push_str(&mut d, " denied · ");
    push_n(&mut d, p.env_unavailable);
    push_str(&mut d, " unavailable (possibly restricted) · ");
    push_n(&mut d, p.env_malformed);
    push_str(&mut d, " malformed — account/pane attribution degraded for those sessions\n");
    let d = when_text(p.env_denied + p.env_unavailable + p.env_malformed > 0, d);
    let mut e = String::new();
    push_str(&mut e, "  ⚠ fd-1 info denied for ");
    push_n(&mut e, p.fd1_denied);
    push_str(&mut e, " live processes — highlight targets missing\n");
    let e = when_text(p.fd1_denied > 0, e);
    push_str(out, a.as_str());
    push_str(out, b.as_str());
    push_str(out, c.as_str());
    push_str(out, d.as_str());
    push_str(out, e.as_str());
}

fn debug_set_exec(v: &Vec<String>) -> (r: String)
    ensures
        r@ == debug_set(str_views(v@)),
{
    let mut ds: Vec<String> = Vec::new();
    let mut i: usize = 0;
    while i < v.len()
        invariant
            i <= v.len(),
            ds.len() == i,
            forall|k: int| 0 <= k < i ==> (#[trigger] ds@[k])@ == debug_text(v@[k]@),
        decreases v.len() - i,
    {
        ds.push(debug_quoted(v[i].as_str()));
        i = i + 1;
    }
    assert(str_views(ds@) =~= str_views(v@).map_values(|s: Seq<char>| debug_text(s)));
    let inner = join_strings(&ds, ", ");
    let mut out = string_from("{");
    push_str(&mut out, inner.as_str());
    push_str(&mut out, "}");
    out
}

fn mark_text(b: bool) -> (r: &'static str)
    ensures
        r@ == mark(b),
{
    if b {
        "✓"
    } else {
        "✗"
    }
}

/// Render the report — pure over the gathered facts.
pub fn render_report(facts: &DoctorFacts) -> (r: String)
    requires
        facts.platform.env_denied + facts.platform.env_unavailable + facts.platform.env_malformed
            <= usize::MAX,
        facts.pane_stats.sockets_stale + facts.pane_stats.sockets_foreign_uid <= usize::MAX,
    ensures
        r@ == report_spec(*facts),
{
    let mut out = string_from("fleet doctor — read-only drift report\n\n");
    let proc_line = when_text(
        facts.proc_missing,
        string_from(
            "  ⚠ /proc not found — this build discovers sessions via /proc (WSL2/Linux); the board is empty here\n",
        ),
    );
    push_str(&mut out, proc_line.as_str());
    push_str(&mut out, "session files: ");
    push_n(&mut out, facts.scan.total_files);
    push_str(&mut out, " total · ");
    push_n(&mut out, facts.scan.live);
    push_str(&mut out, " live · ");
    push_n(&mut out, facts.scan.stale_dead);
    push_str(&mut out, " stale-dead · ");
    push_n(&mut out, facts.scan.parse_failed);
    push_str(&mut out, " parse-failed\n");
    let dir_line = when_text(
        facts.scan.dir_unreadable,
        string_from("  ⚠ sessions dir unreadable — scan failed, this is NOT an empty fleet\n"),
    );
    push_str(&mut out, dir_line.as_str());
    let parse_line = when_text(
        facts.scan.parse_failed > 0,
        string_from("  ⚠ parse failures — sessions/<pid>.json format may have drifted (A1)\n"),
    );
    push_str(&mut out, parse_line.as_str());
    assert(out@ == report_head(*facts));
    render_platform_drift(&mut out, &facts.platform);
    let ghost before_middle = out@;
    let mut mid = if facts.unknown_statuses.len() == 0 {
        string_from("native statuses: all known (busy/idle/shell/waiting)\n")
    } else {
        let mut m = string_from("  ⚠ unknown native statuses: ");
        let d = debug_set_exec(&facts.unknown_statuses);
        push_str(&mut m, d.as_str());
        push_str(&mut m, " — fold shows these as Unknown\n");
        m
    };
    push_str(&mut mid, "cc versions in live files: ");
    if facts.versions.len() == 0 {
        push_str(&mut mid, "none");
    } else {
        let j = join_strings(&facts.versions, ", ");
        push_str(&mut mid, j.as_str());
    }
    push_str(&mut mid, "\n");
    push_str(&mut mid, "pane identity: ");
    push_n(&mut mid, facts.exact_panes);
    push_str(&mut mid, " of ");
    push_n(&mut mid, facts.sessions.len());
    push_str(&mut mid, " sessions exact (WSLENV WEZTERM_PANE)\n");
    let wez = match &facts.wezterm {
        Ok(count) => {
            let mut w = string_from("wezterm: ");
            push_n(&mut w, facts.instances);
            push_str(&mut w, " instances · ");
            push_n(&mut w, *count);
            push_str(&mut w, " agent panes\n");
            w
        },
        Err(e) => {
            let mut w = string_from("  ⚠ wezterm unreachable: ");
            push_str(&mut w, e.as_str());
            push_str(&mut w, " — jump lane degraded (A2)\n");
            w
        },
    };
    push_str(&mut mid, wez.as_str());
    let inst = match &facts.instance_error {
        Some(e) => {
            let mut w = string_from("  ⚠ instance degraded: ");
            push_str(&mut w, e.as_str());
            push_str(&mut w, " — pane list is PARTIAL, counts above undercount\n");
            w
        },
        None => String::new(),
    };
    push_str(&mut mid, inst.as_str());
    let mut sk = string_from("sockets skipped: ");
    push_n(&mut sk, facts.pane_stats.sockets_stale);
    push_str(&mut sk, " stale (dead instance — would hang) · ");
    push_n(&mut sk, facts.pane_stats.sockets_foreign_uid);
    push_str(&mut sk, " foreign-uid\n");
    let sk = when_text(
        facts.pane_stats.sockets_stale + facts.pane_stats.sockets_foreign_uid > 0,
        sk,
    );
    push_str(&mut mid, sk.as_str());
    assert(mid@ == report_middle(*facts));
    push_str(&mut out, mid.as_str());
    push_str(&mut out, "\nlive sessions (");
    push_n(&mut out, facts.sessions.len());
    push_str(&mut out, "):\n");
    let ghost head = out@;
    let mut i: usize = 0;
    assert(facts.sessions@.take(0) =~= Seq::<(String, bool, bool, bool)>::empty());
    while i < facts.sessions.len()
        invariant
            i <= facts.sessions.len(),
            out@ == head + session_lines(facts.sessions@.take(i as int)),
        decreases facts.sessions.len() - i,
    {
        let s = &facts.sessions[i];
        assert(facts.sessions@.take(i + 1).drop_last() =~= facts.sessions@.take(i as int));
        assert(facts.sessions@.take(i + 1).last() == *s);
        let mut line = string_from("  ");
        push_str(&mut line, mark_text(s.1));
        push_str(&mut line, " transcript · ");
        push_str(&mut line, mark_text(s.2));
        push_str(&mut line, " account · ");
        push_str(&mut line, mark_text(s.3));
        push_str(&mut line, " pane — ");
        push_str(&mut line, s.0.as_str());
        push_str(&mut line, "\n");
        push_str(&mut out, line.as_str());
        i = i + 1;
    }
    assert(facts.sessions@.take(facts.sessions.len() as int) =~= facts.sessions@);
    out
}

// --- gathering per-session facts ----------------------------------------------------------------

/// Whether the session's pane matches: by exact pane id, else the AI title or the native name,
/// else the cwd — the board's ladder.
pub open spec fn doctor_pane_matched(s: LiveSession, t: Telemetry, panes: Seq<PaneRow>) -> bool {
    let title = match t.facts {
        Some(f) => match opt_view(f.ai_title) {
            Some(x) => x,
            None => Seq::empty(),
        },
        None => Seq::empty(),
    };
    crate::board::match_spec(
        s.wezterm_pane,
        s.file.cwd@,
        seq![title, s.file.name@],
        panes_of(panes),
    ).0 is Some
}

/// How many of the sessions carry an exact pane identity (`WEZTERM_PANE`).
pub open spec fn exact_count(ss: Seq<LiveSession>) -> nat
    decreases ss.len(),
{
    if ss.len() == 0 {
        0
    } else {
        exact_count(ss.drop_last()) + if ss.last().wezterm_pane is Some {
            1nat
        } else {
            0nat
        }
    }
}

/// The native statuses among the sessions that this build does not know.
pub open spec fn unknown_statuses_of(ss: Seq<LiveSession>) -> Set<Seq<char>>
    decreases ss.len(),
{
    if ss.len() == 0 {
        Set::empty()
    } else {
        let prev = unknown_statuses_of(ss.drop_last());
        match ss.last().file.status {
            NativeStatus::Other(u) => prev.insert(u@),
            _ => prev,
        }
    }
}

/// The versions the sessions' files were written by.
pub open spec fn versions_of(ss: Seq<LiveSession>) -> Set<Seq<char>>
    decreases ss.len(),
{
    if ss.len() == 0 {
        Set::empty()
    } else {
        let prev = versions_of(ss.drop_last());
        match ss.last().file.version {
            Some(v) => prev.insert(v@),
            None => prev,
        }
    }
}

impl DoctorFacts {
    /// Fold the live sessions (with their telemetry, same order; extra entries of the longer
    /// list ignored) into the facts: unknown statuses and versions into their sets, exact pane
    /// identities counted, and one `(name, transcript found, account attributed, pane matched)`
    /// entry per session.
    pub fn add_sessions(&mut self, sessions: &[LiveSession], telemetry: &[Telemetry], panes: &[PaneRow])
        requires
            ascending(str_views(old(self).unknown_statuses@)),
            ascending(str_views(old(self).versions@)),
            old(self).exact_panes + sessions.len() <= usize::MAX,
        ensures
            ascending(str_views(final(self).unknown_statuses@)),
            ascending(str_views(final(self).versions@)),
            ({
                let m = if sessions.len() < telemetry.len() {
                    sessions.len() as int
                } else {
                    telemetry.len() as int
                };
                let done = sessions@.take(m);
                &&& final(self).exact_panes == old(self).exact_panes + exact_count(done)
                &&& forall|y: Seq<char>|
                    #[trigger] str_views(final(self).unknown_statuses@).contains(y) <==> (str_views(
                        old(self).unknown_statuses@,
                    ).contains(y) || unknown_statuses_of(done).contains(y))
                &&& forall|y: Seq<char>|
                    #[trigger] str_views(final(self).versions@).contains(y) <==> (str_views(
                        old(self).versions@,
                    ).contains(y) || versions_of(done).contains(y))
                &&& final(self).sessions@.len() == old(self).sessions@.len() + m
                &&& forall|k: int|
                    0 <= k < m ==> {
                        let e = #[trigger] final(self).sessions@[old(self).sessions@.len() + k];
                        &&& e.0@ == sessions@[k].file.name@
                        &&& e.1 == telemetry@[k].facts is Some
                        &&& e.2 == sessions@[k].account is Some
                        &&& e.3 == doctor_pane_matched(sessions@[k], telemetry@[k], panes@)
                    }
                &&& forall|k: int| 0 <= k < old(self).sessions@.len() ==> #[trigger] final(self).sessions@[k]
                    == old(self).sessions@[k]
            }),
    {
        let n = if sessions.len() < telemetry.len() {
            sessions.len()
        } else {
            telemetry.len()
        };
        let ghost base = self.sessions@.len();
        let ghost old_sessions = self.sessions@;
        let ghost old_unknown = str_views(self.unknown_statuses@);
        let ghost old_versions = str_views(self.versions@);
        let mut i: usize = 0;
        assert(sessions@.take(0) =~= Seq::<LiveSession>::empty());
        while i < n
            invariant
                i <= n,
                n <= sessions.len(),
                n <= telemetry.len(),
                ascending(str_views(self.unknown_statuses@)),
                ascending(str_views(self.versions@)),
                self.exact_panes <= old(self).exact_panes + i,
                self.exact_panes == old(self).exact_panes + exact_count(sessions@.take(i as int)),
                old_unknown == str_views(old(self).unknown_statuses@),
                old_versions == str_views(old(self).versions@),
                forall|y: Seq<char>|
                    #[trigger] str_views(self.unknown_statuses@).contains(y) <==> (
                    old_unknown.contains(y) || unknown_statuses_of(sessions@.take(i as int)).contains(y)),
                forall|y: Seq<char>|
                    #[trigger] str_views(self.versions@).contains(y) <==> (old_versions.contains(y)
                        || versions_of(sessions@.take(i as int)).contains(y)),
                old(self).exact_panes + sessions.len() <= usize::MAX,
                base == old(self).sessions@.len(),
                old_sessions == old(self).sessions@,
                self.sessions@.len() == base + i,
                forall|k: int| 0 <= k < base ==> #[trigger] self.sessions@[k] == old_sessions[k],
                forall|k: int|
                    0 <= k < i ==> {
                        let e = #[trigger] self.sessions@[base + k];
                        &&& e.0@ == sessions@[k].file.name@
                        &&& e.1 == telemetry@[k].facts is Some
                        &&& e.2 == sessions@[k].account is Some
                        &&& e.3 == doctor_pane_matched(sessions@[k], telemetry@[k], panes@)
                    },
            decreases n - i,
        {
            let s = &sessions[i];
            let t = &telemetry[i];
            assert(sessions@.take(i + 1).drop_last() =~= sessions@.take(i as int));
            assert(sessions@.take(i + 1).last() == sessions@[i as int]);
            match &s.file.status {
                NativeStatus::Other(u) => {
                    proof {
                        set_insert_keeps_a_set(str_views(self.unknown_statuses@), u@);
                    }
                    set_insert(&mut self.unknown_statuses, string_from(u.as_str()));
                },
                _ => {},
            }
            match &s.file.version {
                Some(v) => {
                    proof {
                        set_insert_keeps_a_set(str_views(self.versions@), v@);
                    }
                    set_insert(&mut self.versions, string_from(v.as_str()));
                },
                None => {},
            }
            if s.wezterm_pane.is_some() {
                self.exact_panes = self.exact_panes + 1;
            }
            let title: String = match &t.facts {
                Some(f) => match &f.ai_title {
                    Some(x) => x.clone(),
                    None => String::new(),
                },
                None => String::new(),
            };
            let names: [&str; 2] = [title.as_str(), s.file.name.as_str()];
            assert(name_views(names@) =~= seq![title@, s.file.name@]);
            let (m, _) = match_pane_index(s.wezterm_pane, s.file.cwd.as_str(), &names, panes);
            let ghost before = self.sessions@;
            self.sessions.push((s.file.name.clone(), t.facts.is_some(), s.account.is_some(), m.is_some()));
            assert(self.sessions@ == before.push(self.sessions@.last()));
            i = i + 1;
        }
        assert(sessions@.take(n as int) == sessions@.take(
            if sessions.len() < telemetry.len() {
                sessions.len() as int
            } else {
                telemetry.len() as int
            },
        ));
    }
}

} // verus!
