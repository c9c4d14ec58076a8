//! Live-session discovery: the session-file reader, the liveness invariant (the recorded
//! `procStart` must equal the process's start time), account and pane attribution from the
//! process environment, and the scan tallies.
use vstd::prelude::*;

use crate::json::{get_str, get_u64, jget, json_parse, jstr, ju64, parse_json, JsonValue};
use crate::text::{
    ascii_words, byte_views, char_views, chars_of, has_prefix, last_index_of, parse_unsigned,
    parse_unsigned_chars, rfind_char, slice_chars, split_ascii_whitespace, split_bytes,
    split_bytes_spec, starts_with, str_eq, string_from, string_of, utf8_chars,
};

verus! {

/// Native coarse status from the session file. Unknown strings are preserved.
#[derive(Debug, Clone, PartialEq, Eq)]
pub enum NativeStatus {
    /// The agent is processing.
    Busy,
    /// Waiting at the prompt.
    Idle,
    /// The user dropped to shell mode.
    Shell,
    /// Blocked on user input the transcript never shows.
    Waiting,
    /// A status string this version doesn't know — surfaced, never hidden.
    Other(String),
}

/// Plain model of a native status.
pub enum NativeStatusView {
    Busy,
    Idle,
    Shell,
    Waiting,
    Other(Seq<char>),
}

impl View for NativeStatus {
    type V = NativeStatusView;

    open spec fn view(&self) -> NativeStatusView {
        match self {
            NativeStatus::Busy => NativeStatusView::Busy,
            NativeStatus::Idle => NativeStatusView::Idle,
            NativeStatus::Shell => NativeStatusView::Shell,
            NativeStatus::Waiting => NativeStatusView::Waiting,
            NativeStatus::Other(s) => NativeStatusView::Other(s@),
        }
    }
}

/// The native status named by `s`.
pub open spec fn native_status_of(s: Seq<char>) -> NativeStatusView {
    if s == "busy"@ {
        NativeStatusView::Busy
    } else if s == "idle"@ {
        NativeStatusView::Idle
    } else if s == "shell"@ {
        NativeStatusView::Shell
    } else if s == "waiting"@ {
        NativeStatusView::Waiting
    } else {
        NativeStatusView::Other(s)
    }
}

impl NativeStatus {
    /// Map a native status string; anything unrecognized is kept as `Other`.
    pub fn from(s: &str) -> (r: NativeStatus)
        ensures
            r@ == native_status_of(s@),
    {
        if str_eq(s, "busy") {
            NativeStatus::Busy
        } else if str_eq(s, "idle") {
            NativeStatus::Idle
        } else if str_eq(s, "shell") {
            NativeStatus::Shell
        } else if str_eq(s, "waiting") {
            NativeStatus::Waiting
        } else {
            NativeStatus::Other(string_from(s))
        }
    }

    /// A copy of this status.
    pub fn copy(&self) -> (r: NativeStatus)
        ensures
            r@ == self@,
    {
        match self {
            NativeStatus::Busy => NativeStatus::Busy,
            NativeStatus::Idle => NativeStatus::Idle,
            NativeStatus::Shell => NativeStatus::Shell,
            NativeStatus::Waiting => NativeStatus::Waiting,
            NativeStatus::Other(s) => NativeStatus::Other(s.clone()),
        }
    }
}

/// One parsed `sessions/<pid>.json`.
#[derive(Debug, Clone, PartialEq, Eq)]
pub struct SessionFile {
    /// The agent's process id.
    pub pid: u32,
    /// The session UUID — the aggregate identity.
    pub session_id: String,
    /// Session working directory.
    pub cwd: String,
    /// The process start time at launch, as written (the liveness token).
    pub proc_start: String,
    /// Derived session name.
    pub name: String,
    /// Native coarse status.
    pub status: NativeStatus,
    /// Last update, epoch ms.
    pub updated_at_ms: u64,
    /// The agent version that wrote the file.
    pub version: Option<String>,
}

/// Plain model of a session file.
pub struct SessionFileView {
    pub pid: u32,
    pub session_id: Seq<char>,
    pub cwd: Seq<char>,
    pub proc_start: Seq<char>,
    pub name: Seq<char>,
    pub status: NativeStatusView,
    pub updated_at_ms: u64,
    pub version: Option<Seq<char>>,
}

pub open spec fn opt_view(s: Option<String>) -> Option<Seq<char>> {
    match s {
        Some(x) => Some(x@),
        None => None,
    }
}

impl View for SessionFile {
    type V = SessionFileView;

    open spec fn view(&self) -> SessionFileView {
        SessionFileView {
            pid: self.pid,
            session_id: self.session_id@,
            cwd: self.cwd@,
            proc_start: self.proc_start@,
            name: self.name@,
            status: self.status@,
            updated_at_ms: self.updated_at_ms,
            version: opt_view(self.version),
        }
    }
}

// --- field readers with the session file's rules --------------------------------------------

/// A required string member: present and a string.
pub open spec fn req_str(v: JsonValue, key: Seq<char>) -> Option<Seq<char>> {
    jstr(jget(v, key))
}

/// An optional string member with an empty default: absent → empty; a string → its text;
/// anything else (`null` included) is a format error (`None`).
pub open spec fn default_str(v: JsonValue, key: Seq<char>) -> Option<Seq<char>> {
    match jget(v, key) {
        None => Some(Seq::empty()),
        Some(JsonValue::Str(s)) => Some(s@),
        _ => None,
    }
}

/// An optional `u64` member with a zero default; anything but a fitting number is an error.
pub open spec fn default_u64(v: JsonValue, key: Seq<char>) -> Option<u64> {
    match jget(v, key) {
        None => Some(0),
        Some(JsonValue::Number(Some(n))) => Some(n),
        _ => None,
    }
}

/// An optional nullable string member: absent or `null` → none; a string → it; else error.
pub open spec fn nullable_str(v: JsonValue, key: Seq<char>) -> Option<Option<Seq<char>>> {
    match jget(v, key) {
        None => Some(None),
        Some(JsonValue::Null) => Some(None),
        Some(JsonValue::Str(s)) => Some(Some(s@)),
        _ => None,
    }
}

/// A required `u32` member.
pub open spec fn req_u32(v: JsonValue, key: Seq<char>) -> Option<u32> {
    match ju64(jget(v, key)) {
        Some(n) => if n <= u32::MAX {
            Some(n as u32)
        } else {
            None
        },
        None => None,
    }
}

/// The session file a JSON document describes: an object with `pid` (u32), `sessionId` and
/// `procStart` (strings) required; `cwd`, `name`, `status` (strings, default empty),
/// `updatedAt` (u64, default 0) and `version` (string or null) optional; other members ignored.
/// A present member of the wrong type makes the whole file unreadable.
pub open spec fn session_file_spec(v: JsonValue) -> Option<SessionFileView> {
    if v is Object && req_u32(v, "pid"@) is Some && req_str(v, "sessionId"@) is Some && req_str(
        v,
        "procStart"@,
    ) is Some && default_str(v, "cwd"@) is Some && default_str(v, "name"@) is Some
        && default_str(v, "status"@) is Some && default_u64(v, "updatedAt"@) is Some
        && nullable_str(v, "version"@) is Some {
        Some(
            SessionFileView {
                pid: req_u32(v, "pid"@)->0,
                session_id: req_str(v, "sessionId"@)->0,
                cwd: default_str(v, "cwd"@)->0,
                proc_start: req_str(v, "procStart"@)->0,
                name: default_str(v, "name"@)->0,
                status: native_status_of(default_str(v, "status"@)->0),
                updated_at_ms: default_u64(v, "updatedAt"@)->0,
                version: nullable_str(v, "version"@)->0,
            },
        )
    } else {
        None
    }
}

pub(crate) fn read_default_str(v: &JsonValue, key: &str) -> (r: Option<String>)
    ensures
        match r {
            Some(s) => default_str(*v, key@) == Some(s@),
            None => default_str(*v, key@) is None,
        },
{
    match v.get(key) {
        None => Some(String::new()),
        Some(JsonValue::Str(s)) => Some(s.clone()),
        _ => None,
    }
}

pub(crate) fn read_default_u64(v: &JsonValue, key: &str) -> (r: Option<u64>)
    ensures
        r == default_u64(*v, key@),
{
    match v.get(key) {
        None => Some(0),
        Some(JsonValue::Number(Some(n))) => Some(*n),
        _ => None,
    }
}

fn read_nullable_str(v: &JsonValue, key: &str) -> (r: Option<Option<String>>)
    ensures
        match r {
            Some(Some(s)) => nullable_str(*v, key@) == Some(Some(s@)),
            Some(None) => nullable_str(*v, key@) == Some(None::<Seq<char>>),
            None => nullable_str(*v, key@) is None,
        },
{
    match v.get(key) {
        None => Some(None),
        Some(JsonValue::Null) => Some(None),
        Some(JsonValue::Str(s)) => Some(Some(s.clone())),
        _ => None,
    }
}

/// The session file of a JSON document, when it reads as one.
pub open spec fn session_file_of(bytes: Seq<u8>) -> Option<SessionFileView> {
    match json_parse(bytes) {
        Some(v) => session_file_spec(v),
        None => None,
    }
}

/// Parse one `sessions/<pid>.json`. Tolerant: unknown members skipped, missing optional members
/// defaulted; `None` when the bytes are not JSON or miss a required member.
pub fn parse_session_file(bytes: &[u8]) -> (r: Option<SessionFile>)
    ensures
        match r {
            Some(f) => session_file_of(bytes@) == Some(f@),
            None => session_file_of(bytes@) is None,
        },
{
    match parse_json(bytes) {
        Some(v) => session_file_from_json(&v),
        None => None,
    }
}

/// Read one session file from its JSON document.
pub fn session_file_from_json(v: &JsonValue) -> (r: Option<SessionFile>)
    ensures
        match r {
            Some(f) => session_file_spec(*v) == Some(f@),
            None => session_file_spec(*v) is None,
        },
{
    if !matches!(v, JsonValue::Object(_)) {
        return None;
    }
    let pid = match get_u64(v, "pid") {
        Some(n) => if n <= 0xffff_ffff {
            n as u32
        } else {
            return None;
        },
        None => return None,
    };
    let session_id = match get_str(v, "sessionId") {
        Some(s) => s,
        None => return None,
    };
    let proc_start = match get_str(v, "procStart") {
        Some(s) => s,
        None => return None,
    };
    let cwd = match read_default_str(v, "cwd") {
        Some(s) => s,
        None => return None,
    };
    let name = match read_default_str(v, "name") {
        Some(s) => s,
        None => return None,
    };
    let status = match read_default_str(v, "status") {
        Some(s) => s,
        None => return None,
    };
    let updated_at_ms = match read_default_u64(v, "updatedAt") {
        Some(n) => n,
        None => return None,
    };
    let version = match read_nullable_str(v, "version") {
        Some(x) => x,
        None => return None,
    };
    let status = NativeStatus::from(status.as_str());
    Some(SessionFile { pid, session_id, cwd, proc_start, name, status, updated_at_ms, version })
}

// --- /proc parsing ----------------------------------------------------------------------------

/// Field 22 (`starttime`) of a `/proc/<pid>/stat` line: the 20th ASCII-whitespace word after
/// the LAST `)` (the command name, field 2, may itself hold spaces and parens).
pub open spec fn starttime_spec(stat: Seq<char>) -> Option<Seq<char>> {
    match last_index_of(stat, ')') {
        None => None,
        Some(i) => {
            let words = ascii_words(stat.skip(i + 1));
            if words.len() > 19 {
                Some(words[19])
            } else {
                None
            }
        },
    }
}

/// Extract `starttime` (field 22) from `/proc/<pid>/stat` content.
pub fn starttime_from_stat(stat: &str) -> (r: Option<String>)
    ensures
        opt_view(r) == starttime_spec(stat@),
{
    let cs = chars_of(stat);
    let i = match rfind_char(cs.as_slice(), ')') {
        Some(i) => i,
        None => return None,
    };
    let rest = slice_chars(cs.as_slice(), i + 1, cs.len());
    assert(rest@ == stat@.skip(i + 1));
    let words = split_ascii_whitespace(rest.as_slice());
    if words.len() > 19 {
        assert(words@[19]@ == char_views(words@)[19]);
        Some(string_of(words[19].as_slice()))
    } else {
        None
    }
}

/// The liveness invariant: the process's current `stat` start time equals the `procStart` the
/// session file recorded (a reused PID has a different start time).
pub open spec fn is_live_spec(stat: Seq<char>, proc_start: Seq<char>) -> bool {
    starttime_spec(stat) == Some(proc_start)
}

/// Whether `stat` (the content of `/proc/<pid>/stat`) belongs to the process that wrote the
/// session file with `proc_start`.
pub fn is_live(stat: &str, proc_start: &str) -> (r: bool)
    ensures
        r == is_live_spec(stat@, proc_start@),
{
    match starttime_from_stat(stat) {
        Some(t) => str_eq(t.as_str(), proc_start),
        None => false,
    }
}

/// Facts read from a process environment (NUL-separated bytes) in one pass.
#[derive(Debug, Default, Clone, PartialEq, Eq)]
pub struct EnvironFacts {
    /// `CLAUDE_ACCOUNT` — account attribution.
    pub account: Option<String>,
    /// `WEZTERM_PANE` — exact pane identity; non-numeric values ignored.
    pub wezterm_pane: Option<u64>,
}

/// Plain model of environment facts.
pub struct EnvironView {
    pub account: Option<Seq<char>>,
    pub wezterm_pane: Option<u64>,
}

impl View for EnvironFacts {
    type V = EnvironView;

    open spec fn view(&self) -> EnvironView {
        EnvironView { account: opt_view(self.account), wezterm_pane: self.wezterm_pane }
    }
}

/// One environment entry folded in: a valid-UTF-8 `CLAUDE_ACCOUNT=v` sets the account to `v`;
/// otherwise a `WEZTERM_PANE=v` sets the pane to `v` read as a `u64` (a non-number clears it);
/// every other entry leaves the facts unchanged.
pub open spec fn environ_step(f: EnvironView, entry: Seq<u8>) -> EnvironView {
    if !vstd::utf8::valid_utf8(entry) {
        f
    } else {
        let t = vstd::utf8::decode_utf8(entry);
        if has_prefix(t, "CLAUDE_ACCOUNT="@) {
            EnvironView { account: Some(t.skip(15)), ..f }
        } else if has_prefix(t, "WEZTERM_PANE="@) {
            EnvironView {
                wezterm_pane: match parse_unsigned(t.skip(13), u64::MAX as nat) {
                    Some(n) => Some(n as u64),
                    None => None,
                },
                ..f
            }
        } else {
            f
        }
    }
}

/// The facts of a whole entry list, entries applied in order (the last one wins).
pub open spec fn environ_fold(entries: Seq<Seq<u8>>) -> EnvironView
    decreases entries.len(),
{
    if entries.len() == 0 {
        EnvironView { account: None, wezterm_pane: None }
    } else {
        environ_step(environ_fold(entries.drop_last()), entries.last())
    }
}

/// The facts of raw environ bytes: the NUL-separated entries folded in order.
pub open spec fn environ_spec(environ: Seq<u8>) -> EnvironView {
    environ_fold(split_bytes_spec(environ, 0))
}

/// Extract the fields fleetops needs from environ bytes.
pub fn parse_environ(environ: &[u8]) -> (r: EnvironFacts)
    ensures
        r@ == environ_spec(environ@),
{
    let entries = split_bytes(environ, 0);
    let ghost ev = split_bytes_spec(environ@, 0);
    let mut facts = EnvironFacts { account: None, wezterm_pane: None };
    let mut i: usize = 0;
    assert(ev.take(0) =~= Seq::<Seq<u8>>::empty());
    while i < entries.len()
        invariant
            i <= entries.len(),
            byte_views(entries@) == ev,
            facts@ == environ_fold(ev.take(i as int)),
        decreases entries.len() - i,
    {
        let ghost before = facts@;
        assert(entries@[i as int]@ == ev[i as int]);
        assert(ev.take(i + 1).drop_last() =~= ev.take(i as int));
        match utf8_chars(entries[i].as_slice()) {
            Some(t) => {
                let acct = chars_of("CLAUDE_ACCOUNT=");
                let pane = chars_of("WEZTERM_PANE=");
                proof {
                    reveal_strlit("CLAUDE_ACCOUNT=");
                    reveal_strlit("WEZTERM_PANE=");
                }
                if starts_with(t.as_slice(), acct.as_slice()) {
                    let v = slice_chars(t.as_slice(), 15, t.len());
                    facts.account = Some(string_of(v.as_slice()));
                } else if starts_with(t.as_slice(), pane.as_slice()) {
                    let v = slice_chars(t.as_slice(), 13, t.len());
                    facts.wezterm_pane = parse_unsigned_chars(v.as_slice(), u64::MAX);
                }
            },
            None => {},
        }
        assert(facts@ == environ_step(before, ev[i as int]));
        i = i + 1;
    }
    assert(ev.take(entries.len() as int) =~= ev);
    facts
}

// --- the scan ---------------------------------------------------------------------------------

/// A live, attributed session.
#[derive(Debug, Clone, PartialEq, Eq)]
pub struct LiveSession {
    /// Parsed session file.
    pub file: SessionFile,
    /// `CLAUDE_ACCOUNT` from the process environment, if readable.
    pub account: Option<String>,
    /// `WEZTERM_PANE` from the process environment — exact pane identity.
    pub wezterm_pane: Option<u64>,
    /// The session's own pts (the target of its fd 1), kept only under `/dev/pts/`.
    pub pts: Option<String>,
}

/// Plain model of a live session.
pub struct LiveSessionView {
    pub file: SessionFileView,
    pub account: Option<Seq<char>>,
    pub wezterm_pane: Option<u64>,
    pub pts: Option<Seq<char>>,
}

impl View for LiveSession {
    type V = LiveSessionView;

    open spec fn view(&self) -> LiveSessionView {
        LiveSessionView {
            file: self.file@,
            account: opt_view(self.account),
            wezterm_pane: self.wezterm_pane,
            pts: opt_view(self.pts),
        }
    }
}

/// Scan tallies (files seen vs shown).
#[derive(Debug, Default, Clone, PartialEq, Eq)]
pub struct ScanStats {
    /// `*.json` files in the sessions dir.
    pub total_files: usize,
    /// Files that failed to parse (drift signal).
    pub parse_failed: usize,
    /// Parsed files whose PID is dead or reused (expected leftovers).
    pub stale_dead: usize,
    /// Live sessions returned.
    pub live: usize,
    /// The sessions dir itself could not be read — an empty fleet must not look identical to
    /// a failed scan.
    pub dir_unreadable: bool,
}

/// One directory entry of the sessions dir, with what was read for it.
#[derive(Debug)]
pub struct ScanEntry {
    /// The entry's file name.
    pub file_name: String,
    /// The file's bytes; `None` when unreadable.
    pub content: Option<Vec<u8>>,
    /// `/proc/<pid>/stat` of the recorded pid; `None` when absent or unreadable.
    pub stat: Option<String>,
    /// `/proc/<pid>/environ`; `None` when unreadable.
    pub environ: Option<Vec<u8>>,
    /// The target of `/proc/<pid>/fd/1`, when it resolves to UTF-8 text.
    pub fd1_target: Option<String>,
}

/// `Path::extension` of a file name: the text after the last `.`, unless that `.` starts the
/// name.
pub open spec fn extension_spec(name: Seq<char>) -> Option<Seq<char>> {
    match last_index_of(name, '.') {
        Some(i) => if i > 0 {
            Some(name.skip(i + 1))
        } else {
            None
        },
        None => None,
    }
}

/// Is this directory entry a `*.json` file?
pub open spec fn is_json_name(name: Seq<char>) -> bool {
    extension_spec(name) == Some("json"@)
}

/// The kept pts: the fd-1 target when it lies under `/dev/pts/`.
pub open spec fn pts_spec(target: Option<Seq<char>>) -> Option<Seq<char>> {
    match target {
        Some(t) => if has_prefix(t, "/dev/pts/"@) {
            Some(t)
        } else {
            None
        },
        None => None,
    }
}

/// The live session an entry yields: a `*.json` file that reads as a session file whose
/// process is live (its `stat` start time equals the file's `procStart`), attributed from the
/// environment (absent environment → unknown account and pane).
pub open spec fn live_session_spec(e: ScanEntry) -> Option<LiveSessionView> {
    if !is_json_name(e.file_name@) {
        None
    } else {
        match e.content {
            None => None,
            Some(b) => match session_file_of(b@) {
                None => None,
                Some(f) => match e.stat {
                    None => None,
                    Some(st) => if is_live_spec(st@, f.proc_start) {
                        let env = match e.environ {
                            Some(b) => environ_spec(b@),
                            None => EnvironView { account: None, wezterm_pane: None },
                        };
                        Some(
                            LiveSessionView {
                                file: f,
                                account: env.account,
                                wezterm_pane: env.wezterm_pane,
                                pts: pts_spec(opt_view(e.fd1_target)),
                            },
                        )
                    } else {
                        None
                    },
                },
            },
        }
    }
}

/// The sessions the listing yields, in listing order.
pub open spec fn live_sessions_spec(es: Seq<ScanEntry>) -> Seq<LiveSessionView>
    decreases es.len(),
{
    if es.len() == 0 {
        Seq::empty()
    } else {
        let prev = live_sessions_spec(es.drop_last());
        match live_session_spec(es.last()) {
            Some(s) => prev.push(s),
            None => prev,
        }
    }
}

/// Count of entries satisfying a predicate.
pub open spec fn count_where(es: Seq<ScanEntry>, p: spec_fn(ScanEntry) -> bool) -> nat
    decreases es.len(),
{
    if es.len() == 0 {
        0
    } else {
        count_where(es.drop_last(), p) + if p(es.last()) {
            1nat
        } else {
            0nat
        }
    }
}

/// The entry is a `*.json` file.
pub open spec fn entry_is_json(e: ScanEntry) -> bool {
    is_json_name(e.file_name@)
}

/// The entry is a `*.json` file that does not read as a session file.
pub open spec fn entry_parse_failed(e: ScanEntry) -> bool {
    is_json_name(e.file_name@) && match e.content {
        None => true,
        Some(b) => session_file_of(b@) is None,
    }
}

/// The entry reads as a session file whose process is dead or reused.
pub open spec fn entry_stale(e: ScanEntry) -> bool {
    entry_is_json(e) && !entry_parse_failed(e) && live_session_spec(e) is None
}

pub open spec fn session_views(v: Seq<LiveSession>) -> Seq<LiveSessionView> {
    v.map_values(|s: LiveSession| s@)
}

fn kept_pts(target: &Option<String>) -> (r: Option<String>)
    ensures
        opt_view(r) == pts_spec(opt_view(*target)),
{
    match target {
        Some(t) => {
            let cs = chars_of(t.as_str());
            let p = chars_of("/dev/pts/");
            if starts_with(cs.as_slice(), p.as_slice()) {
                Some(t.clone())
            } else {
                None
            }
        },
        None => None,
    }
}

fn is_json_file_name(name: &str) -> (r: bool)
    ensures
        r == is_json_name(name@),
{
    let cs = chars_of(name);
    match rfind_char(cs.as_slice(), '.') {
        Some(i) => {
            if i > 0 {
                let ext = slice_chars(cs.as_slice(), i + 1, cs.len());
                str_eq(string_of(ext.as_slice()).as_str(), "json")
            } else {
                false
            }
        },
        None => false,
    }
}

/// Classify one entry: `(is json, parse failed, live session)`.
fn scan_one(e: &ScanEntry) -> (r: (bool, bool, Option<LiveSession>))
    ensures
        r.0 == entry_is_json(*e),
        r.1 == entry_parse_failed(*e),
        match r.2 {
            Some(s) => live_session_spec(*e) == Some(s@),
            None => live_session_spec(*e) is None,
        },
{
    if !is_json_file_name(e.file_name.as_str()) {
        return (false, false, None);
    }
    let file = match &e.content {
        None => return (true, true, None),
        Some(b) => match parse_session_file(b.as_slice()) {
            None => return (true, true, None),
            Some(f) => f,
        },
    };
    let live = match &e.stat {
        None => false,
        Some(st) => is_live(st.as_str(), file.proc_start.as_str()),
    };
    if !live {
        return (true, false, None);
    }
    let env = match &e.environ {
        Some(b) => parse_environ(b.as_slice()),
        None => EnvironFacts { account: None, wezterm_pane: None },
    };
    let pts = kept_pts(&e.fd1_target);
    (true, false, Some(LiveSession { file, account: env.account, wezterm_pane: env.wezterm_pane, pts }))
}

/// Fold a sessions-dir listing into live sessions plus tallies. `None` = the directory itself
/// could not be read: no sessions and `dir_unreadable` set, never a silent empty fleet.
pub fn scan_entries(listing: Option<Vec<ScanEntry>>) -> (r: (Vec<LiveSession>, ScanStats))
    ensures
        match listing {
            None => r.0@.len() == 0 && r.1 == ScanStats {
                total_files: 0,
                parse_failed: 0,
                stale_dead: 0,
                live: 0,
                dir_unreadable: true,
            },
            Some(es) => {
                &&& session_views(r.0@) == live_sessions_spec(es@)
                &&& r.1.total_files == count_where(es@, |e: ScanEntry| entry_is_json(e))
                &&& r.1.parse_failed == count_where(es@, |e: ScanEntry| entry_parse_failed(e))
                &&& r.1.stale_dead == count_where(es@, |e: ScanEntry| entry_stale(e))
                &&& r.1.live == r.0@.len()
                &&& !r.1.dir_unreadable
            },
        },
{
    let es = match listing {
        None => {
            return (
                Vec::new(),
                ScanStats {
                    total_files: 0,
                    parse_failed: 0,
                    stale_dead: 0,
                    live: 0,
                    dir_unreadable: true,
                },
            )
        },
        Some(es) => es,
    };
    let mut live: Vec<LiveSession> = Vec::new();
    let mut total: usize = 0;
    let mut failed: usize = 0;
    let mut stale: usize = 0;
    let mut i: usize = 0;
    assert(es@.take(0) =~= Seq::<ScanEntry>::empty());
    while i < es.len()
        invariant
            i <= es.len(),
            session_views(live@) == live_sessions_spec(es@.take(i as int)),
            total == count_where(es@.take(i as int), |e: ScanEntry| entry_is_json(e)),
            failed == count_where(es@.take(i as int), |e: ScanEntry| entry_parse_failed(e)),
            stale == count_where(es@.take(i as int), |e: ScanEntry| entry_stale(e)),
            total <= i,
            failed <= i,
            stale <= i,
            live.len() <= i,
        decreases es.len() - i,
    {
        let (is_json, parse_failed, session) = scan_one(&es[i]);
        assert(es@.take(i + 1).drop_last() =~= es@.take(i as int));
        assert(es@.take(i + 1).last() == es@[i as int]);
        if is_json {
            total = total + 1;
        }
        if parse_failed {
            failed = failed + 1;
        }
        if is_json && !parse_failed && session.is_none() {
            stale = stale + 1;
        }
        match session {
            Some(s) => {
                live.push(s);
                assert(session_views(live@) =~= live_sessions_spec(es@.take(i as int)).push(
                    live@.last()@,
                ));
            },
            None => {},
        }
        i = i + 1;
    }
    assert(es@.take(es.len() as int) =~= es@);
    let n = live.len();
    (live, ScanStats { total_files: total, parse_failed: failed, stale_dead: stale, live: n, dir_unreadable: false })
}

} // verus!
