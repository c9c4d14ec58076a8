//! wezterm panes: the pane list reader (agent panes only, classified by title glyph, with
//! per-window tab indices), the `cli` argv/env builders, instance-result merging, the
//! last-good pane cache, and the socket-path conversions between WSL and Windows forms.
use vstd::prelude::*;

use crate::discovery::{default_str, default_u64, opt_view, read_default_str, read_default_u64};
use crate::json::{get_u64, jget, json_parse, ju64, parse_json, JsonValue};
use crate::platform::PaneDiscoveryStats;
use crate::runner::{error_text, pair_views, AppError, CommandSpec, CommandSpecView};
use crate::text::{
    char_views, chars_eq_ignore_ascii_case, chars_of, dec, dec_string, eq_ignore_ascii_case,
    find_char, first_index_of, has_prefix, last_index_of, lines, lines_spec, lossy_utf8,
    nonempty_pieces, parse_unsigned, parse_unsigned_chars, push_char, push_chars, push_str,
    replace_char, replace_chars, rfind_char, slice_chars, split_chars, split_chars_spec,
    starts_with, str_eq, str_views, string_from, string_of, to_ascii_lower, to_ascii_upper,
    trim_start, trim_start_spec, utf8_lossy_chars, ascii_lower, ascii_upper,
};

verus! {

/// Status of an agent pane, read from its title glyph.
#[derive(Debug, Clone, Copy, PartialEq, Eq, Structural)]
pub enum PaneStatus {
    /// Title starts with a braille spinner frame (U+2800–U+28FF) — the agent is working.
    Working,
    /// Title starts with `✳` — the agent is idle.
    Idle,
}

/// One agent pane row.
#[derive(Debug, Clone, PartialEq, Eq)]
pub struct PaneRow {
    /// Windows-form socket path of the owning wezterm instance (empty = the invoker's own).
    pub socket: String,
    /// wezterm pane id — identity and jump target.
    pub pane_id: u64,
    /// wezterm tab id.
    pub tab_id: u64,
    /// 0-based index of this pane's tab within its window, counting all tabs.
    pub tab_index: u64,
    /// Glyph-derived status.
    pub status: PaneStatus,
    /// Title with the glyph prefix stripped — the session's semantic name.
    pub name: String,
    /// Shortened cwd for display.
    pub cwd: String,
    /// Whether wezterm reports this pane as the active one.
    pub is_active: bool,
}

/// Plain model of a pane row.
pub struct PaneRowView {
    pub socket: Seq<char>,
    pub pane_id: u64,
    pub tab_id: u64,
    pub tab_index: u64,
    pub status: PaneStatus,
    pub name: Seq<char>,
    pub cwd: Seq<char>,
    pub is_active: bool,
}

impl View for PaneRow {
    type V = PaneRowView;

    open spec fn view(&self) -> PaneRowView {
        PaneRowView {
            socket: self.socket@,
            pane_id: self.pane_id,
            tab_id: self.tab_id,
            tab_index: self.tab_index,
            status: self.status,
            name: self.name@,
            cwd: self.cwd@,
            is_active: self.is_active,
        }
    }
}

pub open spec fn pane_views(v: Seq<PaneRow>) -> Seq<PaneRowView> {
    v.map_values(|p: PaneRow| p@)
}

impl PaneRow {
    /// A copy of this row.
    pub fn copy(&self) -> (r: PaneRow)
        ensures
            r@ == self@,
    {
        PaneRow {
            socket: self.socket.clone(),
            pane_id: self.pane_id,
            tab_id: self.tab_id,
            tab_index: self.tab_index,
            status: self.status,
            name: self.name.clone(),
            cwd: self.cwd.clone(),
            is_active: self.is_active,
        }
    }
}

/// A copy of a list of rows.
pub fn copy_rows(rows: &Vec<PaneRow>) -> (r: Vec<PaneRow>)
    ensures
        pane_views(r@) == pane_views(rows@),
{
    let mut out: Vec<PaneRow> = Vec::new();
    let mut i: usize = 0;
    while i < rows.len()
        invariant
            i <= rows.len(),
            out.len() == i,
            pane_views(out@) =~= pane_views(rows@).take(i as int),
        decreases rows.len() - i,
    {
        let c = rows[i].copy();
        let ghost before = out@;
        out.push(c);
        assert(out@ == before.push(c));
        assert forall|j: int| 0 <= j < i + 1 implies #[trigger] pane_views(out@)[j] == pane_views(
            rows@,
        )[j] by {
            if j < i {
                assert(pane_views(before)[j] == pane_views(rows@).take(i as int)[j]);
            }
        }
        assert(pane_views(out@) =~= pane_views(rows@).take(i + 1));
        i = i + 1;
    }
    assert(pane_views(rows@).take(rows.len() as int) =~= pane_views(rows@));
    out
}

} // verus!

verus! {

// --- argv and command builders ----------------------------------------------------------------

/// The wezterm binary as reachable from WSL2.
pub const WEZTERM: &'static str = "wezterm.exe";

/// Where the interop binary lives when `PATH` cannot find it.
pub const WEZTERM_ABSOLUTE: &'static str = "/mnt/c/Program Files/WezTerm/wezterm.exe";

fn strings_of(items: &[&str]) -> (r: Vec<String>)
    ensures
        str_views(r@) == items@.map_values(|s: &str| s@),
{
    let mut out: Vec<String> = Vec::new();
    let mut i: usize = 0;
    while i < items.len()
        invariant
            i <= items.len(),
            out.len() == i,
            forall|k: int| 0 <= k < i ==> (#[trigger] out@[k])@ == items@[k]@,
        decreases items.len() - i,
    {
        out.push(string_from(items[i]));
        i = i + 1;
    }
    assert(str_views(out@) =~= items@.map_values(|s: &str| s@));
    out
}

/// argv for `wezterm.exe cli list --format json`. `--no-auto-start` on every cli call: a
/// socketless environment must fail visibly, never spawn a mux server.
pub fn list_args() -> (r: Vec<String>)
    ensures
        str_views(r@) == seq!["cli"@, "--no-auto-start"@, "list"@, "--format"@, "json"@],
{
    let items: [&str; 5] = ["cli", "--no-auto-start", "list", "--format", "json"];
    let r = strings_of(&items);
    assert(items@.map_values(|s: &str| s@) =~= seq!["cli"@, "--no-auto-start"@, "list"@, "--format"@, "json"@]);
    r
}

/// argv for `wezterm.exe cli activate-pane --pane-id <id>`.
pub fn activate_pane_args(pane_id: u64) -> (r: Vec<String>)
    ensures
        str_views(r@) == seq!["cli"@, "--no-auto-start"@, "activate-pane"@, "--pane-id"@, dec(pane_id as nat)],
{
    let items: [&str; 4] = ["cli", "--no-auto-start", "activate-pane", "--pane-id"];
    let mut r = strings_of(&items);
    assert(items@.map_values(|s: &str| s@) =~= seq!["cli"@, "--no-auto-start"@, "activate-pane"@, "--pane-id"@]);
    let ghost before = str_views(r@);
    let d = dec_string(pane_id);
    r.push(d);
    assert(str_views(r@) =~= before.push(d@));
    r
}

/// argv for `wezterm.exe cli activate-tab --tab-id <id>` — activate-pane alone does not bring
/// the tab forward; a jump runs both.
pub fn activate_tab_args(tab_id: u64) -> (r: Vec<String>)
    ensures
        str_views(r@) == seq!["cli"@, "--no-auto-start"@, "activate-tab"@, "--tab-id"@, dec(tab_id as nat)],
{
    let items: [&str; 4] = ["cli", "--no-auto-start", "activate-tab", "--tab-id"];
    let mut r = strings_of(&items);
    assert(items@.map_values(|s: &str| s@) =~= seq!["cli"@, "--no-auto-start"@, "activate-tab"@, "--tab-id"@]);
    let ghost before = str_views(r@);
    let d = dec_string(tab_id);
    r.push(d);
    assert(str_views(r@) =~= before.push(d@));
    r
}

/// argv for `wezterm.exe cli list-clients --format json` — the focused-pane source.
pub fn list_clients_args() -> (r: Vec<String>)
    ensures
        str_views(r@) == seq!["cli"@, "--no-auto-start"@, "list-clients"@, "--format"@, "json"@],
{
    let items: [&str; 5] = ["cli", "--no-auto-start", "list-clients", "--format", "json"];
    let r = strings_of(&items);
    assert(items@.map_values(|s: &str| s@) =~= seq!["cli"@, "--no-auto-start"@, "list-clients"@, "--format"@, "json"@]);
    r
}

/// argv for `tasklist.exe` filtered to wezterm-gui processes, CSV form.
pub fn tasklist_args() -> (r: Vec<String>)
    ensures
        str_views(r@) == seq!["/FI"@, "IMAGENAME eq wezterm-gui.exe"@, "/FO"@, "CSV"@],
{
    let items: [&str; 4] = ["/FI", "IMAGENAME eq wezterm-gui.exe", "/FO", "CSV"];
    let r = strings_of(&items);
    assert(items@.map_values(|s: &str| s@) =~= seq!["/FI"@, "IMAGENAME eq wezterm-gui.exe"@, "/FO"@, "CSV"@]);
    r
}

/// The bounded `tasklist.exe` command (5 s).
pub fn tasklist_spec() -> (r: CommandSpec)
    ensures
        r@.program == "tasklist.exe"@,
        r@.args == seq!["/FI"@, "IMAGENAME eq wezterm-gui.exe"@, "/FO"@, "CSV"@],
        r@.env.len() == 0,
        r@.timeout_secs == 5,
{
    let env: Vec<(String, String)> = Vec::new();
    assert(pair_views(env@) =~= Seq::<(Seq<char>, Seq<char>)>::empty());
    CommandSpec { program: string_from("tasklist.exe"), args: tasklist_args(), env, timeout_secs: 5 }
}

/// The env pair that targets one wezterm instance from WSL: the socket variable plus a
/// per-process `WSLENV` forwarding it to the Windows side.
pub fn socket_env(socket_win: &str) -> (r: Vec<(String, String)>)
    ensures
        pair_views(r@) == seq![
            ("WEZTERM_UNIX_SOCKET"@, socket_win@),
            ("WSLENV"@, "WEZTERM_UNIX_SOCKET/w"@),
        ],
{
    let mut r: Vec<(String, String)> = Vec::new();
    r.push((string_from("WEZTERM_UNIX_SOCKET"), string_from(socket_win)));
    r.push((string_from("WSLENV"), string_from("WEZTERM_UNIX_SOCKET/w")));
    assert(pair_views(r@) =~= seq![
        ("WEZTERM_UNIX_SOCKET"@, socket_win@),
        ("WSLENV"@, "WEZTERM_UNIX_SOCKET/w"@),
    ]);
    r
}

/// A bounded (5 s) wezterm command against one instance: the socket env when `socket_win`
/// names one, none for the invoker's own (`""`).
pub open spec fn wezterm_spec_of(socket_win: Seq<char>, args: Seq<Seq<char>>) -> CommandSpecView {
    CommandSpecView {
        program: "wezterm.exe"@,
        args,
        env: if socket_win.len() == 0 {
            Seq::empty()
        } else {
            seq![("WEZTERM_UNIX_SOCKET"@, socket_win), ("WSLENV"@, "WEZTERM_UNIX_SOCKET/w"@)]
        },
        timeout_secs: 5,
    }
}

/// Build a bounded wezterm command against one instance (`""` = the invoker's own).
pub fn wezterm_spec(socket_win: &str, args: Vec<String>) -> (r: CommandSpec)
    ensures
        r@ == wezterm_spec_of(socket_win@, str_views(args@)),
{
    let env = if socket_win.is_empty() {
        let e: Vec<(String, String)> = Vec::new();
        assert(pair_views(e@) =~= Seq::<(Seq<char>, Seq<char>)>::empty());
        e
    } else {
        socket_env(socket_win)
    };
    CommandSpec { program: string_from(WEZTERM), args, env, timeout_secs: 5 }
}

/// The bounded `cli list` command against one instance.
pub fn list_spec(socket_win: &str) -> (r: CommandSpec)
    ensures
        r@ == wezterm_spec_of(
            socket_win@,
            seq!["cli"@, "--no-auto-start"@, "list"@, "--format"@, "json"@],
        ),
{
    wezterm_spec(socket_win, list_args())
}

/// The bounded `activate-pane` command against the pane's instance.
pub fn activate_pane_spec(socket_win: &str, pane_id: u64) -> (r: CommandSpec)
    ensures
        r@ == wezterm_spec_of(
            socket_win@,
            seq!["cli"@, "--no-auto-start"@, "activate-pane"@, "--pane-id"@, dec(pane_id as nat)],
        ),
{
    wezterm_spec(socket_win, activate_pane_args(pane_id))
}

/// The bounded `activate-tab` command against the pane's instance.
pub fn activate_tab_spec(socket_win: &str, tab_id: u64) -> (r: CommandSpec)
    ensures
        r@ == wezterm_spec_of(
            socket_win@,
            seq!["cli"@, "--no-auto-start"@, "activate-tab"@, "--tab-id"@, dec(tab_id as nat)],
        ),
{
    wezterm_spec(socket_win, activate_tab_args(tab_id))
}

/// The bounded `list-clients` command against one instance.
pub fn list_clients_spec(socket_win: &str) -> (r: CommandSpec)
    ensures
        r@ == wezterm_spec_of(
            socket_win@,
            seq!["cli"@, "--no-auto-start"@, "list-clients"@, "--format"@, "json"@],
        ),
{
    wezterm_spec(socket_win, list_clients_args())
}

/// The wezterm program: the plain name when `PATH` finds it, else the absolute install path
/// when that file exists, else the plain name (the spawn error then stays visible).
pub fn resolve_wezterm(on_path: bool, absolute_is_file: bool, absolute: &str) -> (r: String)
    ensures
        r@ == if !on_path && absolute_is_file {
            absolute@
        } else {
            "wezterm.exe"@
        },
{
    if on_path {
        string_from(WEZTERM)
    } else if absolute_is_file {
        string_from(absolute)
    } else {
        string_from(WEZTERM)
    }
}

// --- tasklist ---------------------------------------------------------------------------------

/// `p` occurs in `s` at `i`.
pub open spec fn occurs_at(s: Seq<char>, p: Seq<char>, i: int) -> bool {
    0 <= i && i + p.len() <= s.len() && s.subrange(i, i + p.len()) == p
}

/// The first occurrence of `p` in `s` at or after `from`.
pub open spec fn find_from(s: Seq<char>, p: Seq<char>, from: int) -> Option<int>
    decreases s.len() + 1 - from,
{
    if from < 0 || from + p.len() > s.len() {
        None
    } else if occurs_at(s, p, from) {
        Some(from)
    } else {
        find_from(s, p, from + 1)
    }
}

fn find_sub(s: &[char], p: &[char], from: usize) -> (r: Option<usize>)
    ensures
        match r {
            Some(i) => find_from(s@, p@, from as int) == Some(i as int),
            None => find_from(s@, p@, from as int) is None,
        },
{
    let mut i = from;
    if p.len() > s.len() {
        return None;
    }
    while i <= s.len() - p.len()
        invariant
            from <= i,
            p.len() <= s.len(),
            find_from(s@, p@, from as int) == find_from(s@, p@, i as int),
        decreases s.len() + 1 - i,
    {
        let mut k: usize = 0;
        let mut ok = true;
        while k < p.len()
            invariant
                k <= p.len(),
                i + p.len() <= s.len(),
                ok ==> forall|j: int| 0 <= j < k ==> s@[i + j] == p@[j],
                !ok ==> !occurs_at(s@, p@, i as int),
                !ok ==> p.len() > 0,
            decreases p.len() - k,
        {
            if s[i + k] != p[k] {
                ok = false;
                assert(s@.subrange(i as int, i + p.len())[k as int] != p@[k as int]);
            }
            k = k + 1;
        }
        if ok {
            assert(s@.subrange(i as int, i + p.len()) =~= p@);
            return Some(i);
        }
        i = i + 1;
    }
    None
}

/// The field separator of a tasklist CSV line: `","`.
pub open spec fn csv_sep() -> Seq<char> {
    seq!['"', ',', '"']
}

/// `s` with its leading `"` characters removed.
pub open spec fn strip_quotes(s: Seq<char>) -> Seq<char>
    decreases s.len(),
{
    if s.len() > 0 && s[0] == '"' {
        strip_quotes(s.drop_first())
    } else {
        s
    }
}

/// The pid of one tasklist CSV line: the first field (leading quotes removed) must be
/// `wezterm-gui.exe` in any ASCII case, and the second field must read as a `u32`.
pub open spec fn tasklist_pid(line: Seq<char>) -> Option<u32> {
    let first = match find_from(line, csv_sep(), 0) {
        Some(i) => line.take(i),
        None => line,
    };
    if !eq_ignore_ascii_case(strip_quotes(first), "wezterm-gui.exe"@) {
        None
    } else {
        match find_from(line, csv_sep(), 0) {
            None => None,
            Some(i) => {
                let rest = line.skip(i + 3);
                let second = match find_from(rest, csv_sep(), 0) {
                    Some(j) => rest.take(j),
                    None => rest,
                };
                match parse_unsigned(second, u32::MAX as nat) {
                    Some(n) => Some(n as u32),
                    None => None,
                }
            },
        }
    }
}

pub open spec fn tasklist_pids_of(lines: Seq<Seq<char>>) -> Seq<u32>
    decreases lines.len(),
{
    if lines.len() == 0 {
        Seq::empty()
    } else {
        let prev = tasklist_pids_of(lines.drop_last());
        match tasklist_pid(lines.last()) {
            Some(p) => prev.push(p),
            None => prev,
        }
    }
}

fn strip_quotes_exec(s: &[char]) -> (r: Vec<char>)
    ensures
        r@ == strip_quotes(s@),
{
    let mut i: usize = 0;
    assert(s@.skip(0) =~= s@);
    while i < s.len() && s[i] == '"'
        invariant
            i <= s.len(),
            strip_quotes(s@) == strip_quotes(s@.skip(i as int)),
        decreases s.len() - i,
    {
        assert(s@.skip(i as int).drop_first() =~= s@.skip(i + 1));
        i = i + 1;
    }
    let r = slice_chars(s, i, s.len());
    assert(r@ =~= s@.skip(i as int));
    r
}

fn tasklist_pid_exec(line: &[char]) -> (r: Option<u32>)
    ensures
        r == tasklist_pid(line@),
{
    let sep: Vec<char> = vec!['"', ',', '"'];
    assert(sep@ =~= csv_sep());
    let f = find_sub(line, sep.as_slice(), 0);
    proof {
        lemma_find_from_range(line@, csv_sep(), 0);
    }
    let first = match f {
        Some(i) => slice_chars(line, 0, i),
        None => slice_chars(line, 0, line.len()),
    };
    assert(first@ =~= match find_from(line@, csv_sep(), 0) {
        Some(i) => line@.take(i),
        None => line@,
    });
    let image = strip_quotes_exec(first.as_slice());
    let want = chars_of("wezterm-gui.exe");
    if !chars_eq_ignore_ascii_case(image.as_slice(), want.as_slice()) {
        return None;
    }
    match f {
        None => None,
        Some(i) => {
            assert(line@.len() == line.len());
            let start: usize = i + 3;
            let rest = slice_chars(line, start, line.len());
            assert(rest@ =~= line@.skip(i + 3));
            let g = find_sub(rest.as_slice(), sep.as_slice(), 0);
            proof {
                lemma_find_from_range(rest@, csv_sep(), 0);
            }
            assert(sep@.len() == 3);
            let second = match g {
                Some(j) => slice_chars(rest.as_slice(), 0, j),
                None => slice_chars(rest.as_slice(), 0, rest.len()),
            };
            assert(second@ =~= match find_from(rest@, csv_sep(), 0) {
                Some(j) => rest@.take(j),
                None => rest@,
            });
            match parse_unsigned_chars(second.as_slice(), 0xffff_ffff) {
                Some(n) => Some(n as u32),
                None => None,
            }
        },
    }
}

proof fn lemma_find_from_range(s: Seq<char>, p: Seq<char>, from: int)
    ensures
        match find_from(s, p, from) {
            Some(i) => from <= i && i + p.len() <= s.len() && 0 <= i,
            None => true,
        },
    decreases s.len() + 1 - from,
{
    if !(from < 0 || from + p.len() > s.len()) && !occurs_at(s, p, from) {
        lemma_find_from_range(s, p, from + 1);
    }
}

/// The wezterm-gui pids of `tasklist /FO CSV` output (lossy UTF-8, line by line); malformed
/// lines are skipped.
pub fn parse_tasklist_pids(bytes: &[u8]) -> (r: Vec<u32>)
    ensures
        r@ == tasklist_pids_of(lines_spec(lossy_utf8(bytes@))),
{
    let text = utf8_lossy_chars(bytes);
    let ls = lines(text.as_slice());
    let ghost lv = lines_spec(lossy_utf8(bytes@));
    let mut out: Vec<u32> = Vec::new();
    let mut i: usize = 0;
    assert(lv.take(0) =~= Seq::<Seq<char>>::empty());
    while i < ls.len()
        invariant
            i <= ls.len(),
            char_views(ls@) == lv,
            out@ == tasklist_pids_of(lv.take(i as int)),
        decreases ls.len() - i,
    {
        assert(lv.take(i + 1).drop_last() =~= lv.take(i as int));
        assert(lv.take(i + 1).last() == ls@[i as int]@);
        match tasklist_pid_exec(ls[i].as_slice()) {
            Some(p) => out.push(p),
            None => {},
        }
        i = i + 1;
    }
    assert(lv.take(ls.len() as int) =~= lv);
    out
}

// --- merging instances, the last-good cache ---------------------------------------------------

/// The rows of every healthy instance, in instance order.
pub open spec fn merged_rows(rs: Seq<Result<Vec<PaneRow>, AppError>>) -> Seq<PaneRowView>
    decreases rs.len(),
{
    if rs.len() == 0 {
        Seq::empty()
    } else {
        merged_rows(rs.drop_last()) + match rs.last() {
            Ok(v) => pane_views(v@),
            Err(_) => Seq::empty(),
        }
    }
}

/// The first failing instance's error.
pub open spec fn first_err(rs: Seq<Result<Vec<PaneRow>, AppError>>) -> Option<AppError>
    decreases rs.len(),
{
    if rs.len() == 0 {
        None
    } else {
        match first_err(rs.drop_last()) {
            Some(e) => Some(e),
            None => match rs.last() {
                Err(e) => Some(e),
                Ok(_) => None,
            },
        }
    }
}

/// Some instance answered.
pub open spec fn any_ok(rs: Seq<Result<Vec<PaneRow>, AppError>>) -> bool {
    exists|i: int| 0 <= i < rs.len() && (#[trigger] rs[i]) is Ok
}

/// Merge per-instance results: the rows of every healthy instance plus the first failure's
/// text; only when no instance answered is the first failure the result.
pub fn merge_instance_results(results: Vec<Result<Vec<PaneRow>, AppError>>) -> (r: Result<
    (Vec<PaneRow>, Option<String>),
    AppError,
>)
    ensures
        !any_ok(results@) && first_err(results@) is Some ==> r == Err::<
            (Vec<PaneRow>, Option<String>),
            AppError,
        >(first_err(results@)->0),
        any_ok(results@) || first_err(results@) is None ==> (r matches Ok((rows, note))
            && pane_views(rows@) == merged_rows(results@) && opt_view(note) == match first_err(
            results@,
        ) {
            Some(e) => Some(error_text(e)),
            None => None,
        }),
{
    let ghost rv = results@;
    let mut merged: Vec<PaneRow> = Vec::new();
    let mut ok = false;
    let mut first: Option<AppError> = None;
    assert(rv.take(0) =~= Seq::<Result<Vec<PaneRow>, AppError>>::empty());
    for result in it: results
        invariant
            it.seq() == rv,
            pane_views(merged@) == merged_rows(rv.take(it.index() as int)),
            ok == any_ok(rv.take(it.index() as int)),
            first == first_err(rv.take(it.index() as int)),
    {
        let ghost k = it.index() as int;
        assert(rv.take(k + 1).drop_last() =~= rv.take(k));
        assert(rv.take(k + 1).last() == result);
        match result {
            Ok(mut rows) => {
                let ghost before = pane_views(merged@);
                let ghost add = pane_views(rows@);
                merged.append(&mut rows);
                assert(pane_views(merged@) =~= before + add);
                ok = true;
                assert(rv.take(k + 1)[k] is Ok);
            },
            Err(e) => {
                proof {
                    if !ok {
                        assert forall|j: int| 0 <= j < k + 1 implies !(#[trigger] rv.take(k + 1)[j] is Ok) by {
                            if j < k {
                                assert(rv.take(k + 1)[j] == rv.take(k)[j]);
                            }
                        }
                    } else {
                        let j = choose|j: int| 0 <= j < k && (#[trigger] rv.take(k)[j]) is Ok;
                        assert(rv.take(k + 1)[j] == rv.take(k)[j]);
                    }
                }
                if first.is_none() {
                    first = Some(e);
                }
            },
        }
        proof {
            if ok && !any_ok(rv.take(k)) {
                assert(rv.take(k + 1)[k] is Ok);
            }
            if any_ok(rv.take(k)) {
                let j = choose|j: int| 0 <= j < k && (#[trigger] rv.take(k)[j]) is Ok;
                assert(rv.take(k + 1)[j] == rv.take(k)[j]);
            }
            if !ok {
                assert forall|j: int| 0 <= j < k + 1 implies !(#[trigger] rv.take(k + 1)[j] is Ok) by {
                    if j < k {
                        assert(rv.take(k + 1)[j] == rv.take(k)[j]);
                        assert(!any_ok(rv.take(k)));
                    }
                }
            }
        }
    }
    assert(rv.take(rv.len() as int) =~= rv);
    match (ok, first) {
        (false, Some(e)) => Err(e),
        (_, e) => {
            let note = match e {
                Some(x) => Some(x.message()),
                None => None,
            };
            Ok((merged, note))
        },
    }
}

/// A pane-lane result as the cache sees it.
pub enum LaneResult {
    /// Every instance answered.
    Clean(Seq<PaneRowView>),
    /// Some instance failed; its error text rides along.
    Partial(Seq<PaneRowView>, Seq<char>),
    /// The lane failed.
    Failed(Seq<char>),
}

pub open spec fn lane_view(r: Result<(Vec<PaneRow>, Option<String>), AppError>) -> LaneResult {
    match r {
        Ok((rows, None)) => LaneResult::Clean(pane_views(rows@)),
        Ok((rows, Some(e))) => LaneResult::Partial(pane_views(rows@), e@),
        Err(e) => LaneResult::Failed(error_text(e)),
    }
}

/// One fold of the last-good cache: `(new cache, shown rows, footer note)`. A clean result
/// replaces the cache; a partial one never does (it would evict the failing instance's panes)
/// and is shown only while the cache is cold; a failure shows the cache.
pub open spec fn cache_step(last: Seq<PaneRowView>, r: LaneResult) -> (Seq<PaneRowView>, Seq<PaneRowView>, Option<Seq<char>>) {
    match r {
        LaneResult::Clean(rows) => (rows, rows, None),
        LaneResult::Partial(rows, e) => if last.len() == 0 {
            (last, rows, Some(e))
        } else {
            (last, last, Some(e))
        },
        LaneResult::Failed(e) => (last, last, Some(e)),
    }
}

/// The last clean pane list, kept so that a lane error does not blank the board's columns.
#[derive(Debug, Default)]
pub struct PaneCache {
    last: Vec<PaneRow>,
}

impl View for PaneCache {
    type V = Seq<PaneRowView>;

    closed spec fn view(&self) -> Seq<PaneRowView> {
        pane_views(self.last@)
    }
}

impl PaneCache {
    /// A cold cache.
    pub fn new() -> (r: PaneCache)
        ensures
            r@.len() == 0,
    {
        let c = PaneCache { last: Vec::new() };
        assert(pane_views(c.last@) =~= Seq::<PaneRowView>::empty());
        c
    }

    /// Fold a lane result: a clean success replaces the cache; a partial success does not; a
    /// failure returns the last good list. Every degradation carries its footer string.
    pub fn fold(&mut self, result: Result<(Vec<PaneRow>, Option<String>), AppError>) -> (r: (
        Vec<PaneRow>,
        Option<String>,
    ))
        ensures
            ({
                let s = cache_step(old(self)@, lane_view(result));
                &&& final(self)@ == s.0
                &&& pane_views(r.0@) == s.1
                &&& opt_view(r.1) == s.2
            }),
    {
        match result {
            Ok((rows, None)) => {
                self.last = copy_rows(&rows);
                (rows, None)
            },
            Ok((rows, Some(e))) => {
                if self.last.len() == 0 {
                    (rows, Some(e))
                } else {
                    (copy_rows(&self.last), Some(e))
                }
            },
            Err(e) => (copy_rows(&self.last), Some(e.message())),
        }
    }
}

/// The cache never loses its last good list to a degraded lane: after a clean list, a failure
/// shows that list, and so does a partial list unless the clean one was empty.
pub proof fn pane_cache_keeps_last_good(last: Seq<PaneRowView>, rows: Seq<PaneRowView>, next: LaneResult)
    ensures
        ({
            let after = cache_step(last, LaneResult::Clean(rows)).0;
            let s = cache_step(after, next);
            &&& next is Failed ==> s.1 == rows && s.0 == rows
            &&& (next is Partial && rows.len() > 0) ==> s.1 == rows && s.0 == rows
        }),
{
}

/// Degradations never change the cache, and a footer note appears exactly when the lane is
/// degraded.
pub proof fn pane_cache_degradations_are_loud_and_harmless(last: Seq<PaneRowView>, r: LaneResult)
    ensures
        !(r is Clean) ==> cache_step(last, r).0 == last && cache_step(last, r).2 is Some,
        r is Clean ==> cache_step(last, r).2 is None,
{
}

// --- the focused pane -------------------------------------------------------------------------

/// The least-idle client among `cs` (the first of equally idle ones).
pub open spec fn least_idle(cs: Seq<(u64, u64)>) -> Option<(u64, u64)>
    decreases cs.len(),
{
    if cs.len() == 0 {
        None
    } else {
        match least_idle(cs.drop_last()) {
            Some(best) => if cs.last().1 < best.1 {
                Some(cs.last())
            } else {
                Some(best)
            },
            None => Some(cs.last()),
        }
    }
}

/// The focused pane across all clients `(focused_pane_id, idle_secs)`: the least-idle client's
/// pane; `None` when no client reports one.
pub fn pick_focused_pane_id(clients: &[(u64, u64)]) -> (r: Option<u64>)
    ensures
        r == match least_idle(clients@) {
            Some(c) => Some(c.0),
            None => None,
        },
{
    let mut best: Option<(u64, u64)> = None;
    let mut i: usize = 0;
    assert(clients@.take(0) =~= Seq::<(u64, u64)>::empty());
    while i < clients.len()
        invariant
            i <= clients.len(),
            best == least_idle(clients@.take(i as int)),
        decreases clients.len() - i,
    {
        assert(clients@.take(i + 1).drop_last() =~= clients@.take(i as int));
        assert(clients@.take(i + 1).last() == clients@[i as int]);
        let c = clients[i];
        best = match best {
            Some(b) => if c.1 < b.1 {
                Some(c)
            } else {
                Some(b)
            },
            None => Some(c),
        };
        i = i + 1;
    }
    assert(clients@.take(clients.len() as int) =~= clients@);
    match best {
        Some(b) => Some(b.0),
        None => None,
    }
}

} // verus!

verus! {

// --- titles and cwds --------------------------------------------------------------------------

/// The status and name of a pane title: a braille spinner frame (U+2800–U+28FF) first is
/// working, `✳` first is idle, anything else is not an agent pane; the name is the rest with
/// leading whitespace trimmed.
pub open spec fn classify_spec(title: Seq<char>) -> Option<(PaneStatus, Seq<char>)> {
    if title.len() == 0 {
        None
    } else if '\u{2800}' <= title[0] && title[0] <= '\u{28FF}' {
        Some((PaneStatus::Working, trim_start_spec(title.drop_first())))
    } else if title[0] == '\u{2733}' {
        Some((PaneStatus::Idle, trim_start_spec(title.drop_first())))
    } else {
        None
    }
}

/// Classify a pane title by its leading glyph; `None` = not an agent pane.
pub fn classify_title(title: &str) -> (r: Option<(PaneStatus, String)>)
    ensures
        match r {
            Some((st, name)) => classify_spec(title@) == Some((st, name@)),
            None => classify_spec(title@) is None,
        },
{
    let cs = chars_of(title);
    if cs.len() == 0 {
        return None;
    }
    let first = cs[0];
    let status = if '\u{2800}' <= first && first <= '\u{28FF}' {
        PaneStatus::Working
    } else if first == '\u{2733}' {
        PaneStatus::Idle
    } else {
        return None;
    };
    let rest = slice_chars(cs.as_slice(), 1, cs.len());
    assert(rest@ =~= title@.drop_first());
    let name = trim_start(rest.as_slice());
    Some((status, string_of(name.as_slice())))
}

/// `s` with every trailing `/` removed.
pub open spec fn trim_slashes(s: Seq<char>) -> Seq<char>
    decreases s.len(),
{
    if s.len() > 0 && s.last() == '/' {
        trim_slashes(s.drop_last())
    } else {
        s
    }
}

/// The display form of a wezterm `file://` cwd: trailing slashes dropped;
/// `file://wsl.localhost/<distro>/a/b` → `/a/b` (`/` when only the distro is left);
/// `file:///C:/x` → `C:/x`; anything else verbatim.
pub open spec fn short_cwd_spec(cwd: Seq<char>) -> Seq<char> {
    let t = trim_slashes(cwd);
    let wsl = "file://wsl.localhost/"@;
    let local = "file:///"@;
    if has_prefix(t, wsl) {
        let rest = t.skip(wsl.len() as int);
        match first_index_of(rest, '/') {
            Some(i) => seq!['/'] + rest.skip(i + 1),
            None => seq!['/'],
        }
    } else if has_prefix(t, local) {
        t.skip(local.len() as int)
    } else {
        t
    }
}

/// Shorten a wezterm `file://` cwd URL for display.
pub fn short_cwd(cwd: &str) -> (r: String)
    ensures
        r@ == short_cwd_spec(cwd@),
{
    let cs = chars_of(cwd);
    let mut end = cs.len();
    assert(cwd@.take(end as int) =~= cwd@);
    while end > 0 && cs[end - 1] == '/'
        invariant
            end <= cs.len(),
            cs@ == cwd@,
            trim_slashes(cwd@) == trim_slashes(cwd@.take(end as int)),
        decreases end,
    {
        assert(cwd@.take(end as int).drop_last() =~= cwd@.take(end - 1));
        end = end - 1;
    }
    let t = slice_chars(cs.as_slice(), 0, end);
    assert(t@ =~= cwd@.take(end as int));
    let wsl = chars_of("file://wsl.localhost/");
    let local = chars_of("file:///");
    proof {
        reveal_strlit("file://wsl.localhost/");
        reveal_strlit("file:///");
    }
    if starts_with(t.as_slice(), wsl.as_slice()) {
        let rest = slice_chars(t.as_slice(), 21, t.len());
        assert(rest@ =~= t@.skip(21));
        match find_char(rest.as_slice(), '/') {
            Some(i) => {
                let mut out = string_from("/");
                let tail = slice_chars(rest.as_slice(), i + 1, rest.len());
                assert(tail@ =~= rest@.skip(i + 1));
                push_chars(&mut out, tail.as_slice());
                proof {
                    reveal_strlit("/");
                }
                assert(out@ =~= seq!['/'] + rest@.skip(i + 1));
                out
            },
            None => {
                proof {
                    reveal_strlit("/");
                }
                let out = string_from("/");
                assert(out@ =~= seq!['/']);
                out
            },
        }
    } else if starts_with(t.as_slice(), local.as_slice()) {
        let rest = slice_chars(t.as_slice(), 8, t.len());
        assert(rest@ =~= t@.skip(8));
        string_of(rest.as_slice())
    } else {
        string_of(t.as_slice())
    }
}

// --- the pane list ----------------------------------------------------------------------------

/// One wezterm pane entry, the members the board reads.
pub struct RawPane {
    pub pane_id: u64,
    pub tab_id: u64,
    pub window_id: u64,
    pub title: Seq<char>,
    pub cwd: Seq<char>,
    pub is_active: bool,
}

/// An optional boolean member with a `false` default; anything but a boolean is an error.
pub open spec fn default_bool(v: JsonValue, key: Seq<char>) -> Option<bool> {
    match jget(v, key) {
        None => Some(false),
        Some(JsonValue::Bool(b)) => Some(b),
        _ => None,
    }
}

/// A pane entry: an object with `pane_id` and `tab_id` (u64) required, `window_id` (u64, 0),
/// `title` and `cwd` (strings, empty) and `is_active` (bool, false) optional; other members
/// ignored; a present member of the wrong type is an error.
pub open spec fn raw_pane(v: JsonValue) -> Option<RawPane> {
    if v is Object && ju64(jget(v, "pane_id"@)) is Some && ju64(jget(v, "tab_id"@)) is Some
        && default_u64(v, "window_id"@) is Some && default_str(v, "title"@) is Some && default_str(
        v,
        "cwd"@,
    ) is Some && default_bool(v, "is_active"@) is Some {
        Some(
            RawPane {
                pane_id: ju64(jget(v, "pane_id"@))->0,
                tab_id: ju64(jget(v, "tab_id"@))->0,
                window_id: default_u64(v, "window_id"@)->0,
                title: default_str(v, "title"@)->0,
                cwd: default_str(v, "cwd"@)->0,
                is_active: default_bool(v, "is_active"@)->0,
            },
        )
    } else {
        None
    }
}

pub open spec fn raw_panes_of(es: Seq<JsonValue>) -> Option<Seq<RawPane>>
    decreases es.len(),
{
    if es.len() == 0 {
        Some(Seq::empty())
    } else {
        match (raw_panes_of(es.drop_last()), raw_pane(es.last())) {
            (Some(prev), Some(p)) => Some(prev.push(p)),
            _ => None,
        }
    }
}

/// The pane entries of a document: a JSON array of pane entries, else an error.
pub open spec fn raw_panes(doc: Option<JsonValue>) -> Option<Seq<RawPane>> {
    match doc {
        Some(JsonValue::Array(es)) => raw_panes_of(es@),
        _ => None,
    }
}

/// Tabs in first-appearance order: `(window, tab, 0-based index within its window)`.
pub open spec fn tab_table(raws: Seq<RawPane>) -> Seq<(u64, u64, nat)>
    decreases raws.len(),
{
    if raws.len() == 0 {
        Seq::empty()
    } else {
        let t = tab_table(raws.drop_last());
        let p = raws.last();
        if tab_known(t, p.window_id, p.tab_id) {
            t
        } else {
            t.push((p.window_id, p.tab_id, window_tabs(t, p.window_id)))
        }
    }
}

pub open spec fn tab_known(t: Seq<(u64, u64, nat)>, w: u64, tab: u64) -> bool {
    exists|i: int| 0 <= i < t.len() && t[i].0 == w && t[i].1 == tab
}

/// How many tabs of window `w` are in the table.
pub open spec fn window_tabs(t: Seq<(u64, u64, nat)>, w: u64) -> nat
    decreases t.len(),
{
    if t.len() == 0 {
        0
    } else {
        window_tabs(t.drop_last(), w) + if t.last().0 == w {
            1nat
        } else {
            0nat
        }
    }
}

/// The recorded index of `(w, tab)`.
pub open spec fn tab_index_of(t: Seq<(u64, u64, nat)>, w: u64, tab: u64) -> nat
    decreases t.len(),
{
    if t.len() == 0 {
        0
    } else if t.last().0 == w && t.last().1 == tab {
        t.last().2
    } else {
        tab_index_of(t.drop_last(), w, tab)
    }
}

/// The agent panes among the entries, in list order, each stamped with its instance and its
/// tab's index.
pub open spec fn claude_panes(raws: Seq<RawPane>, table: Seq<(u64, u64, nat)>, socket: Seq<char>) -> Seq<PaneRowView>
    decreases raws.len(),
{
    if raws.len() == 0 {
        Seq::empty()
    } else {
        let prev = claude_panes(raws.drop_last(), table, socket);
        let p = raws.last();
        match classify_spec(p.title) {
            Some((status, name)) => prev.push(
                PaneRowView {
                    socket,
                    pane_id: p.pane_id,
                    tab_id: p.tab_id,
                    tab_index: tab_index_of(table, p.window_id, p.tab_id) as u64,
                    status,
                    name,
                    cwd: short_cwd_spec(p.cwd),
                    is_active: p.is_active,
                },
            ),
            None => prev,
        }
    }
}

/// `a` sorts after `b` by pane id.
pub open spec fn pane_after(a: PaneRowView, b: PaneRowView) -> bool {
    a.pane_id > b.pane_id
}

pub open spec fn pane_pos(s: Seq<PaneRowView>, x: PaneRowView) -> int
    decreases s.len(),
{
    if s.len() == 0 {
        0
    } else if pane_after(s[0], x) {
        0
    } else {
        1 + pane_pos(s.drop_first(), x)
    }
}

/// The rows stably sorted by pane id.
pub open spec fn by_pane_id(s: Seq<PaneRowView>) -> Seq<PaneRowView>
    decreases s.len(),
{
    if s.len() == 0 {
        s
    } else {
        let t = by_pane_id(s.drop_last());
        t.insert(pane_pos(t, s.last()), s.last())
    }
}

/// The pane list a document yields: `None` when it is not a list of pane entries.
pub open spec fn pane_list_spec(doc: Option<JsonValue>, socket: Seq<char>) -> Option<Seq<PaneRowView>> {
    match raw_panes(doc) {
        Some(raws) => Some(by_pane_id(claude_panes(raws, tab_table(raws), socket))),
        None => None,
    }
}

fn read_default_bool(v: &JsonValue, key: &str) -> (r: Option<bool>)
    ensures
        r == default_bool(*v, key@),
{
    match v.get(key) {
        None => Some(false),
        Some(JsonValue::Bool(b)) => Some(*b),
        _ => None,
    }
}

/// One pane entry; `None` when it is not one.
fn read_raw_pane(v: &JsonValue) -> (r: Option<(u64, u64, u64, String, String, bool)>)
    ensures
        match r {
            Some(p) => raw_pane(*v) == Some(
                RawPane {
                    pane_id: p.0,
                    tab_id: p.1,
                    window_id: p.2,
                    title: p.3@,
                    cwd: p.4@,
                    is_active: p.5,
                },
            ),
            None => raw_pane(*v) is None,
        },
{
    if !matches!(v, JsonValue::Object(_)) {
        return None;
    }
    let pane_id = match get_u64(v, "pane_id") {
        Some(n) => n,
        None => return None,
    };
    let tab_id = match get_u64(v, "tab_id") {
        Some(n) => n,
        None => return None,
    };
    let window_id = match read_default_u64(v, "window_id") {
        Some(n) => n,
        None => return None,
    };
    let title = match read_default_str(v, "title") {
        Some(s) => s,
        None => return None,
    };
    let cwd = match read_default_str(v, "cwd") {
        Some(s) => s,
        None => return None,
    };
    let is_active = match read_default_bool(v, "is_active") {
        Some(b) => b,
        None => return None,
    };
    Some((pane_id, tab_id, window_id, title, cwd, is_active))
}

pub open spec fn raw_views(v: Seq<(u64, u64, u64, String, String, bool)>) -> Seq<RawPane> {
    v.map_values(
        |p: (u64, u64, u64, String, String, bool)|
            RawPane { pane_id: p.0, tab_id: p.1, window_id: p.2, title: p.3@, cwd: p.4@, is_active: p.5 },
    )
}

fn read_raw_panes(doc: &JsonValue) -> (r: Option<Vec<(u64, u64, u64, String, String, bool)>>)
    ensures
        match r {
            Some(v) => raw_panes(Some(*doc)) == Some(raw_views(v@)),
            None => raw_panes(Some(*doc)) is None,
        },
{
    match doc {
        JsonValue::Array(es) => {
            let mut out: Vec<(u64, u64, u64, String, String, bool)> = Vec::new();
            let mut i: usize = 0;
            assert(es@.take(0) =~= Seq::<JsonValue>::empty());
            while i < es.len()
                invariant
                    i <= es.len(),
                    raw_panes(Some(*doc)) == raw_panes_of(es@),
                    raw_panes_of(es@.take(i as int)) == Some(raw_views(out@)),
                decreases es.len() - i,
            {
                assert(es@.take(i + 1).drop_last() =~= es@.take(i as int));
                assert(es@.take(i + 1).last() == es@[i as int]);
                match read_raw_pane(&es[i]) {
                    Some(p) => {
                        let ghost before = raw_views(out@);
                        out.push(p);
                        assert(raw_views(out@) =~= before.push(raw_views(out@).last()));
                    },
                    None => {
                        proof {
                            lemma_raw_panes_none(es@, i as int);
                        }
                        return None;
                    },
                }
                i = i + 1;
            }
            assert(es@.take(es.len() as int) =~= es@);
            Some(out)
        },
        _ => None,
    }
}

proof fn lemma_raw_panes_none(es: Seq<JsonValue>, i: int)
    requires
        0 <= i < es.len(),
        raw_pane(es[i]) is None,
    ensures
        raw_panes_of(es) is None,
    decreases es.len(),
{
    if i < es.len() - 1 {
        lemma_raw_panes_none(es.drop_last(), i);
    }
}

fn tab_lookup(table: &Vec<(u64, u64, u64)>, w: u64, tab: u64) -> (r: Option<u64>)
    ensures
        match r {
            Some(x) => tab_known(table_view(table@), w, tab) && x == tab_index_of(
                table_view(table@),
                w,
                tab,
            ),
            None => !tab_known(table_view(table@), w, tab),
        },
{
    let ghost tv = table_view(table@);
    let mut i = table.len();
    assert(tv.take(i as int) =~= tv);
    while i > 0
        invariant
            i <= table.len(),
            tv == table_view(table@),
            forall|k: int| i <= k < tv.len() ==> !(tv[k].0 == w && tv[k].1 == tab),
            tab_index_of(tv, w, tab) == tab_index_of(tv.take(i as int), w, tab) || exists|k: int|
                i <= k < tv.len() && tv[k].0 == w && tv[k].1 == tab,
        decreases i,
    {
        let e = table[i - 1];
        assert(tv[i - 1] == (e.0, e.1, e.2 as nat));
        assert(tv.take(i as int).drop_last() =~= tv.take(i - 1));
        if e.0 == w && e.1 == tab {
            proof {
                lemma_tab_index_last(tv, w, tab, i - 1);
            }
            return Some(e.2);
        }
        i = i - 1;
    }
    None
}

proof fn lemma_tab_index_last(t: Seq<(u64, u64, nat)>, w: u64, tab: u64, k: int)
    requires
        0 <= k < t.len(),
        t[k].0 == w && t[k].1 == tab,
        forall|j: int| k < j < t.len() ==> !(t[j].0 == w && t[j].1 == tab),
    ensures
        tab_index_of(t, w, tab) == t[k].2,
    decreases t.len(),
{
    if k < t.len() - 1 {
        assert forall|j: int| k < j < t.drop_last().len() implies !(t.drop_last()[j].0 == w
            && t.drop_last()[j].1 == tab) by {
            assert(t.drop_last()[j] == t[j]);
        }
        lemma_tab_index_last(t.drop_last(), w, tab, k);
    }
}

pub open spec fn table_view(v: Seq<(u64, u64, u64)>) -> Seq<(u64, u64, nat)> {
    v.map_values(|e: (u64, u64, u64)| (e.0, e.1, e.2 as nat))
}

fn window_tabs_exec(table: &Vec<(u64, u64, u64)>, w: u64) -> (r: u64)
    requires
        table.len() <= u64::MAX,
    ensures
        r == window_tabs(table_view(table@), w),
{
    let ghost tv = table_view(table@);
    let mut n: u64 = 0;
    let mut i: usize = 0;
    assert(tv.take(0) =~= Seq::<(u64, u64, nat)>::empty());
    while i < table.len()
        invariant
            i <= table.len(),
            table.len() <= u64::MAX,
            tv == table_view(table@),
            n == window_tabs(tv.take(i as int), w),
            n <= i,
        decreases table.len() - i,
    {
        assert(tv.take(i + 1).drop_last() =~= tv.take(i as int));
        assert(tv.take(i + 1).last() == tv[i as int]);
        if table[i].0 == w {
            n = n + 1;
        }
        i = i + 1;
    }
    assert(tv.take(table.len() as int) =~= tv);
    n
}

proof fn lemma_tab_table_len(raws: Seq<RawPane>)
    ensures
        tab_table(raws).len() <= raws.len(),
    decreases raws.len(),
{
    if raws.len() > 0 {
        lemma_tab_table_len(raws.drop_last());
    }
}

fn build_tab_table(raws: &Vec<(u64, u64, u64, String, String, bool)>) -> (r: Vec<(u64, u64, u64)>)
    ensures
        table_view(r@) == tab_table(raw_views(raws@)),
{
    let ghost rv = raw_views(raws@);
    let mut table: Vec<(u64, u64, u64)> = Vec::new();
    let mut i: usize = 0;
    assert(rv.take(0) =~= Seq::<RawPane>::empty());
    while i < raws.len()
        invariant
            i <= raws.len(),
            rv == raw_views(raws@),
            table_view(table@) == tab_table(rv.take(i as int)),
            table.len() <= i,
        decreases raws.len() - i,
    {
        assert(rv.take(i + 1).drop_last() =~= rv.take(i as int));
        let p = &raws[i];
        assert(rv.take(i + 1).last() == rv[i as int]);
        match tab_lookup(&table, p.2, p.1) {
            Some(_) => {},
            None => {
                let k = window_tabs_exec(&table, p.2);
                let ghost before = table_view(table@);
                table.push((p.2, p.1, k));
                assert(table_view(table@) =~= before.push((p.2, p.1, k as nat)));
            },
        }
        i = i + 1;
    }
    assert(rv.take(raws.len() as int) =~= rv);
    table
}

fn sort_by_pane_id(rows: Vec<PaneRow>) -> (r: Vec<PaneRow>)
    ensures
        pane_views(r@) == by_pane_id(pane_views(rows@)),
{
    let ghost iv = pane_views(rows@);
    assert(iv.take(0) =~= Seq::<PaneRowView>::empty());
    let mut out: Vec<PaneRow> = Vec::new();
    for x in it: rows
        invariant
            it.seq() == rows@,
            iv == pane_views(rows@),
            pane_views(out@) == by_pane_id(iv.take(it.index() as int)),
    {
        let ghost t = pane_views(out@);
        let ghost k = it.index() as int;
        assert(iv.take(k + 1).drop_last() =~= iv.take(k));
        assert(iv.take(k + 1).last() == x@);
        let mut p: usize = 0;
        assert(t.skip(0) =~= t);
        while p < out.len() && !(out[p].pane_id > x.pane_id)
            invariant
                p <= out.len(),
                t == pane_views(out@),
                pane_pos(t, x@) == p + pane_pos(t.skip(p as int), x@),
            decreases out.len() - p,
        {
            assert(t.skip(p as int)[0] == out@[p as int]@);
            assert(t.skip(p as int).drop_first() =~= t.skip(p + 1));
            p = p + 1;
        }
        proof {
            if p < out.len() {
                assert(t.skip(p as int)[0] == out@[p as int]@);
            }
        }
        assert(pane_pos(t, x@) == p);
        let ghost xv = x@;
        out.insert(p, x);
        assert(pane_views(out@) =~= t.insert(p as int, xv));
    }
    assert(iv.take(iv.len() as int) =~= iv);
    out
}

/// The agent pane rows of a parsed `cli list` document, stamped with `socket_win` and sorted
/// by pane id; `Err(Parse)` when the document is not a list of pane entries.
pub fn pane_list_from_json(doc: Option<JsonValue>, socket_win: &str) -> (r: Result<Vec<PaneRow>, AppError>)
    ensures
        match r {
            Ok(rows) => pane_list_spec(doc, socket_win@) == Some(pane_views(rows@)),
            Err(e) => pane_list_spec(doc, socket_win@) is None && (e matches AppError::Parse(m)
                && m@ == "wezterm list: not a JSON list of pane entries"@),
        },
{
    let raws = match &doc {
        Some(d) => read_raw_panes(d),
        None => None,
    };
    let raws = match raws {
        Some(r) => r,
        None => {
            let m = string_from("wezterm list: not a JSON list of pane entries");
            return Err(AppError::Parse(m));
        },
    };
    let ghost rv = raw_views(raws@);
    proof {
        lemma_tab_table_len(rv);
    }
    let table = build_tab_table(&raws);
    let mut rows: Vec<PaneRow> = Vec::new();
    let mut i: usize = 0;
    assert(rv.take(0) =~= Seq::<RawPane>::empty());
    while i < raws.len()
        invariant
            i <= raws.len(),
            rv == raw_views(raws@),
            table_view(table@) == tab_table(rv),
            pane_views(rows@) == claude_panes(rv.take(i as int), tab_table(rv), socket_win@),
        decreases raws.len() - i,
    {
        assert(rv.take(i + 1).drop_last() =~= rv.take(i as int));
        let p = &raws[i];
        assert(rv.take(i + 1).last() == rv[i as int]);
        match classify_title(p.3.as_str()) {
            Some((status, name)) => {
                let tab_index = match tab_lookup(&table, p.2, p.1) {
                    Some(x) => x,
                    None => 0,
                };
                proof {
                    if !tab_known(table_view(table@), p.2, p.1) {
                        lemma_tab_table_has(rv, i as int);
                    }
                }
                let ghost before = pane_views(rows@);
                rows.push(
                    PaneRow {
                        socket: string_from(socket_win),
                        pane_id: p.0,
                        tab_id: p.1,
                        tab_index,
                        status,
                        name,
                        cwd: short_cwd(p.4.as_str()),
                        is_active: p.5,
                    },
                );
                assert(pane_views(rows@) =~= before.push(rows@.last()@));
            },
            None => {},
        }
        i = i + 1;
    }
    assert(rv.take(raws.len() as int) =~= rv);
    Ok(sort_by_pane_id(rows))
}

proof fn lemma_tab_table_has(raws: Seq<RawPane>, i: int)
    requires
        0 <= i < raws.len(),
    ensures
        tab_known(tab_table(raws), raws[i].window_id, raws[i].tab_id),
    decreases raws.len(),
{
    let t = tab_table(raws.drop_last());
    if i < raws.len() - 1 {
        lemma_tab_table_has(raws.drop_last(), i);
        let k = choose|k: int|
            0 <= k < t.len() && t[k].0 == raws[i].window_id && t[k].1 == raws[i].tab_id;
        let p = raws.last();
        if !tab_known(t, p.window_id, p.tab_id) {
            assert(tab_table(raws)[k] == t[k]);
        }
    } else {
        let p = raws.last();
        if !tab_known(t, p.window_id, p.tab_id) {
            assert(tab_table(raws)[t.len() as int].0 == p.window_id);
        }
    }
}

/// Parse `cli list --format json` bytes into agent pane rows sorted by pane id, each stamped
/// with its instance; other panes are excluded.
pub fn parse_pane_list(bytes: &[u8], socket_win: &str) -> (r: Result<Vec<PaneRow>, AppError>)
    ensures
        match r {
            Ok(rows) => pane_list_spec(json_parse(bytes@), socket_win@) == Some(pane_views(rows@)),
            Err(e) => pane_list_spec(json_parse(bytes@), socket_win@) is None && (e matches AppError::Parse(
                m,
            ) && m@ == "wezterm list: not a JSON list of pane entries"@),
        },
{
    pane_list_from_json(parse_json(bytes), socket_win)
}

} // verus!

verus! {

// --- list-clients -----------------------------------------------------------------------------

/// One client entry, as `(focused pane, idle seconds)`: an object whose `focused_pane_id` is
/// absent or null (none) or a u64, and whose `idle_time` is absent or null (none) or an object
/// with `secs` (u64, default 0); else an error.
pub open spec fn raw_client(v: JsonValue) -> Option<(Option<u64>, Option<u64>)> {
    let focused = match jget(v, "focused_pane_id"@) {
        None => Some(None::<u64>),
        Some(JsonValue::Null) => Some(None),
        Some(JsonValue::Number(Some(n))) => Some(Some(n)),
        _ => None,
    };
    let idle = match jget(v, "idle_time"@) {
        None => Some(None::<u64>),
        Some(JsonValue::Null) => Some(None),
        Some(d) => if d is Object {
            match default_u64(d, "secs"@) {
                Some(s) => Some(Some(s)),
                None => None,
            }
        } else {
            None
        },
    };
    if v is Object && focused is Some && idle is Some {
        Some((focused->0, idle->0))
    } else {
        None
    }
}

pub open spec fn raw_clients_of(es: Seq<JsonValue>) -> Option<Seq<(Option<u64>, Option<u64>)>>
    decreases es.len(),
{
    if es.len() == 0 {
        Some(Seq::empty())
    } else {
        match (raw_clients_of(es.drop_last()), raw_client(es.last())) {
            (Some(prev), Some(c)) => Some(prev.push(c)),
            _ => None,
        }
    }
}

/// The clients that report a focused pane, `(pane, idle secs)`, an absent idle time sorting
/// last (`u64::MAX`).
pub open spec fn focused_clients(cs: Seq<(Option<u64>, Option<u64>)>) -> Seq<(u64, u64)>
    decreases cs.len(),
{
    if cs.len() == 0 {
        Seq::empty()
    } else {
        let prev = focused_clients(cs.drop_last());
        match cs.last().0 {
            Some(p) => prev.push(
                (
                    p,
                    match cs.last().1 {
                        Some(s) => s,
                        None => u64::MAX,
                    },
                ),
            ),
            None => prev,
        }
    }
}

/// The clients of a document: a JSON array of client entries, else none at all.
pub open spec fn clients_spec(doc: Option<JsonValue>) -> Seq<(u64, u64)> {
    match doc {
        Some(JsonValue::Array(es)) => match raw_clients_of(es@) {
            Some(cs) => focused_clients(cs),
            None => Seq::empty(),
        },
        _ => Seq::empty(),
    }
}

fn read_raw_client(v: &JsonValue) -> (r: Option<(Option<u64>, Option<u64>)>)
    ensures
        r == raw_client(*v),
{
    if !matches!(v, JsonValue::Object(_)) {
        return None;
    }
    let focused = match v.get("focused_pane_id") {
        None => None,
        Some(JsonValue::Null) => None,
        Some(JsonValue::Number(Some(n))) => Some(*n),
        _ => return None,
    };
    let idle = match v.get("idle_time") {
        None => None,
        Some(JsonValue::Null) => None,
        Some(d) => {
            if !matches!(d, JsonValue::Object(_)) {
                return None;
            }
            match read_default_u64(d, "secs") {
                Some(s) => Some(s),
                None => return None,
            }
        },
    };
    Some((focused, idle))
}

/// The focused-pane clients of a parsed `list-clients` document; garbage or an unexpected
/// shape yields none (the focused pane is best-effort).
pub fn clients_from_json(doc: Option<JsonValue>) -> (r: Vec<(u64, u64)>)
    ensures
        r@ == clients_spec(doc),
{
    let es = match &doc {
        Some(JsonValue::Array(es)) => es,
        _ => return Vec::new(),
    };
    let mut cs: Vec<(Option<u64>, Option<u64>)> = Vec::new();
    let mut i: usize = 0;
    assert(es@.take(0) =~= Seq::<JsonValue>::empty());
    while i < es.len()
        invariant
            i <= es.len(),
            doc == Some(JsonValue::Array(*es)),
            raw_clients_of(es@.take(i as int)) == Some(cs@),
        decreases es.len() - i,
    {
        assert(es@.take(i + 1).drop_last() =~= es@.take(i as int));
        assert(es@.take(i + 1).last() == es@[i as int]);
        match read_raw_client(&es[i]) {
            Some(c) => cs.push(c),
            None => {
                proof {
                    lemma_raw_clients_none(es@, i as int);
                }
                return Vec::new();
            },
        }
        i = i + 1;
    }
    assert(es@.take(es.len() as int) =~= es@);
    let mut out: Vec<(u64, u64)> = Vec::new();
    let mut k: usize = 0;
    assert(cs@.take(0) =~= Seq::<(Option<u64>, Option<u64>)>::empty());
    while k < cs.len()
        invariant
            k <= cs.len(),
            out@ == focused_clients(cs@.take(k as int)),
        decreases cs.len() - k,
    {
        assert(cs@.take(k + 1).drop_last() =~= cs@.take(k as int));
        assert(cs@.take(k + 1).last() == cs@[k as int]);
        let (f, idle) = cs[k];
        match f {
            Some(p) => out.push(
                (
                    p,
                    match idle {
                        Some(s) => s,
                        None => 0xffff_ffff_ffff_ffff,
                    },
                ),
            ),
            None => {},
        }
        k = k + 1;
    }
    assert(cs@.take(cs.len() as int) =~= cs@);
    out
}

proof fn lemma_raw_clients_none(es: Seq<JsonValue>, i: int)
    requires
        0 <= i < es.len(),
        raw_client(es[i]) is None,
    ensures
        raw_clients_of(es) is None,
    decreases es.len(),
{
    if i < es.len() - 1 {
        lemma_raw_clients_none(es.drop_last(), i);
    }
}

/// Parse `list-clients --format json` → `(focused_pane_id, idle_secs)` per client that has a
/// focused pane. Tolerant: garbage or an unexpected shape yields an empty list.
pub fn parse_clients(bytes: &[u8]) -> (r: Vec<(u64, u64)>)
    ensures
        r@ == clients_spec(json_parse(bytes@)),
{
    clients_from_json(parse_json(bytes))
}

// --- the wezterm socket directory -------------------------------------------------------------

/// Where a wezterm instance's `gui-sock-<pid>` files live, in WSL form (to stat them) and in
/// Windows form (for `WEZTERM_UNIX_SOCKET`).
#[derive(Debug, Clone, PartialEq, Eq)]
pub struct SockDir {
    /// The WSL path.
    pub wsl: String,
    /// The Windows path.
    pub win: String,
}

/// `/mnt/c/Users/user/x` → `C:\Users\user\x`: the drive segment upper-cased (ASCII), the rest
/// with `/` turned into `\`; `None` unless the path is `/mnt/<drive>/<rest>`.
pub open spec fn wsl_to_win_spec(wsl: Seq<char>) -> Option<Seq<char>> {
    let pre = "/mnt/"@;
    if !has_prefix(wsl, pre) {
        None
    } else {
        let rest = wsl.skip(5);
        match first_index_of(rest, '/') {
            None => None,
            Some(i) => Some(
                rest.take(i).map_values(|c: char| ascii_upper(c)) + seq![':', '\\'] + replace_char(
                    rest.skip(i + 1),
                    '/',
                    '\\',
                ),
            ),
        }
    }
}

/// Convert a WSL path under `/mnt/<drive>/` to its Windows form.
pub fn wsl_to_win(wsl: &str) -> (r: Option<String>)
    ensures
        opt_view(r) == wsl_to_win_spec(wsl@),
{
    let cs = chars_of(wsl);
    let pre = chars_of("/mnt/");
    proof {
        reveal_strlit("/mnt/");
    }
    if !starts_with(cs.as_slice(), pre.as_slice()) {
        return None;
    }
    let rest = slice_chars(cs.as_slice(), 5, cs.len());
    assert(rest@ =~= wsl@.skip(5));
    let i = match find_char(rest.as_slice(), '/') {
        Some(i) => i,
        None => return None,
    };
    let mut out = String::new();
    let mut k: usize = 0;
    while k < i
        invariant
            k <= i,
            i < rest.len(),
            out@ == rest@.take(k as int).map_values(|c: char| ascii_upper(c)),
        decreases i - k,
    {
        let ghost before = out@;
        push_char(&mut out, to_ascii_upper(rest[k]));
        assert(rest@.take(k + 1).map_values(|c: char| ascii_upper(c)) =~= before.push(
            ascii_upper(rest@[k as int]),
        ));
        k = k + 1;
    }
    push_char(&mut out, ':');
    push_char(&mut out, '\\');
    let tail = slice_chars(rest.as_slice(), i + 1, rest.len());
    assert(tail@ =~= rest@.skip(i + 1));
    let conv = replace_chars(tail.as_slice(), '/', '\\');
    push_chars(&mut out, conv.as_slice());
    assert(out@ =~= rest@.take(i as int).map_values(|c: char| ascii_upper(c)) + seq![':', '\\']
        + replace_char(rest@.skip(i + 1), '/', '\\'));
    Some(out)
}

/// `C:\Users\user\x` (or `C:/Users/user/x`) → `/mnt/c/Users/user/x`: `\` read as `/`, split at
/// the first `:/`; the drive is the first character of what precedes it, lower-cased (ASCII);
/// `None` without a `:/` or with nothing before it.
pub open spec fn win_to_wsl_spec(win: Seq<char>) -> Option<Seq<char>> {
    let norm = replace_char(win, '\\', '/');
    match find_from(norm, seq![':', '/'], 0) {
        None => None,
        Some(i) => if i == 0 {
            None
        } else {
            Some("/mnt/"@ + seq![ascii_lower(norm[0])] + seq!['/'] + norm.skip(i + 2))
        },
    }
}

/// Convert a `<drive>:`-rooted Windows path to its WSL form.
pub fn win_to_wsl(win: &str) -> (r: Option<String>)
    ensures
        opt_view(r) == win_to_wsl_spec(win@),
{
    let cs = chars_of(win);
    let norm = replace_chars(cs.as_slice(), '\\', '/');
    let pat: Vec<char> = vec![':', '/'];
    assert(pat@ =~= seq![':', '/']);
    let i = match find_sub(norm.as_slice(), pat.as_slice(), 0) {
        Some(i) => i,
        None => return None,
    };
    if i == 0 {
        return None;
    }
    proof {
        lemma_find_from_range(norm@, seq![':', '/'], 0);
    }
    assert(norm@.len() == norm.len());
    let mut out = string_from("/mnt/");
    push_char(&mut out, to_ascii_lower(norm[0]));
    push_char(&mut out, '/');
    let tail = slice_chars(norm.as_slice(), i + 2, norm.len());
    assert(tail@ =~= norm@.skip(i + 2));
    push_chars(&mut out, tail.as_slice());
    assert(out@ =~= "/mnt/"@ + seq![ascii_lower(norm@[0])] + seq!['/'] + norm@.skip(i + 2));
    Some(out)
}

/// `Path::parent` of a textual Unix path: trailing `/`s dropped, then everything before the
/// last `/` (its own trailing `/`s dropped, `/` when that leaves nothing); `None` for the root
/// (or an empty path); `""` for a single relative component.
pub open spec fn parent_spec(p: Seq<char>) -> Option<Seq<char>> {
    let t = trim_slashes(p);
    if t.len() == 0 {
        None
    } else {
        match last_index_of(t, '/') {
            None => Some(Seq::empty()),
            Some(i) => {
                let head = trim_slashes(t.take(i));
                if head.len() == 0 {
                    Some(seq!['/'])
                } else {
                    Some(head)
                }
            },
        }
    }
}

fn trim_slashes_exec(s: &[char]) -> (r: Vec<char>)
    ensures
        r@ == trim_slashes(s@),
{
    let mut end = s.len();
    assert(s@.take(end as int) =~= s@);
    while end > 0 && s[end - 1] == '/'
        invariant
            end <= s.len(),
            trim_slashes(s@) == trim_slashes(s@.take(end as int)),
        decreases end,
    {
        assert(s@.take(end as int).drop_last() =~= s@.take(end - 1));
        end = end - 1;
    }
    let r = slice_chars(s, 0, end);
    assert(r@ =~= s@.take(end as int));
    r
}

fn parent_of(p: &str) -> (r: Option<String>)
    ensures
        opt_view(r) == parent_spec(p@),
{
    let t = trim_slashes_exec(chars_of(p).as_slice());
    if t.len() == 0 {
        return None;
    }
    match rfind_char(t.as_slice(), '/') {
        None => Some(String::new()),
        Some(i) => {
            let h = slice_chars(t.as_slice(), 0, i);
            assert(h@ =~= t@.take(i as int));
            let head = trim_slashes_exec(h.as_slice());
            if head.len() == 0 {
                let r = string_from("/");
                proof {
                    reveal_strlit("/");
                }
                assert(r@ =~= seq!['/']);
                Some(r)
            } else {
                Some(string_of(head.as_slice()))
            }
        },
    }
}

/// The socket directory from `$WEZTERM_UNIX_SOCKET` (a `.../gui-sock-N` path): a `/`-leading
/// value is a WSL path whose parent is the dir; anything else is a Windows path split at its
/// last `\` or `/`. Both forms must convert.
pub open spec fn sock_dir_from_socket_spec(sock: Seq<char>) -> Option<(Seq<char>, Seq<char>)> {
    if sock.len() > 0 && sock[0] == '/' {
        match parent_spec(sock) {
            None => None,
            Some(wsl) => match wsl_to_win_spec(wsl) {
                None => None,
                Some(win) => Some((wsl, win)),
            },
        }
    } else {
        match last_sep(sock) {
            None => None,
            Some(i) => {
                let win = replace_char(sock.take(i), '/', '\\');
                match win_to_wsl_spec(win) {
                    None => None,
                    Some(wsl) => Some((wsl, win)),
                }
            },
        }
    }
}

/// The last `\` or `/`.
pub open spec fn last_sep(s: Seq<char>) -> Option<int>
    decreases s.len(),
{
    if s.len() == 0 {
        None
    } else if s.last() == '\\' || s.last() == '/' {
        Some(s.len() - 1)
    } else {
        last_sep(s.drop_last())
    }
}

fn last_sep_exec(s: &[char]) -> (r: Option<usize>)
    ensures
        match r {
            Some(i) => last_sep(s@) == Some(i as int) && i < s.len(),
            None => last_sep(s@) is None,
        },
{
    let mut i = s.len();
    assert(s@.take(i as int) =~= s@);
    while i > 0
        invariant
            i <= s.len(),
            last_sep(s@) == last_sep(s@.take(i as int)),
        decreases i,
    {
        assert(s@.take(i as int).drop_last() =~= s@.take(i - 1));
        if s[i - 1] == '\\' || s[i - 1] == '/' {
            return Some(i - 1);
        }
        i = i - 1;
    }
    None
}

pub open spec fn sock_view(d: Option<SockDir>) -> Option<(Seq<char>, Seq<char>)> {
    match d {
        Some(x) => Some((x.wsl@, x.win@)),
        None => None,
    }
}

/// Both dir forms from `$WEZTERM_UNIX_SOCKET`.
pub fn sock_dir_from_socket(sock: &str) -> (r: Option<SockDir>)
    ensures
        sock_view(r) == sock_dir_from_socket_spec(sock@),
{
    let cs = chars_of(sock);
    if cs.len() > 0 && cs[0] == '/' {
        let wsl = match parent_of(sock) {
            Some(w) => w,
            None => return None,
        };
        let win = match wsl_to_win(wsl.as_str()) {
            Some(w) => w,
            None => return None,
        };
        Some(SockDir { wsl, win })
    } else {
        let i = match last_sep_exec(cs.as_slice()) {
            Some(i) => i,
            None => return None,
        };
        let dir = slice_chars(cs.as_slice(), 0, i);
        assert(dir@ =~= sock@.take(i as int));
        let win = string_of(replace_chars(dir.as_slice(), '/', '\\').as_slice());
        let wsl = match win_to_wsl(win.as_str()) {
            Some(w) => w,
            None => return None,
        };
        Some(SockDir { wsl, win })
    }
}

/// A resolved WSL dir in both forms (the Windows form falls back to the WSL text when the dir
/// is not under `/mnt/<drive>`).
pub fn sock_dir_from_wsl(wsl: &str) -> (r: SockDir)
    ensures
        r.wsl@ == wsl@,
        r.win@ == match wsl_to_win_spec(wsl@) {
            Some(w) => w,
            None => wsl@,
        },
{
    let win = match wsl_to_win(wsl) {
        Some(w) => w,
        None => string_from(wsl),
    };
    SockDir { wsl: string_from(wsl), win }
}

/// The `<user>` segment of a `<root>/<user>/.local/share/wezterm` candidate: the fourth
/// non-empty component from the end.
pub open spec fn user_segment(dir: Seq<char>) -> Option<Seq<char>> {
    let comps = nonempty_pieces(split_chars_spec(dir, '/'));
    if comps.len() >= 4 {
        Some(comps[comps.len() - 4])
    } else {
        None
    }
}

fn user_segment_exec(dir: &str) -> (r: Option<String>)
    ensures
        opt_view(r) == user_segment(dir@),
{
    let parts = split_chars(chars_of(dir).as_slice(), '/');
    let ghost pv = char_views(parts@);
    let mut comps: Vec<Vec<char>> = Vec::new();
    let mut i: usize = 0;
    assert(pv.take(0) =~= Seq::<Seq<char>>::empty());
    while i < parts.len()
        invariant
            i <= parts.len(),
            pv == char_views(parts@),
            char_views(comps@) == nonempty_pieces(pv.take(i as int)),
        decreases parts.len() - i,
    {
        assert(pv.take(i + 1).drop_last() =~= pv.take(i as int));
        assert(pv.take(i + 1).last() == parts@[i as int]@);
        if parts[i].len() > 0 {
            let ghost before = char_views(comps@);
            comps.push(parts[i].clone());
            assert(char_views(comps@) =~= before.push(parts@[i as int]@));
        }
        i = i + 1;
    }
    assert(pv.take(parts.len() as int) =~= pv);
    if comps.len() >= 4 {
        assert(char_views(comps@)[comps.len() - 4] == comps@[comps.len() - 4]@);
        Some(string_of(comps[comps.len() - 4].as_slice()))
    } else {
        None
    }
}

/// A socket file's mtime, `(seconds, nanoseconds)` relative to the epoch, ordered
/// lexicographically; `None` (no socket file) sorts below any time.
pub open spec fn mtime_lt(a: Option<(i64, u32)>, b: Option<(i64, u32)>) -> bool {
    match (a, b) {
        (None, Some(_)) => true,
        (Some(x), Some(y)) => x.0 < y.0 || (x.0 == y.0 && x.1 < y.1),
        _ => false,
    }
}

/// The newest-socket candidate (the last of equally new ones).
pub open spec fn newest_candidate(cs: Seq<(String, Option<(i64, u32)>)>) -> Option<int>
    decreases cs.len(),
{
    if cs.len() == 0 {
        None
    } else {
        match newest_candidate(cs.drop_last()) {
            Some(k) => if mtime_lt(cs.last().1, cs[k].1) {
                Some(k)
            } else {
                Some(cs.len() - 1)
            },
            None => Some(cs.len() - 1),
        }
    }
}

/// The first candidate whose `<user>` segment is `user`.
pub open spec fn user_candidate(cs: Seq<(String, Option<(i64, u32)>)>, user: Seq<char>) -> Option<int>
    decreases cs.len(),
{
    if cs.len() == 0 {
        None
    } else {
        match user_candidate(cs.drop_last(), user) {
            Some(k) => Some(k),
            None => if user_segment(cs.last().0@) == Some(user) {
                Some(cs.len() - 1)
            } else {
                None
            },
        }
    }
}

/// Among several candidate dirs: the one named for `$USER`, else the newest socket's dir
/// (empty when there is none).
pub open spec fn pick_user_dir_spec(cs: Seq<(String, Option<(i64, u32)>)>, user: Option<Seq<char>>) -> Seq<char> {
    let by_user = match user {
        Some(u) => user_candidate(cs, u),
        None => None,
    };
    match by_user {
        Some(k) => cs[k].0@,
        None => match newest_candidate(cs) {
            Some(k) => cs[k].0@,
            None => Seq::empty(),
        },
    }
}

proof fn lemma_candidate_ranges(cs: Seq<(String, Option<(i64, u32)>)>, user: Seq<char>)
    ensures
        newest_candidate(cs) matches Some(k) ==> 0 <= k < cs.len(),
        user_candidate(cs, user) matches Some(k) ==> 0 <= k < cs.len(),
    decreases cs.len(),
{
    if cs.len() > 0 {
        lemma_candidate_ranges(cs.drop_last(), user);
    }
}

/// Pick among candidate `(wsl dir, newest socket mtime)` pairs.
pub fn pick_user_dir(candidates: &[(String, Option<(i64, u32)>)], user: Option<&str>) -> (r: String)
    ensures
        r@ == pick_user_dir_spec(
            candidates@,
            match user {
                Some(u) => Some(u@),
                None => None,
            },
        ),
{
    proof {
        lemma_candidate_ranges(candidates@, match user {
            Some(u) => u@,
            None => Seq::empty(),
        });
    }
    match user {
        Some(u) => {
            let mut i: usize = 0;
            assert(candidates@.take(0) =~= Seq::<(String, Option<(i64, u32)>)>::empty());
            while i < candidates.len()
                invariant
                    i <= candidates.len(),
                    user_candidate(candidates@.take(i as int), u@) is None,
                    user == Some(u),
                decreases candidates.len() - i,
            {
                assert(candidates@.take(i + 1).drop_last() =~= candidates@.take(i as int));
                assert(candidates@.take(i + 1).last() == candidates@[i as int]);
                let seg = user_segment_exec(candidates[i].0.as_str());
                let hit = match &seg {
                    Some(s) => str_eq(s.as_str(), u),
                    None => false,
                };
                if hit {
                    proof {
                        lemma_user_candidate_prefix(candidates@, u@, i as int);
                    }
                    return string_from(candidates[i].0.as_str());
                }
                i = i + 1;
            }
            proof {
                lemma_user_candidate_prefix_none(candidates@, u@);
            }
        },
        None => {},
    }
    let mut best: Option<usize> = None;
    let mut j: usize = 0;
    assert(candidates@.take(0) =~= Seq::<(String, Option<(i64, u32)>)>::empty());
    while j < candidates.len()
        invariant
            j <= candidates.len(),
            match best {
                Some(k) => newest_candidate(candidates@.take(j as int)) == Some(k as int) && k < j,
                None => newest_candidate(candidates@.take(j as int)) is None && j == 0,
            },
        decreases candidates.len() - j,
    {
        assert(candidates@.take(j + 1).drop_last() =~= candidates@.take(j as int));
        let older = match best {
            Some(k) => {
                assert(candidates@.take(j + 1)[k as int] == candidates@[k as int]);
                mtime_lt_exec(candidates[j].1, candidates[k].1)
            },
            None => false,
        };
        if !older {
            best = Some(j);
        }
        j = j + 1;
    }
    assert(candidates@.take(candidates.len() as int) =~= candidates@);
    match best {
        Some(k) => string_from(candidates[k].0.as_str()),
        None => String::new(),
    }
}

fn mtime_lt_exec(a: Option<(i64, u32)>, b: Option<(i64, u32)>) -> (r: bool)
    ensures
        r == mtime_lt(a, b),
{
    match (a, b) {
        (None, Some(_)) => true,
        (Some(x), Some(y)) => x.0 < y.0 || (x.0 == y.0 && x.1 < y.1),
        _ => false,
    }
}

proof fn lemma_user_candidate_prefix(cs: Seq<(String, Option<(i64, u32)>)>, u: Seq<char>, i: int)
    requires
        0 <= i < cs.len(),
        user_candidate(cs.take(i), u) is None,
        user_segment(cs[i].0@) == Some(u),
    ensures
        user_candidate(cs, u) == Some(i),
    decreases cs.len(),
{
    if i == cs.len() - 1 {
        assert(cs.drop_last() =~= cs.take(i));
    } else {
        assert(cs.drop_last().take(i) =~= cs.take(i));
        lemma_user_candidate_prefix(cs.drop_last(), u, i);
    }
}

proof fn lemma_user_candidate_prefix_none(cs: Seq<(String, Option<(i64, u32)>)>, u: Seq<char>)
    requires
        user_candidate(cs.take(cs.len() as int), u) is None,
    ensures
        user_candidate(cs, u) is None,
{
    assert(cs.take(cs.len() as int) =~= cs);
}

/// The socket dir: `$WEZTERM_UNIX_SOCKET` (non-empty and convertible) is authoritative; else
/// the one globbed candidate; else among several, `$USER`'s or the newest socket's; none
/// without candidates.
pub open spec fn resolve_sock_dir_spec(
    env_socket: Option<Seq<char>>,
    candidates: Seq<(String, Option<(i64, u32)>)>,
    user: Option<Seq<char>>,
) -> Option<(Seq<char>, Seq<char>)> {
    let from_env = match env_socket {
        Some(s) => if s.len() > 0 {
            sock_dir_from_socket_spec(s)
        } else {
            None
        },
        None => None,
    };
    if from_env is Some {
        from_env
    } else if candidates.len() == 0 {
        None
    } else {
        let chosen = if candidates.len() == 1 {
            candidates[0].0@
        } else {
            pick_user_dir_spec(candidates, user)
        };
        Some(
            (
                chosen,
                match wsl_to_win_spec(chosen) {
                    Some(w) => w,
                    None => chosen,
                },
            ),
        )
    }
}

/// Resolve the wezterm socket directory from `$WEZTERM_UNIX_SOCKET`, the globbed candidate
/// dirs (those holding a `gui-sock-*` file, with their newest socket's mtime) and `$USER`.
pub fn resolve_sock_dir(
    env_socket: Option<&str>,
    candidates: &[(String, Option<(i64, u32)>)],
    user: Option<&str>,
) -> (r: Option<SockDir>)
    ensures
        sock_view(r) == resolve_sock_dir_spec(
            match env_socket {
                Some(s) => Some(s@),
                None => None,
            },
            candidates@,
            match user {
                Some(u) => Some(u@),
                None => None,
            },
        ),
{
    match env_socket {
        Some(s) => {
            if !s.is_empty() {
                match sock_dir_from_socket(s) {
                    Some(d) => return Some(d),
                    None => {},
                }
            }
        },
        None => {},
    }
    if candidates.len() == 0 {
        return None;
    }
    let chosen = if candidates.len() == 1 {
        string_from(candidates[0].0.as_str())
    } else {
        pick_user_dir(candidates, user)
    };
    Some(sock_dir_from_wsl(chosen.as_str()))
}

} // verus!

verus! {

// --- instances --------------------------------------------------------------------------------

/// A wezterm instance's socket file name: `gui-sock-<pid>`.
pub fn sock_file_name(pid: u32) -> (r: String)
    ensures
        r@ == "gui-sock-"@ + dec(pid as nat),
{
    let mut s = string_from("gui-sock-");
    crate::text::push_dec(&mut s, pid as u64);
    s
}

/// The Windows-form socket path of each live instance: `<win dir>\gui-sock-<pid>` for every
/// tasklist pid whose socket file exists (a stale socket file of a dead pid hangs on
/// connect, so only live pids are kept), in pid order.
pub open spec fn live_sockets_spec(win_dir: Seq<char>, pids: Seq<(u32, bool)>) -> Seq<Seq<char>>
    decreases pids.len(),
{
    if pids.len() == 0 {
        Seq::empty()
    } else {
        let prev = live_sockets_spec(win_dir, pids.drop_last());
        if pids.last().1 {
            prev.push(win_dir + seq!['\\'] + "gui-sock-"@ + dec(pids.last().0 as nat))
        } else {
            prev
        }
    }
}

/// The live instances' socket paths from `(pid, socket file exists)` pairs.
pub fn live_sockets(win_dir: &str, pids: &[(u32, bool)]) -> (r: Vec<String>)
    ensures
        str_views(r@) == live_sockets_spec(win_dir@, pids@),
{
    let mut out: Vec<String> = Vec::new();
    let mut i: usize = 0;
    assert(pids@.take(0) =~= Seq::<(u32, bool)>::empty());
    while i < pids.len()
        invariant
            i <= pids.len(),
            str_views(out@) == live_sockets_spec(win_dir@, pids@.take(i as int)),
        decreases pids.len() - i,
    {
        assert(pids@.take(i + 1).drop_last() =~= pids@.take(i as int));
        assert(pids@.take(i + 1).last() == pids@[i as int]);
        let (pid, exists) = pids[i];
        if exists {
            let mut s = string_from(win_dir);
            push_char(&mut s, '\\');
            let f = sock_file_name(pid);
            push_str(&mut s, f.as_str());
            assert(s@ =~= win_dir@ + seq!['\\'] + "gui-sock-"@ + dec(pid as nat));
            let ghost before = str_views(out@);
            out.push(s);
            assert(str_views(out@) =~= before.push(s@));
        }
        i = i + 1;
    }
    assert(pids@.take(pids.len() as int) =~= pids@);
    out
}

/// The instances to query: the discovered sockets, or the invoker's own (`""`) when none was
/// discovered.
pub fn instance_targets(sockets: Vec<String>) -> (r: Vec<String>)
    ensures
        str_views(sockets@).len() == 0 ==> str_views(r@) == seq![Seq::<char>::empty()],
        str_views(sockets@).len() > 0 ==> str_views(r@) == str_views(sockets@),
{
    if sockets.len() == 0 {
        let v: Vec<String> = vec![String::new()];
        assert(str_views(v@) =~= seq![Seq::<char>::empty()]);
        v
    } else {
        sockets
    }
}

// --- discovery tallies ------------------------------------------------------------------------

/// A socket dir entry's pid: `Some(Some(pid))` for `gui-sock-<pid>`, `Some(None)` for a
/// `gui-sock-` name whose pid does not read as a `u32`, `None` for any other file.
pub open spec fn sock_name_pid(name: Seq<char>) -> Option<Option<u32>> {
    if has_prefix(name, "gui-sock-"@) {
        Some(
            match parse_unsigned(name.skip(9), u32::MAX as nat) {
                Some(n) => Some(n as u32),
                None => None,
            },
        )
    } else {
        None
    }
}

/// Whether a socket file's pid is one of the live instance pids.
pub open spec fn sock_live(pid: Option<u32>, live: Seq<u32>) -> bool {
    match pid {
        Some(p) => live.contains(p),
        None => false,
    }
}

/// The tallies `(found, stale, foreign)` of a socket dir's entries `(file name, owned by
/// another user)` against the live tasklist pids: every `gui-sock-*` file is found; one owned
/// by another user is foreign; one of this user whose pid is not live is stale.
pub open spec fn socket_tally(entries: Seq<(Seq<char>, bool)>, live: Seq<u32>) -> (nat, nat, nat)
    decreases entries.len(),
{
    if entries.len() == 0 {
        (0, 0, 0)
    } else {
        let t = socket_tally(entries.drop_last(), live);
        let e = entries.last();
        match sock_name_pid(e.0) {
            None => t,
            Some(p) => if e.1 {
                (t.0 + 1, t.1, t.2 + 1)
            } else if sock_live(p, live) {
                (t.0 + 1, t.1, t.2)
            } else {
                (t.0 + 1, t.1 + 1, t.2)
            },
        }
    }
}

pub open spec fn entry_views(v: Seq<(String, bool)>) -> Seq<(Seq<char>, bool)> {
    v.map_values(|e: (String, bool)| (e.0@, e.1))
}

fn sock_name_pid_exec(name: &str) -> (r: Option<Option<u32>>)
    ensures
        r == sock_name_pid(name@),
{
    let cs = chars_of(name);
    let pre = chars_of("gui-sock-");
    proof {
        reveal_strlit("gui-sock-");
    }
    if !starts_with(cs.as_slice(), pre.as_slice()) {
        return None;
    }
    assert(pre@.len() == 9);
    let rest = slice_chars(cs.as_slice(), 9, cs.len());
    assert(rest@ =~= name@.skip(9));
    match parse_unsigned_chars(rest.as_slice(), 0xffff_ffff) {
        Some(n) => Some(Some(n as u32)),
        None => Some(None),
    }
}

fn contains_pid(live: &[u32], p: u32) -> (r: bool)
    ensures
        r == live@.contains(p),
{
    let mut i: usize = 0;
    while i < live.len()
        invariant
            i <= live.len(),
            forall|j: int| 0 <= j < i ==> live@[j] != p,
        decreases live.len() - i,
    {
        if live[i] == p {
            assert(live@[i as int] == p);
            return true;
        }
        i = i + 1;
    }
    false
}

/// The discovery tallies of a socket dir: its entries `(file name, owned by another user)`
/// against the live tasklist pids (no instance has been queried yet, so none failed).
pub fn socket_stats(entries: &[(String, bool)], live: &[u32]) -> (r: PaneDiscoveryStats)
    ensures
        ({
            let t = socket_tally(entry_views(entries@), live@);
            &&& r.sockets_found == t.0
            &&& r.sockets_stale == t.1
            &&& r.sockets_foreign_uid == t.2
        }),
        r.instances_failed == 0,
{
    let ghost ev = entry_views(entries@);
    let mut found: usize = 0;
    let mut stale: usize = 0;
    let mut foreign: usize = 0;
    let mut i: usize = 0;
    assert(ev.take(0) =~= Seq::<(Seq<char>, bool)>::empty());
    while i < entries.len()
        invariant
            i <= entries.len(),
            ev == entry_views(entries@),
            socket_tally(ev.take(i as int), live@) == (found as nat, stale as nat, foreign as nat),
            found <= i,
            stale <= i,
            foreign <= i,
        decreases entries.len() - i,
    {
        assert(ev.take(i + 1).drop_last() =~= ev.take(i as int));
        assert(ev.take(i + 1).last() == (entries@[i as int].0@, entries@[i as int].1));
        match sock_name_pid_exec(entries[i].0.as_str()) {
            None => {},
            Some(p) => {
                found = found + 1;
                if entries[i].1 {
                    foreign = foreign + 1;
                } else {
                    let live_pid = match p {
                        Some(x) => contains_pid(live, x),
                        None => false,
                    };
                    if !live_pid {
                        stale = stale + 1;
                    }
                }
            },
        }
        i = i + 1;
    }
    assert(ev.take(entries.len() as int) =~= ev);
    PaneDiscoveryStats { sockets_found: found, sockets_stale: stale, sockets_foreign_uid: foreign, instances_failed: 0 }
}

/// How many instance queries failed.
pub open spec fn failures(rs: Seq<Result<Vec<PaneRow>, AppError>>) -> nat
    decreases rs.len(),
{
    if rs.len() == 0 {
        0
    } else {
        failures(rs.drop_last()) + if rs.last() is Err {
            1nat
        } else {
            0nat
        }
    }
}

/// Count the failed instance queries.
pub fn count_failures(results: &[Result<Vec<PaneRow>, AppError>]) -> (r: usize)
    ensures
        r == failures(results@),
{
    let mut n: usize = 0;
    let mut i: usize = 0;
    assert(results@.take(0) =~= Seq::<Result<Vec<PaneRow>, AppError>>::empty());
    while i < results.len()
        invariant
            i <= results.len(),
            n == failures(results@.take(i as int)),
            n <= i,
        decreases results.len() - i,
    {
        assert(results@.take(i + 1).drop_last() =~= results@.take(i as int));
        assert(results@.take(i + 1).last() == results@[i as int]);
        if results[i].is_err() {
            n = n + 1;
        }
        i = i + 1;
    }
    assert(results@.take(results.len() as int) =~= results@);
    n
}

} // verus!

