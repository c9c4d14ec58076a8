//! Transcript telemetry: where a session's transcript lives, what its tail says (context
//! tokens, AI title, an unanswered question), ctx% and compact token counts, and the
//! `(size, mtime)`-keyed cache that spares re-reading unchanged transcripts.
use vstd::prelude::*;

use crate::discovery::opt_view;
use crate::json::{
    get_str, get_str_is, jarray, jget, jget_opt, json_parse, jstr, ju64, parse_json, JsonValue,
};
use crate::text::{
    chars_eq, chars_of, dec, is_ascii_alnum, push_char, push_dec, push_str, split_bytes,
    split_bytes_spec, byte_views, string_of,
};

verus! {

/// Context window assumed for ctx% (the statusline default).
pub const CONTEXT_WINDOW: u64 = 200_000;

/// The large window implied by usage over 200k.
pub const LARGE_CONTEXT_WINDOW: u64 = 1_000_000;

/// How much of a transcript's tail is parsed.
pub const TAIL_BYTES: u64 = 262_144;

/// The agent's project-dir slug: every char outside `[A-Za-z0-9-]` becomes `-`.
pub open spec fn slug_spec(cwd: Seq<char>) -> Seq<char> {
    cwd.map_values(|c: char| if is_ascii_alnum(c) || c == '-' { c } else { '-' })
}

/// The agent's project-dir slug of a working directory.
pub fn project_slug(cwd: &str) -> (r: String)
    ensures
        r@ == slug_spec(cwd@),
{
    let cs = chars_of(cwd);
    let mut out = String::new();
    let mut i: usize = 0;
    while i < cs.len()
        invariant
            i <= cs.len(),
            cs@ == cwd@,
            out@ == slug_spec(cs@.take(i as int)),
        decreases cs.len() - i,
    {
        let c = cs[i];
        let keep = ('0' <= c && c <= '9') || ('a' <= c && c <= 'z') || ('A' <= c && c <= 'Z') || c
            == '-';
        let d = if keep {
            c
        } else {
            '-'
        };
        push_char(&mut out, d);
        assert(cs@.take(i + 1) == cs@.take(i as int).push(c));
        assert(slug_spec(cs@.take(i + 1)) =~= slug_spec(cs@.take(i as int)).push(d));
        i = i + 1;
    }
    assert(cs@.take(cs.len() as int) == cs@);
    out
}

/// `PathBuf::push` on textual Unix paths: an absolute `part` replaces the path; otherwise it
/// is appended after a `/` (unless the path is empty or already ends with one).
pub open spec fn path_join_spec(base: Seq<char>, part: Seq<char>) -> Seq<char> {
    if part.len() > 0 && part[0] == '/' {
        part
    } else if base.len() == 0 || base.last() == '/' {
        base + part
    } else {
        base + seq!['/'] + part
    }
}

/// Join a path component onto a directory path.
pub fn path_join(base: &str, part: &str) -> (r: String)
    ensures
        r@ == path_join_spec(base@, part@),
{
    let p = chars_of(part);
    if p.len() > 0 && p[0] == '/' {
        return string_of(p.as_slice());
    }
    let b = chars_of(base);
    let mut out = string_of(b.as_slice());
    if !(b.len() == 0 || b[b.len() - 1] == '/') {
        push_char(&mut out, '/');
    }
    push_str(&mut out, part);
    out
}

/// Where a session's transcript lives: `<projects>/<slug(cwd)>/<session_id>.jsonl`.
pub open spec fn transcript_path_spec(projects: Seq<char>, cwd: Seq<char>, session_id: Seq<
    char,
>) -> Seq<char> {
    path_join_spec(path_join_spec(projects, slug_spec(cwd)), session_id + ".jsonl"@)
}

/// Path of a session's transcript.
pub fn transcript_path(projects_dir: &str, cwd: &str, session_id: &str) -> (r: String)
    ensures
        r@ == transcript_path_spec(projects_dir@, cwd@, session_id@),
{
    let slug = project_slug(cwd);
    let dir = path_join(projects_dir, slug.as_str());
    let mut file = string_of(chars_of(session_id).as_slice());
    push_str(&mut file, ".jsonl");
    path_join(dir.as_str(), file.as_str())
}

/// ctx% used: tokens as a percentage of the inferred window — 200k by default, 1M once usage
/// exceeds 200k; the multiplication saturates.
pub open spec fn ctx_used_pct_spec(tokens: u64) -> u64 {
    let window: int = if tokens > CONTEXT_WINDOW {
        LARGE_CONTEXT_WINDOW as int
    } else {
        CONTEXT_WINDOW as int
    };
    let scaled: int = if tokens * 100 > u64::MAX {
        u64::MAX as int
    } else {
        tokens * 100
    };
    (scaled / window) as u64
}

/// ctx% used of the inferred context window. Saturating: never panics.
pub fn ctx_used_pct(context_tokens: u64) -> (r: u64)
    ensures
        r == ctx_used_pct_spec(context_tokens),
{
    let window = if context_tokens > CONTEXT_WINDOW {
        LARGE_CONTEXT_WINDOW
    } else {
        CONTEXT_WINDOW
    };
    let scaled = match context_tokens.checked_mul(100) {
        Some(v) => v,
        None => u64::MAX,
    };
    scaled / window
}

/// Compact token count: `999`, `117k`, `1.2M` (truncating).
pub open spec fn format_tokens_spec(n: u64) -> Seq<char> {
    if n >= 1_000_000 {
        let tenths: nat = (n / 100_000) as nat;
        dec(tenths / 10) + seq!['.'] + dec(tenths % 10) + seq!['M']
    } else if n >= 1000 {
        dec((n / 1000) as nat) + seq!['k']
    } else {
        dec(n as nat)
    }
}

/// Compact token count.
pub fn format_tokens(tokens: u64) -> (r: String)
    ensures
        r@ == format_tokens_spec(tokens),
{
    let mut s = String::new();
    if tokens >= 1_000_000 {
        let tenths = tokens / 100_000;
        push_dec(&mut s, tenths / 10);
        push_char(&mut s, '.');
        push_dec(&mut s, tenths % 10);
        push_char(&mut s, 'M');
    } else if tokens >= 1000 {
        push_dec(&mut s, tokens / 1000);
        push_char(&mut s, 'k');
    } else {
        push_dec(&mut s, tokens);
    }
    s
}

// --- the transcript tail ----------------------------------------------------------------------

/// Facts read from a transcript tail.
#[derive(Debug, Clone, Default, PartialEq, Eq)]
pub struct TailFacts {
    /// Context tokens of the last assistant usage (input + cache_read + cache_creation).
    pub context_tokens: Option<u64>,
    /// Last `ai-title` in the tail — the semantic name.
    pub ai_title: Option<String>,
    /// A question tool call with no matching tool result at the end of the tail.
    pub pending_question: bool,
}

/// Plain model of tail facts.
pub struct TailFactsView {
    pub context_tokens: Option<u64>,
    pub ai_title: Option<Seq<char>>,
    pub pending_question: bool,
}

impl View for TailFacts {
    type V = TailFactsView;

    open spec fn view(&self) -> TailFactsView {
        TailFactsView {
            context_tokens: self.context_tokens,
            ai_title: opt_view(self.ai_title),
            pending_question: self.pending_question,
        }
    }
}

impl TailFacts {
    /// A copy of these facts.
    pub fn copy(&self) -> (r: TailFacts)
        ensures
            r@ == self@,
    {
        TailFacts {
            context_tokens: self.context_tokens,
            ai_title: match &self.ai_title {
                Some(t) => Some(t.clone()),
                None => None,
            },
            pending_question: self.pending_question,
        }
    }
}

/// Per-session telemetry: tail facts + transcript activity age.
#[derive(Debug, Clone, Default, PartialEq, Eq)]
pub struct Telemetry {
    /// Facts from the tail; `None` = transcript missing.
    pub facts: Option<TailFacts>,
    /// Seconds since the transcript last grew; `None` = transcript missing.
    pub secs_since_append: Option<u64>,
}

/// The lines of a tail read: the bytes split at `\n`, the first (partial) line dropped when the
/// read started mid-file.
pub open spec fn tail_lines_spec(bytes: Seq<u8>, skip_first_line: bool) -> Seq<Seq<u8>> {
    let parts = split_bytes_spec(bytes, 10);
    if skip_first_line {
        parts.skip(1)
    } else {
        parts
    }
}

/// Split a tail read into lines.
pub fn tail_lines(bytes: &[u8], skip_first_line: bool) -> (r: Vec<Vec<u8>>)
    ensures
        byte_views(r@) == tail_lines_spec(bytes@, skip_first_line),
{
    let mut parts = split_bytes(bytes, 10);
    proof {
        crate::text::lemma_split_bytes_nonempty(bytes@, 10);
    }
    if skip_first_line {
        let ghost before = parts@;
        parts.remove(0);
        assert(byte_views(parts@) =~= byte_views(before).skip(1));
    }
    parts
}

/// The document of one JSONL line: none for an empty line, else what the JSON parser reads.
pub open spec fn line_doc(line: Seq<u8>) -> Option<JsonValue> {
    if line.len() == 0 {
        None
    } else {
        json_parse(line)
    }
}

/// The documents of a tail read's lines.
pub open spec fn tail_docs(bytes: Seq<u8>, skip_first_line: bool) -> Seq<Option<JsonValue>> {
    tail_lines_spec(bytes, skip_first_line).map_values(|l: Seq<u8>| line_doc(l))
}

/// Parse the documents of a JSONL read, line by line (garbage lines read as none).
pub fn line_docs(bytes: &[u8], skip_first_line: bool) -> (r: Vec<Option<JsonValue>>)
    ensures
        r@ == tail_docs(bytes@, skip_first_line),
{
    let lines = tail_lines(bytes, skip_first_line);
    let ghost want = tail_docs(bytes@, skip_first_line);
    let mut out: Vec<Option<JsonValue>> = Vec::new();
    let mut i: usize = 0;
    while i < lines.len()
        invariant
            i <= lines.len(),
            byte_views(lines@) == tail_lines_spec(bytes@, skip_first_line),
            want == tail_docs(bytes@, skip_first_line),
            out.len() == i,
            forall|k: int| 0 <= k < i ==> out@[k] == #[trigger] want[k],
        decreases lines.len() - i,
    {
        assert(byte_views(lines@)[i as int] == lines@[i as int]@);
        let doc = if lines[i].len() == 0 {
            None
        } else {
            parse_json(lines[i].as_slice())
        };
        out.push(doc);
        i = i + 1;
    }
    assert(out@ =~= want);
    out
}

/// Parse transcript-tail bytes. `skip_first_line` drops the leading partial line of a
/// mid-file read; empty, garbage and unknown lines are skipped, never fatal.
pub fn parse_tail(bytes: &[u8], skip_first_line: bool) -> (r: TailFacts)
    ensures
        r@ == tail_facts_spec(tail_docs(bytes@, skip_first_line)),
{
    let docs = line_docs(bytes, skip_first_line);
    fold_tail(docs.as_slice())
}

/// The state of the tail fold: last usage, last title, open question ids.
pub struct TailState {
    pub context_tokens: Option<u64>,
    pub ai_title: Option<Seq<char>>,
    pub pending: Seq<Seq<char>>,
}

/// Saturating addition.
pub open spec fn sat_add(a: u64, b: u64) -> u64 {
    if a + b > u64::MAX {
        u64::MAX
    } else {
        (a + b) as u64
    }
}

/// A `u64` member, absent (or not a fitting number) counting as zero.
pub open spec fn u64_or_zero(v: JsonValue, key: Seq<char>) -> u64 {
    match ju64(jget(v, key)) {
        Some(n) => n,
        None => 0,
    }
}

/// The statusline recipe: input + cache-read + cache-creation tokens, saturating.
pub open spec fn usage_sum(usage: JsonValue) -> u64 {
    sat_add(
        sat_add(u64_or_zero(usage, "input_tokens"@), u64_or_zero(usage, "cache_read_input_tokens"@)),
        u64_or_zero(usage, "cache_creation_input_tokens"@),
    )
}

/// The content blocks of a message (`message.content` when it is an array).
pub open spec fn blocks_of(message: Option<JsonValue>) -> Seq<JsonValue> {
    match jarray(jget_opt(message, "content"@)) {
        Some(a) => a,
        None => Seq::empty(),
    }
}

/// Is this block a question tool call (a `tool_use` named `AskUserQuestion`)?
pub open spec fn is_question(b: JsonValue) -> bool {
    jstr(jget(b, "type"@)) == Some("tool_use"@) && jstr(jget(b, "name"@)) == Some(
        "AskUserQuestion"@,
    )
}

/// The ids of the question tool calls among `blocks`, in order.
pub open spec fn question_ids(blocks: Seq<JsonValue>) -> Seq<Seq<char>>
    decreases blocks.len(),
{
    if blocks.len() == 0 {
        Seq::empty()
    } else {
        let prev = question_ids(blocks.drop_last());
        let b = blocks.last();
        if is_question(b) && jstr(jget(b, "id"@)) is Some {
            prev.push(jstr(jget(b, "id"@))->0)
        } else {
            prev
        }
    }
}

/// `ids` without any occurrence of `id`.
pub open spec fn without(ids: Seq<Seq<char>>, id: Seq<char>) -> Seq<Seq<char>>
    decreases ids.len(),
{
    if ids.len() == 0 {
        ids
    } else if ids.last() == id {
        without(ids.drop_last(), id)
    } else {
        without(ids.drop_last(), id).push(ids.last())
    }
}

/// The open question ids after a message whose blocks carry tool results: each result's
/// `tool_use_id` closes every open question with that id.
pub open spec fn answered(pending: Seq<Seq<char>>, blocks: Seq<JsonValue>) -> Seq<Seq<char>>
    decreases blocks.len(),
{
    if blocks.len() == 0 {
        pending
    } else {
        let prev = answered(pending, blocks.drop_last());
        match jstr(jget(blocks.last(), "tool_use_id"@)) {
            Some(id) => without(prev, id),
            None => prev,
        }
    }
}

/// One tail line folded in. Unparseable lines and unknown line types change nothing.
pub open spec fn tail_step(st: TailState, line: Option<JsonValue>) -> TailState {
    match line {
        None => st,
        Some(v) => {
            let ty = jstr(jget(v, "type"@));
            if ty == Some("ai-title"@) {
                match jstr(jget(v, "aiTitle"@)) {
                    Some(t) => TailState { ai_title: Some(t), ..st },
                    None => st,
                }
            } else if ty == Some("assistant"@) {
                let message = jget(v, "message"@);
                let tokens = match jget_opt(message, "usage"@) {
                    Some(u) => if usage_sum(u) > 0 {
                        Some(usage_sum(u))
                    } else {
                        st.context_tokens
                    },
                    None => st.context_tokens,
                };
                TailState {
                    context_tokens: tokens,
                    pending: st.pending + question_ids(blocks_of(message)),
                    ..st
                }
            } else if ty == Some("user"@) {
                TailState { pending: answered(st.pending, blocks_of(jget(v, "message"@))), ..st }
            } else {
                st
            }
        },
    }
}

/// The fold state after a sequence of lines.
pub open spec fn tail_state(lines: Seq<Option<JsonValue>>) -> TailState
    decreases lines.len(),
{
    if lines.len() == 0 {
        TailState { context_tokens: None, ai_title: None, pending: Seq::empty() }
    } else {
        tail_step(tail_state(lines.drop_last()), lines.last())
    }
}

/// The facts of a tail: the last assistant usage with a positive sum, the last AI title, and
/// whether any question is still unanswered at the end.
pub open spec fn tail_facts_spec(lines: Seq<Option<JsonValue>>) -> TailFactsView {
    let st = tail_state(lines);
    TailFactsView {
        context_tokens: st.context_tokens,
        ai_title: st.ai_title,
        pending_question: st.pending.len() > 0,
    }
}

pub open spec fn id_views(v: Seq<Vec<char>>) -> Seq<Seq<char>> {
    v.map_values(|x: Vec<char>| x@)
}

fn sat_add_exec(a: u64, b: u64) -> (r: u64)
    ensures
        r == sat_add(a, b),
{
    a.saturating_add(b)
}

fn u64_or_zero_exec(v: &JsonValue, key: &str) -> (r: u64)
    ensures
        r == u64_or_zero(*v, key@),
{
    match v.get(key) {
        Some(x) => match x.as_u64() {
            Some(n) => n,
            None => 0,
        },
        None => 0,
    }
}

fn blocks_of_exec(message: Option<&JsonValue>) -> (r: Option<&Vec<JsonValue>>)
    ensures
        match r {
            Some(a) => blocks_of(crate::json::deref_opt(message)) == a@,
            None => blocks_of(crate::json::deref_opt(message)) == Seq::<JsonValue>::empty(),
        },
{
    match message {
        Some(m) => match m.get("content") {
            Some(JsonValue::Array(a)) => Some(a),
            _ => None,
        },
        None => None,
    }
}

/// Remove every occurrence of `id` from `ids`.
fn remove_id(ids: Vec<Vec<char>>, id: &Vec<char>) -> (r: Vec<Vec<char>>)
    ensures
        id_views(r@) == without(id_views(ids@), id@),
{
    let mut out: Vec<Vec<char>> = Vec::new();
    let mut i: usize = 0;
    assert(id_views(ids@).take(0) =~= Seq::<Seq<char>>::empty());
    while i < ids.len()
        invariant
            i <= ids.len(),
            id_views(out@) == without(id_views(ids@).take(i as int), id@),
        decreases ids.len() - i,
    {
        let ghost prev = id_views(ids@).take(i as int);
        assert(id_views(ids@).take(i + 1).drop_last() =~= prev);
        assert(id_views(ids@).take(i + 1).last() == ids@[i as int]@);
        if !chars_eq(ids[i].as_slice(), id.as_slice()) {
            out.push(ids[i].clone());
            assert(id_views(out@) =~= without(prev, id@).push(ids@[i as int]@));
        }
        i = i + 1;
    }
    assert(id_views(ids@).take(ids.len() as int) =~= id_views(ids@));
    out
}

/// Fold the parsed lines of a transcript tail (`None` = an empty or unparseable line, skipped)
/// into its facts.
pub fn fold_tail(lines: &[Option<JsonValue>]) -> (r: TailFacts)
    ensures
        r@ == tail_facts_spec(lines@),
{
    let mut tokens: Option<u64> = None;
    let mut title: Option<String> = None;
    let mut pending: Vec<Vec<char>> = Vec::new();
    let mut i: usize = 0;
    assert(lines@.take(0) =~= Seq::<Option<JsonValue>>::empty());
    while i < lines.len()
        invariant
            i <= lines.len(),
            ({
                let st = tail_state(lines@.take(i as int));
                &&& tokens == st.context_tokens
                &&& opt_view(title) == st.ai_title
                &&& id_views(pending@) == st.pending
            }),
        decreases lines.len() - i,
    {
        let ghost st0 = tail_state(lines@.take(i as int));
        assert(lines@.take(i + 1).drop_last() =~= lines@.take(i as int));
        assert(lines@.take(i + 1).last() == lines@[i as int]);
        match &lines[i] {
            None => {},
            Some(v) => {
                if get_str_is(v, "type", "ai-title") {
                    match get_str(v, "aiTitle") {
                        Some(t) => {
                            title = Some(t);
                        },
                        None => {},
                    }
                } else if get_str_is(v, "type", "assistant") {
                    let message = v.get("message");
                    match message {
                        Some(m) => match m.get("usage") {
                            Some(u) => {
                                let a = u64_or_zero_exec(u, "input_tokens");
                                let b = u64_or_zero_exec(u, "cache_read_input_tokens");
                                let c = u64_or_zero_exec(u, "cache_creation_input_tokens");
                                let sum = sat_add_exec(sat_add_exec(a, b), c);
                                if sum > 0 {
                                    tokens = Some(sum);
                                }
                            },
                            None => {},
                        },
                        None => {},
                    }
                    match blocks_of_exec(message) {
                        Some(blocks) => {
                            let mut k: usize = 0;
                            let ghost p0 = id_views(pending@);
                            assert(blocks@.take(0) =~= Seq::<JsonValue>::empty());
                            assert(p0 + question_ids(blocks@.take(0)) =~= p0);
                            while k < blocks.len()
                                invariant
                                    k <= blocks.len(),
                                    id_views(pending@) == p0 + question_ids(blocks@.take(k as int)),
                                decreases blocks.len() - k,
                            {
                                let b = &blocks[k];
                                assert(blocks@.take(k + 1).drop_last() =~= blocks@.take(k as int));
                                assert(blocks@.take(k + 1).last() == blocks@[k as int]);
                                if get_str_is(b, "type", "tool_use") && get_str_is(
                                    b,
                                    "name",
                                    "AskUserQuestion",
                                ) {
                                    match get_str(b, "id") {
                                        Some(id) => {
                                            assert(question_ids(blocks@.take(k + 1))
                                                == question_ids(blocks@.take(k as int)).push(id@));
                                            let ghost before = id_views(pending@);
                                            let idc = chars_of(id.as_str());
                                            pending.push(idc);
                                            assert(id_views(pending@) =~= before.push(id@));
                                            assert(id_views(pending@) =~= p0 + question_ids(
                                                blocks@.take(k + 1),
                                            ));
                                        },
                                        None => {},
                                    }
                                }
                                k = k + 1;
                            }
                            assert(blocks@.take(blocks.len() as int) =~= blocks@);
                        },
                        None => {
                            assert(id_views(pending@) =~= id_views(pending@) + question_ids(
                                Seq::<JsonValue>::empty(),
                            ));
                        },
                    }
                } else if get_str_is(v, "type", "user") {
                    match blocks_of_exec(v.get("message")) {
                        Some(blocks) => {
                            let mut k: usize = 0;
                            let ghost p0 = id_views(pending@);
                            assert(blocks@.take(0) =~= Seq::<JsonValue>::empty());
                            while k < blocks.len()
                                invariant
                                    k <= blocks.len(),
                                    id_views(pending@) == answered(p0, blocks@.take(k as int)),
                                decreases blocks.len() - k,
                            {
                                assert(blocks@.take(k + 1).drop_last() =~= blocks@.take(k as int));
                                assert(blocks@.take(k + 1).last() == blocks@[k as int]);
                                match get_str(&blocks[k], "tool_use_id") {
                                    Some(id) => {
                                        let idc = chars_of(id.as_str());
                                        pending = remove_id(pending, &idc);
                                    },
                                    None => {},
                                }
                                k = k + 1;
                            }
                            assert(blocks@.take(blocks.len() as int) =~= blocks@);
                        },
                        None => {},
                    }
                }
            },
        }
        i = i + 1;
    }
    assert(lines@.take(lines.len() as int) =~= lines@);
    let pq = pending.len() > 0;
    TailFacts { context_tokens: tokens, ai_title: title, pending_question: pq }
}

// --- the stamp-keyed cache --------------------------------------------------------------------

/// A transcript's `(size, mtime)` identity: unchanged stamp = unchanged file.
#[derive(Debug, Clone, Copy, PartialEq, Eq, Structural)]
pub struct Stamp {
    /// File length in bytes.
    pub len: u64,
    /// Modification time, whole seconds relative to the Unix epoch.
    pub mtime_secs: i64,
    /// Sub-second part of the modification time.
    pub mtime_nanos: u32,
}

/// Cached tail facts per session id, keyed by the transcript stamp they were read at.
#[derive(Debug, Default)]
pub struct TailCache {
    entries: Vec<(String, Stamp, TailFacts)>,
}

/// The first entry for `id`.
pub open spec fn cache_find(es: Seq<(String, Stamp, TailFacts)>, id: Seq<char>) -> Option<
    (Stamp, TailFactsView),
>
    decreases es.len(),
{
    if es.len() == 0 {
        None
    } else {
        match cache_find(es.drop_last(), id) {
            Some(e) => Some(e),
            None => if es.last().0@ == id {
                Some((es.last().1, es.last().2@))
            } else {
                None
            },
        }
    }
}

/// The entries whose key satisfies `keep`, in order.
pub open spec fn cache_filter(es: Seq<(String, Stamp, TailFacts)>, keep: spec_fn(Seq<char>) -> bool) -> Seq<
    (String, Stamp, TailFacts),
>
    decreases es.len(),
{
    if es.len() == 0 {
        es
    } else if keep(es.last().0@) {
        cache_filter(es.drop_last(), keep).push(es.last())
    } else {
        cache_filter(es.drop_last(), keep)
    }
}

proof fn lemma_cache_filter(es: Seq<(String, Stamp, TailFacts)>, keep: spec_fn(Seq<char>) -> bool, k: Seq<char>)
    ensures
        cache_find(cache_filter(es, keep), k) == if keep(k) {
            cache_find(es, k)
        } else {
            None
        },
    decreases es.len(),
{
    if es.len() > 0 {
        lemma_cache_filter(es.drop_last(), keep, k);
        if keep(es.last().0@) {
            assert(cache_filter(es, keep).drop_last() == cache_filter(es.drop_last(), keep));
        }
    }
}

proof fn lemma_cache_prefix(es: Seq<(String, Stamp, TailFacts)>, j: int, k: Seq<char>)
    requires
        0 <= j <= es.len(),
        cache_find(es.take(j), k) is Some,
    ensures
        cache_find(es, k) == cache_find(es.take(j), k),
    decreases es.len() - j,
{
    if j < es.len() {
        assert(es.take(j + 1).drop_last() =~= es.take(j));
        lemma_cache_prefix(es, j + 1, k);
    } else {
        assert(es.take(j) =~= es);
    }
}

/// Is `id` among `ids`?
pub open spec fn id_listed(ids: Seq<&str>, id: Seq<char>) -> bool {
    exists|i: int| 0 <= i < ids.len() && ids[i]@ == id
}

impl TailCache {
    /// What the cache holds for `id`: the stamp and facts last stored for it.
    pub closed spec fn lookup(&self, id: Seq<char>) -> Option<(Stamp, TailFactsView)> {
        cache_find(self.entries@, id)
    }

    /// An empty cache.
    pub fn new() -> (r: TailCache)
        ensures
            forall|id: Seq<char>| r.lookup(id) is None,
    {
        TailCache { entries: Vec::new() }
    }

    /// The facts cached for `id` when they were read at exactly `stamp`.
    pub fn cached(&self, id: &str, stamp: Stamp) -> (r: Option<TailFacts>)
        ensures
            match r {
                Some(f) => self.lookup(id@) == Some((stamp, f@)),
                None => !(self.lookup(id@) matches Some(e) && e.0 == stamp),
            },
    {
        let mut i: usize = 0;
        assert(self.entries@.take(0) =~= Seq::<(String, Stamp, TailFacts)>::empty());
        while i < self.entries.len()
            invariant
                i <= self.entries.len(),
                cache_find(self.entries@.take(i as int), id@) is None,
            decreases self.entries.len() - i,
        {
            assert(self.entries@.take(i + 1).drop_last() =~= self.entries@.take(i as int));
            assert(self.entries@.take(i + 1).last() == self.entries@[i as int]);
            if crate::text::str_eq(self.entries[i].0.as_str(), id) {
                proof {
                    lemma_cache_prefix(self.entries@, i + 1, id@);
                }
                if self.entries[i].1 == stamp {
                    return Some(self.entries[i].2.copy());
                }
                return None;
            }
            i = i + 1;
        }
        assert(self.entries@.take(self.entries.len() as int) =~= self.entries@);
        None
    }

    /// Keep only the entries whose key satisfies `keep`.
    fn keep_where(&mut self, live_ids: &[&str], drop_id: Option<&str>)
        ensures
            final(self).entries@ == cache_filter(
                old(self).entries@,
                |k: Seq<char>| keep_key(live_ids@, drop_id, k),
            ),
    {
        let ghost keep = |k: Seq<char>| keep_key(live_ids@, drop_id, k);
        let mut old_entries: Vec<(String, Stamp, TailFacts)> = Vec::new();
        std::mem::swap(&mut old_entries, &mut self.entries);
        let mut kept: Vec<(String, Stamp, TailFacts)> = Vec::new();
        let ghost ov = old_entries@;
        assert(ov.take(0) =~= Seq::<(String, Stamp, TailFacts)>::empty());
        for e in it: old_entries
            invariant
                it.seq() == ov,
                keep == (|k: Seq<char>| keep_key(live_ids@, drop_id, k)),
                kept@ == cache_filter(it.seq().take(it.index() as int), keep),
        {
            assert(it.seq().take(it.index() + 1).drop_last() =~= it.seq().take(it.index() as int));
            let k = keep_key_exec(live_ids, drop_id, e.0.as_str());
            if k {
                kept.push(e);
            }
        }
        assert(ov.take(ov.len() as int) =~= ov);
        self.entries = kept;
    }

    /// Remember `facts` for `id` at `stamp`, replacing what was held for `id`.
    pub fn store(&mut self, id: &str, stamp: Stamp, facts: TailFacts)
        ensures
            final(self).lookup(id@) == Some((stamp, facts@)),
            forall|k: Seq<char>|
                #![trigger final(self).lookup(k)]
                #![trigger old(self).lookup(k)]
                k != id@ ==> final(self).lookup(k) == old(self).lookup(k),
    {
        self.forget(id);
        let ghost mid = self.entries@;
        self.entries.push((string_of(chars_of(id).as_slice()), stamp, facts));
        assert(self.entries@.drop_last() =~= mid);
        assert forall|k: Seq<char>| k != id@ implies #[trigger] cache_find(self.entries@, k)
            == cache_find(mid, k) by {}
        assert(cache_find(self.entries@, id@) == Some((stamp, facts@)));
    }

    /// Drop whatever is held for `id`.
    pub fn forget(&mut self, id: &str)
        ensures
            final(self).lookup(id@) is None,
            forall|k: Seq<char>|
                #![trigger final(self).lookup(k)]
                #![trigger old(self).lookup(k)]
                k != id@ ==> final(self).lookup(k) == old(self).lookup(k),
    {
        let none: Vec<&str> = Vec::new();
        let ghost es = self.entries@;
        self.keep_where(none.as_slice(), Some(id));
        proof {
            let keep = |k: Seq<char>| keep_key(none@, Some(id), k);
            assert forall|k: Seq<char>| k != id@ implies #[trigger] cache_find(self.entries@, k)
                == cache_find(es, k) by {
                lemma_cache_filter(es, keep, k);
            }
            lemma_cache_filter(es, keep, id@);
        }
    }

    /// Drop the entries of sessions no longer live.
    pub fn retain(&mut self, live_ids: &[&str])
        ensures
            forall|k: Seq<char>| #[trigger] final(self).lookup(k) == if id_listed(live_ids@, k) {
                old(self).lookup(k)
            } else {
                None
            },
    {
        let ghost es = self.entries@;
        self.keep_where(live_ids, None);
        proof {
            let keep = |k: Seq<char>| keep_key(live_ids@, None, k);
            assert forall|k: Seq<char>| #[trigger] cache_find(self.entries@, k) == if id_listed(
                live_ids@,
                k,
            ) {
                cache_find(es, k)
            } else {
                None
            } by {
                lemma_cache_filter(es, keep, k);
            }
        }
    }
}

/// The key filter behind `forget` (`drop_id` given: keep every other key) and `retain`
/// (`drop_id` absent: keep the listed keys).
pub open spec fn keep_key(live_ids: Seq<&str>, drop_id: Option<&str>, k: Seq<char>) -> bool {
    match drop_id {
        Some(d) => k != d@,
        None => id_listed(live_ids, k),
    }
}

fn keep_key_exec(live_ids: &[&str], drop_id: Option<&str>, k: &str) -> (r: bool)
    ensures
        r == keep_key(live_ids@, drop_id, k@),
{
    match drop_id {
        Some(d) => !crate::text::str_eq(k, d),
        None => {
            let mut i: usize = 0;
            while i < live_ids.len()
                invariant
                    drop_id is None,
                    i <= live_ids.len(),
                    forall|j: int| 0 <= j < i ==> live_ids@[j]@ != k@,
                decreases live_ids.len() - i,
            {
                if crate::text::str_eq(live_ids[i], k) {
                    assert(0 <= i < live_ids@.len() && live_ids@[i as int]@ == k@);
                    assert(id_listed(live_ids@, k@));
                    assert(drop_id is None);
                    assert(keep_key(live_ids@, drop_id, k@));
                    return true;
                }
                i = i + 1;
            }
            false
        },
    }
}

} // verus!

verus! {

/// What probing a session's transcript found.
#[derive(Debug, Clone, Copy, PartialEq, Eq, Structural)]
pub enum TailProbe {
    /// No transcript (its metadata is unreadable).
    Missing,
    /// A transcript whose modification time cannot be read.
    NoMtime,
    /// A transcript with its stamp and its age (`None` when its mtime is in the future).
    Present {
        /// Its `(size, mtime)` stamp.
        stamp: Stamp,
        /// Seconds since it last grew.
        age: Option<u64>,
    },
}

/// The outcome of a cache read.
#[derive(Debug)]
pub enum ReadStep {
    /// The telemetry is known.
    Done(Telemetry),
    /// The transcript changed (or was never read): its tail must be read and parsed, then
    /// handed to `complete`.
    NeedTail,
}

/// The read's outcome given what the cache holds for the session: a missing transcript has no
/// telemetry (and its cache entry goes); an unreadable mtime has none either; an unchanged
/// stamp reuses the cached facts; a changed one needs the tail.
pub open spec fn read_outcome(held: Option<(Stamp, TailFactsView)>, probe: TailProbe) -> Option<(Option<TailFactsView>, Option<u64>)> {
    match probe {
        TailProbe::Missing => Some((None, None)),
        TailProbe::NoMtime => Some((None, None)),
        TailProbe::Present { stamp, age } => match held {
            Some((s, f)) => if s == stamp {
                Some((Some(f), age))
            } else {
                None
            },
            None => None,
        },
    }
}

pub open spec fn telemetry_view(t: Telemetry) -> (Option<TailFactsView>, Option<u64>) {
    (
        match t.facts {
            Some(f) => Some(f@),
            None => None,
        },
        t.secs_since_append,
    )
}

impl TailCache {
    /// Read a session's telemetry from the cache, given what probing its transcript found:
    /// `Done` when the answer is known, `NeedTail` when the transcript must be re-read.
    pub fn read(&mut self, session_id: &str, probe: TailProbe) -> (r: ReadStep)
        ensures
            match read_outcome(old(self).lookup(session_id@), probe) {
                Some(t) => r matches ReadStep::Done(x) && telemetry_view(x) == t,
                None => r is NeedTail,
            },
            probe is Missing ==> final(self).lookup(session_id@) is None,
            forall|k: Seq<char>|
                #![trigger final(self).lookup(k)]
                #![trigger old(self).lookup(k)]
                (k != session_id@ || !(probe is Missing)) ==> final(self).lookup(k) == old(
                    self,
                ).lookup(k),
    {
        match probe {
            TailProbe::Missing => {
                self.forget(session_id);
                ReadStep::Done(Telemetry { facts: None, secs_since_append: None })
            },
            TailProbe::NoMtime => ReadStep::Done(Telemetry { facts: None, secs_since_append: None }),
            TailProbe::Present { stamp, age } => match self.cached(session_id, stamp) {
                Some(f) => ReadStep::Done(Telemetry { facts: Some(f), secs_since_append: age }),
                None => ReadStep::NeedTail,
            },
        }
    }

    /// Finish a `NeedTail` read: remember the freshly parsed facts at `stamp` and answer them
    /// (an unreadable tail is handed in as default facts).
    pub fn complete(&mut self, session_id: &str, stamp: Stamp, age: Option<u64>, facts: TailFacts) -> (r: Telemetry)
        ensures
            final(self).lookup(session_id@) == Some((stamp, facts@)),
            telemetry_view(r) == (Some(facts@), age),
            forall|k: Seq<char>|
                #![trigger final(self).lookup(k)]
                #![trigger old(self).lookup(k)]
                k != session_id@ ==> final(self).lookup(k) == old(self).lookup(k),
    {
        let kept = facts.copy();
        self.store(session_id, stamp, kept);
        Telemetry { facts: Some(facts), secs_since_append: age }
    }
}

/// The cache re-reads only when the stamp changes: right after facts were completed at a
/// stamp, a read at that same stamp answers them (with the new age) without a re-read, and a
/// read at any other stamp asks for the tail.
pub proof fn tail_cache_rereads_only_on_stamp_change(stamp: Stamp, f: TailFactsView, other: Stamp, age: Option<u64>)
    ensures
        read_outcome(Some((stamp, f)), TailProbe::Present { stamp, age }) == Some((Some(f), age)),
        other != stamp ==> read_outcome(Some((stamp, f)), TailProbe::Present { stamp: other, age })
            is None,
{
}

} // verus!
