use fleetops::telemetry::{
    ctx_used_pct, format_tokens, parse_tail, project_slug, transcript_path, ReadStep, Stamp,
    TailCache, TailFacts, TailProbe, Telemetry,
};

fn assistant_usage(input: u64, cache_read: u64, cache_create: u64) -> String {
    format!(
        r#"{{"type":"assistant","message":{{"usage":{{"input_tokens":{input},"output_tokens":5,"cache_read_input_tokens":{cache_read},"cache_creation_input_tokens":{cache_create}}},"content":[]}}}}"#
    )
}

fn ask(id: &str) -> String {
    format!(
        r#"{{"type":"assistant","message":{{"content":[{{"type":"tool_use","id":"{id}","name":"AskUserQuestion","input":{{}}}}]}}}}"#
    )
}

fn answer(id: &str) -> String {
    format!(
        r#"{{"type":"user","message":{{"content":[{{"type":"tool_result","tool_use_id":"{id}","content":"ok"}}]}}}}"#
    )
}

#[test]
fn slug_table() {
    let cases = [
        ("/tui/fleetops", "-tui-fleetops"),
        ("/home/rob/acme/DEMO_skills", "-home-rob-acme-DEMO-skills"),
        ("/home/rob/.config", "-home-rob--config"),
        ("/", "-"),
    ];
    for (cwd, want) in cases {
        assert_eq!(project_slug(cwd), want, "cwd {cwd:?}");
    }
}

#[test]
fn format_tokens_table() {
    let cases = [(0, "0"), (999, "999"), (1_000, "1k"), (117_585, "117k"), (1_234_567, "1.2M")];
    for (n, want) in cases {
        assert_eq!(format_tokens(n), want, "n={n}");
    }
}

#[test]
fn ctx_pct_recipe() {
    assert_eq!(ctx_used_pct(100_000), 50);
    assert_eq!(ctx_used_pct(0), 0);
    assert_eq!(ctx_used_pct(200_000), 100, "at the 200k boundary, still the small window");
    assert_eq!(ctx_used_pct(408_000), 40);
    assert_eq!(ctx_used_pct(u64::MAX), u64::MAX / 1_000_000);
}

#[test]
fn last_assistant_usage_wins_and_sums_the_recipe() {
    let jsonl = [assistant_usage(10, 100, 1), assistant_usage(2, 117_585, 2_298)].join("\n");
    let facts = parse_tail(jsonl.as_bytes(), false);
    assert_eq!(facts.context_tokens, Some(2 + 117_585 + 2_298));
}

#[test]
fn last_ai_title_wins() {
    let jsonl = [
        r#"{"type":"ai-title","aiTitle":"Old title","sessionId":"s"}"#,
        r#"{"type":"ai-title","aiTitle":"Resume FleetOps conversation","sessionId":"s"}"#,
    ]
    .join("\n");
    let facts = parse_tail(jsonl.as_bytes(), false);
    assert_eq!(facts.ai_title.as_deref(), Some("Resume FleetOps conversation"));
}

#[test]
fn unanswered_question_is_pending_answered_is_not() {
    let pending = [ask("t1")].join("\n");
    assert!(parse_tail(pending.as_bytes(), false).pending_question);
    let answered = [ask("t1"), answer("t1")].join("\n");
    assert!(!parse_tail(answered.as_bytes(), false).pending_question);
    let other_result_does_not_resolve = [ask("t1"), answer("t2")].join("\n");
    assert!(parse_tail(other_result_does_not_resolve.as_bytes(), false).pending_question);
}

#[test]
fn partial_first_line_garbage_and_unknown_types_are_skipped() {
    let jsonl = [
        r#"okens":123}}}"#.to_string(),
        "not json at all".to_string(),
        r#"{"type":"last-prompt","weird":true}"#.to_string(),
        assistant_usage(1, 2, 3),
    ]
    .join("\n");
    let facts = parse_tail(jsonl.as_bytes(), true);
    assert_eq!(facts.context_tokens, Some(6));
}

#[test]
fn empty_tail_yields_defaults() {
    assert_eq!(parse_tail(b"", false), TailFacts::default());
}

#[test]
fn hostile_usage_values_saturate_never_panic() {
    let jsonl = format!(
        r#"{{"type":"assistant","message":{{"usage":{{"input_tokens":{max},"cache_read_input_tokens":{max},"cache_creation_input_tokens":1}},"content":[]}}}}"#,
        max = u64::MAX
    );
    let facts = parse_tail(jsonl.as_bytes(), false);
    assert_eq!(facts.context_tokens, Some(u64::MAX));
}

#[test]
fn transcript_path_joins_projects_slug_and_session() {
    assert_eq!(transcript_path("/h/.agent/projects", "/w/x", "sid"), "/h/.agent/projects/-w-x/sid.jsonl");
}

fn stamp(len: u64, secs: i64) -> Stamp {
    Stamp { len, mtime_secs: secs, mtime_nanos: 0 }
}

fn read(cache: &mut TailCache, id: &str, probe: TailProbe, tail: &[u8]) -> Telemetry {
    match cache.read(id, probe) {
        ReadStep::Done(t) => t,
        ReadStep::NeedTail => match probe {
            TailProbe::Present { stamp, age } => cache.complete(id, stamp, age, parse_tail(tail, false)),
            _ => unreachable!("only a present transcript needs its tail"),
        },
    }
}

#[test]
fn cache_rereads_only_when_stamp_changes_and_handles_missing_file() {
    let mut cache = TailCache::default();
    let one = assistant_usage(1, 2, 3);
    let first = read(&mut cache, "sid", TailProbe::Present { stamp: stamp(10, 5), age: Some(1) }, one.as_bytes());
    assert_eq!(first.facts.as_ref().unwrap().context_tokens, Some(6));
    assert_eq!(first.secs_since_append, Some(1));
    // Unchanged stamp → cached facts, even though the bytes handed in now differ.
    let second = read(&mut cache, "sid", TailProbe::Present { stamp: stamp(10, 5), age: Some(2) }, b"");
    assert_eq!(second.facts, first.facts);
    assert_eq!(second.secs_since_append, Some(2));
    // Changed stamp → re-read.
    let grown = [assistant_usage(1, 2, 3), assistant_usage(10, 20, 30)].join("\n");
    let third = read(&mut cache, "sid", TailProbe::Present { stamp: stamp(20, 6), age: Some(0) }, grown.as_bytes());
    assert_eq!(third.facts.as_ref().unwrap().context_tokens, Some(60));
    // Missing transcript → default telemetry, and its cache entry is dropped.
    let missing = read(&mut cache, "sid", TailProbe::Missing, b"");
    assert_eq!(missing, Telemetry::default());
    assert!(cache.cached("sid", stamp(20, 6)).is_none());
}

#[test]
fn retain_drops_sessions_no_longer_live() {
    let mut cache = TailCache::default();
    cache.store("a", stamp(1, 1), TailFacts::default());
    cache.store("b", stamp(1, 1), TailFacts::default());
    cache.retain(&["b"]);
    assert!(cache.cached("a", stamp(1, 1)).is_none());
    assert!(cache.cached("b", stamp(1, 1)).is_some());
}
