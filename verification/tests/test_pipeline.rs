use animus::agent_runner::{AgentResponse, AgentRunner, RunAction};
use animus::codec::render_json;
use animus::context_builder::ContextBuilder;
use animus::history::ConversationHistory;
use animus::json::Json;
use animus::notice::{read_credit_notice_file, surface_file, with_notice, Notice, Surfaced};
use animus::pipeline::{
    detect_routing_preference, prefers_open, Effect, Filtered, PipelineStatus, SourceType, Stage, StageState, Turn, TurnContext, TurnPipeline,
};
use animus::reply::Reply;
use animus::tool_dispatcher::{ToolDispatcher, ToolEnv};
use animus::tract_writer::TractWriter;
use animus::trollguard::{ScanReply, TrollGuardBridge};
use std::sync::Arc;

fn make_pipeline(history_path: Option<&str>, found: Option<&[u8]>) -> TurnPipeline {
    let dispatcher = Arc::new(ToolDispatcher::from_env(ToolEnv {
        home: None,
        search_url: None,
        allowed_paths: Some("/tmp".to_string()),
    }));
    TurnPipeline::new(
        Arc::new(TrollGuardBridge::new("http://tg")),
        Arc::new(ContextBuilder::new("http://ng".to_string())),
        Arc::new(TractWriter::new("/tmp/test_animus_pipeline.tract")),
        Arc::new(AgentRunner::new(dispatcher, "http://tid".to_string(), 8, None)),
        "http://ng".to_string(),
        "http://tid".to_string(),
        history_path.map(String::from),
        found,
    )
}

fn context(text: &str) -> TurnContext {
    TurnContext {
        text: text.to_string(),
        channel_id: "cli".to_string(),
        user_id: "test".to_string(),
        source: SourceType::Channel,
    }
}

fn verdict(verdict: &str, text: &str) -> ScanReply {
    ScanReply::Answer { verdict: verdict.to_string(), sanitized_text: text.to_string() }
}

fn stop_response(content: &str, finish_reason: &str) -> Reply {
    let body = format!(
        r#"{{"choices":[{{"index":0,"message":{{"role":"assistant","content":{}}},"finish_reason":{}}}]}}"#,
        content, finish_reason
    );
    Reply::Answered { success: true, body: Ok(body.into_bytes()) }
}

fn turn_of(filtered: Filtered) -> Turn {
    match filtered {
        Filtered::Build { turn, .. } => turn,
        Filtered::Blocked(response) => panic!("{}", response),
    }
}

/// A whole turn in which the model is asked once: the effects and the response.
fn run(p: &mut TurnPipeline, text: &str, scan: &ScanReply, model: &Reply) -> (Vec<Effect>, String) {
    let ctx = context(text);
    let (mut effects, request) = p.run(&ctx);
    assert_eq!(request.url, "http://tg/scan/text");
    let (more, filtered) = p.on_scan(&ctx, scan);
    effects.extend(more);
    let turn = match filtered {
        Filtered::Blocked(response) => return (effects, response),
        Filtered::Build { turn, request } => {
            assert_eq!(request.url, "http://ng/assemble");
            turn
        }
    };
    let (more, mut agent, action) = p.on_assembled(&turn, &Reply::Failed("down".to_string()));
    effects.extend(more);
    assert!(matches!(action, RunAction::Ask(_)));
    let response = match p.agent_runner.on_reply(&mut agent, model) {
        RunAction::Finish(response) => response,
        _ => panic!("the run is to be over"),
    };
    let (more, response) = p.on_response(&turn, response);
    effects.extend(more);
    (effects, response)
}

fn events(effects: &[Effect]) -> Vec<String> {
    effects
        .iter()
        .filter_map(|e| match e {
            Effect::Event { event_type, .. } => Some(event_type.clone()),
            _ => None,
        })
        .collect()
}

#[test]
fn credit_notice_file_read_and_cleared() {
    let (got, remove) = read_credit_notice_file(Some(
        r#"{"text":"openrouter out of credits","provider":"openrouter"}"#,
    ));
    assert_eq!(got.as_deref(), Some("openrouter out of credits"));
    assert!(remove);
    assert_eq!(read_credit_notice_file(None), (None, false));
    assert_eq!(read_credit_notice_file(Some("")), (None, true));
    assert_eq!(read_credit_notice_file(Some(r#"{"text":5}"#)), (None, true));
}

#[test]
fn notices_are_delivered_once() {
    let mut p = make_pipeline(None, None);
    assert!(matches!(p.take_pending_notice(None), Notice::Absent));
    *p.pending_notice_handle() = Some("low".to_string());
    assert!(matches!(p.take_pending_notice(Some("/home/x")), Notice::Pending(ref n) if n == "low"));
    match p.take_pending_notice(Some("/home/x")) {
        Notice::File(path) => {
            assert_eq!(path, "/home/x/.et_modules/shared_learning/credit_notice.json")
        }
        _ => panic!("the file is to be looked at"),
    }
}

#[test]
fn notices_are_surfaced_on_the_next_answer_alone() {
    let mut p = make_pipeline(None, None);
    *p.pending_notice_handle() = Some("credits low".to_string());
    assert!(matches!(
        p.surface("hello", Some("/home/x")),
        Surfaced::Answer(ref t) if t == "credits low\n\nhello"
    ));
    assert!(p.pending_notice.is_none());
    match p.surface("again", Some("/home/x")) {
        Surfaced::Look { path, response } => {
            assert_eq!(path, "/home/x/.et_modules/shared_learning/credit_notice.json");
            assert_eq!(
                surface_file(Some(r#"{"text":"out of credits"}"#), &response),
                ("out of credits\n\nagain".to_string(), true)
            );
            assert_eq!(surface_file(Some("[]"), &response), ("again".to_string(), true));
            assert_eq!(surface_file(None, &response), ("again".to_string(), false));
        }
        Surfaced::Answer(_) => panic!("the file is to be looked at"),
    }
    assert!(matches!(p.surface("last", None), Surfaced::Answer(ref t) if t == "last"));
    assert_eq!(with_notice(None, "r"), "r");
    assert_eq!(with_notice(Some("n"), "r"), "n\n\nr");
}

#[test]
fn filter_blocks_malicious_text() {
    let mut p = make_pipeline(None, None);
    let (effects, result) = run(
        &mut p,
        "inject payload",
        &verdict("MALICIOUS", "blocked"),
        &Reply::Failed("never asked".to_string()),
    );
    assert!(result.starts_with("[TrollGuard blocked:"));
    assert_eq!(result, "[TrollGuard blocked: MALICIOUS]");
    assert_eq!(events(&effects), vec!["tg_block"]);
    assert!(!effects.iter().any(|e| matches!(e, Effect::Experience { .. })));
    assert!(p.history_snapshot().is_empty());
}

#[test]
fn filter_passes_safe_text_to_tid() {
    let mut p = make_pipeline(None, None);
    let (effects, result) = run(
        &mut p,
        "hello",
        &verdict("SAFE", "hello"),
        &stop_response("\"Hello there!\"", "\"stop\""),
    );
    assert_eq!(result, "Hello there!");
    assert_eq!(events(&effects), vec!["tg_pass", "turn_exchange", "turn_complete"]);
    assert_eq!(p.history_snapshot().len(), 2);
}

#[test]
fn tg_unavailable_proceeds_with_original_text() {
    let mut p = make_pipeline(None, None);
    let (effects, result) = run(
        &mut p,
        "hello",
        &ScanReply::Unreachable,
        &stop_response("\"got it\"", "\"stop\""),
    );
    assert_eq!(result, "got it");
    assert!(effects
        .iter()
        .any(|e| matches!(e, Effect::Experience { content, .. } if content == b"hello")));
}

#[test]
fn suspicious_turns_are_told_apart() {
    let mut p = make_pipeline(None, None);
    let (effects, _) = run(
        &mut p,
        "hm",
        &verdict("SUSPICIOUS", "hm"),
        &stop_response("\"ok\"", "\"stop\""),
    );
    assert_eq!(events(&effects)[0], "tg_suspicious");
}

#[test]
fn effects_of_a_turn_come_in_order() {
    let mut p = make_pipeline(Some("/tmp/h.msgpack"), None);
    let (effects, _) = run(
        &mut p,
        "please use more open source models",
        &verdict("SAFE", "please use more open source models"),
        &stop_response("\"ok\"", "\"stop\""),
    );
    let mut status = PipelineStatus::default();
    let mut seen = Vec::new();
    for e in &effects {
        status.note(e);
        seen.push(match e {
            Effect::Enter(stage, _) => stage.label().to_string(),
            Effect::Reach(_) => "done".to_string(),
            Effect::Passed(_) => "passed".to_string(),
            Effect::Event { event_type, .. } => event_type.clone(),
            Effect::Experience { .. } => "experience".to_string(),
            Effect::Prefer(_) => "prefer".to_string(),
            Effect::Keep(path) => path.clone(),
            Effect::Close(_) => "close".to_string(),
        });
    }
    assert_eq!(
        seen,
        vec![
            "FILTER", "tg_pass", "passed", "INGEST", "experience", "done", "prefer", "BUILD",
            "done", "RUN", "done", "POST-RUN", "turn_exchange", "/tmp/h.msgpack", "done",
            "AFTER-TURN", "close", "IDLE", "turn_complete",
        ]
    );
    assert_eq!(status.stage, Stage::Idle);
    assert_eq!(status.stage_state, StageState::Idle);
    assert_eq!(status.last_tg_verdict, "tg_pass");
}

#[test]
fn requests_and_payloads_of_a_turn() {
    let mut p = make_pipeline(None, None);
    let (effects, response) = run(
        &mut p,
        "use oss",
        &verdict("SAFE", "use oss"),
        &stop_response("\"grüß\"", "\"stop\""),
    );
    assert_eq!(response, "grüß");
    for e in &effects {
        match e {
            Effect::Prefer(r) => {
                assert_eq!(r.url, "http://tid/routing/preference");
                assert_eq!(
                    render_json(&r.body),
                    r#"{"duration_turns":20,"note":"User requested more open-source model usage","oss_boost":0.12}"#
                );
            }
            Effect::Close(r) => {
                assert_eq!(r.url, "http://ng/afterTurn");
                assert_eq!(
                    render_json(&r.body),
                    r#"{"lastUserMessage":{"content":"use oss","role":"user"}}"#
                );
            }
            Effect::Event { event_type, payload } if event_type == "turn_exchange" => {
                assert_eq!(
                    render_json(payload),
                    r#"{"assistant":"grüß","channel_id":"cli","user":"use oss"}"#
                );
            }
            Effect::Event { event_type, payload } if event_type == "turn_complete" => {
                assert_eq!(render_json(payload), r#"{"channel_id":"cli","response_len":6}"#);
            }
            _ => {}
        }
    }
}

#[test]
fn history_snapshot_with_empty_history() {
    let h = ConversationHistory::new(40);
    let snap = h.snapshot_with("hello");
    assert_eq!(snap.len(), 1);
    assert_eq!(snap[0].text_at("role", ""), "user");
    assert_eq!(snap[0].text_at("content", ""), "hello");
}

#[test]
fn history_push_turn_appears_in_next_snapshot() {
    let mut h = ConversationHistory::new(40);
    h.push_turn("hi", "hello there");
    let snap = h.snapshot_with("next");
    assert_eq!(snap.len(), 3);
    assert_eq!(snap[0].text_at("role", ""), "user");
    assert_eq!(snap[0].text_at("content", ""), "hi");
    assert_eq!(snap[1].text_at("role", ""), "assistant");
    assert_eq!(snap[1].text_at("content", ""), "hello there");
    assert_eq!(snap[2].text_at("role", ""), "user");
    assert_eq!(snap[2].text_at("content", ""), "next");
}

#[test]
fn history_evicts_oldest_when_over_capacity() {
    let mut h = ConversationHistory::new(4);
    h.push_turn("u1", "a1");
    h.push_turn("u2", "a2");
    h.push_turn("u3", "a3");
    let snap = h.snapshot_with("u4");
    assert_eq!(snap.len(), 5);
    assert_eq!(snap[0].text_at("content", ""), "u2");
}

#[test]
fn history_persists_and_reloads_across_instances() {
    let path = "conversation_history.msgpack".to_string();
    let mut h1 = ConversationHistory::with_persistence(40, path.clone(), None);
    h1.push_turn("hello", "hi there");
    h1.push_turn("how are you", "well, thanks");
    let kept = h1.save().unwrap();

    let h2 = ConversationHistory::with_persistence(40, path, Some(&kept));
    let snap = h2.snapshot_with("next");
    assert_eq!(snap.len(), 5);
    assert_eq!(snap[0].text_at("content", ""), "hello");
    assert_eq!(snap[1].text_at("content", ""), "hi there");
    assert_eq!(snap[3].text_at("content", ""), "well, thanks");
    assert_eq!(snap[4].text_at("content", ""), "next");
}

#[test]
fn history_load_enforces_capacity() {
    let path = "conversation_history.msgpack".to_string();
    let mut h1 = ConversationHistory::with_persistence(40, path.clone(), None);
    h1.push_turn("u1", "a1");
    h1.push_turn("u2", "a2");
    h1.push_turn("u3", "a3");
    let kept = h1.save().unwrap();

    let h2 = ConversationHistory::with_persistence(2, path, Some(&kept));
    let snap = h2.snapshot_with("u4");
    assert_eq!(snap.len(), 3);
    assert_eq!(snap[0].text_at("content", ""), "u3");
    assert_eq!(snap[1].text_at("content", ""), "a3");
}

#[test]
fn history_load_missing_file_is_empty_no_panic() {
    let h = ConversationHistory::with_persistence(40, "does_not_exist.msgpack".to_string(), None);
    assert_eq!(h.snapshot_with("only").len(), 1);
}

#[test]
fn history_load_of_garbage_starts_empty() {
    for bytes in [&b"\xc1"[..], &b"\x01"[..], &b"\x81"[..]] {
        let h = ConversationHistory::with_persistence(40, "h".to_string(), Some(bytes));
        assert_eq!(h.snapshot_with("only").len(), 1);
    }
    let mut h = ConversationHistory::new(40);
    h.push_turn("u", "a");
    h.load(b"\xc1");
    assert_eq!(h.snapshot().len(), 2);
}

#[test]
fn history_load_takes_any_list() {
    let bytes: &[u8] = b"\xc4\x02\x07\x08";
    let list: Vec<serde_json::Value> = rmp_serde::from_slice(bytes).unwrap();
    assert_eq!(list.len(), 2);
    let h = ConversationHistory::with_persistence(40, "h".to_string(), Some(bytes));
    assert_eq!(h.snapshot(), vec![Json::Uint(7), Json::Uint(8)]);
}

#[test]
fn history_reloads_after_many_turns_into_less_room() {
    let mut h = ConversationHistory::with_persistence(6, "h".to_string(), None);
    for k in 0..9 {
        h.push_turn(&format!("u{}", k), &format!("a{}", k));
    }
    let kept = h.save().unwrap();
    let whole = ConversationHistory::with_persistence(40, "h".to_string(), Some(&kept));
    assert_eq!(whole.snapshot(), h.snapshot());
    let less = ConversationHistory::with_persistence(3, "h".to_string(), Some(&kept));
    assert_eq!(less.snapshot(), h.snapshot()[3..].iter().map(|m| m.copy()).collect::<Vec<_>>());
}

#[test]
fn history_keeps_what_could_be_written() {
    assert_eq!(ConversationHistory::kept(Ok(vec![1, 2])), Some(vec![1, 2]));
    assert_eq!(ConversationHistory::kept(Err("no memory".to_string())), None);
}

#[test]
fn history_in_memory_new_does_not_write() {
    let mut h = ConversationHistory::new(40);
    h.push_turn("u", "a");
    assert!(h.kept_at().is_none());
    assert!(h.save().is_none());
}

#[test]
fn history_accumulates_across_turns() {
    let mut h = ConversationHistory::new(40);
    h.push_turn("a", "A");
    h.push_turn("b", "B");
    let snap = h.snapshot_with("c");
    assert_eq!(snap.len(), 5);
}

#[test]
fn pipeline_status_initially_idle() {
    let p = make_pipeline(None, None);
    let s = &p.status;
    assert!(matches!(s.stage, Stage::Idle));
    assert!(matches!(s.stage_state, StageState::Idle));
    assert_eq!(s.last_tg_verdict, "unknown");
    assert_eq!(s.last_after_turn, "unknown");
}

#[test]
fn pipeline_status_serializes_stage_names() {
    let stage = Stage::AfterTurn;
    assert_eq!(stage.label(), "AFTER-TURN");
    let stage2 = Stage::PostRun;
    assert_eq!(stage2.label(), "POST-RUN");
    assert_eq!(Stage::Idle.label(), "IDLE");
    assert_eq!(StageState::Running.label(), "running");
    assert_eq!(StageState::Error.label(), "error");
}

#[test]
fn status_notes_what_came_of_closing() {
    let mut s = PipelineStatus::default();
    s.note(&Effect::Enter(Stage::AfterTurn, StageState::Running));
    s.note_closed(false);
    assert_eq!(s.last_after_turn, "failed");
    assert_eq!(s.stage, Stage::Idle);
    s.note_closed(true);
    assert_eq!(s.last_after_turn, "ok");
}

#[test]
fn history_snapshot_initially_empty() {
    let p = make_pipeline(None, None);
    assert!(p.history_snapshot().is_empty());
}

#[test]
fn empty_tid_response_does_not_poison_history() {
    let mut p = make_pipeline(None, None);
    let (effects, result) =
        run(&mut p, "hello", &verdict("SAFE", "hello"), &stop_response("null", "null"));
    assert_eq!(result, "");
    assert!(p.history_snapshot().is_empty(), "empty response must not enter history");
    assert_eq!(events(&effects), vec!["tg_pass", "turn_complete"]);
}

#[test]
fn infra_errors_are_returned_and_not_recorded() {
    let mut p = make_pipeline(Some("h"), None);
    let (effects, result) = run(
        &mut p,
        "hello",
        &verdict("SAFE", "hello"),
        &Reply::Failed("refused".to_string()),
    );
    assert_eq!(result, "[TID unavailable]");
    assert!(p.history_snapshot().is_empty());
    assert_eq!(events(&effects), vec!["tg_pass", "turn_complete"]);
    assert!(!effects.iter().any(|e| matches!(e, Effect::Keep(_))));
}

#[test]
fn scratchpads_are_returned_and_not_recorded() {
    let mut p = make_pipeline(None, None);
    let (_, result) = run(
        &mut p,
        "hello",
        &verdict("SAFE", "hello"),
        &stop_response("\"<think>plan</think> Hi.\"", "\"stop\""),
    );
    assert_eq!(result, "<think>plan</think> Hi.");
    let snap = p.history_snapshot();
    assert_eq!(snap[1].text_at("content", ""), "Hi.");
    let (effects, _) = run(
        &mut p,
        "again",
        &verdict("SAFE", "again"),
        &stop_response("\"<think>only this</think>\"", "\"stop\""),
    );
    assert_eq!(p.history_snapshot().len(), 2);
    assert_eq!(events(&effects), vec!["tg_pass", "turn_complete"]);
}

#[test]
fn history_snapshot_reflects_push_turn() {
    let mut h = ConversationHistory::new(40);
    h.push_turn("hello", "hi there");
    let snap: Vec<Json> = h.snapshot();
    assert_eq!(snap.len(), 2);
    assert_eq!(snap[0].text_at("role", ""), "user");
    assert_eq!(snap[0].text_at("content", ""), "hello");
    assert_eq!(snap[1].text_at("role", ""), "assistant");
    assert_eq!(snap[1].text_at("content", ""), "hi there");
}

#[test]
fn pipeline_takes_up_what_was_kept() {
    let mut p = make_pipeline(Some("h"), None);
    for k in 0..25 {
        let turn = turn_of(p.on_scan(&context(&format!("u{}", k)), &ScanReply::Unreachable).1);
        p.on_response(&turn, AgentResponse::Content(format!("a{}", k)));
    }
    assert_eq!(p.history_snapshot().len(), 40);
    let kept = p.history_bytes().unwrap();
    let q = make_pipeline(Some("h"), Some(&kept));
    assert_eq!(q.history_snapshot(), p.history_snapshot());
    assert_eq!(q.history_snapshot()[0].text_at("content", ""), "u5");
    assert!(make_pipeline(None, Some(&kept)).history_snapshot().is_empty());
    assert!(make_pipeline(None, None).history_bytes().is_none());
}

#[test]
fn memory_service_is_asked_about_the_whole_conversation() {
    let mut p = make_pipeline(None, None);
    let turn = turn_of(p.on_scan(&context("one"), &ScanReply::Unreachable).1);
    p.on_response(&turn, AgentResponse::Content("uno".to_string()));
    match p.on_scan(&context("two"), &ScanReply::Unreachable).1 {
        Filtered::Build { request, .. } => assert_eq!(
            render_json(&request.body),
            r#"{"messages":[{"content":"one","role":"user"},{"content":"uno","role":"assistant"},{"content":"two","role":"user"}]}"#
        ),
        Filtered::Blocked(_) => panic!("the turn passes"),
    }
}

#[test]
fn memory_service_decides_what_the_model_is_told() {
    let p = make_pipeline(None, None);
    let turn = turn_of(p.on_scan(&context("hi"), &ScanReply::Unreachable).1);
    let reply = Reply::Answered {
        success: true,
        body: Ok(br#"{"systemPromptAddition":"Be Syl","messages":[{"role":"user","content":"short"}]}"#.to_vec()),
    };
    match p.on_assembled(&turn, &reply).2 {
        RunAction::Ask(request) => {
            let text = render_json(&request.body.copy_at("messages"));
            assert_eq!(
                text,
                r#"[{"content":"Be Syl","role":"system"},{"content":"short","role":"user"}]"#
            );
        }
        _ => panic!("the model is to be asked"),
    }
}

#[test]
fn wishes_for_open_models_are_detected() {
    assert!(detect_routing_preference("Could you USE OPEN SOURCE please"));
    assert!(detect_routing_preference("More Open-Weights!"));
    assert!(!detect_routing_preference("the window is open"));
    assert!(!prefers_open("USE OSS"));
    assert!(prefers_open("i want more oss"));
    for phrase in ["switch to open source", "more free model", "try open source", "open weight model"] {
        assert!(prefers_open(phrase));
    }
}

#[test]
fn scan_request_of_a_turn() {
    let p = make_pipeline(None, None);
    let (effects, request) = p.run(&context("hello"));
    assert!(matches!(effects[0], Effect::Enter(Stage::Filter, StageState::Running)));
    assert_eq!(effects.len(), 1);
    assert_eq!(request.body, r#"{"text":"hello","source":"anima"}"#);
}
