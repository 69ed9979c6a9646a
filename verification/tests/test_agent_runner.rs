use animus::agent_runner::{
    parse_tools_enabled, AgentResponse, AgentRun, AgentRunSpec, AgentRunner, Reach, RunAction,
};
use animus::codec::{parse_json, render_json};
use animus::json::Json;
use animus::reply::{Reply, Request};
use animus::tool_dispatcher::{Invocation, ToolDispatcher, ToolEnv};
use std::sync::Arc;

fn dispatcher() -> Arc<ToolDispatcher> {
    Arc::new(ToolDispatcher::from_env(ToolEnv {
        home: Some("/home/x".to_string()),
        search_url: None,
        allowed_paths: None,
    }))
}

fn make_runner(max_iter: usize) -> AgentRunner {
    AgentRunner::new(dispatcher(), "http://tid".to_string(), max_iter, None)
}

fn user(text: &str) -> Vec<Json> {
    vec![parse_json(&format!(r#"{{"role":"user","content":"{}"}}"#, text)).unwrap()]
}

fn body(text: &str) -> Reply {
    Reply::Answered { success: true, body: Ok(text.as_bytes().to_vec()) }
}

fn stop_response(content: &str) -> Reply {
    body(&format!(
        r#"{{"choices":[{{"index":0,"message":{{"role":"assistant","content":"{}"}},"finish_reason":"stop"}}]}}"#,
        content
    ))
}

fn call(id: &str, name: &str, args: &str) -> String {
    format!(
        r#"{{"id":"{}","type":"function","function":{{"name":"{}","arguments":{}}}}}"#,
        id,
        name,
        serde_json::to_string(args).unwrap()
    )
}

fn calls_response(calls: &[String]) -> Reply {
    body(&format!(
        r#"{{"choices":[{{"index":0,"message":{{"role":"assistant","content":null,"tool_calls":[{}]}},"finish_reason":"tool_calls"}}]}}"#,
        calls.join(",")
    ))
}

fn tool_call_response(id: &str, name: &str, args: &str) -> Reply {
    calls_response(&[call(id, name, args)])
}

fn start(runner: &AgentRunner, text: &str, system_prompt: &str) -> (AgentRun, RunAction) {
    runner.run(AgentRunSpec {
        messages: user(text),
        system_prompt: system_prompt.to_string(),
    })
}

fn asked(action: RunAction) -> Request {
    match action {
        RunAction::Ask(request) => request,
        _ => panic!("the model is to be asked"),
    }
}

fn used(action: RunAction) -> Invocation {
    match action {
        RunAction::Use(invocation) => invocation,
        _ => panic!("a tool is to be used"),
    }
}

fn finished(action: RunAction) -> AgentResponse {
    match action {
        RunAction::Finish(response) => response,
        _ => panic!("the run is to be over"),
    }
}

#[test]
fn single_turn_no_tools_returns_content() {
    let runner = make_runner(8);
    let (mut run, action) = start(&runner, "hi", "");
    let request = asked(action);
    assert_eq!(request.url, "http://tid/v1/chat/completions");
    let result = finished(runner.on_reply(&mut run, &stop_response("Hello from Syl!")));
    assert!(matches!(result, AgentResponse::Content(ref s) if s == "Hello from Syl!"));
}

#[test]
fn system_prompt_sent_as_system_message() {
    let runner = make_runner(8);
    let (mut run, action) = start(&runner, "help", "Be concise");
    let text = render_json(&asked(action).body);
    assert!(text.contains(r#""role":"system""#));
    assert!(text.contains("Be concise"));
    assert!(text.find("Be concise").unwrap() < text.find("help").unwrap());
    let result = finished(runner.on_reply(&mut run, &stop_response("Sure")));
    assert!(matches!(result, AgentResponse::Content(ref s) if s == "Sure"));
}

#[test]
fn tool_call_executed_result_sent_back() {
    let runner = make_runner(8);
    let (mut run, action) = start(&runner, "read the file", "");
    asked(action);
    let action = runner.on_reply(
        &mut run,
        &tool_call_response("call_001", "read_file", r#"{"path":"/tmp/nonexistent_test_file.txt"}"#),
    );
    match used(action) {
        Invocation::Read { path, .. } => assert_eq!(path, "/tmp/nonexistent_test_file.txt"),
        _ => panic!("a file is to be read"),
    }
    let request = asked(runner.on_tool_result(&mut run, "[no such file]"));
    let text = render_json(&request.body);
    assert!(text.contains("call_001"));
    assert!(text.contains(
        r#"{"content":"[no such file]","role":"tool","tool_call_id":"call_001"}"#
    ));
    let result = finished(runner.on_reply(&mut run, &stop_response("Got the file result")));
    assert!(matches!(result, AgentResponse::Content(ref s) if s == "Got the file result"));
}

#[test]
fn dedup_suppresses_same_tool_args() {
    let runner = make_runner(8);
    let (mut run, action) = start(&runner, "read twice", "");
    asked(action);
    let action =
        runner.on_reply(&mut run, &tool_call_response("call_a", "read_file", r#"{"path":"/tmp/x"}"#));
    used(action);
    asked(runner.on_tool_result(&mut run, "content"));
    let action = runner.on_reply(
        &mut run,
        &tool_call_response("call_b", "read_file", r#"{ "path" : "/tmp/x" }"#),
    );
    let text = render_json(&asked(action).body);
    assert!(text.contains("call_b"));
    assert!(text.contains("[tool 'read_file' already called with same args this turn — suppressed]"));
    let result = finished(runner.on_reply(&mut run, &stop_response("Done")));
    assert!(matches!(result, AgentResponse::Content(ref s) if s == "Done"));
}

#[test]
fn calls_of_one_answer_are_carried_out_in_order() {
    let runner = make_runner(8);
    let (mut run, action) = start(&runner, "read", "");
    asked(action);
    let action = runner.on_reply(
        &mut run,
        &calls_response(&[
            call("1", "read_file", r#"{"path":"/a"}"#),
            call("2", "read_file", r#"{"path":"/a"}"#),
            call("3", "read_file", r#"{"path":"/b"}"#),
        ]),
    );
    assert!(matches!(used(action), Invocation::Read { path, .. } if path == "/a"));
    let action = runner.on_tool_result(&mut run, "A");
    assert!(matches!(used(action), Invocation::Read { path, .. } if path == "/b"));
    let request = asked(runner.on_tool_result(&mut run, "B"));
    let ids: Vec<String> = request
        .body
        .array_at("messages")
        .unwrap()
        .iter()
        .filter(|m| m.text_at("role", "") == "tool")
        .map(|m| m.text_at("tool_call_id", ""))
        .collect();
    assert_eq!(ids, vec!["1", "2", "3"]);
}

#[test]
fn the_next_request_answers_every_call() {
    let runner = make_runner(8);
    let (mut run, action) = start(&runner, "read", "");
    let before = render_json(&asked(action).body.copy_at("messages"));
    let action = runner.on_reply(
        &mut run,
        &calls_response(&[
            call("1", "read_file", r#"{"path":"/a"}"#),
            call("2", "read_file", r#"{"path":"/a"}"#),
            call("3", "read_file:", r#"{"path":"/a"}"#),
        ]),
    );
    used(action);
    assert!(matches!(used(runner.on_tool_result(&mut run, "A")), Invocation::Reply(_)));
    let request = asked(runner.on_tool_result(&mut run, "B"));
    let messages = request.body.array_at("messages").unwrap();
    assert_eq!(render_json(&Json::Array(vec![messages[0].copy()])), before);
    assert_eq!(messages[1].text_at("role", ""), "assistant");
    let answers: Vec<String> = messages[2..].iter().map(render_json).collect();
    assert_eq!(
        answers,
        vec![
            r#"{"content":"A","role":"tool","tool_call_id":"1"}"#,
            r#"{"content":"[tool 'read_file' already called with same args this turn — suppressed]","role":"tool","tool_call_id":"2"}"#,
            r#"{"content":"B","role":"tool","tool_call_id":"3"}"#,
        ]
    );
}

#[test]
fn iteration_cap_returns_cap_message() {
    let runner = make_runner(2);
    let (mut run, action) = start(&runner, "loop", "");
    asked(action);
    let reply = tool_call_response("call_inf", "read_file", r#"{"path":"/tmp/x"}"#);
    used(runner.on_reply(&mut run, &reply));
    asked(runner.on_tool_result(&mut run, "x"));
    let result = finished(runner.on_reply(&mut run, &reply));
    assert!(
        matches!(result, AgentResponse::InfraError(ref s) if s == "[AgentRunner: iteration cap reached]")
    );
    let (_, action) = start(&make_runner(0), "loop", "");
    assert!(matches!(finished(action), AgentResponse::InfraError(_)));
}

#[test]
fn tid_unavailable_returns_error() {
    let runner = make_runner(8);
    let (mut run, _) = start(&runner, "hi", "");
    let result = finished(runner.on_reply(&mut run, &Reply::Failed("refused".to_string())));
    assert!(matches!(result, AgentResponse::InfraError(ref s) if s == "[TID unavailable]"));
}

#[test]
fn unreadable_and_malformed_answers_are_errors() {
    let runner = make_runner(8);
    for (reply, expected) in [
        (body("not json"), "[TID: parse error]"),
        (
            Reply::Answered { success: true, body: Err("cut".to_string()) },
            "[TID: parse error]",
        ),
        (body("{}"), "[TID: malformed response]"),
        (body(r#"{"choices":[]}"#), "[TID: malformed response]"),
        (stop_response("[TID] said so"), "[TID] said so"),
    ] {
        let (mut run, _) = start(&runner, "hi", "");
        let result = finished(runner.on_reply(&mut run, &reply));
        assert!(matches!(result, AgentResponse::InfraError(ref s) if s == expected));
    }
}

#[test]
fn missing_finish_reason_counts_as_stop() {
    let runner = make_runner(8);
    let (mut run, _) = start(&runner, "hi", "");
    let result = finished(runner.on_reply(
        &mut run,
        &body(r#"{"choices":[{"message":{"role":"assistant","content":null},"finish_reason":null}]}"#),
    ));
    assert!(matches!(result, AgentResponse::Content(ref s) if s.is_empty()));
}

#[test]
fn tool_calls_without_any_call_are_an_answer() {
    let runner = make_runner(8);
    let (mut run, _) = start(&runner, "hi", "");
    let result = finished(runner.on_reply(
        &mut run,
        &body(r#"{"choices":[{"message":{"content":"[TID quoted","tool_calls":[]},"finish_reason":"tool_calls"}]}"#),
    ));
    assert!(matches!(result, AgentResponse::Content(ref s) if s == "[TID quoted"));
}

#[test]
fn malformed_arguments_count_as_none() {
    let runner = make_runner(8);
    let (mut run, _) = start(&runner, "hi", "");
    let action = runner.on_reply(&mut run, &tool_call_response("c", "read_file", "{broken"));
    assert!(matches!(used(action), Invocation::Read { path, .. } if path == "{}"));
}

#[test]
fn tools_are_offered_unless_disabled() {
    let (_, action) = start(&make_runner(8), "hi", "");
    let text = render_json(&asked(action).body);
    assert!(text.contains(r#""tool_choice":"auto""#));
    assert!(text.contains(r#""name":"read_file""#));
    assert!(text.contains(r#""model":"auto""#));
    let runner = AgentRunner::new(dispatcher(), "http://tid".to_string(), 8, Some(" Off "));
    let (_, action) = start(&runner, "hi", "");
    assert_eq!(
        render_json(&asked(action).body),
        r#"{"messages":[{"content":"hi","role":"user"}],"model":"auto"}"#
    );
}

#[test]
fn words_that_disable_tools() {
    for v in ["false", "0", "no", "off", " FALSE ", "No"] {
        assert!(!parse_tools_enabled(Some(v)));
    }
    for v in ["true", "", "1", "offf", "n"] {
        assert!(parse_tools_enabled(Some(v)));
    }
    assert!(parse_tools_enabled(None));
}

#[test]
fn into_text_gives_the_text_of_either_kind() {
    assert_eq!(AgentResponse::Content("a".to_string()).into_text(), "a");
    assert_eq!(AgentResponse::InfraError("b".to_string()).into_text(), "b");
}

#[test]
fn execute_reach_resolves_and_executes() {
    let runner = make_runner(8);
    let request = runner.reach_request("read the test file");
    let text = render_json(&request.body);
    assert!(text.contains("hands, not a voice"));
    assert!(text.contains("read the test file"));
    let reply =
        tool_call_response("h1", "read_file", r#"{"path":"/tmp/nonexistent_vh_test.txt"}"#);
    match runner.execute_reach("read the test file", &reply) {
        Reach::Use { badge, invocation } => {
            assert!(badge.starts_with(r#"🔧 read_file({"path":"/tmp/nonexistent_vh_test.txt"}) ✓"#));
            assert!(matches!(invocation, Invocation::Read { .. }));
        }
        Reach::Miss { .. } => panic!("the reach is to be resolved"),
    }
}

#[test]
fn execute_reach_no_tool_emitted_is_a_miss() {
    let runner = make_runner(8);
    match runner.execute_reach(
        "do something undoable",
        &stop_response("I cannot map that to a tool."),
    ) {
        Reach::Miss { badge, result } => {
            assert!(badge.contains("✗"));
            assert_eq!(
                badge,
                "🔧 reach(\"do something undoable\") ✗ could not map your reach to a tool"
            );
            assert!(result.to_lowercase().contains("could not") || result.to_lowercase().contains("no tool"));
        }
        Reach::Use { .. } => panic!("no tool was named"),
    }
}
