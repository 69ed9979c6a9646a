use animus::codec::{parse_json, render_json};
use animus::context_builder::{AssembleResult, ContextBuilder};
use animus::json::Json;
use animus::reply::Reply;

fn single_user_msg(text: &str) -> Vec<Json> {
    vec![parse_json(&format!(r#"{{"role":"user","content":"{}"}}"#, text)).unwrap()]
}

fn answered(success: bool, body: &str) -> Reply {
    Reply::Answered { success, body: Ok(body.as_bytes().to_vec()) }
}

fn build(text: &str, reply: &Reply) -> AssembleResult {
    ContextBuilder::new("http://ng".to_string()).build(&single_user_msg(text), reply)
}

#[test]
fn assemble_returns_system_prompt() {
    let result = build("hello", &answered(true, r#"{"systemPromptAddition":"Syl context"}"#));
    assert_eq!(result.system_prompt, "Syl context");
}

#[test]
fn assemble_null_returns_empty() {
    let result = build("hello", &answered(true, r#"{"systemPromptAddition":null}"#));
    assert!(result.system_prompt.is_empty());
}

#[test]
fn assemble_ng_unavailable_returns_empty() {
    let result = build("hello", &Reply::Failed("connection refused".to_string()));
    assert!(result.system_prompt.is_empty());
    assert_eq!(result.messages.len(), 1);
}

#[test]
fn assemble_sends_correct_body() {
    let cb = ContextBuilder::new("http://ng".to_string());
    let request = cb.request(&single_user_msg("test input"));
    assert_eq!(request.url, "http://ng/assemble");
    let body = render_json(&request.body);
    assert!(body.contains(r#""role""#));
    assert!(body.contains(r#""user""#));
    assert!(body.contains(r#""messages""#));
    assert!(body.contains("test input"));
    assert_eq!(body, r#"{"messages":[{"content":"test input","role":"user"}]}"#);
    let result = build("test input", &answered(true, r#"{"systemPromptAddition":"ok"}"#));
    assert_eq!(result.system_prompt, "ok");
}

#[test]
fn assemble_non_200_returns_empty() {
    let result = build("hello", &answered(false, r#"{"error":"internal"}"#));
    assert!(result.system_prompt.is_empty());
    let result = build("hello", &answered(false, r#"{"systemPromptAddition":"x"}"#));
    assert!(result.system_prompt.is_empty());
    assert_eq!(result.messages[0].text_at("content", ""), "hello");
}

#[test]
fn assemble_returns_kiss_messages() {
    let result = build(
        "hello",
        &answered(
            true,
            r#"{"systemPromptAddition":"Syl context","messages":[{"role":"user","content":"trimmed by KISS"}]}"#,
        ),
    );
    assert_eq!(result.system_prompt, "Syl context");
    assert_eq!(result.messages.len(), 1);
    assert_eq!(result.messages[0].text_at("content", ""), "trimmed by KISS");
}

#[test]
fn assemble_falls_back_to_input_when_no_messages_field() {
    let result = build("original", &answered(true, r#"{"systemPromptAddition":"Syl context"}"#));
    assert_eq!(result.system_prompt, "Syl context");
    assert_eq!(result.messages.len(), 1);
    assert_eq!(result.messages[0].text_at("content", ""), "original");
}

#[test]
fn assemble_falls_back_where_the_answer_cannot_be_read() {
    for reply in [
        answered(true, "not json"),
        Reply::Answered { success: true, body: Err("cut off".to_string()) },
        answered(true, r#"{"messages":[]}"#),
        answered(true, r#"{"messages":"none"}"#),
    ] {
        let result = build("original", &reply);
        assert_eq!(result.messages.len(), 1);
        assert_eq!(result.messages[0].text_at("content", ""), "original");
    }
}
