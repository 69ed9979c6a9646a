use animus::adapters::cli::CliAdapter;
use animus::adapters::http::{
    handle_channels, handle_history, handle_reconnect, handle_status, handle_turn, turn_response,
    HttpAdapter,
};
use animus::codec::render_json;
use animus::json::Json;
use animus::pipeline::{Effect, PipelineStatus, SourceType};

fn value(j: &Json) -> serde_json::Value {
    serde_json::from_str(&render_json(j)).unwrap()
}

#[test]
fn status_returns_idle() {
    let json = value(&handle_status(&PipelineStatus::default()));
    assert_eq!(json["stage"], "IDLE");
    assert_eq!(json["anima_alive"], true);
    assert_eq!(json["stage_state"], "idle");
    assert_eq!(json["last_tg_verdict"], "unknown");
}

#[test]
fn history_initially_empty() {
    let json = value(&handle_history(Vec::new()));
    assert_eq!(json["messages"].as_array().unwrap().len(), 0);
}

#[test]
fn channels_returns_gui() {
    let json = value(&handle_channels());
    let channels = json["channels"].as_array().unwrap();
    assert_eq!(channels.len(), 1);
    assert_eq!(channels[0]["name"], "gui");
    assert_eq!(channels[0]["status"], "connected");
}

#[test]
fn reconnect_unknown_channel_returns_error() {
    let answer = handle_reconnect("whatsapp");
    let json: serde_json::Value = serde_json::from_str(&answer).unwrap();
    assert_eq!(json["ok"], false);
    assert!(json["error"].as_str().unwrap().contains("not implemented"));
    assert_eq!(json["error"], "channel 'whatsapp' not implemented in v1");
    assert_eq!(
        answer,
        r#"{"ok":false,"error":"channel 'whatsapp' not implemented in v1"}"#
    );
    assert_eq!(
        handle_reconnect("a\"b"),
        r#"{"ok":false,"error":"channel 'a\"b' not implemented in v1"}"#
    );
}

#[test]
fn reconnect_gui_is_fine() {
    assert_eq!(handle_reconnect("gui"), r#"{"ok":true}"#);
}

#[test]
fn posted_turns_come_by_the_gui() {
    let ctx = handle_turn("hello".to_string(), "josh".to_string());
    assert_eq!(ctx.text, "hello");
    assert_eq!(ctx.channel_id, "gui");
    assert_eq!(ctx.user_id, "josh");
    assert!(matches!(ctx.source, SourceType::Channel));
    assert_eq!(render_json(&turn_response("hi")), r#"{"response":"hi"}"#);
    assert_eq!(HttpAdapter::new(8848).address(), "127.0.0.1:8848");
}

#[test]
fn lines_are_turns_by_the_command_line() {
    let cli = CliAdapter::new();
    assert!(cli.process_line(" \t\n", "josh", "0").is_none());
    let (event, ctx) = cli.process_line("  hello there \n", "josh", "12.5").unwrap();
    assert_eq!(ctx.text, "hello there");
    assert_eq!(ctx.channel_id, "cli");
    assert_eq!(ctx.user_id, "josh");
    match event {
        Effect::Event { event_type, payload } => {
            assert_eq!(event_type, "channel_connection");
            assert_eq!(
                render_json(&payload),
                r#"{"channel_id":"cli","channel_type":"cli","connection_start":12.5,"user_id":"josh"}"#
            );
        }
        _ => panic!("an event is expected"),
    }
}
