use animus::btf::parse_btf_frames;
use animus::codec::{encode_msgpack, parse_json};
use animus::markers::{extract_outbound_markers, extract_tool_markers, extract_want_markers};
use animus::outbound::{
    is_loggable, outbound_line, outbound_log_line, outbound_turn, read_budget_flag,
    tract_to_log_path, want_line, wants_register_line, OutboundInitiator,
};
use animus::pipeline::{Effect, SourceType};
use animus::reaction::{Note, Reaction, Work, BUDGET_STOP, MAX_ITERATIONS};
use animus::tool_dispatcher::{Invocation, ToolDispatcher, ToolEnv};
use std::sync::Arc;

fn dispatcher() -> ToolDispatcher {
    ToolDispatcher::from_env(ToolEnv {
        home: None,
        search_url: Some("http://search".to_string()),
        allowed_paths: Some("/tmp".to_string()),
    })
}

fn initiator() -> OutboundInitiator {
    OutboundInitiator::new("/tmp/o.tract", 30, Arc::new(dispatcher()), "/tmp/b", "/tmp/w")
}

fn make_btf_frame(text: &str, channel_id: &str) -> Vec<u8> {
    let metadata = parse_json(&format!(
        r#"{{"module_id":"neurograph","event_type":"outbound_intent","payload":{{"text":"{}","channel_id":"{}"}}}}"#,
        text, channel_id
    ))
    .unwrap();
    frame_of(&encode_msgpack(&metadata).unwrap())
}

fn frame_of(msgpack: &[u8]) -> Vec<u8> {
    let mut payload = Vec::new();
    payload.extend_from_slice(&(msgpack.len() as u32).to_ne_bytes());
    payload.extend_from_slice(msgpack);

    let mut frame = Vec::new();
    frame.extend_from_slice(&0x4254u16.to_ne_bytes());
    frame.push(1u8);
    frame.push(1u8);
    frame.extend_from_slice(&(24u32 + payload.len() as u32).to_ne_bytes());
    frame.extend_from_slice(&0f64.to_ne_bytes());
    frame.extend_from_slice(&crc32fast::hash(&payload).to_ne_bytes());
    frame.push(0x01u8);
    frame.extend_from_slice(&[0u8; 3]);
    frame.extend_from_slice(&payload);
    frame
}

#[test]
fn drain_reads_and_clears() {
    let frame = make_btf_frame("hello from syl", "cli");
    let first = parse_btf_frames(&frame);
    assert_eq!(first.len(), 1);
    let payload = first[0].get("payload").unwrap();
    assert_eq!(payload.text_at("text", ""), "hello from syl");
    assert_eq!(payload.text_at("channel_id", ""), "cli");
    assert_eq!(
        initiator().drain(&frame),
        vec![("hello from syl".to_string(), "cli".to_string())]
    );

    let second = initiator().drain(&[]);
    assert!(second.is_empty(), "tract must be empty after drain");
}

#[test]
fn drain_passes_over_frames_without_text() {
    let mut data = make_btf_frame("   ", "cli");
    data.extend_from_slice(&frame_of(
        &encode_msgpack(&parse_json(r#"{"payload":{"text":7}}"#).unwrap()).unwrap(),
    ));
    data.extend_from_slice(&make_btf_frame(" hi ", "discord"));
    assert_eq!(
        initiator().drain(&data),
        vec![(" hi ".to_string(), "discord".to_string())]
    );
    let turn = outbound_turn(&parse_json(r#"{"payload":{"text":"x"}}"#).unwrap());
    assert_eq!(turn, Some(("x".to_string(), "cli".to_string())));
    assert!(outbound_turn(&parse_json("{}").unwrap()).is_none());
}

#[test]
fn malformed_frames_cost_nothing_of_what_follows() {
    let good = make_btf_frame("hello from syl", "cli");
    let mut empty = 0x4254u16.to_ne_bytes().to_vec();
    empty.extend_from_slice(&[0u8; 22]);
    let mut huge = good.clone();
    huge[4..8].copy_from_slice(&u32::MAX.to_ne_bytes());
    for bad in [empty, huge[..24].to_vec(), huge] {
        let mut data = bad;
        data.extend_from_slice(&good);
        assert_eq!(
            initiator().drain(&data),
            vec![("hello from syl".to_string(), "cli".to_string())]
        );
    }
}

#[test]
fn parse_skips_corrupt_frame() {
    let garbage = b"not a btf frame at all xxxxxxxxxxxxxxxxxxxxxxxxxx";
    let frames = parse_btf_frames(garbage);
    assert!(frames.is_empty());
}

#[test]
fn tract_to_log_path_suffix_safe() {
    assert_eq!(
        tract_to_log_path("/home/josh/.et_modules/shared_learning/animus_outbound.tract"),
        "/home/josh/.et_modules/shared_learning/animus_outbound.log.jsonl"
    );
    assert_eq!(
        tract_to_log_path("/home/josh/.et_modules/my.tract.backup/animus_outbound.tract"),
        "/home/josh/.et_modules/my.tract.backup/animus_outbound.log.jsonl"
    );
    assert_eq!(
        tract_to_log_path("/tmp/animus_outbound"),
        "/tmp/animus_outbound.log.jsonl"
    );
}

#[test]
fn extract_tool_markers_basic() {
    let text = "Hello [TOOL name=web_search]rust async[/TOOL] world";
    let tools = extract_tool_markers(text);
    assert_eq!(tools.len(), 1);
    assert_eq!(tools[0].0, "web_search");
    assert_eq!(tools[0].1, "rust async");
}

#[test]
fn extract_tool_markers_multiple() {
    let text = "[TOOL name=web_search]query1[/TOOL] mid [TOOL name=read_file]/tmp/x[/TOOL]";
    let tools = extract_tool_markers(text);
    assert_eq!(tools.len(), 2);
    assert_eq!(tools[1].0, "read_file");
}

#[test]
fn extract_want_markers_basic() {
    let text = "I [WANT]learn more about STDP[/WANT] today";
    let wants = extract_want_markers(text);
    assert_eq!(wants.len(), 1);
    assert_eq!(wants[0], "learn more about STDP");
}

#[test]
fn extract_outbound_markers_basic() {
    let text = "[OUTBOUND channel=discord]Hello Discord[/OUTBOUND]";
    let out = extract_outbound_markers(text);
    assert_eq!(out.len(), 1);
    assert_eq!(out[0].0, "Hello Discord");
    assert_eq!(out[0].1, "discord");
}

#[test]
fn extract_outbound_markers_no_channel_defaults_to_cli() {
    let text = "[OUTBOUND]Some text[/OUTBOUND]";
    let out = extract_outbound_markers(text);
    assert_eq!(out.len(), 1);
    assert_eq!(out[0].1, "cli");
}

#[test]
fn extract_markers_empty_on_no_match() {
    let text = "plain text with no markers";
    assert!(extract_tool_markers(text).is_empty());
    assert!(extract_want_markers(text).is_empty());
    assert!(extract_outbound_markers(text).is_empty());
}

#[test]
fn extract_markers_at_the_edges() {
    assert!(extract_tool_markers("[TOOL ]x[/TOOL]").is_empty());
    assert!(extract_tool_markers("[TOOL id=3]x[/TOOL]").is_empty());
    assert!(extract_tool_markers("[TOOL name=a]no end").is_empty());
    assert!(extract_tool_markers("[TOOL name=a no bracket").is_empty());
    assert_eq!(
        extract_tool_markers("[TOOL ]x[/TOOL][TOOL name= b ]y[/TOOL]"),
        vec![("b".to_string(), "y".to_string())]
    );
    assert!(extract_want_markers("[WANT]  [/WANT]").is_empty());
    assert_eq!(extract_want_markers("[WANT]a[/WANT][WANT]b").len(), 1);
    assert_eq!(
        extract_outbound_markers("[OUTBOUND  channel= x ]  [/OUTBOUND]"),
        vec![("".to_string(), "x".to_string())]
    );
}

#[test]
fn write_wants_register_appends_valid_jsonl() {
    let content = format!(
        "{}{}",
        wants_register_line("1.5", "learn Rust", "syl_explicit"),
        wants_register_line("2", "explore consciousness", "tonic_emergent")
    );
    let lines: Vec<&str> = content.lines().collect();
    assert_eq!(lines.len(), 2);
    let first: serde_json::Value = serde_json::from_str(lines[0]).unwrap();
    assert_eq!(first["text"], "learn Rust");
    assert_eq!(first["source"], "syl_explicit");
    assert_eq!(first["acted"], false);
    assert_eq!(first["ts"], 1.5);
    let second: serde_json::Value = serde_json::from_str(lines[1]).unwrap();
    assert_eq!(second["source"], "tonic_emergent");
}

#[test]
fn log_lines_are_capped() {
    let line = outbound_log_line("3.25", &"a".repeat(600), "cli", "short");
    assert!(line.ends_with('\n'));
    let v: serde_json::Value = serde_json::from_str(&line).unwrap();
    assert_eq!(v["sent"].as_str().unwrap().len(), 500);
    assert_eq!(v["response"], "short");
    assert_eq!(v["channel"], "cli");
    assert_eq!(v["ts"], 3.25);
    assert!(is_loggable("short"));
    assert!(is_loggable(&"ü".repeat(250)));
    assert!(is_loggable(&"ü".repeat(300)));
    assert!(!is_loggable(&format!("a{}", "ü".repeat(300))));
}

#[test]
fn extract_chained_markers_simulate_loop_exit() {
    let response = "Thinking about [WANT]substrate dynamics[/WANT] today.";
    let tools = extract_tool_markers(response);
    let wants = extract_want_markers(response);
    let outbound = extract_outbound_markers(response);
    assert!(tools.is_empty());
    assert_eq!(wants.len(), 1);
    assert!(outbound.is_empty());
    assert!(tools.is_empty() && outbound.is_empty());
}

#[test]
fn extract_chained_markers_has_tool_continues_loop() {
    let response = "[TOOL name=web_search]spiking neural networks[/TOOL]";
    let tools = extract_tool_markers(response);
    assert_eq!(tools.len(), 1);
    assert!(!tools.is_empty());
}

#[test]
fn read_budget_flag_returns_false_when_missing() {
    let flag = read_budget_flag(None);
    assert!(!flag);
    assert!(!read_budget_flag(Some("not json")));
    assert!(!read_budget_flag(Some(r#"{"critical":"yes"}"#)));
    assert!(!read_budget_flag(Some("{}")));
}

#[test]
fn read_budget_flag_reads_critical_true() {
    assert!(read_budget_flag(Some(r#"{"critical": true, "low": true}"#)));
}

#[test]
fn read_budget_flag_reads_critical_false() {
    assert!(!read_budget_flag(Some(r#"{"critical": false, "low": true}"#)));
}

fn log_of(note: &Note) -> (String, String, String) {
    match note {
        Note::Log { sent, channel, response } => (sent.clone(), channel.clone(), response.clone()),
        Note::Want(_) => panic!("a log entry is expected"),
    }
}

fn log(sent: &str, channel: &str, response: &str) -> (String, String, String) {
    (sent.to_string(), channel.to_string(), response.to_string())
}

#[test]
fn reaction_uses_tools_and_sends_messages() {
    let d = dispatcher();
    let (mut r, work) = Reaction::begin("start".to_string(), "cli".to_string());
    assert!(matches!(work, Work::Say(ref t) if t == "start"));
    let (notes, work) = r.on_said(
        &d,
        "[OUTBOUND channel=gui]hi[/OUTBOUND][WANT]rest[/WANT][TOOL name=web_search]rust[/TOOL]".to_string(),
    );
    assert_eq!(notes.len(), 1);
    assert_eq!(log_of(&notes[0]).0, "start");
    assert_eq!(log_of(&notes[0]).1, "cli");
    assert!(matches!(work, Work::Check));

    let (notes, work) = r.on_checked(&d, false, 1, 0);
    assert_eq!(notes.len(), 1);
    assert!(matches!(&notes[0], Note::Want(w) if w == "rest"));
    match work {
        Work::Use(Invocation::Search { query, .. }) => assert_eq!(query, "rust"),
        _ => panic!("a search is expected"),
    }

    let (notes, work) = r.on_used("found".to_string());
    assert_eq!(log_of(&notes[0]), log("rust", "web_search", "found"));
    assert!(matches!(work, Work::Say(ref t) if t == "found"));

    let (notes, work) = r.on_said(&d, "thanks".to_string());
    assert!(notes.is_empty());
    assert!(matches!(work, Work::Say(ref t) if t == "hi"));

    let (notes, work) = r.on_said(&d, "sent".to_string());
    assert_eq!(log_of(&notes[0]), log("hi", "gui", "sent"));
    assert!(matches!(work, Work::Check));

    let (notes, work) = r.on_checked(&d, false, 2, 0);
    assert!(notes.is_empty());
    assert!(matches!(work, Work::Done));
}

#[test]
fn reaction_stops_when_the_budget_is_spent() {
    let d = dispatcher();
    let (mut r, _) = Reaction::begin("start".to_string(), "cli".to_string());
    r.on_said(&d, "[TOOL name=web_search]rust[/TOOL][WANT]x[/WANT]".to_string());
    let (notes, work) = r.on_checked(&d, true, 0, 0);
    assert_eq!(notes.len(), 1);
    assert_eq!(log_of(&notes[0]), log("start", "cli", BUDGET_STOP));
    assert!(matches!(work, Work::Done));
    let (notes, work) = r.on_said(&d, "more [TOOL name=a]b[/TOOL]".to_string());
    assert!(notes.is_empty());
    assert!(matches!(work, Work::Done));
}

#[test]
fn reaction_stops_after_its_rounds() {
    let d = dispatcher();
    let again = "[OUTBOUND]again[/OUTBOUND]";
    let (mut r, _) = Reaction::begin("start".to_string(), "cli".to_string());
    r.on_said(&d, again.to_string());
    let mut rounds = 0;
    loop {
        let (_, work) = r.on_checked(&d, false, 0, 0);
        match work {
            Work::Say(t) => assert_eq!(t, "again"),
            Work::Done => break,
            _ => panic!("only messages are sent"),
        }
        r.on_said(&d, again.to_string());
        rounds += 1;
    }
    assert_eq!(rounds, MAX_ITERATIONS);
}

#[test]
fn reaction_stops_after_five_minutes() {
    let d = dispatcher();
    for (secs, nanos, late) in [(300, 0, false), (300, 1, true), (301, 0, true), (299, 9, false)] {
        let (mut r, _) = Reaction::begin("start".to_string(), "cli".to_string());
        r.on_said(&d, "[OUTBOUND]again[/OUTBOUND][WANT]w[/WANT]".to_string());
        let (notes, work) = r.on_checked(&d, false, secs, nanos);
        assert_eq!(notes.len(), 1);
        assert_eq!(matches!(work, Work::Done), late);
    }
}

#[test]
fn unknown_tools_are_answered_in_a_reaction() {
    let d = dispatcher();
    let (mut r, _) = Reaction::begin("start".to_string(), "cli".to_string());
    r.on_said(&d, "[TOOL name=shell]ls[/TOOL]".to_string());
    match r.on_checked(&d, false, 0, 0).1 {
        Work::Use(Invocation::Reply(t)) => {
            assert_eq!(t, "[Tool 'shell' not registered — available: read_file, web_search]")
        }
        _ => panic!("a reply is expected"),
    }
}

#[test]
fn stated_wants_name_their_source() {
    assert_eq!(
        want_line("1.5", "learn Rust"),
        "{\"acted\":false,\"source\":\"syl_explicit\",\"text\":\"learn Rust\",\"ts\":1.5}\n"
    );
}

#[test]
fn outbound_lines_are_turns_of_the_agent() {
    assert!(outbound_line(" \n", "0.5").is_none());
    let (event, ctx) = outbound_line("  hello \n", "12.5").unwrap();
    assert_eq!(ctx.text, "hello");
    assert_eq!(ctx.channel_id, "cli");
    assert_eq!(ctx.user_id, "syl_outbound");
    assert!(matches!(ctx.source, SourceType::Channel));
    match event {
        Effect::Event { event_type, payload } => {
            assert_eq!(event_type, "channel_connection");
            assert_eq!(
                payload,
                parse_json(
                    r#"{"channel_id":"cli","channel_type":"cli","connection_start":12.5,"user_id":"syl_outbound"}"#
                )
                .unwrap()
            );
        }
        _ => panic!("another effect"),
    }
}
