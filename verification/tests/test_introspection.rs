use animus::codec::parse_json;
use animus::introspection::{activity_logs, lines, parse_events, ActivityTail, IntrospectionRelay};
use animus::json::Json;
use animus::reply::Reply;

fn relay() -> IntrospectionRelay {
    IntrospectionRelay::new("http://127.0.0.1:8847", "/tmp/shared")
}

fn summaries(events: &[Json]) -> Vec<String> {
    events.iter().map(|e| e.text_at("summary", "-")).collect()
}

#[test]
fn empty_when_no_bunyan_files() {
    let events = relay().read_bunyan_events(&Vec::new(), 5);
    assert!(events.is_empty());
}

#[test]
fn reads_bunyan_jsonl() {
    let content =
        "{\"summary\":\"Syl greeted Josh\"}\n{\"summary\":\"Concept formed: memory\"}\n".to_string();
    let events = relay().read_bunyan_events(&vec![Some(content)], 5);
    assert_eq!(events.len(), 2);
    assert_eq!(summaries(&events), vec!["Syl greeted Josh", "Concept formed: memory"]);
}

#[test]
fn newest_events_come_last_and_older_files_fill_up() {
    let newest = "{\"summary\":\"3\"}\nnot json\n{\"summary\":\"4\"}".to_string();
    let older = "{\"summary\":\"1\"}\r\n{\"summary\":\"2\"}\r\n".to_string();
    let oldest = "{\"summary\":\"0\"}".to_string();
    let contents = vec![Some(newest), None, Some(older), Some(oldest)];
    assert_eq!(
        summaries(&relay().read_bunyan_events(&contents, 3)),
        vec!["2", "3", "4"]
    );
    assert_eq!(
        summaries(&relay().read_bunyan_events(&contents, 9)),
        vec!["0", "1", "2", "3", "4"]
    );
    assert!(relay().read_bunyan_events(&contents, 0).is_empty());
}

#[test]
fn gathering_tells_when_it_is_enough() {
    let mut tail = ActivityTail::new(2);
    assert!(!tail.take_file("{\"summary\":\"b\"}"));
    assert!(tail.take_file("{\"summary\":\"x\"}\n{\"summary\":\"a\"}"));
    assert_eq!(summaries(&tail.finish()), vec!["a", "b"]);
}

#[test]
fn lines_agree_with_the_standard_library() {
    for s in ["", "a", "a\n", "a\nb", "a\r\nb\r\n", "a\r", "\n\n", "a\n\nb\r", "\r\n", "a\rb\n"] {
        let expected: Vec<String> = s.lines().map(String::from).collect();
        assert_eq!(lines(s), expected);
    }
    assert_eq!(parse_events("1\n\n{bad\n2").len(), 2);
}

#[test]
fn activity_logs_are_found_last_name_first() {
    let names: Vec<Vec<u8>> = [
        "bunyan_a.jsonl",
        "other.jsonl",
        "bunyan_c.jsonl",
        "bunyan.jsonl.bak",
        "bunyan_b.jsonl",
        "bunyan.jsonl",
        "bunyan",
    ]
    .iter()
    .map(|n| n.as_bytes().to_vec())
    .collect();
    assert_eq!(activity_logs(&names), vec![2, 4, 0, 5]);
}

#[test]
fn snapshot_of_the_dashboard() {
    let r = relay();
    assert_eq!(r.stats_url(), "http://127.0.0.1:8847/stats");
    assert_eq!(r.fetch_ces_snapshot(&Reply::Failed("x".to_string())), Json::Null);
    let body = Reply::Answered { success: false, body: Ok(b"{\"nodes\":3}".to_vec()) };
    assert_eq!(r.fetch_ces_snapshot(&body), parse_json("{\"nodes\":3}").unwrap());
}

#[test]
fn context_is_put_into_words() {
    let r = relay();
    let stats = parse_json(r#"{"nodes":120,"synapses":"many"}"#).unwrap();
    let events = vec![
        parse_json(r#"{"summary":"one"}"#).unwrap(),
        parse_json(r#"{"other":1}"#).unwrap(),
        parse_json(r#"{"summary":"two"}"#).unwrap(),
    ];
    assert_eq!(
        r.format_context(&stats, &events),
        "[Syl substrate] 120 nodes, 0 synapses\n[Recent activity] one | two"
    );
    assert_eq!(r.format_context(&Json::Null, &events), "[Recent activity] one | two");
    assert_eq!(r.format_context(&Json::Null, &Vec::new()), "");
}
