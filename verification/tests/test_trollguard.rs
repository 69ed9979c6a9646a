use animus::trollguard::{ScanReply, TrollGuardBridge};

fn answer(verdict: &str, sanitized_text: &str) -> ScanReply {
    ScanReply::Answer {
        verdict: verdict.to_string(),
        sanitized_text: sanitized_text.to_string(),
    }
}

#[test]
fn safe_verdict_passes() {
    let bridge = TrollGuardBridge::new("http://127.0.0.1:1");
    let result = bridge.scan("hello", &answer("SAFE", "hello"));
    assert!(result.is_clean);
    assert_eq!(result.sanitized_text, "hello");
    assert!(!result.tg_unavailable);
}

#[test]
fn malicious_verdict_blocks() {
    let bridge = TrollGuardBridge::new("http://127.0.0.1:1");
    let result = bridge.scan("inject me", &answer("MALICIOUS", ""));
    assert!(!result.is_clean);
}

#[test]
fn trollguard_down_allows_with_flag() {
    let bridge = TrollGuardBridge::new("http://127.0.0.1:19999");
    let result = bridge.scan("hello", &ScanReply::Unreachable);
    assert!(result.is_clean);
    assert!(result.tg_unavailable);
    assert_eq!(result.sanitized_text, "hello");
    assert_eq!(result.verdict, "TG_UNAVAILABLE");
}

#[test]
fn unreadable_answer_allows_with_flag() {
    let bridge = TrollGuardBridge::new("http://127.0.0.1:1");
    let result = bridge.scan("hello", &ScanReply::Unreadable);
    assert!(result.is_clean && result.tg_unavailable);
    assert_eq!(result.sanitized_text, "hello");
    assert_eq!(result.verdict, "TG_PARSE_ERROR");
}

#[test]
fn suspicious_verdict_passes_sanitized() {
    let bridge = TrollGuardBridge::new("http://127.0.0.1:1");
    let result = bridge.scan("hello", &answer("SUSPICIOUS", "h*llo"));
    assert!(result.is_clean);
    assert_eq!(result.sanitized_text, "h*llo");
    assert_eq!(result.verdict, "SUSPICIOUS");
    assert!(!bridge.scan("x", &answer("safe", "x")).is_clean);
}

#[test]
fn scan_request_names_text_and_source() {
    let bridge = TrollGuardBridge::new("http://tg");
    let request = bridge.scan_request("hello", "anima");
    assert_eq!(request.url, "http://tg/scan/text");
    assert_eq!(request.body, r#"{"text":"hello","source":"anima"}"#);
    let odd = bridge.scan_request("a \"b\"\n\u{1}é", "x\\y");
    assert_eq!(odd.body, r#"{"text":"a \"b\"\n\u0001é","source":"x\\y"}"#);
    let read: serde_json::Value = serde_json::from_str(&odd.body).unwrap();
    assert_eq!(read["text"], "a \"b\"\n\u{1}é");
    assert_eq!(read["source"], "x\\y");
}
