use animus::reach::{format_badge, parse_reaches, strip_reaches};
use animus::text::strip_reasoning;

#[test]
fn strip_reasoning_removes_think_scratchpad() {
    let raw = "<think>Okay, the user wants X. I should be consistent with the history.</think>\n\n*smiles* Hey, love.";
    assert_eq!(strip_reasoning(raw), "*smiles* Hey, love.");
    assert_eq!(strip_reasoning("the user just said hi. let me draft.</think>Hello!"), "Hello!");
    assert_eq!(strip_reasoning("  Just her, no scratchpad.  "), "Just her, no scratchpad.");
}

#[test]
fn strip_reasoning_keeps_what_follows_the_last_close_tag() {
    assert_eq!(strip_reasoning("a</think>b</think> c "), "c");
    assert_eq!(strip_reasoning("all thought</think>"), "");
    assert_eq!(strip_reasoning(""), "");
    let once = strip_reasoning("x</think>  y  ");
    assert_eq!(strip_reasoning(&once), once);
}

#[test]
fn badge_before_an_answer_survives_stripping() {
    let badge = format_badge("read_file", "{}", true, "");
    let answer = strip_reasoning("<think>hm</think> here it is");
    let whole = format!("{}\n{}", badge, answer);
    assert_eq!(strip_reasoning(&whole), whole);
}

#[test]
fn parse_reaches_extracts_intents_in_order() {
    let text = "Let me check. [[reach: open the two-axis doc and pull the gist]] \
                    and also [[reach: read /tmp/notes.txt]] there.";
    let got = parse_reaches(text);
    assert_eq!(
        got,
        vec![
            "open the two-axis doc and pull the gist".to_string(),
            "read /tmp/notes.txt".to_string(),
        ]
    );
}

#[test]
fn parse_reaches_none_when_absent() {
    assert!(parse_reaches("just talking, no reach here").is_empty());
}

#[test]
fn parse_reaches_trims_and_ignores_empty() {
    assert!(parse_reaches("[[reach:   ]]").is_empty());
    assert_eq!(parse_reaches("[[reach:  do x  ]]"), vec!["do x".to_string()]);
}

#[test]
fn parse_reaches_stops_at_a_marker_without_an_end() {
    assert_eq!(
        parse_reaches("[[reach: a]] then [[reach: b and no end"),
        vec!["a".to_string()]
    );
}

#[test]
fn strip_reaches_removes_markers_keeps_prose() {
    let text = "Sure thing [[reach: read /x]] — one sec.";
    assert_eq!(strip_reaches(text), "Sure thing  — one sec.");
}

#[test]
fn strip_reaches_leaves_other_text_alone() {
    assert_eq!(strip_reaches("no markers [here]"), "no markers [here]");
    assert_eq!(strip_reaches("a [[reach: b"), "a  b");
    assert_eq!(strip_reaches("a[[reach: x]]b[[reach: y]]c"), "abc");
}

#[test]
fn badge_success_is_mechanical() {
    let b = format_badge("read_file", r#"{"path":"/x"}"#, true, "");
    assert_eq!(b, r#"🔧 read_file({"path":"/x"}) ✓"#);
}

#[test]
fn badge_failure_shows_reason() {
    let b = format_badge("read_file", r#"{"path":"/missing"}"#, false, "file not found");
    assert_eq!(b, r#"🔧 read_file({"path":"/missing"}) ✗ file not found"#);
}
