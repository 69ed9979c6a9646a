use animus::codec::{decode_msgpack, parse_json, render_json};
use animus::tract_writer::{TractEntry, TractWriter};

#[test]
fn events_carry_their_metadata() {
    let writer = TractWriter::new("/tmp/animus.tract");
    assert_eq!(writer.path, "/tmp/animus.tract");
    let payload = parse_json(r#"{"channel_id":"gui"}"#).unwrap();
    match writer.deposit_event("turn_complete", &payload).unwrap() {
        TractEntry::Outcome { module_id, target_id, success, metadata } => {
            assert_eq!(module_id, "anima");
            assert_eq!(target_id, "turn_complete");
            assert!(success);
            assert_eq!(
                render_json(&decode_msgpack(&metadata).unwrap()),
                r#"{"event_type":"turn_complete","module_id":"anima","payload":{"channel_id":"gui"}}"#
            );
        }
        _ => panic!("an outcome is expected"),
    }
    match writer.deposit_event_silent("x", &payload) {
        Some(TractEntry::Outcome { target_id, metadata, .. }) => {
            assert_eq!(target_id, "x");
            assert_eq!(
                render_json(&decode_msgpack(&metadata).unwrap()),
                r#"{"event_type":"x","module_id":"anima","payload":{"channel_id":"gui"}}"#
            );
        }
        _ => panic!("an outcome is expected"),
    }
    assert!(TractWriter::unless_failed(Err("no memory".to_string())).is_none());
    assert!(TractWriter::unless_failed(Ok(writer.deposit_experience("a", b"x"))).is_some());
    assert!(matches!(
        writer.event_of("x", Err("no memory".to_string())),
        Err(ref e) if e == "msgpack encode failed: no memory"
    ));
}

#[test]
fn experiences_carry_their_bytes() {
    let writer = TractWriter::new("/tmp/animus.tract");
    match writer.deposit_experience("anima", b"hello from anima") {
        TractEntry::Experience { source, content_type, content } => {
            assert_eq!(source, "anima");
            assert_eq!(content_type, "text");
            assert_eq!(content, b"hello from anima");
        }
        _ => panic!("an experience is expected"),
    }
    assert!(writer.deposit_experience_silent("anima", b"x").is_some());
}

#[test]
fn failures_to_write_are_put_into_words() {
    let writer = TractWriter::new("/nowhere");
    assert_eq!(writer.event_outcome(Ok(())), Ok(()));
    assert_eq!(
        writer.event_outcome(Err("disk full".to_string())),
        Err("deposit_event failed: disk full".to_string())
    );
    assert_eq!(
        writer.experience_outcome(Err("disk full".to_string())),
        Err("deposit_experience failed: disk full".to_string())
    );
}
