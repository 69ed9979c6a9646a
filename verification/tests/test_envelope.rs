use animus::envelope::{ChannelContext, TurnEnvelope};

#[test]
fn turn_envelope_new_constructor() {
    let ctx = ChannelContext {
        channel_id: "cli".to_string(),
        user_id: "josh".to_string(),
        channel_type: "cli".to_string(),
        connection_start: 1234567890.0f64.to_bits(),
    };
    let env = TurnEnvelope::new("hello", ctx.clone());
    assert_eq!(env.text, "hello");
    assert_eq!(env.context, ctx);
    assert!(env.metadata.is_empty());
}

fn started(at: f64) -> ChannelContext {
    ChannelContext {
        channel_id: "cli".to_string(),
        user_id: "josh".to_string(),
        channel_type: "cli".to_string(),
        connection_start: at.to_bits(),
    }
}

#[test]
fn contexts_are_compared_by_number() {
    let values = [
        0.0,
        -0.0,
        1.5,
        -1.5,
        5e-324,
        -5e-324,
        f64::MAX,
        f64::INFINITY,
        f64::NEG_INFINITY,
        f64::NAN,
        -f64::NAN,
        f64::from_bits(0x7ff0_0000_0000_0001),
    ];
    for a in values {
        for b in values {
            assert_eq!(started(a) == started(b), a == b, "{} {}", a, b);
        }
    }
}

#[test]
fn contexts_with_other_names_differ() {
    let base = started(1.0);
    assert!(base == base.clone());
    assert!(base != ChannelContext { channel_id: "gui".to_string(), ..base.clone() });
    assert!(base != ChannelContext { user_id: "syl".to_string(), ..base.clone() });
    assert!(base != ChannelContext { channel_type: "gui".to_string(), ..base.clone() });
}

#[test]
fn envelopes_are_compared_by_their_contexts() {
    assert!(TurnEnvelope::new("hi", started(0.0)) == TurnEnvelope::new("hi", started(-0.0)));
    assert!(TurnEnvelope::new("hi", started(0.0)) != TurnEnvelope::new("ho", started(0.0)));
    let odd = TurnEnvelope::new("hi", started(f64::NAN));
    assert!(odd != odd.clone());
}
