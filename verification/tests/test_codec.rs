use animus::btf::parse_btf_frames_as;
use animus::codec::{
    decode_msgpack, decode_msgpack_list, encode_msgpack, parse_json, parse_json_bytes, render_json, try_parse_json,
};
use animus::json::Json;

fn json(text: &str) -> Json {
    parse_json(text).unwrap()
}

#[test]
fn json_text_is_read_and_written() {
    let v = json(r#"{"b":[1,-2,2.5,null,true],"a":"x\ny"}"#);
    assert_eq!(
        v,
        Json::Object(vec![
            ("a".to_string(), Json::Text("x\ny".to_string())),
            (
                "b".to_string(),
                Json::Array(vec![
                    Json::Uint(1),
                    Json::Int(-2),
                    Json::Float("2.5".to_string()),
                    Json::Null,
                    Json::Bool(true),
                ])
            ),
        ])
    );
    assert_eq!(render_json(&v), r#"{"a":"x\ny","b":[1,-2,2.5,null,true]}"#);
}

#[test]
fn json_that_is_none_is_refused_with_a_reason() {
    assert!(parse_json("{oops").is_none());
    assert!(parse_json_bytes(b"\xff").is_none());
    let reason = try_parse_json("{oops").unwrap_err();
    assert_eq!(
        reason,
        serde_json::from_str::<serde_json::Value>("{oops").unwrap_err().to_string()
    );
}

#[test]
fn json_bytes_are_read_as_text_is() {
    assert_eq!(parse_json_bytes(br#"{"k":3}"#), parse_json(r#"{"k":3}"#));
}

#[test]
fn floats_keep_their_text() {
    for t in ["0.1", "1e100", "-0.0", "123456789.125", "5e-324", "1.7976931348623157e308"] {
        let v = json(t);
        assert_eq!(json(&render_json(&v)), v, "{}", t);
        assert_eq!(decode_msgpack(&encode_msgpack(&v).unwrap()).unwrap(), v);
    }
}

#[test]
fn msgpack_gives_back_what_was_written() {
    let v = json(r#"[{"content":"hi","role":"user"},{"n":18446744073709551615,"m":-9223372036854775808},[],{}]"#);
    let bytes = encode_msgpack(&v).unwrap();
    assert_ne!(bytes, render_json(&v).into_bytes());
    assert_eq!(decode_msgpack(&bytes).unwrap(), v);
    assert_eq!(
        bytes,
        rmp_serde::to_vec(&serde_json::from_str::<serde_json::Value>(&render_json(&v)).unwrap())
            .unwrap()
    );
}

#[test]
fn msgpack_gives_back_deep_values() {
    let mut v = Json::Uint(1);
    for _ in 0..1023 {
        v = Json::Array(vec![v]);
    }
    let bytes = encode_msgpack(&v).unwrap();
    assert_eq!(decode_msgpack(&bytes).unwrap(), v);
    assert_eq!(Json::Array(decode_msgpack_list(&bytes).unwrap()), v);
    let deeper = Json::Array(vec![v]);
    let bytes = encode_msgpack(&deeper).unwrap();
    assert!(decode_msgpack(&bytes).is_none());
    assert!(decode_msgpack_list(&bytes).is_none());
}

#[test]
fn json_text_gives_back_deep_values() {
    let mut v = Json::Uint(1);
    for _ in 0..127 {
        v = Json::Array(vec![v]);
    }
    assert_eq!(json(&render_json(&v)), v);
    assert!(parse_json(&render_json(&Json::Array(vec![v]))).is_none());
}

#[test]
fn json_text_gives_back_all_but_the_last_bits_of_floats() {
    let v = json(r#"{"a":[true,null,-7,18446744073709551615,"\u0001\"é"],"f":0.1}"#);
    let back = json(&render_json(&v));
    assert_eq!(back.get("a"), v.get("a"));
    assert!(matches!(back.get("f"), Some(Json::Float(_))));
    let odd = Json::Object(vec![
        ("n".to_string(), Json::Float("no number".to_string())),
        ("x".to_string(), Json::Float("5".to_string())),
    ]);
    assert_eq!(render_json(&odd), r#"{"n":null,"x":5.0}"#);
}

#[test]
fn the_largest_numbers_are_read_back() {
    let top = f64::MAX.to_bits();
    for n in 0..20000 {
        for x in [f64::from_bits(top - n), -f64::from_bits(top - n)] {
            let written = render_json(&Json::Float(x.to_string()));
            assert!(written.ends_with("e+308"), "{}", written);
            assert!(matches!(json(&written), Json::Float(_)), "{}", written);
        }
    }
    for t in ["9".repeat(308), format!("1{}", "0".repeat(308)), format!("-{}", "9".repeat(308))] {
        let written = render_json(&Json::Float(t));
        assert!(matches!(json(&written), Json::Float(_)), "{}", written);
    }
    assert_eq!(render_json(&Json::Float("9".repeat(309))), "null");
}

#[test]
fn the_reserved_name_is_not_given_back() {
    let v = Json::Object(vec![(
        "$serde_json::private::RawValue".to_string(),
        Json::Text("1".to_string()),
    )]);
    assert_eq!(decode_msgpack(&encode_msgpack(&v).unwrap()).unwrap(), Json::Uint(1));
    let later = Json::Object(vec![
        ("#".to_string(), Json::Null),
        ("$serde_json::private::RawValue".to_string(), Json::Text("1".to_string())),
    ]);
    assert_eq!(decode_msgpack(&encode_msgpack(&later).unwrap()).unwrap(), later);
    assert_eq!(json(&render_json(&later)), later);
}

#[test]
fn msgpack_lists_are_read() {
    let v = json(r#"[1,"x",{"k":null}]"#);
    let list = decode_msgpack_list(&encode_msgpack(&v).unwrap()).unwrap();
    assert_eq!(Json::Array(list), v);
    assert!(decode_msgpack_list(&encode_msgpack(&json("3")).unwrap()).is_none());
}

#[test]
fn msgpack_that_is_none_is_refused() {
    assert!(decode_msgpack(&[0xc1]).is_none());
    assert!(decode_msgpack(&[]).is_none());
}

#[test]
fn fields_are_put_in_order_as_they_are_written() {
    let v = Json::Object(vec![
        ("b".to_string(), Json::Uint(1)),
        ("a".to_string(), Json::Uint(2)),
        ("b".to_string(), Json::Uint(3)),
    ]);
    assert_eq!(render_json(&v), r#"{"a":2,"b":3}"#);
}

#[test]
fn values_are_looked_up() {
    let v = json(r#"{"a":{"b":"x"},"n":1,"l":[]}"#);
    assert_eq!(v.get("a").unwrap().text_at("b", "-"), "x");
    assert_eq!(v.text_at("n", "-"), "-");
    assert_eq!(v.text_at("missing", "-"), "-");
    assert!(v.get("missing").is_none());
    assert!(v.array_at("l").unwrap().is_empty());
    assert!(v.array_at("n").is_none());
    assert_eq!(v.copy_at("missing"), Json::Null);
    assert_eq!(v.copy(), v);
}

fn frame(little: bool, payload: &[u8], crc: u32) -> Vec<u8> {
    let total = 24 + payload.len() as u32;
    let mut f = Vec::new();
    if little {
        f.extend_from_slice(&0x4254u16.to_le_bytes());
        f.extend_from_slice(&[1, 1]);
        f.extend_from_slice(&total.to_le_bytes());
        f.extend_from_slice(&[0; 8]);
        f.extend_from_slice(&crc.to_le_bytes());
    } else {
        f.extend_from_slice(&0x4254u16.to_be_bytes());
        f.extend_from_slice(&[1, 1]);
        f.extend_from_slice(&total.to_be_bytes());
        f.extend_from_slice(&[0; 8]);
        f.extend_from_slice(&crc.to_be_bytes());
    }
    f.extend_from_slice(&[1, 0, 0, 0]);
    f.extend_from_slice(payload);
    f
}

fn payload(little: bool, v: &Json) -> Vec<u8> {
    let bytes = encode_msgpack(v).unwrap();
    let len = bytes.len() as u32;
    let mut p = Vec::new();
    p.extend_from_slice(&if little { len.to_le_bytes() } else { len.to_be_bytes() });
    p.extend_from_slice(&bytes);
    p
}

#[test]
fn frames_are_read_in_order_in_either_byte_order() {
    for little in [true, false] {
        let mut data = Vec::new();
        for n in 0..3u64 {
            let p = payload(little, &Json::Uint(n));
            data.extend_from_slice(&frame(little, &p, crc32fast::hash(&p)));
        }
        assert_eq!(
            parse_btf_frames_as(&data, little),
            vec![Json::Uint(0), Json::Uint(1), Json::Uint(2)]
        );
    }
}

#[test]
fn frames_with_a_wrong_checksum_are_passed_over() {
    let p = payload(true, &Json::Uint(1));
    let q = payload(true, &Json::Uint(2));
    let mut data = frame(true, &p, crc32fast::hash(&p).wrapping_add(1));
    data.extend_from_slice(&frame(true, &q, crc32fast::hash(&q)));
    assert_eq!(parse_btf_frames_as(&data, true), vec![Json::Uint(2)]);
}

#[test]
fn bytes_between_frames_are_passed_over() {
    let p = payload(true, &Json::Uint(1));
    let mut data = b"noise".to_vec();
    data.extend_from_slice(&frame(true, &p, crc32fast::hash(&p)));
    assert_eq!(parse_btf_frames_as(&data, true), vec![Json::Uint(1)]);
}

#[test]
fn a_frame_cut_short_gives_nothing() {
    let p = payload(true, &Json::Uint(1));
    let whole = frame(true, &p, crc32fast::hash(&p));
    let mut data = whole.clone();
    data.extend_from_slice(&whole[..whole.len() - 1]);
    assert_eq!(parse_btf_frames_as(&data, true), vec![Json::Uint(1)]);
}

#[test]
fn a_frame_with_short_metadata_gives_nothing() {
    for p in [vec![], vec![1, 2], vec![9, 0, 0, 0, 1]] {
        let data = frame(true, &p, crc32fast::hash(&p));
        assert!(parse_btf_frames_as(&data, true).is_empty());
    }
}
