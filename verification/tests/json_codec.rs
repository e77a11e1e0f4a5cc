//! The JSON document model: parsing, serializing and a cross-check against
//! an independent JSON implementation.

use castcore::json::{json_to_bytes, parse_document, Json, JsonPair};

fn obj(pairs: Vec<(&str, Json)>) -> Json {
    Json::Obj(
        pairs
            .into_iter()
            .map(|(k, v)| JsonPair { key: k.to_string(), value: v })
            .collect(),
    )
}

#[test]
fn parse_simple_object() {
    let doc = parse_document(b"{\"a\":1,\"b\":\"x\",\"c\":true,\"d\":null}").expect("parse");
    match doc {
        Json::Obj(pairs) => {
            assert_eq!(pairs.len(), 4);
            assert_eq!(pairs[0].key, "a");
            assert!(matches!(&pairs[0].value, Json::Num(t) if t == b"1"));
            assert!(matches!(&pairs[1].value, Json::Str(s) if s == "x"));
            assert!(matches!(&pairs[2].value, Json::Bool(true)));
            assert!(matches!(&pairs[3].value, Json::Null));
        },
        _ => panic!("expected an object"),
    }
}

#[test]
fn parse_accepts_whitespace() {
    let doc = parse_document(b" { \"a\" : [ 1 , 2 ] , \"b\" : { } } ").expect("parse");
    match doc {
        Json::Obj(pairs) => {
            assert_eq!(pairs.len(), 2);
            assert!(matches!(&pairs[0].value, Json::Arr(items) if items.len() == 2));
            assert!(matches!(&pairs[1].value, Json::Obj(inner) if inner.is_empty()));
        },
        _ => panic!("expected an object"),
    }
}

#[test]
fn parse_number_tokens_kept_verbatim() {
    let doc = parse_document(b"[-1.5e10,0.25,7]").expect("parse");
    match doc {
        Json::Arr(items) => {
            assert!(matches!(&items[0], Json::Num(t) if t == b"-1.5e10"));
            assert!(matches!(&items[1], Json::Num(t) if t == b"0.25"));
            assert!(matches!(&items[2], Json::Num(t) if t == b"7"));
        },
        _ => panic!("expected an array"),
    }
}

#[test]
fn parse_string_escapes() {
    let doc = parse_document(b"\"a\\\"b\\\\c\\n\\t\\u0041\"").expect("parse");
    match doc {
        Json::Str(s) => assert_eq!(s, "a\"b\\c\n\tA"),
        _ => panic!("expected a string"),
    }
}

#[test]
fn parse_surrogate_pair() {
    let doc = parse_document(b"\"\\ud83d\\ude00\"").expect("parse");
    match doc {
        Json::Str(s) => assert_eq!(s, "\u{1f600}"),
        _ => panic!("expected a string"),
    }
}

#[test]
fn parse_rejects_lone_surrogate() {
    assert!(parse_document(b"\"\\ud83d\"").is_none());
}

#[test]
fn parse_rejects_malformed_text() {
    assert!(parse_document(b"{\"a\":}").is_none());
    assert!(parse_document(b"{").is_none());
    assert!(parse_document(b"[1,]").is_none());
    assert!(parse_document(b"nul").is_none());
    assert!(parse_document(b"{} trailing").is_none());
}

#[test]
fn serialize_exact_text() {
    let doc = obj(vec![
        ("a", Json::Num(b"1".to_vec())),
        ("b", Json::Str("x\"y".to_string())),
        ("c", Json::Arr(vec![Json::Bool(false), Json::Null])),
    ]);
    let bytes = json_to_bytes(&doc);
    assert_eq!(bytes, b"{\"a\":1,\"b\":\"x\\\"y\",\"c\":[false,null]}".to_vec());
}

#[test]
fn serialize_escapes_control_bytes() {
    let doc = Json::Str("a\u{1}b".to_string());
    assert_eq!(json_to_bytes(&doc), b"\"a\\u0001b\"".to_vec());
}

#[test]
fn serialize_parse_roundtrip() {
    let doc = obj(vec![
        ("requestId", Json::Num(b"5".to_vec())),
        ("type", Json::Str("RECEIVER_STATUS".to_string())),
        (
            "status",
            obj(vec![
                ("applications", Json::Arr(vec![obj(vec![("appId", Json::Str("CC1AD845".to_string()))])])),
                ("volume", obj(vec![("level", Json::Num(b"0.35".to_vec())), ("muted", Json::Bool(false))])),
            ]),
        ),
    ]);
    let bytes = json_to_bytes(&doc);
    let back = parse_document(&bytes).expect("parse");
    assert_eq!(json_to_bytes(&back), bytes);
}

#[test]
fn unicode_roundtrip() {
    let doc = Json::Str("héllo wörld \u{1f600}".to_string());
    let bytes = json_to_bytes(&doc);
    let back = parse_document(&bytes).expect("parse");
    match back {
        Json::Str(s) => assert_eq!(s, "héllo wörld \u{1f600}"),
        _ => panic!("expected a string"),
    }
}

#[test]
fn cross_check_serializer_against_serde_json() {
    let doc = obj(vec![
        ("a", Json::Num(b"42".to_vec())),
        ("b", Json::Str("tw\"o\nlines".to_string())),
        ("c", Json::Arr(vec![Json::Null, Json::Bool(true)])),
    ]);
    let bytes = json_to_bytes(&doc);
    let v: serde_json::Value = serde_json::from_slice(&bytes).expect("valid JSON");
    assert_eq!(v["a"], serde_json::Value::from(42u32));
    assert_eq!(v["b"], serde_json::Value::from("tw\"o\nlines"));
    assert_eq!(v["c"][1], serde_json::Value::from(true));
}

#[test]
fn cross_check_parser_against_serde_json() {
    let text = "{\"x\":[1,2,{\"y\":\"z\"}],\"w\":null}";
    let mine = parse_document(text.as_bytes()).expect("parse");
    let theirs: serde_json::Value = serde_json::from_str(text).expect("parse");
    // Reserialize ours and parse with the independent implementation; the
    // two readings must agree.
    let mine_again: serde_json::Value =
        serde_json::from_slice(&json_to_bytes(&mine)).expect("valid JSON");
    assert_eq!(mine_again, theirs);
}
