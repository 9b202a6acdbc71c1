//! Tests of the JSON parser: the grammar it accepts, the escapes it
//! decodes, and the round trip through the writer.

use ai::json::Json;
use ai::parse::parse_json;
use ai::json::write_json;

#[test]
fn test_parse_scalars() {
    assert_eq!(parse_json(b" null "), Some(Json::Null));
    assert_eq!(parse_json(b"true"), Some(Json::Bool(true)));
    assert_eq!(parse_json(b"false"), Some(Json::Bool(false)));
    assert_eq!(parse_json(b"42"), Some(Json::Int(42)));
    assert_eq!(parse_json(b"-42"), Some(Json::Int(-42)));
    assert_eq!(parse_json(b"0"), Some(Json::Int(0)));
}

#[test]
fn test_parse_rejects_malformed() {
    assert_eq!(parse_json(b""), None);
    assert_eq!(parse_json(b"01"), None);
    assert_eq!(parse_json(b"1 2"), None);
    assert_eq!(parse_json(b"{\"a\":}"), None);
    assert_eq!(parse_json(b"[1,]"), None);
    assert_eq!(parse_json(b"\"unterminated"), None);
    assert_eq!(parse_json(b"nul"), None);
    assert_eq!(parse_json(b"1."), None);
}

#[test]
fn test_parse_keeps_non_integer_numbers_raw() {
    let doc = parse_json(b"[1.5,2e10,-0.25]").unwrap();
    let text = String::from_utf8(write_json(&doc)).unwrap();
    assert_eq!(text, "[1.5,2e10,-0.25]");
    let big = parse_json(b"99999999999999999999").unwrap();
    assert_eq!(big, Json::Num(b"99999999999999999999".to_vec()));
}

#[test]
fn test_parse_string_escapes() {
    let doc = parse_json(b"\"a\\u00e9b \\ud83d\\ude00 \\n\\\" ok\"").unwrap();
    match doc {
        Json::Str(bytes) => {
            assert_eq!(String::from_utf8(bytes).unwrap(), "a\u{e9}b \u{1f600} \n\" ok");
        }
        _ => panic!("expected a string"),
    }
    assert_eq!(parse_json(b"\"lone \\ud800 surrogate\""), None);
}

#[test]
fn test_parse_nested_structure() {
    let doc = parse_json(b" { \"a\" : [ 1 , {\"b\": null} ] , \"c\" : \"d\" } ").unwrap();
    match &doc {
        Json::Obj(ms) => {
            assert_eq!(ms.len(), 2);
            assert_eq!(ms[0].0, b"a".to_vec());
            assert_eq!(ms[1].0, b"c".to_vec());
        }
        _ => panic!("expected an object"),
    }
    let text = String::from_utf8(write_json(&doc)).unwrap();
    assert_eq!(text, r#"{"a":[1,{"b":null}],"c":"d"}"#);
}

#[test]
fn test_write_then_parse_round_trip() {
    let doc = Json::Obj(vec![
        ("k\n".as_bytes().to_vec(), Json::Arr(vec![Json::Int(-3), Json::Bool(false)])),
        ("\u{e9}".as_bytes().to_vec(), Json::Str("x \"y\" \\z\u{7}".as_bytes().to_vec())),
        ("empty".as_bytes().to_vec(), Json::Obj(vec![])),
    ]);
    let bytes = write_json(&doc);
    let back = parse_json(&bytes).unwrap();
    assert_eq!(back, doc);
}

#[test]
fn test_invalid_utf8_content_is_rejected_on_decode() {
    // The parser passes raw bytes through; turning them into text fields
    // fails when they are not valid UTF-8.
    let mut body: Vec<u8> = Vec::new();
    body.extend_from_slice(b"{\"role\":\"user\",\"content\":\"a");
    body.push(0xff);
    body.extend_from_slice(b"b\"}");
    let doc = parse_json(&body).unwrap();
    match ai::json_types::decode_message(&doc) {
        Err(ai::Error::Deserialization(_)) => {}
        _ => panic!("expected a deserialization error"),
    }
}
