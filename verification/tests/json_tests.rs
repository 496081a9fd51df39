use imgfloat::json::emit::{message_json, state_json};
use imgfloat::json::read::{parse_message, parse_state, str_is_json_number};
use imgfloat::model::{ImgfloatAsset, ImgfloatAssetStateMessage, ImgfloatState};

fn asset(id: &str, x: &str, y: &str, w: &str, h: &str, url: &str) -> ImgfloatAsset {
    ImgfloatAsset::new(
        id.to_string(),
        x.to_string(),
        y.to_string(),
        w.to_string(),
        h.to_string(),
        url.to_string(),
    )
    .expect("geometry texts must be number literals")
}

fn one_asset_state() -> ImgfloatState {
    ImgfloatState {
        assets: vec![asset("a1", "0", "0", "10", "10", "http://x/i.png")],
    }
}

#[test]
fn number_recognizer_matches_the_grammar() {
    for good in ["0", "-0", "10", "1.5", "-1.5e3", "2E-7", "9e+1"] {
        assert!(str_is_json_number(good), "{good}");
    }
    for bad in ["", "-", "01", "1.", ".5", "1e", "1e+", "1..2", "1 ", "+1", "0x1"] {
        assert!(!str_is_json_number(bad), "{bad}");
    }
}

#[test]
fn empty_state_serializes_exactly() {
    assert_eq!(state_json(&ImgfloatState::empty()), "{\"assets\":[]}");
}

#[test]
fn one_asset_state_serializes_exactly() {
    assert_eq!(
        state_json(&one_asset_state()),
        "{\"assets\":[{\"id\":\"a1\",\"x\":0,\"y\":0,\"w\":10,\"h\":10,\"url\":\"http://x/i.png\"}]}"
    );
}

#[test]
fn delete_message_serializes_exactly() {
    let m = ImgfloatAssetStateMessage::Delete("a1".to_string());
    assert_eq!(message_json(&m), "{\"Delete\":\"a1\"}");
}

#[test]
fn parse_accepts_the_tagged_union() {
    let m = parse_message("{\"New\":{\"assets\":[]}}").expect("must parse");
    assert_eq!(m, ImgfloatAssetStateMessage::New(ImgfloatState::empty()));

    let m = parse_message("{\"Delete\":\"a1\"}").expect("must parse");
    assert_eq!(m, ImgfloatAssetStateMessage::Delete("a1".to_string()));

    let m = parse_message(
        "{\"Update\":{\"id\":\"a1\",\"x\":5,\"y\":5,\"w\":10,\"h\":10,\"url\":\"http://x/i.png\"}}",
    )
    .expect("must parse");
    assert_eq!(
        m,
        ImgfloatAssetStateMessage::Update(asset("a1", "5", "5", "10", "10", "http://x/i.png"))
    );
}

#[test]
fn parse_accepts_whitespace_and_any_member_order() {
    let m = parse_message(
        " { \"Update\" : { \"url\" : \"u\" , \"h\" : 4 , \"w\" : 3 , \"y\" : 2 , \"x\" : 1 , \"id\" : \"a\" } } ",
    )
    .expect("must parse");
    assert_eq!(m, ImgfloatAssetStateMessage::Update(asset("a", "1", "2", "3", "4", "u")));
}

#[test]
fn parse_rejects_malformed_frames() {
    for bad in [
        "not-json",
        "",
        "{}",
        "{\"New\":{}}",
        "{\"Rename\":\"a1\"}",
        "{\"Delete\":\"a1\"} trailing",
        "{\"Update\":{\"id\":\"a1\"}}",
        "{\"Update\":{\"id\":\"a\",\"x\":1,\"y\":2,\"w\":3,\"h\":4,\"url\":\"u\",\"extra\":5}}",
        "{\"Update\":{\"id\":\"a\",\"x\":1,\"y\":2,\"w\":3,\"h\":4,\"url\":\"u\",\"x\":9}}",
        "{\"Update\":{\"id\":\"a\",\"x\":01,\"y\":2,\"w\":3,\"h\":4,\"url\":\"u\"}}",
        "{\"New\":{\"assets\":[],}}",
        "{\"Delete\":\"a1\"",
    ] {
        assert!(parse_message(bad).is_none(), "expected rejection of {bad:?}");
    }
}

#[test]
fn parse_decodes_string_escapes() {
    let m = parse_message("{\"Delete\":\"q\\\"\\\\\\/\\b\\f\\n\\r\\t\\u0041\"}").expect("parses");
    assert_eq!(m, ImgfloatAssetStateMessage::Delete("q\"\\/\u{8}\u{c}\n\r\tA".to_string()));

    let m = parse_message("{\"Delete\":\"\\uD83D\\uDE00\"}").expect("surrogate pair parses");
    assert_eq!(m, ImgfloatAssetStateMessage::Delete("\u{1F600}".to_string()));

    assert!(parse_message("{\"Delete\":\"\\uD83D\"}").is_none(), "lone surrogate");
    assert!(parse_message("{\"Delete\":\"\\x41\"}").is_none(), "unknown escape");
}

#[test]
fn serializer_escapes_controls_and_quotes() {
    let m = ImgfloatAssetStateMessage::Delete("a\"b\\c\nd\u{1}".to_string());
    let text = message_json(&m);
    assert_eq!(text, "{\"Delete\":\"a\\\"b\\\\c\\nd\\u0001\"}");
    assert_eq!(parse_message(&text), Some(m));
}

#[test]
fn state_round_trips_through_the_codec() {
    let state = ImgfloatState {
        assets: vec![
            asset("a1", "0", "0", "10", "10", "http://x/i.png"),
            asset("a 2", "-1.5e3", "0.25", "7e+2", "1E9", "https://example.com/?q=\"x\""),
        ],
    };
    let text = state_json(&state);
    assert_eq!(parse_state(&text), Some(state));
}

#[test]
fn message_round_trips_through_the_codec() {
    let msgs = vec![
        ImgfloatAssetStateMessage::New(one_asset_state()),
        ImgfloatAssetStateMessage::Update(asset("a1", "5", "5", "10", "10", "http://x/i.png")),
        ImgfloatAssetStateMessage::Delete("a1".to_string()),
    ];
    for m in msgs {
        let text = message_json(&m);
        assert_eq!(parse_message(&text), Some(m));
    }
}

#[test]
fn serializer_output_agrees_with_serde() {
    let text = state_json(&one_asset_state());
    let ours: serde_json::Value = serde_json::from_str(&text).expect("serde accepts our output");
    let expected: serde_json::Value = serde_json::from_str(
        "{ \"assets\": [ { \"id\": \"a1\", \"x\": 0, \"y\": 0, \"w\": 10, \"h\": 10, \"url\": \"http://x/i.png\" } ] }",
    )
    .unwrap();
    assert_eq!(ours, expected);
}

#[test]
fn parser_agrees_with_serde_writer() {
    // serde's compact writer, field order as serde would emit it
    let mut obj = serde_json::Map::new();
    obj.insert("Delete".to_string(), serde_json::Value::String("a\n\"1\"".to_string()));
    let text = serde_json::to_string(&serde_json::Value::Object(obj)).unwrap();
    assert_eq!(
        parse_message(&text),
        Some(ImgfloatAssetStateMessage::Delete("a\n\"1\"".to_string()))
    );
}
