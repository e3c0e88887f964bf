//! The library's JSON codec against an independent JSON implementation.

use gemini_client::body::request::{GeminiRequestBody, GenerationConfig};
use gemini_client::body::{Content, Part, Role};
use gemini_client::json::{parse_json, render_json, JsonValue};

#[test]
fn rendered_requests_are_valid_json_elsewhere() {
    let body = GeminiRequestBody {
        contents: vec![Content {
            role: Some(Role::User),
            parts: vec![
                Part::Text("line one\nline \"two\"".into()),
                Part::InlineData { mime_type: "image/png".into(), data: "AQID".into() },
            ],
        }],
        generation_config: Some(GenerationConfig {
            response_mime_type: Some("text/plain".into()),
            max_output_tokens: Some(100),
            temperature_milli: Some(750),
            top_p_milli: None,
            top_k: Some(5),
        }),
        system_instruction: None,
    };
    let text = gemini_client::body::request::request_to_json_string(&body);
    let v: serde_json::Value = serde_json::from_str(&text).expect("other parsers accept it");
    assert_eq!(v["contents"][0]["role"], "user");
    assert_eq!(v["contents"][0]["parts"][0]["text"], "line one\nline \"two\"");
    assert_eq!(v["contents"][0]["parts"][1]["inlineData"]["mimeType"], "image/png");
    assert_eq!(v["generationConfig"]["maxOutputTokens"], 100);
    assert_eq!(v["generationConfig"]["temperature"], 0.75);
    assert_eq!(v["generationConfig"]["topK"], 5);
    assert!(v["generationConfig"].get("topP").is_none());
}

#[test]
fn the_parser_agrees_with_another_producer() {
    let mut m = serde_json::Map::new();
    m.insert("note".to_string(), serde_json::Value::String("caf\u{e9} \u{1F600}".into()));
    m.insert("count".to_string(), serde_json::Value::from(12i64));
    m.insert(
        "items".to_string(),
        serde_json::Value::Array(vec![
            serde_json::Value::Bool(true),
            serde_json::Value::Null,
        ]),
    );
    let text = serde_json::Value::Object(m).to_string();
    let v = parse_json(&text).expect("the verified parser accepts it");
    match v {
        JsonValue::Obj(ms) => {
            assert_eq!(ms.len(), 3);
            // serde_json's map preserves insertion order only with its
            // default feature off; look keys up by name instead
            let note = ms.iter().find(|(k, _)| k == "note").unwrap();
            match &note.1 {
                JsonValue::Str(s) => assert_eq!(s, "caf\u{e9} \u{1F600}"),
                _ => panic!("expected a string"),
            }
            let count = ms.iter().find(|(k, _)| k == "count").unwrap();
            assert!(matches!(count.1, JsonValue::Int(12)));
        },
        _ => panic!("expected an object"),
    }
}

#[test]
fn canonical_rendering_reparses_with_serde() {
    let doc = r#"{"a": [1, 2.75, "x"], "b": {"c": null}}"#;
    let mine = parse_json(doc).unwrap();
    let rendered = render_json(&mine);
    let theirs: serde_json::Value = serde_json::from_str(&rendered).unwrap();
    let source: serde_json::Value = serde_json::from_str(doc).unwrap();
    assert_eq!(theirs, source);
}
