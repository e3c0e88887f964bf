//! The session state machine against mocked exchange outcomes.

use gemini_client::body::{Content, Part, Role};
use gemini_client::model::{decode_reply, decode_models_reply, Gemini, GeminiError};
use gemini_client::param::LanguageModel;

const OK_HELLO: &str = r#"{"candidates":[{"content":{"parts":[{"text":"hello"}],"role":"model"},"finishReason":"STOP","index":0}],"usageMetadata":{"promptTokenCount":1,"candidatesTokenCount":1,"totalTokenCount":2}}"#;

const OK_SECOND: &str = r#"{"candidates":[{"content":{"parts":[{"text":"again"}],"role":"model"}}],"usageMetadata":{"promptTokenCount":2,"candidatesTokenCount":1,"totalTokenCount":3}}"#;

const ERR_QUOTA: &str = r#"{"error":{"code":429,"message":"quota exceeded","status":"RESOURCE_EXHAUSTED"}}"#;

const OK_EMPTY_CANDIDATES: &str = r#"{"candidates":[],"usageMetadata":{"promptTokenCount":1,"candidatesTokenCount":0,"totalTokenCount":1}}"#;

fn user_text(s: &str) -> Content {
    Content { parts: vec![Part::Text(s.into())], role: Some(Role::User) }
}

#[test]
fn stateless_send_returns_text_and_keeps_history_empty() {
    let mut g = Gemini::new("SECRET-REDACTED".into(), LanguageModel::Gemini1_5Flash);
    assert!(!g.conversation);
    let body = g.begin_send(user_text("hi"));
    assert!(body.contains(r#""text":"hi""#));
    assert_eq!(g.contents.len(), 0);
    let r = g.finish_send(Ok((true, OK_HELLO.to_string())));
    let (text, resp) = r.expect("mocked success should decode");
    assert_eq!(text, "hello");
    assert_eq!(resp.candidates.len(), 1);
    assert_eq!(g.contents.len(), 0);
}

#[test]
fn accumulating_two_sends_give_four_turns_in_order() {
    let mut g = Gemini::new("SECRET-REDACTED".into(), LanguageModel::Gemini2_0FlashExp);
    g.start_chat(Vec::new());
    assert!(g.conversation);

    let _ = g.begin_send(user_text("first"));
    let r1 = g.finish_send(Ok((true, OK_HELLO.to_string())));
    assert_eq!(r1.unwrap().0, "hello");
    assert_eq!(g.contents.len(), 2);

    let body2 = g.begin_send(user_text("second"));
    // the accumulating request resends the whole history
    assert!(body2.contains(r#""text":"first""#));
    assert!(body2.contains(r#""text":"hello""#));
    assert!(body2.contains(r#""text":"second""#));
    let r2 = g.finish_send(Ok((true, OK_SECOND.to_string())));
    assert_eq!(r2.unwrap().0, "again");

    assert_eq!(g.contents.len(), 4);
    let roles: Vec<Option<Role>> = g.contents.iter().map(|c| c.role).collect();
    assert_eq!(
        roles,
        vec![Some(Role::User), Some(Role::Model), Some(Role::User), Some(Role::Model)]
    );
    match &g.contents[1].parts[0] {
        Part::Text(s) => assert_eq!(s, "hello"),
        _ => panic!("expected the first reply text"),
    }
    match &g.contents[3].parts[0] {
        Part::Text(s) => assert_eq!(s, "again"),
        _ => panic!("expected the second reply text"),
    }
}

#[test]
fn failed_second_send_rolls_back_and_surfaces_remote_message() {
    let mut g = Gemini::new("SECRET-REDACTED".into(), LanguageModel::Gemini2_0FlashExp);
    g.start_chat(Vec::new());

    let _ = g.begin_send(user_text("first"));
    g.finish_send(Ok((true, OK_HELLO.to_string()))).unwrap();
    assert_eq!(g.contents.len(), 2);

    let _ = g.begin_send(user_text("second"));
    assert_eq!(g.contents.len(), 3);
    let r = g.finish_send(Ok((false, ERR_QUOTA.to_string())));
    let e = r.expect_err("a non-success status must fail");
    assert_eq!(g.contents.len(), 2);
    match &e {
        GeminiError::Remote(re) => {
            assert_eq!(re.code, 429);
            assert_eq!(re.message, "quota exceeded");
            assert_eq!(re.status.as_deref(), Some("RESOURCE_EXHAUSTED"));
        },
        _ => panic!("expected the remote error"),
    }
    assert_eq!(e.message(), "quota exceeded");
}

#[test]
fn transport_failure_rolls_back_too() {
    let mut g = Gemini::new("SECRET-REDACTED".into(), LanguageModel::Gemini2_0FlashExp);
    g.start_chat(Vec::new());
    let _ = g.begin_send(user_text("first"));
    assert_eq!(g.contents.len(), 1);
    let r = g.finish_send(Err("connection refused".to_string()));
    let e = r.expect_err("a transport failure must fail");
    assert_eq!(g.contents.len(), 0);
    match &e {
        GeminiError::Transport(msg) => assert_eq!(msg, "connection refused"),
        _ => panic!("expected the transport error"),
    }
}

#[test]
fn empty_candidate_list_is_a_format_error() {
    let r = decode_reply(true, OK_EMPTY_CANDIDATES);
    match r {
        Err(GeminiError::UnexpectedFormat) => {},
        _ => panic!("an empty candidate list must give the local format error"),
    }
    // through a session, the pending turn also rolls back
    let mut g = Gemini::new("SECRET-REDACTED".into(), LanguageModel::Gemini2_0FlashExp);
    g.start_chat(Vec::new());
    let _ = g.begin_send(user_text("hi"));
    let r = g.finish_send(Ok((true, OK_EMPTY_CANDIDATES.to_string())));
    assert!(matches!(r, Err(GeminiError::UnexpectedFormat)));
    assert_eq!(g.contents.len(), 0);
}

#[test]
fn non_text_first_part_is_a_format_error() {
    let body = r#"{"candidates":[{"content":{"parts":[{"inlineData":{"mimeType":"image/png","data":"AA=="}}],"role":"model"}}],"usageMetadata":{"promptTokenCount":1,"candidatesTokenCount":1,"totalTokenCount":2}}"#;
    assert!(matches!(decode_reply(true, body), Err(GeminiError::UnexpectedFormat)));
}

#[test]
fn unparseable_error_body_is_a_format_error() {
    assert!(matches!(decode_reply(false, "overloaded"), Err(GeminiError::UnexpectedFormat)));
}

#[test]
fn request_carries_options_and_system_instruction() {
    let mut g = Gemini::new("SECRET-REDACTED".into(), LanguageModel::Gemini1_5Pro);
    g.set_system_instruction("answer briefly".to_string());
    let mut options = gemini_client::body::request::GenerationConfig::default();
    options.max_output_tokens = Some(256);
    options.top_p_milli = Some(950);
    g.set_options(options);
    let body = g.begin_send(user_text("hi"));
    assert_eq!(
        body,
        r#"{"contents":[{"parts":[{"text":"hi"}],"role":"user"}],"generationConfig":{"maxOutputTokens":256,"topP":0.95},"systemInstruction":{"parts":[{"text":"answer briefly"}]}}"#
    );
}

#[test]
fn generate_url_names_model_and_key() {
    let g = Gemini::new("SECRET-REDACTED".into(), LanguageModel::Gemini1_5Flash);
    assert_eq!(
        g.generate_url(),
        "https://generativelanguage.googleapis.com/v1beta/models/gemini-1.5-flash:generateContent?key=SECRET-REDACTED"
    );
}

#[test]
fn rebuild_restores_an_accumulating_session() {
    let history = vec![user_text("q")];
    let g = Gemini::rebuild(
        "SECRET-REDACTED".into(),
        LanguageModel::Custom("models/my-tuned-model".into()),
        history,
        gemini_client::body::request::GenerationConfig::default(),
    );
    assert!(g.conversation);
    assert_eq!(g.contents.len(), 1);
    assert_eq!(
        g.generate_url(),
        "https://generativelanguage.googleapis.com/v1beta/models/my-tuned-model:generateContent?key=SECRET-REDACTED"
    );
}

#[test]
fn models_listing_decodes() {
    let doc = r#"{"models":[{"name":"models/gemini-1.5-flash","version":"001","displayName":"Gemini 1.5 Flash","description":"fast","inputTokenLimit":1000000,"outputTokenLimit":8192,"supportedGenerationMethods":["generateContent","countTokens"],"temperature":1,"maxTemperature":2,"topP":0.95,"topK":64}],"nextPageToken":"tok"}"#;
    let models = decode_models_reply(true, doc).unwrap();
    assert_eq!(models.len(), 1);
    let m = &models[0];
    assert_eq!(m.name, "models/gemini-1.5-flash");
    assert_eq!(m.version, "001");
    assert_eq!(m.input_token_limit, 1000000);
    assert_eq!(m.supported_generation_methods, vec!["generateContent", "countTokens"]);
    assert_eq!(m.temperature.as_deref(), Some("1"));
    assert_eq!(m.top_p.as_deref(), Some("0.95"));
    assert_eq!(m.top_k, Some(64));
}

#[test]
fn models_listing_failure_surfaces_remote_error() {
    let r = decode_models_reply(false, ERR_QUOTA);
    match r {
        Err(GeminiError::Remote(re)) => assert_eq!(re.message, "quota exceeded"),
        _ => panic!("expected the remote error"),
    }
}

#[test]
fn language_model_paths_round_trip() {
    let m = LanguageModel::Gemini1_0Pro;
    assert_eq!(m.to_path(), "models/gemini-1.0-pro");
    assert!(matches!(
        LanguageModel::from("models/gemini-1.0-pro".to_string()),
        LanguageModel::Gemini1_0Pro
    ));
    assert!(matches!(
        LanguageModel::from("models/gemini-1.5-pro".to_string()),
        LanguageModel::Gemini1_5Pro
    ));
    match LanguageModel::from("models/other".to_string()) {
        LanguageModel::Custom(s) => assert_eq!(s, "models/other"),
        _ => panic!("an unknown path must fall back to Custom"),
    }
    assert_eq!(LanguageModel::Custom("x/y".into()).to_path(), "x/y");
}

#[test]
fn error_messages_name_their_cause() {
    assert_eq!(
        GeminiError::Transport("dns failure".into()).message(),
        "dns failure"
    );
    assert_eq!(GeminiError::UnexpectedFormat.message(), "Unexpected response format");
    assert_eq!(
        GeminiError::ImageFetch(404).message(),
        "Failed to download image, status: 404"
    );
    assert_eq!(GeminiError::UnknownImageFormat.message(), "Unrecognized image format");
}
