//! The request and response schema on concrete wire forms.

use gemini_client::body::request::{
    config_from_json, config_to_json, milli_of_str, milli_to_json, GeminiRequestBody,
    GenerationConfig,
};
use gemini_client::body::response::{
    block_reason_from_token, block_reason_to_token, finish_reason_from_token,
    finish_reason_to_token, harm_category_from_token, harm_category_to_token,
    harm_probability_from_token, harm_probability_to_token, response_from_json, BlockReason,
    FinishReason, HarmCategory, HarmProbability,
};
use gemini_client::body::{content_from_json, content_to_json, Content, Part, Role};
use gemini_client::json::{parse_json, render_json, JsonValue};

#[test]
fn convert_to_json() {
    let body = GeminiRequestBody {
        contents: vec![Content {
            role: Some(Role::User),
            parts: vec![Part::Text("Hello, world!".into())],
        }],
        generation_config: Some(GenerationConfig::default()),
        system_instruction: None,
    };
    let body_json = gemini_client::body::request::request_to_json_string(&body);
    assert_eq!(
        body_json,
        r#"{"contents":[{"parts":[{"text":"Hello, world!"}],"role":"user"}],"generationConfig":{}}"#
    );
}

#[test]
fn default_config_omits_every_key_and_round_trips() {
    let config = GenerationConfig::default();
    let j = config_to_json(&config);
    assert_eq!(render_json(&j), "{}");
    let back = config_from_json(&parse_json("{}").unwrap()).unwrap();
    assert!(back.response_mime_type.is_none());
    assert!(back.max_output_tokens.is_none());
    assert!(back.temperature_milli.is_none());
    assert!(back.top_p_milli.is_none());
    assert!(back.top_k.is_none());
}

#[test]
fn full_config_round_trips() {
    let config = GenerationConfig {
        response_mime_type: Some("text/plain".into()),
        max_output_tokens: Some(8192),
        temperature_milli: Some(1000),
        top_p_milli: Some(950),
        top_k: Some(64),
    };
    let j = config_to_json(&config);
    let text = render_json(&j);
    assert_eq!(
        text,
        r#"{"responseMimeType":"text/plain","maxOutputTokens":8192,"temperature":1,"topP":0.95,"topK":64}"#
    );
    let back = config_from_json(&parse_json(&text).unwrap()).unwrap();
    assert_eq!(back.response_mime_type.as_deref(), Some("text/plain"));
    assert_eq!(back.max_output_tokens, Some(8192));
    assert_eq!(back.temperature_milli, Some(1000));
    assert_eq!(back.top_p_milli, Some(950));
    assert_eq!(back.top_k, Some(64));
}

#[test]
fn milli_values_render_and_parse() {
    assert_eq!(render_json(&milli_to_json(950)), "0.95");
    assert_eq!(render_json(&milli_to_json(1000)), "1");
    assert_eq!(render_json(&milli_to_json(1)), "0.001");
    assert_eq!(render_json(&milli_to_json(1500)), "1.5");
    assert_eq!(milli_of_str("0.95"), Some(950));
    assert_eq!(milli_of_str("1.5"), Some(1500));
    assert_eq!(milli_of_str("2"), Some(2000));
    assert_eq!(milli_of_str("0.001"), Some(1));
    assert_eq!(milli_of_str("01.5"), None);
    assert_eq!(milli_of_str("1.2345"), None);
    assert_eq!(milli_of_str(""), None);
}

#[test]
fn finish_reason_tokens_round_trip() {
    let all = [
        FinishReason::FinishReasonUnspecified,
        FinishReason::Stop,
        FinishReason::MaxTokens,
        FinishReason::Safety,
        FinishReason::Recitation,
        FinishReason::Language,
        FinishReason::Other,
        FinishReason::Blocklist,
        FinishReason::ProhibitedContent,
        FinishReason::Spii,
        FinishReason::MalformedFunctionCall,
    ];
    for v in all {
        let token = finish_reason_to_token(&v);
        assert_eq!(finish_reason_from_token(&token), v);
    }
    assert_eq!(finish_reason_to_token(&FinishReason::Stop), "STOP");
    assert_eq!(
        finish_reason_from_token("SOMETHING_NEW"),
        FinishReason::FinishReasonUnspecified
    );
}

#[test]
fn harm_probability_tokens_round_trip() {
    let all = [
        HarmProbability::HarmProbabilityUnspecified,
        HarmProbability::Negligible,
        HarmProbability::Low,
        HarmProbability::Medium,
        HarmProbability::High,
    ];
    for v in all {
        let token = harm_probability_to_token(&v);
        assert_eq!(harm_probability_from_token(&token), v);
    }
}

#[test]
fn harm_category_tokens_round_trip() {
    let all = [
        HarmCategory::HarmCategoryUnspecified,
        HarmCategory::HarmCategoryDerogatory,
        HarmCategory::HarmCategoryToxicity,
        HarmCategory::HarmCategoryViolence,
        HarmCategory::HarmCategorySexual,
        HarmCategory::HarmCategoryMedical,
        HarmCategory::HarmCategoryDangerous,
        HarmCategory::HarmCategoryHarassment,
        HarmCategory::HarmCategoryHateSpeech,
        HarmCategory::HarmCategorySexuallyExplicit,
        HarmCategory::HarmCategoryDangerousContent,
        HarmCategory::HarmCategoryCivicIntegrity,
    ];
    for v in all {
        let token = harm_category_to_token(&v);
        assert_eq!(harm_category_from_token(&token), v);
    }
}

#[test]
fn block_reason_tokens_round_trip() {
    let all = [
        BlockReason::BlockReasonUnspecified,
        BlockReason::Safety,
        BlockReason::Other,
        BlockReason::Blocklist,
        BlockReason::ProhibitedContent,
    ];
    for v in all {
        let token = block_reason_to_token(&v);
        assert_eq!(block_reason_from_token(&token), v);
    }
}

#[test]
fn content_round_trips_through_json() {
    let c = Content {
        parts: vec![
            Part::Text("look at this".into()),
            Part::InlineData { mime_type: "image/png".into(), data: "AQID".into() },
        ],
        role: Some(Role::User),
    };
    let j = content_to_json(&c);
    let text = render_json(&j);
    assert_eq!(
        text,
        r#"{"parts":[{"text":"look at this"},{"inlineData":{"mimeType":"image/png","data":"AQID"}}],"role":"user"}"#
    );
    let back = content_from_json(&parse_json(&text).unwrap()).unwrap();
    assert_eq!(back.role, Some(Role::User));
    assert_eq!(back.parts.len(), 2);
    match &back.parts[0] {
        Part::Text(s) => assert_eq!(s, "look at this"),
        _ => panic!("expected text first"),
    }
    match &back.parts[1] {
        Part::InlineData { mime_type, data } => {
            assert_eq!(mime_type, "image/png");
            assert_eq!(data, "AQID");
        },
        _ => panic!("expected inline data second"),
    }
}

#[test]
fn content_with_unknown_role_is_rejected() {
    let doc = r#"{"parts":[{"text":"x"}],"role":"narrator"}"#;
    assert!(content_from_json(&parse_json(doc).unwrap()).is_none());
}

#[test]
fn response_decodes_with_all_declared_fields() {
    let doc = r#"{
        "candidates": [
            {
                "content": {"parts": [{"text": "hi"}], "role": "model"},
                "finishReason": "STOP",
                "safetyRatings": [
                    {"category": "HARM_CATEGORY_HARASSMENT", "probability": "NEGLIGIBLE"},
                    {"category": "HARM_CATEGORY_HATE_SPEECH", "probability": "LOW", "blocked": false}
                ],
                "citationMetadata": {"citationSources": [
                    {"startIndex": 0, "endIndex": 5, "uri": "https://example.com", "license": "mit"}
                ]},
                "tokenCount": 7,
                "index": 0,
                "avgLogprobs": -0.25
            }
        ],
        "promptFeedback": {"blockReason": "SAFETY", "safetyRatings": {"category": "HARM_CATEGORY_VIOLENCE", "probability": "HIGH", "blocked": true}},
        "usageMetadata": {"promptTokenCount": 3, "cachedContentTokenCount": 1, "candidatesTokenCount": 7, "totalTokenCount": 10}
    }"#;
    let r = response_from_json(&parse_json(doc).unwrap()).unwrap();
    assert_eq!(r.candidates.len(), 1);
    let c = &r.candidates[0];
    assert_eq!(c.finish_reason, Some(FinishReason::Stop));
    assert_eq!(c.token_count, Some(7));
    assert_eq!(c.index, Some(0));
    let ratings = c.safety_ratings.as_ref().unwrap();
    assert_eq!(ratings.len(), 2);
    assert_eq!(ratings[0].category, HarmCategory::HarmCategoryHarassment);
    assert_eq!(ratings[0].probability, HarmProbability::Negligible);
    assert_eq!(ratings[1].blocked, Some(false));
    let cm = c.citation_metadata.as_ref().unwrap();
    assert_eq!(cm.citation_sources.len(), 1);
    assert_eq!(cm.citation_sources[0].start_index, Some(0));
    assert_eq!(cm.citation_sources[0].uri.as_deref(), Some("https://example.com"));
    let pf = r.prompt_feedback.unwrap();
    assert_eq!(pf.block_reason, Some(BlockReason::Safety));
    assert_eq!(pf.safety_ratings.probability, HarmProbability::High);
    assert_eq!(r.usage_metadata.prompt_token_count, 3);
    assert_eq!(r.usage_metadata.cached_content_token_count, Some(1));
    assert_eq!(r.usage_metadata.candidates_token_count, 7);
    assert_eq!(r.usage_metadata.total_token_count, 10);
}

#[test]
fn response_without_candidates_key_is_rejected() {
    let doc = r#"{"usageMetadata": {"promptTokenCount": 1, "candidatesTokenCount": 0, "totalTokenCount": 1}}"#;
    assert!(response_from_json(&parse_json(doc).unwrap()).is_none());
}

#[test]
fn milli_extremes_round_trip() {
    assert_eq!(render_json(&milli_to_json(u32::MAX)), "4294967.295");
    assert_eq!(milli_of_str("4294967.295"), Some(u32::MAX));
    assert_eq!(milli_of_str("4294967.296"), None);
    assert_eq!(milli_of_str("42949672.95"), None);
    assert_eq!(render_json(&milli_to_json(0)), "0");
}

#[test]
fn repeated_keys_keep_the_first() {
    let doc = r#"{"topK":1,"topK":2}"#;
    let c = config_from_json(&parse_json(doc).unwrap()).unwrap();
    assert_eq!(c.top_k, Some(1));
}

#[test]
fn empty_message_text_still_serializes() {
    let c = Content { parts: vec![Part::Text(String::new())], role: Some(Role::User) };
    assert_eq!(render_json(&content_to_json(&c)), r#"{"parts":[{"text":""}],"role":"user"}"#);
}

#[test]
fn options_duplicate_is_equal() {
    let c = GenerationConfig {
        response_mime_type: Some("text/plain".into()),
        max_output_tokens: Some(1),
        temperature_milli: Some(2),
        top_p_milli: Some(3),
        top_k: Some(4),
    };
    let d = c.duplicate();
    assert_eq!(d.response_mime_type, c.response_mime_type);
    assert_eq!(d.max_output_tokens, c.max_output_tokens);
    assert_eq!(d.temperature_milli, c.temperature_milli);
    assert_eq!(d.top_p_milli, c.top_p_milli);
    assert_eq!(d.top_k, c.top_k);
}
