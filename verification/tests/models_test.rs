//! Tests of the model catalog: decoding a listing, the pricing display
//! line, and the name and capability filters.

use ai::parse::parse_json;
use ai::models::decode_models;
use ai::LLMModels;

fn listing_body() -> &'static str {
    r#"
    {
        "data": [
            {
                "id": "openai/gpt-4.1",
                "hugging_face_id": null,
                "name": "OpenAI: GPT-4.1",
                "created": 1744823457,
                "description": "A general-purpose chat model.",
                "context_length": 1047576,
                "architecture": {
                    "modality": "text+image->text",
                    "input_modalities": ["image", "text"],
                    "output_modalities": ["text"],
                    "tokenizer": "GPT",
                    "instruct_type": null
                },
                "pricing": {
                    "prompt": "0.000002",
                    "completion": "0.000008",
                    "request": "0"
                },
                "top_provider": {
                    "context_length": 1047576,
                    "max_completion_tokens": 32768,
                    "is_moderated": true
                },
                "per_request_limits": null,
                "supported_parameters": ["tools", "tool_choice", "structured_outputs"]
            },
            {
                "id": "tiny/echo",
                "name": "Tiny Echo",
                "created": 1700000000,
                "description": "Echoes the prompt.",
                "context_length": 2048,
                "architecture": {
                    "modality": "text->text",
                    "input_modalities": ["text"],
                    "output_modalities": ["text"],
                    "tokenizer": "Other",
                    "instruct_type": "chatml"
                },
                "pricing": {
                    "prompt": "0",
                    "completion": "0"
                },
                "top_provider": {
                    "is_moderated": false
                },
                "per_request_limits": {"requests_per_minute": "60"},
                "supported_parameters": ["temperature"]
            }
        ]
    }
    "#
}

#[test]
fn test_models_deserialization() {
    let doc = parse_json(listing_body().as_bytes()).unwrap();
    let data = decode_models(&doc).unwrap();
    assert!(!data.models.is_empty(), "Failed to deserialize models");
    assert_eq!(data.models.len(), 2);
    let first = &data.models[0];
    assert_eq!(first.id, "openai/gpt-4.1");
    assert_eq!(first.name, "OpenAI: GPT-4.1");
    assert_eq!(first.context_length, 1047576);
    assert_eq!(first.architecture.input_modalities, vec!["image", "text"]);
    assert_eq!(first.top_provider.max_completion_tokens, Some(32768));
    assert!(first.per_request_limits.is_none());
    let second = &data.models[1];
    assert!(second.hugging_face_id.is_none());
    assert_eq!(second.architecture.instruct_type.as_deref(), Some("chatml"));
    assert_eq!(
        second.per_request_limits.as_ref().unwrap()[0],
        ("requests_per_minute".to_string(), "60".to_string())
    );
}

#[test]
fn test_catalog_keeps_order() {
    let doc = parse_json(listing_body().as_bytes()).unwrap();
    let data = decode_models(&doc).unwrap();
    let catalog = LLMModels::new(data);
    let models = catalog.get_models();
    assert_eq!(models.len(), 2);
    assert_eq!(models[0].id, "openai/gpt-4.1");
    assert_eq!(models[1].id, "tiny/echo");
}

#[test]
fn test_pricing_display() {
    let doc = parse_json(listing_body().as_bytes()).unwrap();
    let data = decode_models(&doc).unwrap();
    assert_eq!(
        data.models[0].pricing.display_string(),
        "Prompt: 0.000002, Completion: 0.000008, Request: 0"
    );
    assert_eq!(
        data.models[1].pricing.display_string(),
        "Prompt: 0, Completion: 0"
    );
}

#[test]
fn test_model_filters() {
    let doc = parse_json(listing_body().as_bytes()).unwrap();
    let data = decode_models(&doc).unwrap();
    let gpt = &data.models[0];
    let echo = &data.models[1];

    assert!(gpt.supports("tools"));
    assert!(!echo.supports("tools"));

    // The search string is matched against the lowercased name.
    let needle = "gpt".to_string();
    assert!(gpt.matches_filter(Some(&needle), false, false, false));
    assert!(!echo.matches_filter(Some(&needle), false, false, false));

    assert!(gpt.matches_filter(None, true, true, true));
    assert!(!echo.matches_filter(None, false, false, true));
    assert!(echo.matches_filter(None, false, false, false));
}
