//! Tests of the typed wire model: response decoding, tool-choice
//! encoding and the omission of empty optional members.

use ai::json::Json;
use ai::parse::parse_json;
use ai::json::write_json;
use ai::json_types::ToolChoiceFunction;
use ai::json_types::ToolChoiceFunctionDesc;
use ai::json_types::decode_response;
use ai::Message;
use ai::ToolChoice;

fn to_text(bytes: Vec<u8>) -> String {
    String::from_utf8(bytes).unwrap()
}

fn wrap_tool_choice(tc: &ToolChoice) -> String {
    let doc = Json::Obj(vec![("tool_choice".as_bytes().to_vec(), tc.to_json())]);
    to_text(write_json(&doc))
}

#[test]
fn test_decoding_chat_completion_response() {
    let json = r#"
        {
            "id": "gen-1747167300-Qc7IgPZUPoopdSABk5KA",
            "provider": "OpenAI",
            "model": "openai/gpt-3.5-turbo",
            "object": "chat.completion",
            "created": 1747167300,
            "choices": [
                {
                "logprobs": null,
                "finish_reason": "stop",
                "native_finish_reason": "stop",
                "index": 0,
                "message": {
                    "role": "assistant",
                    "content": "Hello! I am an AI assistant, so I don't have feelings, but I'm here and ready to help you with anything you need. How can I assist you today?",
                    "refusal": null,
                    "reasoning": null
                }
                }
            ],
            "system_fingerprint": null,
            "usage": {
                "prompt_tokens": 13,
                "completion_tokens": 37,
                "total_tokens": 50,
                "prompt_tokens_details": { "cached_tokens": 0 },
                "completion_tokens_details": { "reasoning_tokens": 0 }
            }
            }
        "#;

    let doc = parse_json(json.as_bytes()).unwrap();
    let response = decode_response(&doc).unwrap();
    assert_eq!(response.id, "gen-1747167300-Qc7IgPZUPoopdSABk5KA");
    assert_eq!(response.provider, "OpenAI");
    assert_eq!(response.created, 1747167300);
    assert_eq!(response.usage.total_tokens, 50);
    assert!(response.system_fingerprint.is_none());
}

#[test]
fn test_encoding_tool_choice() {
    let tool_choice = ToolChoice::Auto;
    let json = wrap_tool_choice(&tool_choice);
    assert_eq!(json, r#"{"tool_choice":"auto"}"#);

    let tool_choice = ToolChoice::Required;
    let json = wrap_tool_choice(&tool_choice);
    assert_eq!(json, r#"{"tool_choice":"required"}"#);
}

#[test]
fn test_encoding_tool_choice_function() {
    let tool_choice = ToolChoice::Function(ToolChoiceFunction {
        choice_type: "function".to_string(),
        function: ToolChoiceFunctionDesc {
            name: "get_weather".to_string(),
        },
    });

    let json = wrap_tool_choice(&tool_choice);
    assert_eq!(
        json,
        r#"{"tool_choice":{"type":"function","function":{"name":"get_weather"}}}"#,
    );
}

#[test]
fn test_message_omission() {
    let message = Message {
        role: "user".to_string(),
        content: "hi".to_string(),
        tool_call_id: String::new(),
        tool_calls: vec![],
    };
    let text = to_text(write_json(&message.to_json()));
    assert_eq!(text, r#"{"role":"user","content":"hi"}"#);

    let reply = Message {
        role: "tool".to_string(),
        content: "21".to_string(),
        tool_call_id: "call_1".to_string(),
        tool_calls: vec![],
    };
    let text = to_text(write_json(&reply.to_json()));
    assert_eq!(text, r#"{"role":"tool","content":"21","tool_call_id":"call_1"}"#);
}

#[test]
fn test_string_escapes() {
    let message = Message {
        role: "user".to_string(),
        content: "a\"b\\c\nd\te\u{1}".to_string(),
        tool_call_id: String::new(),
        tool_calls: vec![],
    };
    let text = to_text(write_json(&message.to_json()));
    assert_eq!(text, "{\"role\":\"user\",\"content\":\"a\\\"b\\\\c\\nd\\te\\u0001\"}");
}

#[test]
fn test_integer_rendering() {
    let doc = Json::Arr(vec![Json::Int(0), Json::Int(-7), Json::Int(i64::MIN), Json::Int(i64::MAX)]);
    let text = to_text(write_json(&doc));
    assert_eq!(text, "[0,-7,-9223372036854775808,9223372036854775807]");
}
