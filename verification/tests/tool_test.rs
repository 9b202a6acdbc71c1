//! Tests of the tool descriptor: the wire form of a tool definition and
//! the decoding of a response that requests a tool call.

use ai::json::Json;
use ai::parse::parse_json;
use ai::json::write_json;
use ai::json_types::decode_response;
use ai::SchemaField;
use ai::SchemaType;
use ai::Tool;

fn member<'a>(doc: &'a Json, key: &str) -> &'a Json {
    match doc {
        Json::Obj(ms) => {
            for (k, v) in ms {
                if k.as_slice() == key.as_bytes() {
                    return v;
                }
            }
            panic!("missing member");
        }
        _ => panic!("expected an object"),
    }
}

fn text(doc: &Json) -> String {
    match doc {
        Json::Str(bytes) => String::from_utf8(bytes.clone()).unwrap(),
        _ => panic!("expected a string"),
    }
}

#[test]
fn test_tool_request_encoding() {
    let fields = vec![SchemaField {
        name: "location".to_string(),
        field_type: SchemaType::Text,
        description: "City and country e.g. Bogot\u{e1}, Colombia".to_string(),
        optional: false,
    }];
    let tool = Tool::new(
        "get_weather".to_string(),
        "Get current temperature for a given location.".to_string(),
        fields,
    )
    .into_json();

    let tool_json = write_json(&tool.to_json());

    let deserialized = parse_json(&tool_json).unwrap();
    assert_eq!(text(member(&deserialized, "type")), "function");
    let function = member(&deserialized, "function");
    assert_eq!(text(member(function, "name")), "get_weather");
    assert_eq!(
        text(member(function, "description")),
        "Get current temperature for a given location."
    );
    assert_eq!(member(function, "strict"), &Json::Bool(true));
    let parameters = member(function, "parameters");
    assert_eq!(text(member(parameters, "type")), "object");
    assert_eq!(member(parameters, "additionalProperties"), &Json::Bool(false));
    let location = member(member(parameters, "properties"), "location");
    assert_eq!(text(member(location, "type")), "string");
    assert_eq!(
        text(member(location, "description")),
        "City and country e.g. Bogot\u{e1}, Colombia"
    );
    match member(parameters, "required") {
        Json::Arr(es) => {
            assert_eq!(es.len(), 1);
            assert_eq!(text(&es[0]), "location");
        }
        _ => panic!("expected an array"),
    }
}

#[test]
fn test_tool_response_decoding() {
    let body = r#"
        {
            "id": "gen-1747500000-ToolDemoResponse0000",
            "provider": "OpenAI",
            "model": "openai/gpt-4.1",
            "object": "chat.completion",
            "created": 1747500000,
            "choices": [
                {
                    "logprobs": null,
                    "finish_reason": "tool_calls",
                    "native_finish_reason": "tool_calls",
                    "index": 0,
                    "message": {
                        "role": "assistant",
                        "content": "",
                        "refusal": null,
                        "tool_calls": [
                            {
                                "index": 0,
                                "id": "call_L8RNjCRpMAxGkCAy5ovJxkw9",
                                "type": "function",
                                "function": {
                                    "name": "get_weather",
                                    "arguments": "{\"location\":\"London, United Kingdom\"}"
                                }
                            }
                        ]
                    }
                }
            ],
            "system_fingerprint": "fp_demo",
            "usage": {
                "prompt_tokens": 80,
                "completion_tokens": 21,
                "total_tokens": 101
            }
        }
        "#;
    let doc = parse_json(body.as_bytes()).unwrap();
    let weather_tool_response = decode_response(&doc).unwrap();

    assert_eq!(weather_tool_response.choices.len(), 1);

    let choice = &weather_tool_response.choices[0];
    assert_eq!(choice.finish_reason, "tool_calls");

    let message = &choice.message;
    assert_eq!(message.role, "assistant");

    assert_eq!(message.tool_calls.len(), 1);

    let tool_call = &message.tool_calls[0];
    assert_eq!(tool_call.index, 0);
    assert_eq!(tool_call.id, "call_L8RNjCRpMAxGkCAy5ovJxkw9");
    assert_eq!(tool_call.call_type, "function");
    assert_eq!(tool_call.function_call.name, "get_weather");
    assert_eq!(
        tool_call.function_call.arguments,
        "{\"location\":\"London, United Kingdom\"}"
    );

    let arguments = parse_json(tool_call.function_call.arguments.as_bytes()).unwrap();
    assert_eq!(
        member(&arguments, "location"),
        &Json::Str("London, United Kingdom".as_bytes().to_vec())
    );
}
