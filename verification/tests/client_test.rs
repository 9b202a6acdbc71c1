//! Tests of the client and the request builder: endpoint URLs, the
//! authorization header, tool-choice validation, the model-list cache,
//! the error paths of a chat completion, and a full tool-calling cycle.

use ai::chat_completion_outcome;
use ai::json_types::ToolChoiceFunction;
use ai::json_types::ToolChoiceFunctionDesc;
use ai::ChatCompletionParameter;
use ai::Client;
use ai::Error;
use ai::Message;
use ai::SchemaField;
use ai::SchemaType;
use ai::Tool;
use ai::ToolChoice;

fn user_message(content: &str) -> Message {
    Message {
        role: "user".to_string(),
        content: content.to_string(),
        tool_call_id: String::new(),
        tool_calls: vec![],
    }
}

fn choice_function(name: &str) -> ToolChoice {
    ToolChoice::Function(ToolChoiceFunction {
        choice_type: "function".to_string(),
        function: ToolChoiceFunctionDesc {
            name: name.to_string(),
        },
    })
}

fn weather_tool() -> Tool {
    Tool::new(
        "get_weather".to_string(),
        "Get current temperature for a given location.".to_string(),
        vec![
            SchemaField {
                name: "latitude".to_string(),
                field_type: SchemaType::Number,
                description: "The latitude of the location.".to_string(),
                optional: false,
            },
            SchemaField {
                name: "longitude".to_string(),
                field_type: SchemaType::Number,
                description: "The longitude of the location.".to_string(),
                optional: false,
            },
        ],
    )
}

#[test]
fn test_client_urls_and_auth() {
    let client = Client::new(
        "test-key".to_string(),
        "https://openrouter.ai/api/v1/".to_string(),
    );
    assert_eq!(client.models_url(), "https://openrouter.ai/api/v1/models");
    assert_eq!(
        client.chat_completions_url(),
        "https://openrouter.ai/api/v1/chat/completions"
    );
    assert_eq!(client.auth_header(), "Bearer test-key");

    // A base without a trailing slash resolves like a relative reference:
    // the last segment is replaced.
    let client = Client::new("k".to_string(), "https://example.test/api/v1".to_string());
    assert_eq!(client.models_url(), "https://example.test/api/models");
}

#[test]
fn test_tool_choice_validation() {
    let mut parameter =
        ChatCompletionParameter::new("openai/gpt-4.1".to_string(), vec![user_message("hi")]);

    // Choosing a function before its tool was added fails.
    match parameter.set_tool_choice(choice_function("x")) {
        Err(Error::ToolNotFound(name)) => assert_eq!(name, "x"),
        _ => panic!("expected the tool-not-found error"),
    }

    // Adding the tool first and then setting the choice succeeds.
    parameter.add_tool(Tool::new(
        "x".to_string(),
        "A demonstration tool.".to_string(),
        vec![],
    ));
    assert!(parameter.set_tool_choice(choice_function("x")).is_ok());

    // The policy words need no tool list at all.
    let mut bare =
        ChatCompletionParameter::new("openai/gpt-4.1".to_string(), vec![user_message("hi")]);
    assert!(bare.set_tool_choice(ToolChoice::Auto).is_ok());
    assert!(bare.set_tool_choice(ToolChoice::Required).is_ok());
}

#[test]
fn test_request_omits_empty_tools() {
    let parameter =
        ChatCompletionParameter::new("openai/gpt-4.1".to_string(), vec![user_message("hi")]);
    let body = String::from_utf8(parameter.request_body()).unwrap();
    assert_eq!(
        body,
        r#"{"model":"openai/gpt-4.1","messages":[{"role":"user","content":"hi"}]}"#
    );

    let mut with_tool =
        ChatCompletionParameter::new("openai/gpt-4.1".to_string(), vec![user_message("hi")]);
    with_tool.add_tool(weather_tool());
    let body = String::from_utf8(with_tool.request_body()).unwrap();
    assert!(body.contains(r#""tools":[{"type":"function","function":{"name":"get_weather""#));
}

#[test]
fn test_model_catalog_caching() {
    let body = r#"
    {
        "data": [
            {
                "id": "tiny/echo",
                "name": "Tiny Echo",
                "created": 1700000000,
                "description": "Echoes the prompt.",
                "context_length": 2048,
                "architecture": {
                    "modality": "text->text",
                    "input_modalities": ["text"],
                    "output_modalities": ["text"],
                    "tokenizer": "Other",
                    "instruct_type": null
                },
                "pricing": {"prompt": "0", "completion": "0"},
                "top_provider": {"is_moderated": false},
                "supported_parameters": []
            }
        ]
    }
    "#;

    let mut client = Client::new("k".to_string(), "https://openrouter.ai/api/v1/".to_string());
    let mut requests = 0;

    // First lookup: the cache is empty, one transfer happens.
    if client.needs_models_fetch() {
        requests += 1;
        client.ingest_models_response(200, body).unwrap();
    }
    assert_eq!(client.cached_models().unwrap().get_models().len(), 1);

    // Second lookup on the same client: answered from the cache.
    if client.needs_models_fetch() {
        requests += 1;
        client.ingest_models_response(200, body).unwrap();
    }
    assert_eq!(client.cached_models().unwrap().get_models().len(), 1);
    assert_eq!(requests, 1);
}

#[test]
fn test_models_error_status() {
    let mut client = Client::new("k".to_string(), "https://openrouter.ai/api/v1/".to_string());
    match client.ingest_models_response(503, "upstream down") {
        Err(Error::HTTPErrorWithStatusCode(status)) => assert_eq!(status, 503),
        _ => panic!("expected a status-code error"),
    }
    assert!(client.needs_models_fetch());
    match client.ingest_models_response(200, "not json at all") {
        Err(Error::Deserialization(_)) => {}
        _ => panic!("expected a deserialization error"),
    }
}

#[test]
fn test_error_paths() {
    // A 400 surfaces the body verbatim.
    match chat_completion_outcome(400, r#"{"error":"bad schema"}"#.to_string()) {
        Err(Error::BadRequest(body)) => assert_eq!(body, r#"{"error":"bad schema"}"#),
        _ => panic!("expected the bad-request error"),
    }

    // Any other failing status surfaces only its code, not the body.
    match chat_completion_outcome(500, r#"{"error":"internal"}"#.to_string()) {
        Err(Error::HTTPErrorWithStatusCode(status)) => assert_eq!(status, 500),
        _ => panic!("expected a status-code error"),
    }

    // A success status with an undecodable body is a decoding error.
    match chat_completion_outcome(200, "{}".to_string()) {
        Err(Error::Deserialization(_)) => {}
        _ => panic!("expected a deserialization error"),
    }
}

#[test]
fn test_error_messages() {
    assert_eq!(
        Error::HTTPErrorWithStatusCode(404).message(),
        "Invalid Status Code: 404"
    );
    assert_eq!(
        Error::ToolNotFound("get_weather".to_string()).message(),
        "Tool not found: get_weather"
    );
    assert_eq!(
        Error::BadRequest("{}".to_string()).message(),
        "Bad Request: {}"
    );
}

#[test]
fn test_end_to_end_tool_cycle() {
    let mut parameter = ChatCompletionParameter::new(
        "openai/gpt-4.1".to_string(),
        vec![user_message("What is the weather like in Paris today?")],
    );
    parameter.set_tool_choice(ToolChoice::Required).unwrap();
    parameter.add_tool(weather_tool());

    let first_body = r#"
    {
        "id": "gen-1747500001-ToolCycleFirstTurn00",
        "created": 1747500001,
        "usage": {"prompt_tokens": 60, "completion_tokens": 20, "total_tokens": 80},
        "choices": [
            {
                "index": 0,
                "finish_reason": "tool_calls",
                "native_finish_reason": "tool_calls",
                "message": {
                    "role": "assistant",
                    "content": "",
                    "tool_calls": [
                        {
                            "index": 0,
                            "id": "call_paris_weather_1",
                            "type": "function",
                            "function": {
                                "name": "get_weather",
                                "arguments": "{\"latitude\":48.8566,\"longitude\":2.3522}"
                            }
                        }
                    ]
                }
            }
        ]
    }
    "#;
    let response = chat_completion_outcome(200, first_body.to_string()).unwrap();
    assert_eq!(response.len(), 1);
    let tool_call = response[0].message.tool_calls[0].clone();
    assert_eq!(tool_call.function_call.name, "get_weather");

    // Append the assistant's tool-call message and the synthetic reply of
    // the executed tool.
    parameter.add_message(response[0].message.clone());
    parameter.add_message(Message {
        role: "tool".to_string(),
        tool_call_id: tool_call.id.clone(),
        content: "The current temperature is 21.5\u{b0}C".to_string(),
        tool_calls: vec![],
    });

    let second_request = String::from_utf8(parameter.request_body()).unwrap();
    assert!(second_request.contains("\"tool_call_id\":\"call_paris_weather_1\""));

    let second_body = r#"
    {
        "id": "gen-1747500002-ToolCycleSecondTurn0",
        "created": 1747500002,
        "usage": {"prompt_tokens": 95, "completion_tokens": 18, "total_tokens": 113},
        "choices": [
            {
                "index": 0,
                "finish_reason": "stop",
                "native_finish_reason": "stop",
                "message": {
                    "role": "assistant",
                    "content": "It is currently 21.5°C in Paris."
                }
            }
        ]
    }
    "#;
    let response = chat_completion_outcome(200, second_body.to_string()).unwrap();
    assert_eq!(response.len(), 1);
    let last = &response[0].message;
    assert_eq!(last.role, "assistant");
    assert!(!last.content.is_empty());
    assert!(last.tool_calls.is_empty());
    assert_eq!(response[0].finish_reason, "stop");
}
