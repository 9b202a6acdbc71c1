//! Client library for an OpenAI-compatible chat-completion API: a typed
//! request/response model, a JSON document codec, schema-described tools for
//! function calling, and a request builder with validated tool choice.
//!
//! All network traffic is left to the embedding program; this crate builds
//! and interprets the wire bodies and owns the client-side state.

pub mod client;
pub mod error;
pub mod json;
pub mod json_types;
pub mod models;
pub mod parse;
pub mod roundtrip;
pub mod tools;

pub use client::ChatCompletionParameter;
pub use client::Client;
pub use client::chat_completion_outcome;
pub use error::Error;
pub use error::Result;
pub use json_types::ChatCompletionResponse;
pub use json_types::Choice;
pub use json_types::JsonFunctionInfo;
pub use json_types::JsonSchemaDescription;
pub use json_types::JsonTool;
pub use json_types::Message;
pub use json_types::ToolChoice;
pub use json_types::Usage;
pub use models::JsonArchitecture;
pub use models::JsonModels;
pub use models::JsonPricing;
pub use models::JsonTopProvider;
pub use models::LLMModel;
pub use models::LLMModels;
pub use tools::SchemaField;
pub use tools::SchemaType;
pub use tools::Tool;
pub use tools::create_parameters_schema;
