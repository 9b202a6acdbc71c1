//! The typed request and response model of the chat-completion wire
//! protocol.
//!
//! Each request-side type encodes to a [`Json`] document; the document each
//! value produces is pinned by a specification function, and the byte-level
//! body follows from [`crate::json::spec_write`]. Optional parts are omitted
//! from the envelope, never sent as `null` or as an empty list, except for
//! the response format, whose `json_schema` member mirrors its option.

use vstd::prelude::*;
use vstd::string::StringSliceAdditionalSpecFns;

use crate::error::Error;
use crate::json::Json;
use crate::json::JsonV;
use crate::json::jv;
use crate::json::jv_list;
use crate::json::jv_members;

verus! {

/// The UTF-8 bytes of a character sequence.
pub open spec fn bytes_of(s: Seq<char>) -> Seq<u8> {
    vstd::utf8::encode_utf8(s)
}

/// Copies a byte slice into a fresh vector.
pub(crate) fn bytes_to_vec(b: &[u8]) -> (r: Vec<u8>)
    ensures
        r@ == b@,
{
    let mut out: Vec<u8> = Vec::new();
    let mut k: usize = 0;
    while k < b.len()
        invariant
            k <= b@.len(),
            out@ == b@.take(k as int),
        decreases b@.len() - k,
    {
        out.push(b[k]);
        proof {
            assert(b@.take(k + 1) =~= b@.take(k as int).push(b@[k as int]));
        }
        k = k + 1;
    }
    proof {
        assert(b@.take(b@.len() as int) =~= b@);
    }
    out
}

/// The UTF-8 bytes of a string slice, as a fresh vector.
pub(crate) fn str_bytes(s: &str) -> (r: Vec<u8>)
    ensures
        r@ == bytes_of(s@),
{
    bytes_to_vec(s.as_bytes())
}

/// The UTF-8 bytes of a string, as a fresh vector.
pub(crate) fn string_bytes(s: &String) -> (r: Vec<u8>)
    ensures
        r@ == bytes_of(s@),
{
    str_bytes(s.as_str())
}

/// A message in a chat conversation, sent or received.
///
/// `tool_call_id` is only set on `tool` role replies and `tool_calls` only
/// on assistant messages that request calls; both are omitted from the
/// envelope when empty.
#[derive(Clone, Debug)]
pub struct Message {
    pub role: String,
    pub content: String,
    pub tool_call_id: String,
    pub tool_calls: Vec<JsonToolCall>,
}

/// One tool invocation requested by the model.
#[derive(Clone, Debug)]
pub struct JsonToolCall {
    pub index: i64,
    pub id: String,
    pub call_type: String,
    pub function_call: JsonFunctionCall,
}

/// The function name and raw JSON argument text of a tool invocation.
#[derive(Clone, Debug)]
pub struct JsonFunctionCall {
    pub name: String,
    pub arguments: String,
}

/// One candidate response returned by the completion API.
#[derive(Clone, Debug)]
pub struct Choice {
    pub index: i64,
    pub finish_reason: String,
    pub native_finish_reason: String,
    pub message: Message,
}

/// Token accounting reported with a response.
#[derive(Clone, Debug)]
pub struct Usage {
    pub prompt_tokens: i64,
    pub completion_tokens: i64,
    pub total_tokens: i64,
}

/// The decoded envelope of a chat-completion response.
#[derive(Clone, Debug)]
pub struct ChatCompletionResponse {
    pub id: String,
    pub provider: String,
    pub model: String,
    pub object: String,
    pub system_fingerprint: Option<String>,
    pub usage: Usage,
    pub created: i64,
    pub choices: Vec<Choice>,
}

/// A tool definition as it is sent on the wire.
pub struct JsonTool {
    pub tool_type: String,
    pub function: JsonFunctionInfo,
}

/// The function definition of a tool: name, description, strictness and a
/// JSON Schema document for the parameters.
pub struct JsonFunctionInfo {
    pub name: String,
    pub description: String,
    pub strict: bool,
    pub parameters: Json,
}

/// A named, strict JSON Schema document for structured output.
pub struct JsonSchemaDescription {
    pub name: String,
    pub strict: bool,
    pub schema: Json,
}

/// The response-format component of a request.
#[derive(Clone, Copy)]
pub struct ResponseFormat<'a> {
    pub schema_type: &'static str,
    pub json_schema: Option<&'a JsonSchemaDescription>,
}

/// The tool-choice policy of a request.
#[derive(Clone, Debug)]
pub enum ToolChoice {
    Auto,
    Required,
    Function(ToolChoiceFunction),
}

/// A tool choice that names one function.
#[derive(Clone, Debug)]
pub struct ToolChoiceFunction {
    pub choice_type: String,
    pub function: ToolChoiceFunctionDesc,
}

/// The name of the chosen function.
#[derive(Clone, Debug)]
pub struct ToolChoiceFunctionDesc {
    pub name: String,
}

/// The request body of the chat-completion call.
pub struct ChatCompletionRequest<'a, 'b, 'c, 'd> {
    pub model: &'a str,
    pub messages: &'b [Message],
    pub tools: &'d [JsonTool],
    pub tool_choice: Option<ToolChoice>,
    pub response_format: Option<ResponseFormat<'c>>,
}

/// The document of one tool invocation.
pub open spec fn spec_tool_call_json(c: JsonToolCall) -> JsonV {
    JsonV::Obj(
        seq![
            (bytes_of("index"@), JsonV::Int(c.index as int)),
            (bytes_of("id"@), JsonV::Str(bytes_of(c.id@))),
            (bytes_of("type"@), JsonV::Str(bytes_of(c.call_type@))),
            (
                bytes_of("function"@),
                JsonV::Obj(
                    seq![
                        (bytes_of("name"@), JsonV::Str(bytes_of(c.function_call.name@))),
                        (
                            bytes_of("arguments"@),
                            JsonV::Str(bytes_of(c.function_call.arguments@)),
                        ),
                    ],
                ),
            ),
        ],
    )
}

/// The document of a message. A `tool_call_id` member appears exactly when
/// the id is nonempty, a `tool_calls` member exactly when calls are present.
pub open spec fn spec_message_json(m: Message) -> JsonV {
    JsonV::Obj(
        seq![
            (bytes_of("role"@), JsonV::Str(bytes_of(m.role@))),
            (bytes_of("content"@), JsonV::Str(bytes_of(m.content@))),
        ] + (if m.tool_call_id@.len() == 0 {
            Seq::<(Seq<u8>, JsonV)>::empty()
        } else {
            seq![(bytes_of("tool_call_id"@), JsonV::Str(bytes_of(m.tool_call_id@)))]
        }) + (if m.tool_calls@.len() == 0 {
            Seq::<(Seq<u8>, JsonV)>::empty()
        } else {
            seq![
                (
                    bytes_of("tool_calls"@),
                    JsonV::Arr(m.tool_calls@.map_values(|c: JsonToolCall| spec_tool_call_json(c))),
                ),
            ]
        }),
    )
}

/// The document of a tool definition.
pub open spec fn spec_tool_json(t: JsonTool) -> JsonV {
    JsonV::Obj(
        seq![
            (bytes_of("type"@), JsonV::Str(bytes_of(t.tool_type@))),
            (
                bytes_of("function"@),
                JsonV::Obj(
                    seq![
                        (bytes_of("name"@), JsonV::Str(bytes_of(t.function.name@))),
                        (
                            bytes_of("description"@),
                            JsonV::Str(bytes_of(t.function.description@)),
                        ),
                        (bytes_of("strict"@), JsonV::Bool(t.function.strict)),
                        (bytes_of("parameters"@), jv(t.function.parameters)),
                    ],
                ),
            ),
        ],
    )
}

/// The document of a tool choice: the two policy words encode as strings,
/// a named function as a nested object.
pub open spec fn spec_tool_choice_json(tc: ToolChoice) -> JsonV {
    match tc {
        ToolChoice::Auto => JsonV::Str(bytes_of("auto"@)),
        ToolChoice::Required => JsonV::Str(bytes_of("required"@)),
        ToolChoice::Function(f) => JsonV::Obj(
            seq![
                (bytes_of("type"@), JsonV::Str(bytes_of(f.choice_type@))),
                (
                    bytes_of("function"@),
                    JsonV::Obj(
                        seq![(bytes_of("name"@), JsonV::Str(bytes_of(f.function.name@)))],
                    ),
                ),
            ],
        ),
    }
}

/// The document of a schema description.
pub open spec fn spec_schema_description_json(d: JsonSchemaDescription) -> JsonV {
    JsonV::Obj(
        seq![
            (bytes_of("name"@), JsonV::Str(bytes_of(d.name@))),
            (bytes_of("strict"@), JsonV::Bool(d.strict)),
            (bytes_of("schema"@), jv(d.schema)),
        ],
    )
}

/// The document of a response format; an absent schema description appears
/// as `null`, mirroring the option.
pub open spec fn spec_response_format_json(rf: ResponseFormat) -> JsonV {
    JsonV::Obj(
        seq![
            (bytes_of("type"@), JsonV::Str(bytes_of(rf.schema_type@))),
            (
                bytes_of("json_schema"@),
                match rf.json_schema {
                    None => JsonV::Null,
                    Some(d) => spec_schema_description_json(*d),
                },
            ),
        ],
    )
}

/// The document of a whole request. `tools` is omitted when the tool list
/// is empty, `tool_choice` and `response_format` when unset.
pub open spec fn spec_request_json(r: ChatCompletionRequest) -> JsonV {
    JsonV::Obj(
        seq![
            (bytes_of("model"@), JsonV::Str(bytes_of(r.model@))),
            (
                bytes_of("messages"@),
                JsonV::Arr(r.messages@.map_values(|m: Message| spec_message_json(m))),
            ),
        ] + (if r.tools@.len() == 0 {
            Seq::<(Seq<u8>, JsonV)>::empty()
        } else {
            seq![
                (
                    bytes_of("tools"@),
                    JsonV::Arr(r.tools@.map_values(|t: JsonTool| spec_tool_json(t))),
                ),
            ]
        }) + (match r.tool_choice {
            None => Seq::<(Seq<u8>, JsonV)>::empty(),
            Some(tc) => seq![(bytes_of("tool_choice"@), spec_tool_choice_json(tc))],
        }) + (match r.response_format {
            None => Seq::<(Seq<u8>, JsonV)>::empty(),
            Some(rf) => seq![(bytes_of("response_format"@), spec_response_format_json(rf))],
        }),
    )
}

impl JsonFunctionCall {
    /// The document of this function invocation.
    pub fn to_json(&self) -> (r: Json)
        ensures
            jv(r) == JsonV::Obj(
                seq![
                    (bytes_of("name"@), JsonV::Str(bytes_of(self.name@))),
                    (bytes_of("arguments"@), JsonV::Str(bytes_of(self.arguments@))),
                ],
            ),
    {
        let mut ms: Vec<(Vec<u8>, Json)> = Vec::new();
        ms.push((str_bytes("name"), Json::Str(string_bytes(&self.name))));
        ms.push((str_bytes("arguments"), Json::Str(string_bytes(&self.arguments))));
        let r = Json::Obj(ms);
        proof {
            crate::json::lemma_jv_members(ms@);
            assert(jv(r) matches JsonV::Obj(s) && s =~= seq![
                (bytes_of("name"@), JsonV::Str(bytes_of(self.name@))),
                (bytes_of("arguments"@), JsonV::Str(bytes_of(self.arguments@))),
            ]);
        }
        r
    }
}

impl JsonToolCall {
    /// The document of this tool invocation.
    pub fn to_json(&self) -> (r: Json)
        ensures
            jv(r) == spec_tool_call_json(*self),
    {
        let mut ms: Vec<(Vec<u8>, Json)> = Vec::new();
        ms.push((str_bytes("index"), Json::Int(self.index)));
        ms.push((str_bytes("id"), Json::Str(string_bytes(&self.id))));
        ms.push((str_bytes("type"), Json::Str(string_bytes(&self.call_type))));
        ms.push((str_bytes("function"), self.function_call.to_json()));
        let r = Json::Obj(ms);
        proof {
            crate::json::lemma_jv_members(ms@);
            assert(jv(r) matches JsonV::Obj(s) && s =~= (spec_tool_call_json(*self)->Obj_0));
        }
        r
    }
}

impl Message {
    /// The document of this message; empty optional parts are omitted.
    pub fn to_json(&self) -> (r: Json)
        ensures
            jv(r) == spec_message_json(*self),
    {
        let mut ms: Vec<(Vec<u8>, Json)> = Vec::new();
        ms.push((str_bytes("role"), Json::Str(string_bytes(&self.role))));
        ms.push((str_bytes("content"), Json::Str(string_bytes(&self.content))));
        if !self.tool_call_id.as_str().is_empty() {
            ms.push((str_bytes("tool_call_id"), Json::Str(string_bytes(&self.tool_call_id))));
        }
        if self.tool_calls.len() > 0 {
            let mut arr: Vec<Json> = Vec::new();
            let n = self.tool_calls.len();
            let mut i: usize = 0;
            while i < n
                invariant
                    i <= n,
                    n == self.tool_calls@.len(),
                    jv_list(arr@) =~= self.tool_calls@.take(i as int).map_values(
                        |c: JsonToolCall| spec_tool_call_json(c),
                    ),
                decreases n - i,
            {
                let ghost before = arr@;
                arr.push(self.tool_calls[i].to_json());
                proof {
                    assert(arr@.drop_last() =~= before);
                    assert(self.tool_calls@.take(i + 1).map_values(
                        |c: JsonToolCall| spec_tool_call_json(c),
                    ) =~= self.tool_calls@.take(i as int).map_values(
                        |c: JsonToolCall| spec_tool_call_json(c),
                    ).push(spec_tool_call_json(self.tool_calls@[i as int])));
                }
                i = i + 1;
            }
            proof {
                assert(self.tool_calls@.take(n as int) =~= self.tool_calls@);
            }
            ms.push((str_bytes("tool_calls"), Json::Arr(arr)));
        }
        let r = Json::Obj(ms);
        proof {
            crate::json::lemma_jv_members(ms@);
            assert(jv(r) matches JsonV::Obj(s) && s =~= (spec_message_json(*self)->Obj_0));
        }
        r
    }
}

impl JsonTool {
    /// The document of this tool definition.
    pub fn to_json(&self) -> (r: Json)
        ensures
            jv(r) == spec_tool_json(*self),
    {
        let mut fs: Vec<(Vec<u8>, Json)> = Vec::new();
        fs.push((str_bytes("name"), Json::Str(string_bytes(&self.function.name))));
        fs.push((str_bytes("description"), Json::Str(string_bytes(&self.function.description))));
        fs.push((str_bytes("strict"), Json::Bool(self.function.strict)));
        fs.push((str_bytes("parameters"), clone_json(&self.function.parameters)));
        let f = Json::Obj(fs);
        let mut ms: Vec<(Vec<u8>, Json)> = Vec::new();
        ms.push((str_bytes("type"), Json::Str(string_bytes(&self.tool_type))));
        ms.push((str_bytes("function"), f));
        let r = Json::Obj(ms);
        proof {
            crate::json::lemma_jv_members(fs@);
            crate::json::lemma_jv_members(ms@);
            assert((spec_tool_json(*self)->Obj_0)[1].1 matches JsonV::Obj(inner) && jv_members(
                fs@,
            ) =~= inner);
            assert(jv(r) matches JsonV::Obj(s) && s =~= (spec_tool_json(*self)->Obj_0));
        }
        r
    }
}

impl ToolChoice {
    /// The document of this tool choice.
    pub fn to_json(&self) -> (r: Json)
        ensures
            jv(r) == spec_tool_choice_json(*self),
    {
        match self {
            ToolChoice::Auto => Json::Str(str_bytes("auto")),
            ToolChoice::Required => Json::Str(str_bytes("required")),
            ToolChoice::Function(f) => {
                let mut inner: Vec<(Vec<u8>, Json)> = Vec::new();
                inner.push((str_bytes("name"), Json::Str(string_bytes(&f.function.name))));
                let mut ms: Vec<(Vec<u8>, Json)> = Vec::new();
                ms.push((str_bytes("type"), Json::Str(string_bytes(&f.choice_type))));
                ms.push((str_bytes("function"), Json::Obj(inner)));
                let r = Json::Obj(ms);
                proof {
                    crate::json::lemma_jv_members(inner@);
                    crate::json::lemma_jv_members(ms@);
                    assert((spec_tool_choice_json(*self)->Obj_0)[1].1 matches JsonV::Obj(fo)
                        && jv_members(inner@) =~= fo);
                    assert(jv(r) matches JsonV::Obj(s) && s =~= (
                    spec_tool_choice_json(*self)->Obj_0));
                }
                r
            },
        }
    }
}

impl JsonSchemaDescription {
    /// The document of this schema description.
    pub fn to_json(&self) -> (r: Json)
        ensures
            jv(r) == spec_schema_description_json(*self),
    {
        let mut ms: Vec<(Vec<u8>, Json)> = Vec::new();
        ms.push((str_bytes("name"), Json::Str(string_bytes(&self.name))));
        ms.push((str_bytes("strict"), Json::Bool(self.strict)));
        ms.push((str_bytes("schema"), clone_json(&self.schema)));
        let r = Json::Obj(ms);
        proof {
            crate::json::lemma_jv_members(ms@);
            assert(jv(r) matches JsonV::Obj(s) && s =~= (
            spec_schema_description_json(*self)->Obj_0));
        }
        r
    }
}

impl<'a> ResponseFormat<'a> {
    /// The document of this response format.
    pub fn to_json(&self) -> (r: Json)
        ensures
            jv(r) == spec_response_format_json(*self),
    {
        let mut ms: Vec<(Vec<u8>, Json)> = Vec::new();
        ms.push((str_bytes("type"), Json::Str(str_bytes(self.schema_type))));
        let inner = match self.json_schema {
            None => Json::Null,
            Some(d) => d.to_json(),
        };
        ms.push((str_bytes("json_schema"), inner));
        let r = Json::Obj(ms);
        proof {
            crate::json::lemma_jv_members(ms@);
            assert(jv(r) matches JsonV::Obj(s) && s =~= (
            spec_response_format_json(*self)->Obj_0));
        }
        r
    }
}

/// A deep copy of a document.
pub fn clone_json(j: &Json) -> (r: Json)
    ensures
        jv(r) == jv(*j),
    decreases j, 0int,
{
    match j {
        Json::Null => Json::Null,
        Json::Bool(b) => Json::Bool(*b),
        Json::Int(i) => Json::Int(*i),
        Json::Num(n) => Json::Num(bytes_to_vec(n.as_slice())),
        Json::Str(s) => Json::Str(bytes_to_vec(s.as_slice())),
        Json::Arr(es) => {
            let mut arr: Vec<Json> = Vec::new();
            clone_list_into(es, 0, &mut arr);
            proof {
                crate::json::lemma_jv_list(arr@);
                crate::json::lemma_jv_list(es@);
                assert(jv_list(arr@) =~= jv_list(es@));
            }
            Json::Arr(arr)
        },
        Json::Obj(ms) => {
            let mut out: Vec<(Vec<u8>, Json)> = Vec::new();
            clone_members_into(ms, 0, &mut out);
            proof {
                crate::json::lemma_jv_members(out@);
                crate::json::lemma_jv_members(ms@);
                assert(jv_members(out@) =~= jv_members(ms@));
            }
            Json::Obj(out)
        },
    }
}

/// Appends deep copies of the elements of `es` from index `i` on to `out`.
fn clone_list_into(es: &Vec<Json>, i: usize, out: &mut Vec<Json>)
    requires
        i <= es@.len(),
    ensures
        final(out)@.len() == old(out)@.len() + es@.len() - i,
        forall|k: int| 0 <= k < old(out)@.len() ==> final(out)@[k] == old(out)@[k],
        forall|k: int|
            i <= k < es@.len() ==> jv(final(out)@[old(out)@.len() + k - i]) == jv(es@[k]),
    decreases es, es@.len() - i,
{
    if i < es.len() {
        out.push(clone_json(&es[i]));
        clone_list_into(es, i + 1, out);
    }
}

/// Appends deep copies of the members of `ms` from index `i` on to `out`.
fn clone_members_into(ms: &Vec<(Vec<u8>, Json)>, i: usize, out: &mut Vec<(Vec<u8>, Json)>)
    requires
        i <= ms@.len(),
    ensures
        final(out)@.len() == old(out)@.len() + ms@.len() - i,
        forall|k: int| 0 <= k < old(out)@.len() ==> final(out)@[k] == old(out)@[k],
        forall|k: int|
            i <= k < ms@.len() ==> final(out)@[old(out)@.len() + k - i].0@ == ms@[k].0@ && jv(
                final(out)@[old(out)@.len() + k - i].1,
            ) == jv(ms@[k].1),
    decreases ms, ms@.len() - i,
{
    if i < ms.len() {
        let m = &ms[i];
        out.push((bytes_to_vec(m.0.as_slice()), clone_json(&m.1)));
        clone_members_into(ms, i + 1, out);
    }
}

} // verus!

verus! {

impl<'a, 'b, 'c, 'd> ChatCompletionRequest<'a, 'b, 'c, 'd> {
    /// Starts a request body for `model` with `messages`, no tools, no
    /// tool choice and no response format.
    pub fn new(model: &'a str, messages: &'b [Message]) -> (r: Self)
        ensures
            r.model@ == model@,
            r.messages@ == messages@,
            r.tools@.len() == 0,
            r.tool_choice is None,
            r.response_format is None,
    {
        Self { model, messages, tools: &[], tool_choice: None, response_format: None }
    }

    /// The document of this request.
    pub fn to_json(&self) -> (r: Json)
        ensures
            jv(r) == spec_request_json(*self),
    {
        let mut ms: Vec<(Vec<u8>, Json)> = Vec::new();
        ms.push((str_bytes("model"), Json::Str(str_bytes(self.model))));

        let mut arr: Vec<Json> = Vec::new();
        let n = self.messages.len();
        let mut i: usize = 0;
        while i < n
            invariant
                i <= n,
                n == self.messages@.len(),
                jv_list(arr@) =~= self.messages@.take(i as int).map_values(
                    |m: Message| spec_message_json(m),
                ),
            decreases n - i,
        {
            let ghost before = arr@;
            arr.push(self.messages[i].to_json());
            proof {
                assert(arr@.drop_last() =~= before);
                assert(self.messages@.take(i + 1).map_values(|m: Message| spec_message_json(m))
                    =~= self.messages@.take(i as int).map_values(
                    |m: Message| spec_message_json(m),
                ).push(spec_message_json(self.messages@[i as int])));
            }
            i = i + 1;
        }
        proof {
            assert(self.messages@.take(n as int) =~= self.messages@);
        }
        ms.push((str_bytes("messages"), Json::Arr(arr)));

        if self.tools.len() > 0 {
            let mut tarr: Vec<Json> = Vec::new();
            let tn = self.tools.len();
            let mut t: usize = 0;
            while t < tn
                invariant
                    t <= tn,
                    tn == self.tools@.len(),
                    jv_list(tarr@) =~= self.tools@.take(t as int).map_values(
                        |x: JsonTool| spec_tool_json(x),
                    ),
                decreases tn - t,
            {
                let ghost before = tarr@;
                tarr.push(self.tools[t].to_json());
                proof {
                    assert(tarr@.drop_last() =~= before);
                    assert(self.tools@.take(t + 1).map_values(|x: JsonTool| spec_tool_json(x))
                        =~= self.tools@.take(t as int).map_values(
                        |x: JsonTool| spec_tool_json(x),
                    ).push(spec_tool_json(self.tools@[t as int])));
                }
                t = t + 1;
            }
            proof {
                assert(self.tools@.take(tn as int) =~= self.tools@);
            }
            ms.push((str_bytes("tools"), Json::Arr(tarr)));
        }
        match &self.tool_choice {
            None => {},
            Some(tc) => {
                ms.push((str_bytes("tool_choice"), tc.to_json()));
            },
        }
        match &self.response_format {
            None => {},
            Some(rf) => {
                ms.push((str_bytes("response_format"), rf.to_json()));
            },
        }
        let r = Json::Obj(ms);
        proof {
            crate::json::lemma_jv_members(ms@);
            assert(jv(r) matches JsonV::Obj(s) && s =~= (spec_request_json(*self)->Obj_0));
        }
        r
    }

    /// The wire body of this request: its document, written without
    /// whitespace.
    pub fn body_bytes(&self) -> (r: Vec<u8>)
        ensures
            r@ == crate::json::spec_write(spec_request_json(*self)),
    {
        let doc = self.to_json();
        crate::json::write_json(&doc)
    }
}

} // verus!

verus! {

/// The abstract shape of a decoded function invocation.
pub struct FunctionCallV {
    pub name: Seq<u8>,
    pub arguments: Seq<u8>,
}

/// The abstract shape of a decoded tool invocation.
pub struct ToolCallV {
    pub index: int,
    pub id: Seq<u8>,
    pub call_type: Seq<u8>,
    pub function_call: FunctionCallV,
}

/// The abstract shape of a decoded message.
pub struct MessageV {
    pub role: Seq<u8>,
    pub content: Seq<u8>,
    pub tool_call_id: Seq<u8>,
    pub tool_calls: Seq<ToolCallV>,
}

/// The abstract shape of a decoded choice.
pub struct ChoiceV {
    pub index: int,
    pub finish_reason: Seq<u8>,
    pub native_finish_reason: Seq<u8>,
    pub message: MessageV,
}

/// The abstract shape of decoded token accounting.
pub struct UsageV {
    pub prompt_tokens: int,
    pub completion_tokens: int,
    pub total_tokens: int,
}

/// The abstract shape of a decoded response envelope.
pub struct ResponseV {
    pub id: Seq<u8>,
    pub provider: Seq<u8>,
    pub model: Seq<u8>,
    pub object: Seq<u8>,
    pub system_fingerprint: Option<Seq<u8>>,
    pub usage: UsageV,
    pub created: int,
    pub choices: Seq<ChoiceV>,
}

/// The first member of `ms` whose key is `key`, if any.
pub open spec fn spec_get(ms: Seq<(Seq<u8>, JsonV)>, key: Seq<u8>) -> Option<JsonV>
    decreases ms.len(),
{
    if ms.len() == 0 {
        None
    } else if ms[0].0 == key {
        Some(ms[0].1)
    } else {
        spec_get(ms.drop_first(), key)
    }
}

/// The content of a string node whose bytes are valid UTF-8.
pub open spec fn spec_as_str(v: JsonV) -> Option<Seq<u8>> {
    match v {
        JsonV::Str(s) => if vstd::utf8::valid_utf8(s) {
            Some(s)
        } else {
            None
        },
        _ => None,
    }
}

/// The value of an integer node.
pub open spec fn spec_as_int(v: JsonV) -> Option<int> {
    match v {
        JsonV::Int(i) => Some(i),
        _ => None,
    }
}

/// A required string member.
pub open spec fn spec_req_str(ms: Seq<(Seq<u8>, JsonV)>, key: Seq<u8>) -> Option<Seq<u8>> {
    match spec_get(ms, key) {
        None => None,
        Some(v) => spec_as_str(v),
    }
}

/// An optional string member that defaults to empty when missing.
pub open spec fn spec_opt_str(ms: Seq<(Seq<u8>, JsonV)>, key: Seq<u8>) -> Option<Seq<u8>> {
    match spec_get(ms, key) {
        None => Some(Seq::empty()),
        Some(v) => spec_as_str(v),
    }
}

/// A required integer member.
pub open spec fn spec_req_int(ms: Seq<(Seq<u8>, JsonV)>, key: Seq<u8>) -> Option<int> {
    match spec_get(ms, key) {
        None => None,
        Some(v) => spec_as_int(v),
    }
}

/// Decodes a function invocation: an object with `name` and `arguments`.
pub open spec fn spec_decode_function_call(v: JsonV) -> Option<FunctionCallV> {
    match v {
        JsonV::Obj(ms) => match (spec_req_str(ms, bytes_of("name"@)), spec_req_str(
            ms,
            bytes_of("arguments"@),
        )) {
            (Some(name), Some(arguments)) => Some(FunctionCallV { name, arguments }),
            _ => None,
        },
        _ => None,
    }
}

/// Decodes one tool invocation.
pub open spec fn spec_decode_tool_call(v: JsonV) -> Option<ToolCallV> {
    match v {
        JsonV::Obj(ms) => {
            match (
                spec_req_int(ms, bytes_of("index"@)),
                spec_req_str(ms, bytes_of("id"@)),
                spec_req_str(ms, bytes_of("type"@)),
                spec_get(ms, bytes_of("function"@)),
            ) {
                (Some(index), Some(id), Some(call_type), Some(f)) => match spec_decode_function_call(
                    f,
                ) {
                    None => None,
                    Some(function_call) => Some(
                        ToolCallV { index, id, call_type, function_call },
                    ),
                },
                _ => None,
            }
        },
        _ => None,
    }
}

/// Decodes the tool invocations of `es` from index `i` on.
pub open spec fn spec_decode_tool_calls(es: Seq<JsonV>, i: int) -> Option<Seq<ToolCallV>>
    decreases es.len() - i,
{
    if i < 0 || i >= es.len() {
        Some(Seq::empty())
    } else {
        match spec_decode_tool_call(es[i]) {
            None => None,
            Some(c) => match spec_decode_tool_calls(es, i + 1) {
                None => None,
                Some(rest) => Some(seq![c] + rest),
            },
        }
    }
}

/// Decodes a message: `role` and `content` are required, `tool_call_id`
/// defaults to empty, `tool_calls` to no calls.
pub open spec fn spec_decode_message(v: JsonV) -> Option<MessageV> {
    match v {
        JsonV::Obj(ms) => {
            match (
                spec_req_str(ms, bytes_of("role"@)),
                spec_req_str(ms, bytes_of("content"@)),
                spec_opt_str(ms, bytes_of("tool_call_id"@)),
            ) {
                (Some(role), Some(content), Some(tool_call_id)) => {
                    match spec_get(ms, bytes_of("tool_calls"@)) {
                        None => Some(
                            MessageV { role, content, tool_call_id, tool_calls: Seq::empty() },
                        ),
                        Some(JsonV::Arr(es)) => match spec_decode_tool_calls(es, 0) {
                            None => None,
                            Some(tool_calls) => Some(
                                MessageV { role, content, tool_call_id, tool_calls },
                            ),
                        },
                        Some(_) => None,
                    }
                },
                _ => None,
            }
        },
        _ => None,
    }
}

/// Decodes one choice of a response.
pub open spec fn spec_decode_choice(v: JsonV) -> Option<ChoiceV> {
    match v {
        JsonV::Obj(ms) => {
            match (
                spec_req_int(ms, bytes_of("index"@)),
                spec_req_str(ms, bytes_of("finish_reason"@)),
                spec_req_str(ms, bytes_of("native_finish_reason"@)),
                spec_get(ms, bytes_of("message"@)),
            ) {
                (Some(index), Some(finish_reason), Some(native_finish_reason), Some(m)) => {
                    match spec_decode_message(m) {
                        None => None,
                        Some(message) => Some(
                            ChoiceV { index, finish_reason, native_finish_reason, message },
                        ),
                    }
                },
                _ => None,
            }
        },
        _ => None,
    }
}

/// Decodes the choices of `es` from index `i` on.
pub open spec fn spec_decode_choices(es: Seq<JsonV>, i: int) -> Option<Seq<ChoiceV>>
    decreases es.len() - i,
{
    if i < 0 || i >= es.len() {
        Some(Seq::empty())
    } else {
        match spec_decode_choice(es[i]) {
            None => None,
            Some(c) => match spec_decode_choices(es, i + 1) {
                None => None,
                Some(rest) => Some(seq![c] + rest),
            },
        }
    }
}

/// Decodes token accounting.
pub open spec fn spec_decode_usage(v: JsonV) -> Option<UsageV> {
    match v {
        JsonV::Obj(ms) => {
            match (
                spec_req_int(ms, bytes_of("prompt_tokens"@)),
                spec_req_int(ms, bytes_of("completion_tokens"@)),
                spec_req_int(ms, bytes_of("total_tokens"@)),
            ) {
                (Some(prompt_tokens), Some(completion_tokens), Some(total_tokens)) => Some(
                    UsageV { prompt_tokens, completion_tokens, total_tokens },
                ),
                _ => None,
            }
        },
        _ => None,
    }
}

/// Decodes a whole response envelope: `id`, `usage`, `created` and
/// `choices` are required; `provider`, `model` and `object` default to
/// empty; a missing or null `system_fingerprint` decodes to none.
pub open spec fn spec_decode_response(v: JsonV) -> Option<ResponseV> {
    match v {
        JsonV::Obj(ms) => {
            match (
                spec_req_str(ms, bytes_of("id"@)),
                spec_opt_str(ms, bytes_of("provider"@)),
                spec_opt_str(ms, bytes_of("model"@)),
                spec_opt_str(ms, bytes_of("object"@)),
                spec_req_int(ms, bytes_of("created"@)),
            ) {
                (Some(id), Some(provider), Some(model), Some(object), Some(created)) => {
                    let fp = match spec_get(ms, bytes_of("system_fingerprint"@)) {
                        None => Some(None),
                        Some(JsonV::Null) => Some(None),
                        Some(JsonV::Str(s)) => if vstd::utf8::valid_utf8(s) {
                            Some(Some(s))
                        } else {
                            None
                        },
                        Some(_) => None,
                    };
                    match fp {
                        None => None,
                        Some(system_fingerprint) => {
                            match spec_get(ms, bytes_of("usage"@)) {
                                None => None,
                                Some(u) => match spec_decode_usage(u) {
                                    None => None,
                                    Some(usage) => {
                                        match spec_get(ms, bytes_of("choices"@)) {
                                            Some(JsonV::Arr(es)) => match spec_decode_choices(
                                                es,
                                                0,
                                            ) {
                                                None => None,
                                                Some(choices) => Some(
                                                    ResponseV {
                                                        id,
                                                        provider,
                                                        model,
                                                        object,
                                                        system_fingerprint,
                                                        usage,
                                                        created,
                                                        choices,
                                                    },
                                                ),
                                            },
                                            _ => None,
                                        }
                                    },
                                },
                            }
                        },
                    }
                },
                _ => None,
            }
        },
        _ => None,
    }
}

/// Whether a decoded function invocation carries the abstract shape `g`.
pub open spec fn m_fc(e: JsonFunctionCall, g: FunctionCallV) -> bool {
    bytes_of(e.name@) == g.name && bytes_of(e.arguments@) == g.arguments
}

/// Whether a decoded tool invocation carries the abstract shape `g`.
pub open spec fn m_tc(e: JsonToolCall, g: ToolCallV) -> bool {
    e.index as int == g.index && bytes_of(e.id@) == g.id && bytes_of(e.call_type@) == g.call_type
        && m_fc(e.function_call, g.function_call)
}

/// Whether a decoded message carries the abstract shape `g`.
pub open spec fn m_msg(e: Message, g: MessageV) -> bool {
    bytes_of(e.role@) == g.role && bytes_of(e.content@) == g.content && bytes_of(e.tool_call_id@)
        == g.tool_call_id && e.tool_calls@.len() == g.tool_calls.len() && forall|k: int|
        0 <= k < g.tool_calls.len() ==> m_tc(#[trigger] e.tool_calls@[k], g.tool_calls[k])
}

/// Whether a decoded choice carries the abstract shape `g`.
pub open spec fn m_choice(e: Choice, g: ChoiceV) -> bool {
    e.index as int == g.index && bytes_of(e.finish_reason@) == g.finish_reason && bytes_of(
        e.native_finish_reason@,
    ) == g.native_finish_reason && m_msg(e.message, g.message)
}

/// Whether decoded token accounting carries the abstract shape `g`.
pub open spec fn m_usage(e: Usage, g: UsageV) -> bool {
    e.prompt_tokens as int == g.prompt_tokens && e.completion_tokens as int == g.completion_tokens
        && e.total_tokens as int == g.total_tokens
}

/// Whether a decoded response carries the abstract shape `g`.
pub open spec fn m_resp(e: ChatCompletionResponse, g: ResponseV) -> bool {
    bytes_of(e.id@) == g.id && bytes_of(e.provider@) == g.provider && bytes_of(e.model@) == g.model
        && bytes_of(e.object@) == g.object && (match (e.system_fingerprint, g.system_fingerprint) {
        (None, None) => true,
        (Some(s), Some(t)) => bytes_of(s@) == t,
        _ => false,
    }) && m_usage(e.usage, g.usage) && e.created as int == g.created && e.choices@.len()
        == g.choices.len() && forall|k: int|
        0 <= k < g.choices.len() ==> m_choice(#[trigger] e.choices@[k], g.choices[k])
}

} // verus!

verus! {

/// Relies on `String::from_utf8`: it succeeds exactly on valid UTF-8
/// input, and the returned string's UTF-8 encoding is the input bytes.
#[verifier::external_body]
pub(crate) fn bytes_to_string(v: Vec<u8>) -> (r: Option<String>)
    ensures
        (r is Some) == vstd::utf8::valid_utf8(v@),
        r matches Some(s) ==> bytes_of(s@) == v@,
{
    String::from_utf8(v).ok()
}

/// The error every decoder reports when a body does not have the shape of
/// the wire protocol.
pub(crate) fn de_err<T>() -> (r: Result<T, Error>)
    ensures
        r matches Err(e) && e matches Error::Deserialization(_),
{
    Err(Error::Deserialization("response body does not match the expected shape".to_owned()))
}

/// Whether the byte vector holds exactly the UTF-8 bytes of `key`.
fn eq_bytes(a: &Vec<u8>, key: &str) -> (r: bool)
    ensures
        r == (a@ == bytes_of(key@)),
{
    let b = key.as_bytes();
    proof {
        assert(b@ == bytes_of(key@));
    }
    if a.len() != b.len() {
        proof {
            assert(a@.len() != bytes_of(key@).len());
            assert(a@ != bytes_of(key@));
        }
        return false;
    }
    let n = a.len();
    let mut k: usize = 0;
    while k < n
        invariant
            k <= n,
            n == a@.len() == b@.len(),
            b@ == bytes_of(key@),
            forall|m: int| 0 <= m < k ==> a@[m] == b@[m],
        decreases n - k,
    {
        if a[k] != b[k] {
            proof {
                assert(a@[k as int] != bytes_of(key@)[k as int]);
                assert(a@ != bytes_of(key@));
            }
            return false;
        }
        k = k + 1;
    }
    proof {
        assert(a@ =~= b@);
    }
    true
}

/// Looks a key up among the members of an object, first match wins.
pub(crate) fn obj_get<'x>(ms: &'x Vec<(Vec<u8>, Json)>, key: &str) -> (r: Option<&'x Json>)
    ensures
        (r is Some) == (spec_get(jv_members(ms@), bytes_of(key@)) is Some),
        r matches Some(v) ==> spec_get(jv_members(ms@), bytes_of(key@)) == Some(jv(*v)),
{
    let n = ms.len();
    let mut i: usize = 0;
    proof {
        crate::json::lemma_jv_members(ms@);
        assert(jv_members(ms@).skip(0) =~= jv_members(ms@));
    }
    while i < n
        invariant
            i <= n,
            n == ms@.len(),
            jv_members(ms@).len() == ms@.len(),
            forall|k: int|
                0 <= k < ms@.len() ==> jv_members(ms@)[k] == (ms@[k].0@, jv(ms@[k].1)),
            spec_get(jv_members(ms@), bytes_of(key@)) == spec_get(
                jv_members(ms@).skip(i as int),
                bytes_of(key@),
            ),
        decreases n - i,
    {
        if eq_bytes(&ms[i].0, key) {
            proof {
                assert(jv_members(ms@).skip(i as int)[0] == (ms@[i as int].0@, jv(
                    ms@[i as int].1,
                )));
            }
            return Some(&ms[i].1);
        }
        proof {
            assert(jv_members(ms@).skip(i as int).drop_first() =~= jv_members(ms@).skip(i + 1));
        }
        i = i + 1;
    }
    proof {
        assert(jv_members(ms@).skip(n as int) =~= Seq::<(Seq<u8>, JsonV)>::empty());
    }
    None
}

/// The owned string content of a string node.
pub(crate) fn json_string(v: &Json) -> (r: Option<String>)
    ensures
        (r is Some) == (spec_as_str(jv(*v)) is Some),
        r matches Some(s) ==> spec_as_str(jv(*v)) == Some(bytes_of(s@)),
{
    match v {
        Json::Str(b) => bytes_to_string(bytes_to_vec(b.as_slice())),
        _ => None,
    }
}

/// A required string member of an object.
pub(crate) fn get_req_string(ms: &Vec<(Vec<u8>, Json)>, key: &str) -> (r: Result<String, Error>)
    ensures
        (r is Ok) == (spec_req_str(jv_members(ms@), bytes_of(key@)) is Some),
        r matches Ok(s) ==> spec_req_str(jv_members(ms@), bytes_of(key@)) == Some(bytes_of(s@)),
        r matches Err(e) ==> e matches Error::Deserialization(_),
{
    match obj_get(ms, key) {
        None => de_err(),
        Some(v) => match json_string(v) {
            None => de_err(),
            Some(s) => Ok(s),
        },
    }
}

/// An optional string member of an object; missing means empty.
pub(crate) fn get_opt_string(ms: &Vec<(Vec<u8>, Json)>, key: &str) -> (r: Result<String, Error>)
    ensures
        (r is Ok) == (spec_opt_str(jv_members(ms@), bytes_of(key@)) is Some),
        r matches Ok(s) ==> spec_opt_str(jv_members(ms@), bytes_of(key@)) == Some(bytes_of(s@)),
        r matches Err(e) ==> e matches Error::Deserialization(_),
{
    match obj_get(ms, key) {
        None => {
            let s = String::new();
            proof {
                assert(bytes_of(s@) =~= Seq::<u8>::empty());
            }
            Ok(s)
        },
        Some(v) => match json_string(v) {
            None => de_err(),
            Some(s) => Ok(s),
        },
    }
}

/// A required integer member of an object.
pub(crate) fn get_req_i64(ms: &Vec<(Vec<u8>, Json)>, key: &str) -> (r: Result<i64, Error>)
    ensures
        (r is Ok) == (spec_req_int(jv_members(ms@), bytes_of(key@)) is Some),
        r matches Ok(i) ==> spec_req_int(jv_members(ms@), bytes_of(key@)) == Some(i as int),
        r matches Err(e) ==> e matches Error::Deserialization(_),
{
    match obj_get(ms, key) {
        None => de_err(),
        Some(v) => match v {
            Json::Int(i) => Ok(*i),
            _ => de_err(),
        },
    }
}

/// Decodes a function invocation node.
pub fn decode_function_call(j: &Json) -> (r: Result<JsonFunctionCall, Error>)
    ensures
        (r is Ok) == (spec_decode_function_call(jv(*j)) is Some),
        r matches Ok(e) ==> m_fc(e, spec_decode_function_call(jv(*j))->0),
        r matches Err(e) ==> e matches Error::Deserialization(_),
{
    match j {
        Json::Obj(ms) => {
            let name = match get_req_string(ms, "name") {
                Ok(x) => x,
                Err(e) => {
                    return Err(e);
                },
            };
            let arguments = match get_req_string(ms, "arguments") {
                Ok(x) => x,
                Err(e) => {
                    return Err(e);
                },
            };
            Ok(JsonFunctionCall { name, arguments })
        },
        _ => de_err(),
    }
}

/// Decodes one tool invocation node.
pub fn decode_tool_call(j: &Json) -> (r: Result<JsonToolCall, Error>)
    ensures
        (r is Ok) == (spec_decode_tool_call(jv(*j)) is Some),
        r matches Ok(e) ==> m_tc(e, spec_decode_tool_call(jv(*j))->0),
        r matches Err(e) ==> e matches Error::Deserialization(_),
{
    match j {
        Json::Obj(ms) => {
            let index = match get_req_i64(ms, "index") {
                Ok(x) => x,
                Err(e) => {
                    return Err(e);
                },
            };
            let id = match get_req_string(ms, "id") {
                Ok(x) => x,
                Err(e) => {
                    return Err(e);
                },
            };
            let call_type = match get_req_string(ms, "type") {
                Ok(x) => x,
                Err(e) => {
                    return Err(e);
                },
            };
            let function_call = match obj_get(ms, "function") {
                None => {
                    return de_err();
                },
                Some(f) => match decode_function_call(f) {
                    Ok(x) => x,
                    Err(e) => {
                        return Err(e);
                    },
                },
            };
            Ok(JsonToolCall { index, id, call_type, function_call })
        },
        _ => de_err(),
    }
}

/// Decodes the tool invocations of a `tool_calls` array from `i` on.
fn decode_tool_calls(es: &Vec<Json>, i: usize) -> (r: Result<Vec<JsonToolCall>, Error>)
    requires
        i <= es@.len(),
    ensures
        (r is Ok) == (spec_decode_tool_calls(jv_list(es@), i as int) is Some),
        r matches Ok(v) ==> v@.len() == spec_decode_tool_calls(jv_list(es@), i as int)->0.len()
            && forall|k: int|
            0 <= k < v@.len() ==> m_tc(
                #[trigger] v@[k],
                spec_decode_tool_calls(jv_list(es@), i as int)->0[k],
            ),
        r matches Err(e) ==> e matches Error::Deserialization(_),
    decreases es@.len() - i,
{
    proof {
        crate::json::lemma_jv_list(es@);
    }
    if i == es.len() {
        Ok(Vec::new())
    } else {
        let c = match decode_tool_call(&es[i]) {
            Ok(x) => x,
            Err(e) => {
                return Err(e);
            },
        };
        let mut rest = match decode_tool_calls(es, i + 1) {
            Ok(x) => x,
            Err(e) => {
                return Err(e);
            },
        };
        rest.insert(0, c);
        Ok(rest)
    }
}

/// Decodes a message node.
pub fn decode_message(j: &Json) -> (r: Result<Message, Error>)
    ensures
        (r is Ok) == (spec_decode_message(jv(*j)) is Some),
        r matches Ok(m) ==> m_msg(m, spec_decode_message(jv(*j))->0),
        r matches Err(e) ==> e matches Error::Deserialization(_),
{
    match j {
        Json::Obj(ms) => {
            let role = match get_req_string(ms, "role") {
                Ok(x) => x,
                Err(e) => {
                    return Err(e);
                },
            };
            let content = match get_req_string(ms, "content") {
                Ok(x) => x,
                Err(e) => {
                    return Err(e);
                },
            };
            let tool_call_id = match get_opt_string(ms, "tool_call_id") {
                Ok(x) => x,
                Err(e) => {
                    return Err(e);
                },
            };
            let tool_calls = match obj_get(ms, "tool_calls") {
                None => Vec::new(),
                Some(t) => match t {
                    Json::Arr(es) => match decode_tool_calls(es, 0) {
                        Ok(x) => x,
                        Err(e) => {
                            return Err(e);
                        },
                    },
                    _ => {
                        return de_err();
                    },
                },
            };
            Ok(Message { role, content, tool_call_id, tool_calls })
        },
        _ => de_err(),
    }
}

/// Decodes one choice node.
pub fn decode_choice(j: &Json) -> (r: Result<Choice, Error>)
    ensures
        (r is Ok) == (spec_decode_choice(jv(*j)) is Some),
        r matches Ok(c) ==> m_choice(c, spec_decode_choice(jv(*j))->0),
        r matches Err(e) ==> e matches Error::Deserialization(_),
{
    match j {
        Json::Obj(ms) => {
            let index = match get_req_i64(ms, "index") {
                Ok(x) => x,
                Err(e) => {
                    return Err(e);
                },
            };
            let finish_reason = match get_req_string(ms, "finish_reason") {
                Ok(x) => x,
                Err(e) => {
                    return Err(e);
                },
            };
            let native_finish_reason = match get_req_string(ms, "native_finish_reason") {
                Ok(x) => x,
                Err(e) => {
                    return Err(e);
                },
            };
            let message = match obj_get(ms, "message") {
                None => {
                    return de_err();
                },
                Some(m) => match decode_message(m) {
                    Ok(x) => x,
                    Err(e) => {
                        return Err(e);
                    },
                },
            };
            Ok(Choice { index, finish_reason, native_finish_reason, message })
        },
        _ => de_err(),
    }
}

/// Decodes the choices of a response from `i` on.
fn decode_choices(es: &Vec<Json>, i: usize) -> (r: Result<Vec<Choice>, Error>)
    requires
        i <= es@.len(),
    ensures
        (r is Ok) == (spec_decode_choices(jv_list(es@), i as int) is Some),
        r matches Ok(v) ==> v@.len() == spec_decode_choices(jv_list(es@), i as int)->0.len()
            && forall|k: int|
            0 <= k < v@.len() ==> m_choice(
                #[trigger] v@[k],
                spec_decode_choices(jv_list(es@), i as int)->0[k],
            ),
        r matches Err(e) ==> e matches Error::Deserialization(_),
    decreases es@.len() - i,
{
    proof {
        crate::json::lemma_jv_list(es@);
    }
    if i == es.len() {
        Ok(Vec::new())
    } else {
        let c = match decode_choice(&es[i]) {
            Ok(x) => x,
            Err(e) => {
                return Err(e);
            },
        };
        let mut rest = match decode_choices(es, i + 1) {
            Ok(x) => x,
            Err(e) => {
                return Err(e);
            },
        };
        rest.insert(0, c);
        Ok(rest)
    }
}

/// Decodes token accounting.
pub fn decode_usage(j: &Json) -> (r: Result<Usage, Error>)
    ensures
        (r is Ok) == (spec_decode_usage(jv(*j)) is Some),
        r matches Ok(u) ==> m_usage(u, spec_decode_usage(jv(*j))->0),
        r matches Err(e) ==> e matches Error::Deserialization(_),
{
    match j {
        Json::Obj(ms) => {
            let prompt_tokens = match get_req_i64(ms, "prompt_tokens") {
                Ok(x) => x,
                Err(e) => {
                    return Err(e);
                },
            };
            let completion_tokens = match get_req_i64(ms, "completion_tokens") {
                Ok(x) => x,
                Err(e) => {
                    return Err(e);
                },
            };
            let total_tokens = match get_req_i64(ms, "total_tokens") {
                Ok(x) => x,
                Err(e) => {
                    return Err(e);
                },
            };
            Ok(Usage { prompt_tokens, completion_tokens, total_tokens })
        },
        _ => de_err(),
    }
}

/// Decodes a whole response envelope node.
pub fn decode_response(j: &Json) -> (r: Result<ChatCompletionResponse, Error>)
    ensures
        (r is Ok) == (spec_decode_response(jv(*j)) is Some),
        r matches Ok(resp) ==> m_resp(resp, spec_decode_response(jv(*j))->0),
        r matches Err(e) ==> e matches Error::Deserialization(_),
{
    match j {
        Json::Obj(ms) => {
            let id = match get_req_string(ms, "id") {
                Ok(x) => x,
                Err(e) => {
                    return Err(e);
                },
            };
            let provider = match get_opt_string(ms, "provider") {
                Ok(x) => x,
                Err(e) => {
                    return Err(e);
                },
            };
            let model = match get_opt_string(ms, "model") {
                Ok(x) => x,
                Err(e) => {
                    return Err(e);
                },
            };
            let object = match get_opt_string(ms, "object") {
                Ok(x) => x,
                Err(e) => {
                    return Err(e);
                },
            };
            let created = match get_req_i64(ms, "created") {
                Ok(x) => x,
                Err(e) => {
                    return Err(e);
                },
            };
            let system_fingerprint = match obj_get(ms, "system_fingerprint") {
                None => None,
                Some(v) => match v {
                    Json::Null => None,
                    Json::Str(_) => match json_string(v) {
                        None => {
                            return de_err();
                        },
                        Some(s) => Some(s),
                    },
                    _ => {
                        return de_err();
                    },
                },
            };
            let usage = match obj_get(ms, "usage") {
                None => {
                    return de_err();
                },
                Some(u) => match decode_usage(u) {
                    Ok(x) => x,
                    Err(e) => {
                        return Err(e);
                    },
                },
            };
            let choices = match obj_get(ms, "choices") {
                None => {
                    return de_err();
                },
                Some(c) => match c {
                    Json::Arr(es) => match decode_choices(es, 0) {
                        Ok(x) => x,
                        Err(e) => {
                            return Err(e);
                        },
                    },
                    _ => {
                        return de_err();
                    },
                },
            };
            Ok(
                ChatCompletionResponse {
                    id,
                    provider,
                    model,
                    object,
                    system_fingerprint,
                    usage,
                    created,
                    choices,
                },
            )
        },
        _ => de_err(),
    }
}

} // verus!

verus! {

/// A message with an empty tool-call id and no tool calls serializes to
/// an object holding exactly the `role` and `content` members: both
/// optional members are omitted, not sent as null or as an empty list.
pub proof fn lemma_message_omission(m: Message)
    requires
        m.tool_call_id@.len() == 0,
        m.tool_calls@.len() == 0,
    ensures
        spec_message_json(m) == JsonV::Obj(
            seq![
                (bytes_of("role"@), JsonV::Str(bytes_of(m.role@))),
                (bytes_of("content"@), JsonV::Str(bytes_of(m.content@))),
            ],
        ),
{
    assert(spec_message_json(m)->Obj_0 =~= seq![
        (bytes_of("role"@), JsonV::Str(bytes_of(m.role@))),
        (bytes_of("content"@), JsonV::Str(bytes_of(m.content@))),
    ]);
}

/// A request with an empty tool list, no tool choice and no response
/// format serializes to an object holding exactly the `model` and
/// `messages` members; in particular no `tools` member appears, rather
/// than an empty list.
pub proof fn lemma_request_omission(r: ChatCompletionRequest)
    requires
        r.tools@.len() == 0,
        r.tool_choice is None,
        r.response_format is None,
    ensures
        spec_request_json(r) == JsonV::Obj(
            seq![
                (bytes_of("model"@), JsonV::Str(bytes_of(r.model@))),
                (
                    bytes_of("messages"@),
                    JsonV::Arr(r.messages@.map_values(|m: Message| spec_message_json(m))),
                ),
            ],
        ),
{
    assert(spec_request_json(r)->Obj_0 =~= seq![
        (bytes_of("model"@), JsonV::Str(bytes_of(r.model@))),
        (
            bytes_of("messages"@),
            JsonV::Arr(r.messages@.map_values(|m: Message| spec_message_json(m))),
        ),
    ]);
}

} // verus!
