//! The client state and the request builder.
//!
//! [`Client`] owns the API key, the base URL and the cached model catalog;
//! it computes endpoint URLs, the authorization header and the meaning of
//! every HTTP outcome, while the embedding program performs the transfers
//! and hands back status and body. [`ChatCompletionParameter`] accumulates
//! the state of one conversation and validates a function tool choice
//! against the tools already added.

use vstd::prelude::*;
use vstd::string::StringExecFns;
use vstd::string::StringSliceAdditionalSpecFns;

use crate::error::Error;
use crate::json_types::ChatCompletionRequest;
use crate::json_types::Choice;
use crate::json_types::JsonTool;
use crate::json_types::Message;
use crate::json_types::ResponseFormat;
use crate::json_types::ToolChoice;
use crate::json_types::bytes_of;
use crate::json_types::m_choice;
use crate::json_types::spec_decode_response;
use crate::json_types::ChoiceV;
use crate::json_types::spec_message_json;
use crate::json_types::spec_request_json;
use crate::json_types::spec_response_format_json;
use crate::json_types::spec_tool_choice_json;
use crate::json_types::spec_tool_json;
use crate::json::JsonV;
use crate::json::jv;
use crate::models::LLMModel;
use crate::models::LLMModels;
use crate::models::m_models;
use crate::models::ModelV;
use crate::models::spec_decode_listing;
use crate::parse::spec_parse;
use crate::tools::Tool;
use crate::tools::spec_schema_doc;

verus! {

/// Encoding distributes over concatenation of character sequences.
pub proof fn lemma_encode_utf8_concat(a: Seq<char>, b: Seq<char>)
    ensures
        vstd::utf8::encode_utf8(a + b) == vstd::utf8::encode_utf8(a) + vstd::utf8::encode_utf8(b),
    decreases a.len(),
{
    if a.len() == 0 {
        assert(a + b =~= b);
        assert(vstd::utf8::encode_utf8(a) + vstd::utf8::encode_utf8(b) =~= vstd::utf8::encode_utf8(
            b,
        ));
    } else {
        assert((a + b).drop_first() =~= a.drop_first() + b);
        lemma_encode_utf8_concat(a.drop_first(), b);
        assert(vstd::utf8::encode_utf8(a + b) =~= vstd::utf8::encode_utf8(a)
            + vstd::utf8::encode_utf8(b));
    }
}

/// The index of the last slash byte of `s`, or -1 when there is none.
pub open spec fn spec_last_slash(s: Seq<u8>) -> int
    decreases s.len(),
{
    if s.len() == 0 {
        -1
    } else if s.last() == 0x2f {
        s.len() - 1
    } else {
        spec_last_slash(s.drop_last())
    }
}

/// Resolves `rel` against `base` the way a relative reference without a
/// leading slash resolves against a URL: everything after the last slash
/// of the base is replaced by `rel`. A base without any slash, or one
/// whose last slash does not end a character, is extended as it stands.
pub open spec fn spec_join_url(base: Seq<u8>, rel: Seq<u8>) -> Seq<u8> {
    let ls = spec_last_slash(base);
    if ls >= 0 && vstd::utf8::is_char_boundary(base, ls + 1) {
        base.subrange(0, ls + 1) + rel
    } else {
        base + rel
    }
}

/// Joins a relative reference onto a base URL.
fn join_url(base: &str, rel: &str) -> (r: String)
    ensures
        bytes_of(r@) == spec_join_url(bytes_of(base@), bytes_of(rel@)),
{
    let bb = base.as_bytes();
    let mut i: usize = bb.len();
    proof {
        assert(bb@.take(bb@.len() as int) =~= bb@);
    }
    while i > 0 && bb[i - 1] != 0x2f
        invariant
            i <= bb@.len(),
            spec_last_slash(bb@) == spec_last_slash(bb@.take(i as int)),
        decreases i,
    {
        proof {
            assert(bb@.take(i as int).drop_last() =~= bb@.take(i - 1));
        }
        i = i - 1;
    }
    proof {
        assert(bb@.take(bb@.len() as int) =~= bb@);
    }
    if i > 0 {
        proof {
            assert(bb@.take(i as int).last() == bb@[i - 1]);
            assert(spec_last_slash(bb@) == i - 1);
        }
        if base.is_char_boundary(i) {
            let parts = base.split_at(i);
            let mut out = parts.0.to_owned();
            out.append(rel);
            proof {
                lemma_encode_utf8_concat(parts.0@, rel@);
                assert(bytes_of(out@) =~= spec_join_url(bytes_of(base@), bytes_of(rel@)));
            }
            out
        } else {
            let mut out = base.to_owned();
            out.append(rel);
            proof {
                lemma_encode_utf8_concat(base@, rel@);
                assert(bytes_of(out@) =~= spec_join_url(bytes_of(base@), bytes_of(rel@)));
            }
            out
        }
    } else {
        proof {
            assert(spec_last_slash(bb@) == spec_last_slash(bb@.take(0)));
            assert(bb@.take(0) =~= Seq::<u8>::empty());
        }
        let mut out = base.to_owned();
        out.append(rel);
        proof {
            lemma_encode_utf8_concat(base@, rel@);
            assert(bytes_of(out@) =~= spec_join_url(bytes_of(base@), bytes_of(rel@)));
        }
        out
    }
}

/// The models a body of the model-listing endpoint decodes to, if it is
/// well formed.
pub open spec fn spec_models_of_body(body: Seq<u8>) -> Option<Seq<ModelV>> {
    match spec_parse(body) {
        None => None,
        Some(v) => spec_decode_listing(v),
    }
}

/// The choices a chat-completion body decodes to, if it is well formed.
pub open spec fn spec_choices_of_body(body: Seq<u8>) -> Option<Seq<ChoiceV>> {
    match spec_parse(body) {
        None => None,
        Some(v) => match spec_decode_response(v) {
            None => None,
            Some(r) => Some(r.choices),
        },
    }
}

/// The meaning of a chat-completion HTTP outcome.
///
/// A success status decodes the body into choices or reports a decoding
/// error; a 400 surfaces the body verbatim, since the provider reports
/// malformed schemas and tools that way; any other status surfaces only
/// its code, the body is discarded.
pub fn chat_completion_outcome(status: u16, body: String) -> (r: Result<Vec<Choice>, Error>)
    ensures
        200 <= status < 300 ==> (match spec_choices_of_body(bytes_of(body@)) {
            Some(g) => r matches Ok(cs) && cs@.len() == g.len() && forall|k: int|
                0 <= k < g.len() ==> m_choice(#[trigger] cs@[k], g[k]),
            None => r matches Err(e) && e matches Error::Deserialization(_),
        }),
        status == 400 ==> (r matches Err(e) && e matches Error::BadRequest(b) && b == body),
        !(200 <= status < 300) && status != 400 ==> r == Err::<Vec<Choice>, Error>(
            Error::HTTPErrorWithStatusCode(status),
        ),
{
    if 200 <= status && status < 300 {
        match crate::parse::parse_json(body.as_str().as_bytes()) {
            None => crate::json_types::de_err(),
            Some(doc) => match crate::json_types::decode_response(&doc) {
                Ok(resp) => Ok(resp.choices),
                Err(e) => Err(e),
            },
        }
    } else if status == 400 {
        Err(Error::BadRequest(body))
    } else {
        Err(Error::HTTPErrorWithStatusCode(status))
    }
}

/// A client of the chat-completion API: connection configuration and the
/// lazily cached model catalog.
pub struct Client {
    api_key: String,
    api_url: String,
    models: Option<LLMModels>,
}

/// Whether a client still has to fetch the model listing.
pub open spec fn spec_needs_fetch(c: Client) -> bool {
    c.spec_models_cache() is None
}

impl Client {
    /// The API key.
    pub closed spec fn spec_api_key(&self) -> Seq<char> {
        self.api_key@
    }

    /// The base URL.
    pub closed spec fn spec_api_url(&self) -> Seq<char> {
        self.api_url@
    }

    /// The cached catalog, if one was stored.
    pub closed spec fn spec_models_cache(&self) -> Option<Seq<LLMModel>> {
        match self.models {
            None => None,
            Some(m) => Some(m.spec_models()),
        }
    }

    /// A client for the given key and base URL, with an empty catalog
    /// cache.
    pub fn new(api_key: String, api_url: String) -> (r: Self)
        ensures
            r.spec_api_key() == api_key@,
            r.spec_api_url() == api_url@,
            r.spec_models_cache() is None,
    {
        Client { api_key, api_url, models: None }
    }

    /// The URL of the model-listing endpoint.
    pub fn models_url(&self) -> (r: String)
        ensures
            bytes_of(r@) == spec_join_url(bytes_of(self.spec_api_url()), bytes_of("models"@)),
    {
        join_url(self.api_url.as_str(), "models")
    }

    /// The URL of the chat-completion endpoint.
    pub fn chat_completions_url(&self) -> (r: String)
        ensures
            bytes_of(r@) == spec_join_url(
                bytes_of(self.spec_api_url()),
                bytes_of("chat/completions"@),
            ),
    {
        join_url(self.api_url.as_str(), "chat/completions")
    }

    /// The value of the authorization header sent with every request.
    pub fn auth_header(&self) -> (r: String)
        ensures
            r@ == "Bearer "@ + self.spec_api_key(),
    {
        let mut out: String = "Bearer ".to_owned();
        out.append(self.api_key.as_str());
        out
    }

    /// Whether the model listing still has to be fetched; false as soon
    /// as one fetch has been stored, so a second lookup on the same
    /// client issues no further request.
    pub fn needs_models_fetch(&self) -> (r: bool)
        ensures
            r == spec_needs_fetch(*self),
    {
        self.models.is_none()
    }

    /// The cached catalog.
    pub fn cached_models(&self) -> (r: Option<&LLMModels>)
        ensures
            (r is Some) == (self.spec_models_cache() is Some),
            r matches Some(m) ==> Some(m.spec_models()) == self.spec_models_cache(),
    {
        self.models.as_ref()
    }

    /// Stores the outcome of one model-listing transfer.
    ///
    /// On a success status the body must decode as a model listing, which
    /// is then cached; any other status surfaces its code and leaves the
    /// cache as it was.
    pub fn ingest_models_response(&mut self, status: u16, body: &str) -> (r: Result<(), Error>)
        ensures
            final(self).spec_api_key() == old(self).spec_api_key(),
            final(self).spec_api_url() == old(self).spec_api_url(),
            200 <= status < 300 ==> (match spec_models_of_body(bytes_of(body@)) {
                Some(g) => r is Ok && (final(self).spec_models_cache() matches Some(ms)
                    && m_models(ms, g)),
                None => (r matches Err(e) && e matches Error::Deserialization(_) && *final(self)
                    == *old(self)),
            }),
            !(200 <= status < 300) ==> r == Err::<(), Error>(Error::HTTPErrorWithStatusCode(status))
                && *final(self) == *old(self),
    {
        if 200 <= status && status < 300 {
            match crate::parse::parse_json(body.as_bytes()) {
                None => crate::json_types::de_err(),
                Some(doc) => match crate::models::decode_models(&doc) {
                    Ok(listing) => {
                        self.models = Some(LLMModels::new(listing));
                        Ok(())
                    },
                    Err(e) => Err(e),
                },
            }
        } else {
            Err(Error::HTTPErrorWithStatusCode(status))
        }
    }
}

/// A client that already holds a catalog never asks for another fetch:
/// two sequential model-list lookups on one client issue at most one
/// request, the second is answered from the cache.
pub proof fn lemma_catalog_fetched_once(c: Client)
    requires
        c.spec_models_cache() is Some,
    ensures
        !spec_needs_fetch(c),
{
}

} // verus!

verus! {

/// Whether some tool of the list is named `name`.
pub open spec fn spec_has_tool(tools: Seq<JsonTool>, name: Seq<char>) -> bool {
    exists|i: int| 0 <= i < tools.len() && (#[trigger] tools[i]).function.name@ == name
}

/// A fresh tool choice equal to the given one.
fn clone_tool_choice(tc: &ToolChoice) -> (r: ToolChoice)
    ensures
        r == *tc,
{
    match tc {
        ToolChoice::Auto => ToolChoice::Auto,
        ToolChoice::Required => ToolChoice::Required,
        ToolChoice::Function(f) => ToolChoice::Function(
            crate::json_types::ToolChoiceFunction {
                choice_type: f.choice_type.clone(),
                function: crate::json_types::ToolChoiceFunctionDesc {
                    name: f.function.name.clone(),
                },
            },
        ),
    }
}

/// The state of one chat-completion request, accumulated over a possibly
/// multi-turn tool-calling conversation.
pub struct ChatCompletionParameter<'a> {
    model: String,
    messages: Vec<Message>,
    response_format: Option<ResponseFormat<'a>>,
    tools: Vec<JsonTool>,
    tool_choice: Option<ToolChoice>,
}

/// The document of a whole request, read off the builder state: `tools`
/// is omitted while the tool list is empty, `tool_choice` and
/// `response_format` while unset.
pub open spec fn spec_param_json(p: ChatCompletionParameter) -> JsonV {
    JsonV::Obj(
        seq![
            (bytes_of("model"@), JsonV::Str(bytes_of(p.spec_model()))),
            (
                bytes_of("messages"@),
                JsonV::Arr(p.spec_messages().map_values(|m: Message| spec_message_json(m))),
            ),
        ] + (if p.spec_tools().len() == 0 {
            Seq::<(Seq<u8>, JsonV)>::empty()
        } else {
            seq![
                (
                    bytes_of("tools"@),
                    JsonV::Arr(p.spec_tools().map_values(|t: JsonTool| spec_tool_json(t))),
                ),
            ]
        }) + (match p.spec_tool_choice() {
            None => Seq::<(Seq<u8>, JsonV)>::empty(),
            Some(tc) => seq![(bytes_of("tool_choice"@), spec_tool_choice_json(tc))],
        }) + (match p.spec_response_format() {
            None => Seq::<(Seq<u8>, JsonV)>::empty(),
            Some(rf) => seq![(bytes_of("response_format"@), spec_response_format_json(rf))],
        }),
    )
}

impl<'a> ChatCompletionParameter<'a> {
    /// The model identifier.
    pub closed spec fn spec_model(&self) -> Seq<char> {
        self.model@
    }

    /// The accumulated message sequence.
    pub closed spec fn spec_messages(&self) -> Seq<Message> {
        self.messages@
    }

    /// The response format, if one was set.
    pub closed spec fn spec_response_format(&self) -> Option<ResponseFormat<'a>> {
        self.response_format
    }

    /// The accumulated tool list.
    pub closed spec fn spec_tools(&self) -> Seq<JsonTool> {
        self.tools@
    }

    /// The tool choice, if one was set.
    pub closed spec fn spec_tool_choice(&self) -> Option<ToolChoice> {
        self.tool_choice
    }

    /// Starts a request for `model` with the given opening messages, no
    /// tools, no tool choice and no response format.
    pub fn new(model: String, messages: Vec<Message>) -> (r: Self)
        ensures
            r.spec_model() == model@,
            r.spec_messages() == messages@,
            r.spec_response_format() is None,
            r.spec_tools().len() == 0,
            r.spec_tool_choice() is None,
    {
        Self { model, messages, response_format: None, tools: Vec::new(), tool_choice: None }
    }

    /// Sets the response format; the last write wins.
    pub fn set_response_format(&mut self, response_format: ResponseFormat<'a>)
        ensures
            final(self).spec_response_format() == Some(response_format),
            final(self).spec_model() == old(self).spec_model(),
            final(self).spec_messages() == old(self).spec_messages(),
            final(self).spec_tools() == old(self).spec_tools(),
            final(self).spec_tool_choice() == old(self).spec_tool_choice(),
    {
        self.response_format = Some(response_format);
    }

    /// Appends a message to the conversation; the caller keeps the turns
    /// coherent.
    pub fn add_message(&mut self, message: Message)
        ensures
            final(self).spec_messages() == old(self).spec_messages().push(message),
            final(self).spec_model() == old(self).spec_model(),
            final(self).spec_response_format() == old(self).spec_response_format(),
            final(self).spec_tools() == old(self).spec_tools(),
            final(self).spec_tool_choice() == old(self).spec_tool_choice(),
    {
        self.messages.push(message);
    }

    /// Appends a tool, built from its descriptor; duplicate names are
    /// not rejected.
    pub fn add_tool(&mut self, tool: Tool)
        ensures
            final(self).spec_tools().len() == old(self).spec_tools().len() + 1,
            final(self).spec_tools().drop_last() == old(self).spec_tools(),
            final(self).spec_tools().last().tool_type@ == "function"@,
            final(self).spec_tools().last().function.name@ == tool.spec_name(),
            final(self).spec_tools().last().function.description@ == tool.spec_description(),
            final(self).spec_tools().last().function.strict == true,
            jv(final(self).spec_tools().last().function.parameters) == spec_schema_doc(
                tool.spec_parameters(),
            ),
            final(self).spec_model() == old(self).spec_model(),
            final(self).spec_messages() == old(self).spec_messages(),
            final(self).spec_response_format() == old(self).spec_response_format(),
            final(self).spec_tool_choice() == old(self).spec_tool_choice(),
    {
        let json_tool = tool.into_json();
        self.tools.push(json_tool);
        proof {
            assert(self.tools@.drop_last() =~= old(self).tools@);
        }
    }

    /// Sets the tool choice. A choice that names a function is validated
    /// against the tools already added: when the name is absent the call
    /// fails with the tool-not-found error and changes nothing, so tools
    /// must be added before a choice that references them.
    pub fn set_tool_choice(&mut self, tool_choice: ToolChoice) -> (r: Result<(), Error>)
        ensures
            final(self).spec_model() == old(self).spec_model(),
            final(self).spec_messages() == old(self).spec_messages(),
            final(self).spec_tools() == old(self).spec_tools(),
            final(self).spec_response_format() == old(self).spec_response_format(),
            tool_choice matches ToolChoice::Function(f) ==> (spec_has_tool(
                old(self).spec_tools(),
                f.function.name@,
            ) ==> r is Ok && final(self).spec_tool_choice() == Some(tool_choice)),
            tool_choice matches ToolChoice::Function(f) ==> (!spec_has_tool(
                old(self).spec_tools(),
                f.function.name@,
            ) ==> (r matches Err(e) && e matches Error::ToolNotFound(n) && n@ == f.function.name@
                && final(self).spec_tool_choice() == old(self).spec_tool_choice())),
            !(tool_choice matches ToolChoice::Function(_)) ==> r is Ok
                && final(self).spec_tool_choice() == Some(tool_choice),
    {
        if let ToolChoice::Function(f) = &tool_choice {
            let n = self.tools.len();
            let mut i: usize = 0;
            let mut found = false;
            while i < n
                invariant
                    i <= n,
                    n == self.tools@.len(),
                    found == exists|t: int|
                        0 <= t < i && (#[trigger] self.tools@[t]).function.name@
                            == f.function.name@,
                decreases n - i,
            {
                if self.tools[i].function.name == f.function.name {
                    found = true;
                }
                i = i + 1;
            }
            if !found {
                return Err(Error::ToolNotFound(f.function.name.clone()));
            }
        }
        self.tool_choice = Some(tool_choice);
        Ok(())
    }

    /// The wire body of the request in its current state.
    pub fn request_body(&self) -> (r: Vec<u8>)
        ensures
            r@ == crate::json::spec_write(spec_param_json(*self)),
    {
        let tool_choice = match &self.tool_choice {
            None => None,
            Some(tc) => Some(clone_tool_choice(tc)),
        };
        let req = ChatCompletionRequest {
            model: self.model.as_str(),
            messages: self.messages.as_slice(),
            tools: self.tools.as_slice(),
            tool_choice,
            response_format: self.response_format,
        };
        proof {
            assert(spec_request_json(req) =~~= spec_param_json(*self));
        }
        req.body_bytes()
    }
}

/// A tool list that just received a tool accepts a choice of its name,
/// and accepts any other name exactly when it did before: setting a
/// function tool choice before adding the tool fails, adding first and
/// then setting succeeds.
pub proof fn lemma_tool_choice_order(tools: Seq<JsonTool>, t: JsonTool)
    ensures
        spec_has_tool(tools.push(t), t.function.name@),
        forall|n: Seq<char>|
            #[trigger] spec_has_tool(tools.push(t), n) <==> spec_has_tool(tools, n)
                || t.function.name@ == n,
{
    assert(tools.push(t)[tools.len() as int] == t);
    assert forall|n: Seq<char>| #[trigger]
        spec_has_tool(tools.push(t), n) <==> spec_has_tool(tools, n) || t.function.name@
            == n by {
        if spec_has_tool(tools.push(t), n) {
            let i = choose|i: int|
                0 <= i < tools.push(t).len() && (#[trigger] tools.push(t)[i]).function.name@ == n;
            if i < tools.len() {
                assert(tools[i].function.name@ == n);
            }
        }
        if spec_has_tool(tools, n) {
            let i = choose|i: int|
                0 <= i < tools.len() && (#[trigger] tools[i]).function.name@ == n;
            assert(tools.push(t)[i].function.name@ == n);
        }
    }
}

} // verus!
