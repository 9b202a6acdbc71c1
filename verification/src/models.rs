//! The model catalog: typed model listings and their decoding, plus the
//! capability and name filters callers select models with.

use vstd::prelude::*;

use crate::error::Error;
use crate::json::Json;
use crate::json::JsonV;
use crate::json::jv;
use crate::json::jv_list;
use crate::json::jv_members;
use crate::json_types::bytes_of;
use crate::json_types::de_err;
use crate::json_types::get_req_string;
use crate::json_types::json_string;
use crate::json_types::obj_get;
use crate::json_types::spec_as_str;
use crate::json_types::spec_get;
use crate::json_types::spec_req_int;
use crate::json_types::spec_req_str;

verus! {

/// The architecture block of a model entry.
pub struct JsonArchitecture {
    pub modality: String,
    pub input_modalities: Vec<String>,
    pub output_modalities: Vec<String>,
    pub tokenizer: String,
    pub instruct_type: Option<String>,
}

/// The pricing block of a model entry; all prices are decimal strings.
pub struct JsonPricing {
    pub prompt: String,
    pub completion: String,
    pub request: Option<String>,
    pub image: Option<String>,
    pub web_search: Option<String>,
    pub internal_reasoning: Option<String>,
    pub input_cache_read: Option<String>,
    pub input_cache_write: Option<String>,
}

/// The top-provider block of a model entry.
pub struct JsonTopProvider {
    pub context_length: Option<u64>,
    pub max_completion_tokens: Option<u64>,
    pub is_moderated: bool,
}

/// One model of the provider's catalog.
pub struct LLMModel {
    pub id: String,
    pub hugging_face_id: Option<String>,
    pub name: String,
    pub created: u64,
    pub description: String,
    pub context_length: u64,
    pub architecture: JsonArchitecture,
    pub pricing: JsonPricing,
    pub top_provider: JsonTopProvider,
    pub per_request_limits: Option<Vec<(String, String)>>,
    pub supported_parameters: Vec<String>,
}

/// The decoded model listing; on the wire the list is the `data` member.
pub struct JsonModels {
    pub models: Vec<LLMModel>,
}

/// The abstract shape of a decoded architecture block.
pub struct ArchV {
    pub modality: Seq<u8>,
    pub input_modalities: Seq<Seq<u8>>,
    pub output_modalities: Seq<Seq<u8>>,
    pub tokenizer: Seq<u8>,
    pub instruct_type: Option<Seq<u8>>,
}

/// The abstract shape of a decoded pricing block.
pub struct PricingV {
    pub prompt: Seq<u8>,
    pub completion: Seq<u8>,
    pub request: Option<Seq<u8>>,
    pub image: Option<Seq<u8>>,
    pub web_search: Option<Seq<u8>>,
    pub internal_reasoning: Option<Seq<u8>>,
    pub input_cache_read: Option<Seq<u8>>,
    pub input_cache_write: Option<Seq<u8>>,
}

/// The abstract shape of a decoded top-provider block.
pub struct TopProviderV {
    pub context_length: Option<int>,
    pub max_completion_tokens: Option<int>,
    pub is_moderated: bool,
}

/// The abstract shape of a decoded model entry.
pub struct ModelV {
    pub id: Seq<u8>,
    pub hugging_face_id: Option<Seq<u8>>,
    pub name: Seq<u8>,
    pub created: int,
    pub description: Seq<u8>,
    pub context_length: int,
    pub architecture: ArchV,
    pub pricing: PricingV,
    pub top_provider: TopProviderV,
    pub per_request_limits: Option<Seq<(Seq<u8>, Seq<u8>)>>,
    pub supported_parameters: Seq<Seq<u8>>,
}

/// An optional string member: missing and null both decode to none.
pub open spec fn spec_opt_str_or_null(ms: Seq<(Seq<u8>, JsonV)>, key: Seq<u8>) -> Option<
    Option<Seq<u8>>,
> {
    match spec_get(ms, key) {
        None => Some(None),
        Some(JsonV::Null) => Some(None),
        Some(v) => match spec_as_str(v) {
            None => None,
            Some(s) => Some(Some(s)),
        },
    }
}

/// A required unsigned integer member.
pub open spec fn spec_req_u64(ms: Seq<(Seq<u8>, JsonV)>, key: Seq<u8>) -> Option<int> {
    match spec_req_int(ms, key) {
        None => None,
        Some(i) => if 0 <= i <= u64::MAX {
            Some(i)
        } else {
            None
        },
    }
}

/// An optional unsigned integer member: missing and null decode to none.
pub open spec fn spec_opt_u64(ms: Seq<(Seq<u8>, JsonV)>, key: Seq<u8>) -> Option<Option<int>> {
    match spec_get(ms, key) {
        None => Some(None),
        Some(JsonV::Null) => Some(None),
        Some(JsonV::Int(i)) => if 0 <= i <= u64::MAX {
            Some(Some(i))
        } else {
            None
        },
        Some(_) => None,
    }
}

/// A required boolean member.
pub open spec fn spec_req_bool(ms: Seq<(Seq<u8>, JsonV)>, key: Seq<u8>) -> Option<bool> {
    match spec_get(ms, key) {
        Some(JsonV::Bool(b)) => Some(b),
        _ => None,
    }
}

/// Decodes the strings of an array from `i` on.
pub open spec fn spec_decode_strs(es: Seq<JsonV>, i: int) -> Option<Seq<Seq<u8>>>
    decreases es.len() - i,
{
    if i < 0 || i >= es.len() {
        Some(Seq::empty())
    } else {
        match spec_as_str(es[i]) {
            None => None,
            Some(s) => match spec_decode_strs(es, i + 1) {
                None => None,
                Some(rest) => Some(seq![s] + rest),
            },
        }
    }
}

/// Decodes the string-valued members of an object from `i` on.
pub open spec fn spec_decode_pairs(ms: Seq<(Seq<u8>, JsonV)>, i: int) -> Option<
    Seq<(Seq<u8>, Seq<u8>)>,
>
    decreases ms.len() - i,
{
    if i < 0 || i >= ms.len() {
        Some(Seq::empty())
    } else if !vstd::utf8::valid_utf8(ms[i].0) {
        None
    } else {
        match spec_as_str(ms[i].1) {
            None => None,
            Some(s) => match spec_decode_pairs(ms, i + 1) {
                None => None,
                Some(rest) => Some(seq![(ms[i].0, s)] + rest),
            },
        }
    }
}

/// A required string-list member.
pub open spec fn spec_req_str_list(ms: Seq<(Seq<u8>, JsonV)>, key: Seq<u8>) -> Option<
    Seq<Seq<u8>>,
> {
    match spec_get(ms, key) {
        Some(JsonV::Arr(es)) => spec_decode_strs(es, 0),
        _ => None,
    }
}

/// Decodes an architecture block.
pub open spec fn spec_decode_architecture(v: JsonV) -> Option<ArchV> {
    match v {
        JsonV::Obj(ms) => {
            match (
                spec_req_str(ms, bytes_of("modality"@)),
                spec_req_str_list(ms, bytes_of("input_modalities"@)),
                spec_req_str_list(ms, bytes_of("output_modalities"@)),
                spec_req_str(ms, bytes_of("tokenizer"@)),
                spec_opt_str_or_null(ms, bytes_of("instruct_type"@)),
            ) {
                (
                    Some(modality),
                    Some(input_modalities),
                    Some(output_modalities),
                    Some(tokenizer),
                    Some(instruct_type),
                ) => Some(
                    ArchV {
                        modality,
                        input_modalities,
                        output_modalities,
                        tokenizer,
                        instruct_type,
                    },
                ),
                _ => None,
            }
        },
        _ => None,
    }
}

/// Decodes a pricing block.
pub open spec fn spec_decode_pricing(v: JsonV) -> Option<PricingV> {
    match v {
        JsonV::Obj(ms) => {
            match (
                spec_req_str(ms, bytes_of("prompt"@)),
                spec_req_str(ms, bytes_of("completion"@)),
                spec_opt_str_or_null(ms, bytes_of("request"@)),
                spec_opt_str_or_null(ms, bytes_of("image"@)),
                spec_opt_str_or_null(ms, bytes_of("web_search"@)),
                spec_opt_str_or_null(ms, bytes_of("internal_reasoning"@)),
                spec_opt_str_or_null(ms, bytes_of("input_cache_read"@)),
                spec_opt_str_or_null(ms, bytes_of("input_cache_write"@)),
            ) {
                (
                    Some(prompt),
                    Some(completion),
                    Some(request),
                    Some(image),
                    Some(web_search),
                    Some(internal_reasoning),
                    Some(input_cache_read),
                    Some(input_cache_write),
                ) => Some(
                    PricingV {
                        prompt,
                        completion,
                        request,
                        image,
                        web_search,
                        internal_reasoning,
                        input_cache_read,
                        input_cache_write,
                    },
                ),
                _ => None,
            }
        },
        _ => None,
    }
}

/// Decodes a top-provider block.
pub open spec fn spec_decode_top_provider(v: JsonV) -> Option<TopProviderV> {
    match v {
        JsonV::Obj(ms) => {
            match (
                spec_opt_u64(ms, bytes_of("context_length"@)),
                spec_opt_u64(ms, bytes_of("max_completion_tokens"@)),
                spec_req_bool(ms, bytes_of("is_moderated"@)),
            ) {
                (Some(context_length), Some(max_completion_tokens), Some(is_moderated)) => Some(
                    TopProviderV { context_length, max_completion_tokens, is_moderated },
                ),
                _ => None,
            }
        },
        _ => None,
    }
}

/// Decodes one model entry.
pub open spec fn spec_decode_model(v: JsonV) -> Option<ModelV> {
    match v {
        JsonV::Obj(ms) => {
            match (
                spec_req_str(ms, bytes_of("id"@)),
                spec_opt_str_or_null(ms, bytes_of("hugging_face_id"@)),
                spec_req_str(ms, bytes_of("name"@)),
                spec_req_u64(ms, bytes_of("created"@)),
                spec_req_str(ms, bytes_of("description"@)),
                spec_req_u64(ms, bytes_of("context_length"@)),
            ) {
                (
                    Some(id),
                    Some(hugging_face_id),
                    Some(name),
                    Some(created),
                    Some(description),
                    Some(context_length),
                ) => {
                    let blocks = (
                        match spec_get(ms, bytes_of("architecture"@)) {
                            Some(a) => spec_decode_architecture(a),
                            None => None,
                        },
                        match spec_get(ms, bytes_of("pricing"@)) {
                            Some(p) => spec_decode_pricing(p),
                            None => None,
                        },
                        match spec_get(ms, bytes_of("top_provider"@)) {
                            Some(t) => spec_decode_top_provider(t),
                            None => None,
                        },
                        match spec_get(ms, bytes_of("per_request_limits"@)) {
                            None => Some(None),
                            Some(JsonV::Null) => Some(None),
                            Some(JsonV::Obj(pm)) => match spec_decode_pairs(pm, 0) {
                                None => None,
                                Some(ps) => Some(Some(ps)),
                            },
                            Some(_) => None,
                        },
                        spec_req_str_list(ms, bytes_of("supported_parameters"@)),
                    );
                    match blocks {
                        (
                            Some(architecture),
                            Some(pricing),
                            Some(top_provider),
                            Some(per_request_limits),
                            Some(supported_parameters),
                        ) => Some(
                            ModelV {
                                id,
                                hugging_face_id,
                                name,
                                created,
                                description,
                                context_length,
                                architecture,
                                pricing,
                                top_provider,
                                per_request_limits,
                                supported_parameters,
                            },
                        ),
                        _ => None,
                    }
                },
                _ => None,
            }
        },
        _ => None,
    }
}

/// Decodes the model entries of an array from `i` on.
pub open spec fn spec_decode_models(es: Seq<JsonV>, i: int) -> Option<Seq<ModelV>>
    decreases es.len() - i,
{
    if i < 0 || i >= es.len() {
        Some(Seq::empty())
    } else {
        match spec_decode_model(es[i]) {
            None => None,
            Some(m) => match spec_decode_models(es, i + 1) {
                None => None,
                Some(rest) => Some(seq![m] + rest),
            },
        }
    }
}

/// Decodes a whole model listing: an object whose `data` member is the
/// array of models.
pub open spec fn spec_decode_listing(v: JsonV) -> Option<Seq<ModelV>> {
    match v {
        JsonV::Obj(ms) => match spec_get(ms, bytes_of("data"@)) {
            Some(JsonV::Arr(es)) => spec_decode_models(es, 0),
            _ => None,
        },
        _ => None,
    }
}

/// Whether a decoded string option carries the abstract shape `g`.
pub open spec fn m_opt_str(e: Option<String>, g: Option<Seq<u8>>) -> bool {
    match (e, g) {
        (None, None) => true,
        (Some(s), Some(t)) => bytes_of(s@) == t,
        _ => false,
    }
}

/// Whether a decoded string list carries the abstract shape `g`.
pub open spec fn m_strs(e: Seq<String>, g: Seq<Seq<u8>>) -> bool {
    e.len() == g.len() && forall|k: int| 0 <= k < g.len() ==> bytes_of((#[trigger] e[k])@) == g[k]
}

/// Whether a decoded architecture block carries the abstract shape `g`.
pub open spec fn m_arch(e: JsonArchitecture, g: ArchV) -> bool {
    bytes_of(e.modality@) == g.modality && m_strs(e.input_modalities@, g.input_modalities)
        && m_strs(e.output_modalities@, g.output_modalities) && bytes_of(e.tokenizer@)
        == g.tokenizer && m_opt_str(e.instruct_type, g.instruct_type)
}

/// Whether a decoded pricing block carries the abstract shape `g`.
pub open spec fn m_pricing(e: JsonPricing, g: PricingV) -> bool {
    bytes_of(e.prompt@) == g.prompt && bytes_of(e.completion@) == g.completion && m_opt_str(
        e.request,
        g.request,
    ) && m_opt_str(e.image, g.image) && m_opt_str(e.web_search, g.web_search) && m_opt_str(
        e.internal_reasoning,
        g.internal_reasoning,
    ) && m_opt_str(e.input_cache_read, g.input_cache_read) && m_opt_str(
        e.input_cache_write,
        g.input_cache_write,
    )
}

/// Whether a decoded top-provider block carries the abstract shape `g`.
pub open spec fn m_top(e: JsonTopProvider, g: TopProviderV) -> bool {
    (match (e.context_length, g.context_length) {
        (None, None) => true,
        (Some(a), Some(b)) => a as int == b,
        _ => false,
    }) && (match (e.max_completion_tokens, g.max_completion_tokens) {
        (None, None) => true,
        (Some(a), Some(b)) => a as int == b,
        _ => false,
    }) && e.is_moderated == g.is_moderated
}

/// Whether a decoded model entry carries the abstract shape `g`.
pub open spec fn m_model(e: LLMModel, g: ModelV) -> bool {
    bytes_of(e.id@) == g.id && m_opt_str(e.hugging_face_id, g.hugging_face_id) && bytes_of(e.name@)
        == g.name && e.created as int == g.created && bytes_of(e.description@) == g.description
        && e.context_length as int == g.context_length && m_arch(e.architecture, g.architecture)
        && m_pricing(e.pricing, g.pricing) && m_top(e.top_provider, g.top_provider) && (match (
        e.per_request_limits,
        g.per_request_limits,
    ) {
        (None, None) => true,
        (Some(ps), Some(qs)) => ps@.len() == qs.len() && forall|k: int|
            0 <= k < qs.len() ==> bytes_of((#[trigger] ps@[k]).0@) == qs[k].0 && bytes_of(
                ps@[k].1@,
            ) == qs[k].1,
        _ => false,
    }) && m_strs(e.supported_parameters@, g.supported_parameters)
}

/// Whether a decoded listing carries the abstract shape `g`.
pub open spec fn m_models(e: Seq<LLMModel>, g: Seq<ModelV>) -> bool {
    e.len() == g.len() && forall|k: int| 0 <= k < g.len() ==> m_model(#[trigger] e[k], g[k])
}

} // verus!

verus! {

/// An optional string member that may also be null.
fn get_opt_str_or_null(ms: &Vec<(Vec<u8>, Json)>, key: &str) -> (r: Result<Option<String>, Error>)
    ensures
        (r is Ok) == (spec_opt_str_or_null(jv_members(ms@), bytes_of(key@)) is Some),
        r matches Ok(s) ==> m_opt_str(s, spec_opt_str_or_null(jv_members(ms@), bytes_of(key@))->0),
        r matches Err(e) ==> e matches Error::Deserialization(_),
{
    match obj_get(ms, key) {
        None => Ok(None),
        Some(v) => match v {
            Json::Null => Ok(None),
            _ => match json_string(v) {
                None => de_err(),
                Some(s) => Ok(Some(s)),
            },
        },
    }
}

/// A required unsigned integer member.
fn get_req_u64(ms: &Vec<(Vec<u8>, Json)>, key: &str) -> (r: Result<u64, Error>)
    ensures
        (r is Ok) == (spec_req_u64(jv_members(ms@), bytes_of(key@)) is Some),
        r matches Ok(i) ==> spec_req_u64(jv_members(ms@), bytes_of(key@)) == Some(i as int),
        r matches Err(e) ==> e matches Error::Deserialization(_),
{
    match obj_get(ms, key) {
        None => de_err(),
        Some(v) => match v {
            Json::Int(i) => {
                if *i >= 0 {
                    Ok(*i as u64)
                } else {
                    de_err()
                }
            },
            _ => de_err(),
        },
    }
}

/// An optional unsigned integer member that may also be null.
fn get_opt_u64(ms: &Vec<(Vec<u8>, Json)>, key: &str) -> (r: Result<Option<u64>, Error>)
    ensures
        (r is Ok) == (spec_opt_u64(jv_members(ms@), bytes_of(key@)) is Some),
        r matches Ok(o) ==> (match (o, spec_opt_u64(jv_members(ms@), bytes_of(key@))->0) {
            (None, None) => true,
            (Some(a), Some(b)) => a as int == b,
            _ => false,
        }),
        r matches Err(e) ==> e matches Error::Deserialization(_),
{
    match obj_get(ms, key) {
        None => Ok(None),
        Some(v) => match v {
            Json::Null => Ok(None),
            Json::Int(i) => {
                if *i >= 0 {
                    Ok(Some(*i as u64))
                } else {
                    de_err()
                }
            },
            _ => de_err(),
        },
    }
}

/// A required boolean member.
fn get_req_bool(ms: &Vec<(Vec<u8>, Json)>, key: &str) -> (r: Result<bool, Error>)
    ensures
        (r is Ok) == (spec_req_bool(jv_members(ms@), bytes_of(key@)) is Some),
        r matches Ok(b) ==> spec_req_bool(jv_members(ms@), bytes_of(key@)) == Some(b),
        r matches Err(e) ==> e matches Error::Deserialization(_),
{
    match obj_get(ms, key) {
        None => de_err(),
        Some(v) => match v {
            Json::Bool(b) => Ok(*b),
            _ => de_err(),
        },
    }
}

/// Decodes the strings of an array from `i` on.
fn decode_str_list(es: &Vec<Json>, i: usize) -> (r: Result<Vec<String>, Error>)
    requires
        i <= es@.len(),
    ensures
        (r is Ok) == (spec_decode_strs(jv_list(es@), i as int) is Some),
        r matches Ok(v) ==> m_strs(v@, spec_decode_strs(jv_list(es@), i as int)->0),
        r matches Err(e) ==> e matches Error::Deserialization(_),
    decreases es@.len() - i,
{
    proof {
        crate::json::lemma_jv_list(es@);
    }
    if i == es.len() {
        Ok(Vec::new())
    } else {
        let s = match json_string(&es[i]) {
            None => {
                return de_err();
            },
            Some(x) => x,
        };
        let mut rest = match decode_str_list(es, i + 1) {
            Ok(x) => x,
            Err(e) => {
                return Err(e);
            },
        };
        rest.insert(0, s);
        Ok(rest)
    }
}

/// A required string-list member.
fn get_req_str_list(ms: &Vec<(Vec<u8>, Json)>, key: &str) -> (r: Result<Vec<String>, Error>)
    ensures
        (r is Ok) == (spec_req_str_list(jv_members(ms@), bytes_of(key@)) is Some),
        r matches Ok(v) ==> m_strs(v@, spec_req_str_list(jv_members(ms@), bytes_of(key@))->0),
        r matches Err(e) ==> e matches Error::Deserialization(_),
{
    match obj_get(ms, key) {
        None => de_err(),
        Some(v) => match v {
            Json::Arr(es) => decode_str_list(es, 0),
            _ => de_err(),
        },
    }
}

/// Decodes the string-valued members of an object from `i` on.
fn decode_pairs(ms: &Vec<(Vec<u8>, Json)>, i: usize) -> (r: Result<Vec<(String, String)>, Error>)
    requires
        i <= ms@.len(),
    ensures
        (r is Ok) == (spec_decode_pairs(jv_members(ms@), i as int) is Some),
        r matches Ok(v) ==> v@.len() == spec_decode_pairs(jv_members(ms@), i as int)->0.len()
            && forall|k: int|
            0 <= k < v@.len() ==> bytes_of((#[trigger] v@[k]).0@) == spec_decode_pairs(
                jv_members(ms@),
                i as int,
            )->0[k].0 && bytes_of(v@[k].1@) == spec_decode_pairs(jv_members(ms@), i as int)->0[k].1,
        r matches Err(e) ==> e matches Error::Deserialization(_),
    decreases ms@.len() - i,
{
    proof {
        crate::json::lemma_jv_members(ms@);
    }
    if i == ms.len() {
        Ok(Vec::new())
    } else {
        let m = &ms[i];
        let k = match crate::json_types::bytes_to_string(crate::json_types::bytes_to_vec(
            m.0.as_slice(),
        )) {
            None => {
                return de_err();
            },
            Some(x) => x,
        };
        let s = match json_string(&m.1) {
            None => {
                return de_err();
            },
            Some(x) => x,
        };
        let mut rest = match decode_pairs(ms, i + 1) {
            Ok(x) => x,
            Err(e) => {
                return Err(e);
            },
        };
        rest.insert(0, (k, s));
        Ok(rest)
    }
}

/// Decodes an architecture block.
pub fn decode_architecture(j: &Json) -> (r: Result<JsonArchitecture, Error>)
    ensures
        (r is Ok) == (spec_decode_architecture(jv(*j)) is Some),
        r matches Ok(a) ==> m_arch(a, spec_decode_architecture(jv(*j))->0),
        r matches Err(e) ==> e matches Error::Deserialization(_),
{
    match j {
        Json::Obj(ms) => {
            let modality = match get_req_string(ms, "modality") {
                Ok(x) => x,
                Err(e) => {
                    return Err(e);
                },
            };
            let input_modalities = match get_req_str_list(ms, "input_modalities") {
                Ok(x) => x,
                Err(e) => {
                    return Err(e);
                },
            };
            let output_modalities = match get_req_str_list(ms, "output_modalities") {
                Ok(x) => x,
                Err(e) => {
                    return Err(e);
                },
            };
            let tokenizer = match get_req_string(ms, "tokenizer") {
                Ok(x) => x,
                Err(e) => {
                    return Err(e);
                },
            };
            let instruct_type = match get_opt_str_or_null(ms, "instruct_type") {
                Ok(x) => x,
                Err(e) => {
                    return Err(e);
                },
            };
            Ok(
                JsonArchitecture {
                    modality,
                    input_modalities,
                    output_modalities,
                    tokenizer,
                    instruct_type,
                },
            )
        },
        _ => de_err(),
    }
}

/// Decodes a pricing block.
pub fn decode_pricing(j: &Json) -> (r: Result<JsonPricing, Error>)
    ensures
        (r is Ok) == (spec_decode_pricing(jv(*j)) is Some),
        r matches Ok(p) ==> m_pricing(p, spec_decode_pricing(jv(*j))->0),
        r matches Err(e) ==> e matches Error::Deserialization(_),
{
    match j {
        Json::Obj(ms) => {
            let prompt = match get_req_string(ms, "prompt") {
                Ok(x) => x,
                Err(e) => {
                    return Err(e);
                },
            };
            let completion = match get_req_string(ms, "completion") {
                Ok(x) => x,
                Err(e) => {
                    return Err(e);
                },
            };
            let request = match get_opt_str_or_null(ms, "request") {
                Ok(x) => x,
                Err(e) => {
                    return Err(e);
                },
            };
            let image = match get_opt_str_or_null(ms, "image") {
                Ok(x) => x,
                Err(e) => {
                    return Err(e);
                },
            };
            let web_search = match get_opt_str_or_null(ms, "web_search") {
                Ok(x) => x,
                Err(e) => {
                    return Err(e);
                },
            };
            let internal_reasoning = match get_opt_str_or_null(ms, "internal_reasoning") {
                Ok(x) => x,
                Err(e) => {
                    return Err(e);
                },
            };
            let input_cache_read = match get_opt_str_or_null(ms, "input_cache_read") {
                Ok(x) => x,
                Err(e) => {
                    return Err(e);
                },
            };
            let input_cache_write = match get_opt_str_or_null(ms, "input_cache_write") {
                Ok(x) => x,
                Err(e) => {
                    return Err(e);
                },
            };
            Ok(
                JsonPricing {
                    prompt,
                    completion,
                    request,
                    image,
                    web_search,
                    internal_reasoning,
                    input_cache_read,
                    input_cache_write,
                },
            )
        },
        _ => de_err(),
    }
}

/// Decodes a top-provider block.
pub fn decode_top_provider(j: &Json) -> (r: Result<JsonTopProvider, Error>)
    ensures
        (r is Ok) == (spec_decode_top_provider(jv(*j)) is Some),
        r matches Ok(t) ==> m_top(t, spec_decode_top_provider(jv(*j))->0),
        r matches Err(e) ==> e matches Error::Deserialization(_),
{
    match j {
        Json::Obj(ms) => {
            let context_length = match get_opt_u64(ms, "context_length") {
                Ok(x) => x,
                Err(e) => {
                    return Err(e);
                },
            };
            let max_completion_tokens = match get_opt_u64(ms, "max_completion_tokens") {
                Ok(x) => x,
                Err(e) => {
                    return Err(e);
                },
            };
            let is_moderated = match get_req_bool(ms, "is_moderated") {
                Ok(x) => x,
                Err(e) => {
                    return Err(e);
                },
            };
            Ok(JsonTopProvider { context_length, max_completion_tokens, is_moderated })
        },
        _ => de_err(),
    }
}

/// Decodes one model entry.
pub fn decode_model(j: &Json) -> (r: Result<LLMModel, Error>)
    ensures
        (r is Ok) == (spec_decode_model(jv(*j)) is Some),
        r matches Ok(m) ==> m_model(m, spec_decode_model(jv(*j))->0),
        r matches Err(e) ==> e matches Error::Deserialization(_),
{
    match j {
        Json::Obj(ms) => {
            let id = match get_req_string(ms, "id") {
                Ok(x) => x,
                Err(e) => {
                    return Err(e);
                },
            };
            let hugging_face_id = match get_opt_str_or_null(ms, "hugging_face_id") {
                Ok(x) => x,
                Err(e) => {
                    return Err(e);
                },
            };
            let name = match get_req_string(ms, "name") {
                Ok(x) => x,
                Err(e) => {
                    return Err(e);
                },
            };
            let created = match get_req_u64(ms, "created") {
                Ok(x) => x,
                Err(e) => {
                    return Err(e);
                },
            };
            let description = match get_req_string(ms, "description") {
                Ok(x) => x,
                Err(e) => {
                    return Err(e);
                },
            };
            let context_length = match get_req_u64(ms, "context_length") {
                Ok(x) => x,
                Err(e) => {
                    return Err(e);
                },
            };
            let architecture = match obj_get(ms, "architecture") {
                None => {
                    return de_err();
                },
                Some(a) => match decode_architecture(a) {
                    Ok(x) => x,
                    Err(e) => {
                        return Err(e);
                    },
                },
            };
            let pricing = match obj_get(ms, "pricing") {
                None => {
                    return de_err();
                },
                Some(p) => match decode_pricing(p) {
                    Ok(x) => x,
                    Err(e) => {
                        return Err(e);
                    },
                },
            };
            let top_provider = match obj_get(ms, "top_provider") {
                None => {
                    return de_err();
                },
                Some(t) => match decode_top_provider(t) {
                    Ok(x) => x,
                    Err(e) => {
                        return Err(e);
                    },
                },
            };
            let per_request_limits = match obj_get(ms, "per_request_limits") {
                None => None,
                Some(v) => match v {
                    Json::Null => None,
                    Json::Obj(pm) => match decode_pairs(pm, 0) {
                        Ok(x) => Some(x),
                        Err(e) => {
                            return Err(e);
                        },
                    },
                    _ => {
                        return de_err();
                    },
                },
            };
            let supported_parameters = match get_req_str_list(ms, "supported_parameters") {
                Ok(x) => x,
                Err(e) => {
                    return Err(e);
                },
            };
            Ok(
                LLMModel {
                    id,
                    hugging_face_id,
                    name,
                    created,
                    description,
                    context_length,
                    architecture,
                    pricing,
                    top_provider,
                    per_request_limits,
                    supported_parameters,
                },
            )
        },
        _ => de_err(),
    }
}

/// Decodes the model entries of an array from `i` on.
fn decode_model_list(es: &Vec<Json>, i: usize) -> (r: Result<Vec<LLMModel>, Error>)
    requires
        i <= es@.len(),
    ensures
        (r is Ok) == (spec_decode_models(jv_list(es@), i as int) is Some),
        r matches Ok(v) ==> m_models(v@, spec_decode_models(jv_list(es@), i as int)->0),
        r matches Err(e) ==> e matches Error::Deserialization(_),
    decreases es@.len() - i,
{
    proof {
        crate::json::lemma_jv_list(es@);
    }
    if i == es.len() {
        Ok(Vec::new())
    } else {
        let m = match decode_model(&es[i]) {
            Ok(x) => x,
            Err(e) => {
                return Err(e);
            },
        };
        let mut rest = match decode_model_list(es, i + 1) {
            Ok(x) => x,
            Err(e) => {
                return Err(e);
            },
        };
        rest.insert(0, m);
        Ok(rest)
    }
}

/// Decodes a whole model listing.
pub fn decode_models(j: &Json) -> (r: Result<JsonModels, Error>)
    ensures
        (r is Ok) == (spec_decode_listing(jv(*j)) is Some),
        r matches Ok(v) ==> m_models(v.models@, spec_decode_listing(jv(*j))->0),
        r matches Err(e) ==> e matches Error::Deserialization(_),
{
    match j {
        Json::Obj(ms) => match obj_get(ms, "data") {
            None => de_err(),
            Some(v) => match v {
                Json::Arr(es) => match decode_model_list(es, 0) {
                    Ok(models) => Ok(JsonModels { models }),
                    Err(e) => Err(e),
                },
                _ => de_err(),
            },
        },
        _ => de_err(),
    }
}

} // verus!

verus! {

/// The catalog over a fetched model listing.
pub struct LLMModels {
    models: JsonModels,
}

impl LLMModels {
    /// The models the catalog holds.
    pub closed spec fn spec_models(&self) -> Seq<LLMModel> {
        self.models.models@
    }

    /// Wraps a decoded listing.
    pub fn new(models: JsonModels) -> (r: Self)
        ensures
            r.spec_models() == models.models@,
    {
        Self { models }
    }

    /// The full ordered list as fetched; the catalog never re-sorts.
    pub fn get_models(&self) -> (r: &[LLMModel])
        ensures
            r@ == self.spec_models(),
    {
        self.models.models.as_slice()
    }
}

/// The display line of a pricing block: prompt and completion always,
/// then one labelled segment per present optional price, in field order.
pub open spec fn spec_pricing_line(p: JsonPricing) -> Seq<char> {
    "Prompt: "@ + p.prompt@ + ", Completion: "@ + p.completion@ + opt_seg(", Request: "@, p.request)
        + opt_seg(", Image: "@, p.image) + opt_seg(", Web Search: "@, p.web_search) + opt_seg(
        ", Internal Reasoning: "@,
        p.internal_reasoning,
    ) + opt_seg(", Input Cache Read: "@, p.input_cache_read) + opt_seg(
        ", Input Cache Write: "@,
        p.input_cache_write,
    )
}

/// A labelled optional segment: empty when the price is absent.
pub open spec fn opt_seg(label: Seq<char>, v: Option<String>) -> Seq<char> {
    match v {
        None => Seq::empty(),
        Some(s) => label + s@,
    }
}

impl JsonPricing {
    /// Renders the pricing block as one line of text.
    pub fn display_string(&self) -> (r: String)
        ensures
            r@ == spec_pricing_line(*self),
    {
        let mut out: String = "Prompt: ".to_owned();
        out.append(self.prompt.as_str());
        out.append(", Completion: ");
        out.append(self.completion.as_str());
        push_opt_seg(", Request: ", &self.request, &mut out);
        push_opt_seg(", Image: ", &self.image, &mut out);
        push_opt_seg(", Web Search: ", &self.web_search, &mut out);
        push_opt_seg(", Internal Reasoning: ", &self.internal_reasoning, &mut out);
        push_opt_seg(", Input Cache Read: ", &self.input_cache_read, &mut out);
        push_opt_seg(", Input Cache Write: ", &self.input_cache_write, &mut out);
        out
    }
}

/// Appends a labelled segment to `out` when the price is present.
fn push_opt_seg(label: &str, v: &Option<String>, out: &mut String)
    ensures
        final(out)@ == old(out)@ + opt_seg(label@, *v),
{
    match v {
        None => {
            proof {
                assert(final(out)@ =~= old(out)@ + opt_seg(label@, *v));
            }
        },
        Some(s) => {
            out.append(label);
            out.append(s.as_str());
        },
    }
}

/// The result of lowercasing a character sequence, as `str::to_lowercase`
/// computes it; the mapping depends on the characters alone.
pub uninterp spec fn lower_of(s: Seq<char>) -> Seq<char>;

/// Relies on `str::to_lowercase`: the Unicode lowercase mapping of the
/// input, a function of the characters alone.
#[verifier::external_body]
fn lowercase(s: &str) -> (r: String)
    ensures
        r@ == lower_of(s@),
{
    s.to_lowercase()
}

/// Whether `needle` occurs as a contiguous run inside `hay`.
pub open spec fn spec_contains_sub(hay: Seq<u8>, needle: Seq<u8>) -> bool {
    exists|k: int|
        0 <= k <= hay.len() - needle.len() && #[trigger] hay.subrange(k, k + needle.len())
            == needle
}

/// Whether `hay` matches `needle` at offset `k`.
fn match_at(hay: &[u8], needle: &[u8], k: usize) -> (r: bool)
    requires
        k + needle@.len() <= hay@.len(),
    ensures
        r == (hay@.subrange(k as int, k + needle@.len()) == needle@),
{
    let n = needle.len();
    let hl = hay.len();
    let mut m: usize = 0;
    while m < n
        invariant
            m <= n,
            n == needle@.len(),
            hl == hay@.len(),
            k + n <= hl,
            forall|t: int| 0 <= t < m ==> hay@[k + t] == needle@[t],
        decreases n - m,
    {
        if hay[k + m] != needle[m] {
            proof {
                assert(hay@.subrange(k as int, k + needle@.len())[m as int] != needle@[m as int]);
            }
            return false;
        }
        m = m + 1;
    }
    proof {
        assert(hay@.subrange(k as int, k + needle@.len()) =~= needle@);
    }
    true
}

/// Whether `needle` occurs inside `hay`.
fn contains_sub(hay: &[u8], needle: &[u8]) -> (r: bool)
    ensures
        r == spec_contains_sub(hay@, needle@),
{
    if needle.len() > hay.len() {
        proof {
            assert(!spec_contains_sub(hay@, needle@));
        }
        return false;
    }
    if needle.len() == 0 {
        proof {
            assert(hay@.subrange(0, 0 + needle@.len() as int) =~= needle@);
            assert(spec_contains_sub(hay@, needle@));
        }
        return true;
    }
    let last = hay.len() - needle.len();
    let mut k: usize = 0;
    while k <= last
        invariant
            k <= last + 1,
            last == hay@.len() - needle@.len(),
            needle@.len() >= 1,
            last < hay@.len(),
            hay@.len() <= usize::MAX,
            forall|t: int|
                0 <= t < k ==> #[trigger] hay@.subrange(t, t + needle@.len()) != needle@,
        decreases last - k + 1,
    {
        if match_at(hay, needle, k) {
            return true;
        }
        k = k + 1;
    }
    false
}

impl LLMModel {
    /// Whether the model advertises the capability string `cap` among its
    /// supported parameters.
    pub fn supports(&self, cap: &str) -> (r: bool)
        ensures
            r == exists|i: int|
                0 <= i < self.supported_parameters@.len() && bytes_of(
                    (#[trigger] self.supported_parameters@[i])@,
                ) == bytes_of(cap@),
    {
        let n = self.supported_parameters.len();
        let mut i: usize = 0;
        while i < n
            invariant
                i <= n,
                n == self.supported_parameters@.len(),
                forall|t: int|
                    0 <= t < i ==> bytes_of((#[trigger] self.supported_parameters@[t])@)
                        != bytes_of(cap@),
            decreases n - i,
        {
            if str_eq_bytes(self.supported_parameters[i].as_str(), cap) {
                return true;
            }
            i = i + 1;
        }
        false
    }

    /// Whether the lowercased model name contains `search`.
    pub fn name_contains(&self, search: &str) -> (r: bool)
        ensures
            r == spec_contains_sub(bytes_of(lower_of(self.name@)), bytes_of(search@)),
    {
        let lowered = lowercase(self.name.as_str());
        contains_sub(lowered.as_str().as_bytes(), search.as_bytes())
    }

    /// Whether the model passes the catalog filters: an optional search
    /// string matched against the lowercased name, and the capability
    /// flags for structured output, tool choice and function calling.
    pub fn matches_filter(
        &self,
        search: Option<&String>,
        structured_output: bool,
        tool_choice: bool,
        function_calling: bool,
    ) -> (r: bool)
        ensures
            r == ({
                &&& (match search {
                    Some(s) => spec_contains_sub(bytes_of(lower_of(self.name@)), bytes_of(s@)),
                    None => true,
                })
                &&& (structured_output ==> exists|i: int|
                    0 <= i < self.supported_parameters@.len() && bytes_of(
                        (#[trigger] self.supported_parameters@[i])@,
                    ) == bytes_of("structured_outputs"@))
                &&& (tool_choice ==> exists|i: int|
                    0 <= i < self.supported_parameters@.len() && bytes_of(
                        (#[trigger] self.supported_parameters@[i])@,
                    ) == bytes_of("tool_choice"@))
                &&& (function_calling ==> exists|i: int|
                    0 <= i < self.supported_parameters@.len() && bytes_of(
                        (#[trigger] self.supported_parameters@[i])@,
                    ) == bytes_of("tools"@))
            }),
    {
        let search_ok = match search {
            Some(s) => self.name_contains(s.as_str()),
            None => true,
        };
        if !search_ok {
            return false;
        }
        if structured_output && !self.supports("structured_outputs") {
            return false;
        }
        if tool_choice && !self.supports("tool_choice") {
            return false;
        }
        if function_calling && !self.supports("tools") {
            return false;
        }
        true
    }
}

/// Whether two string slices hold the same bytes.
fn str_eq_bytes(a: &str, b: &str) -> (r: bool)
    ensures
        r == (bytes_of(a@) == bytes_of(b@)),
{
    let ab = a.as_bytes();
    let bb = b.as_bytes();
    if ab.len() != bb.len() {
        proof {
            assert(bytes_of(a@).len() != bytes_of(b@).len());
        }
        return false;
    }
    let n = ab.len();
    let mut k: usize = 0;
    while k < n
        invariant
            k <= n,
            n == ab@.len() == bb@.len(),
            ab@ == bytes_of(a@),
            bb@ == bytes_of(b@),
            forall|m: int| 0 <= m < k ==> ab@[m] == bb@[m],
        decreases n - k,
    {
        if ab[k] != bb[k] {
            proof {
                assert(bytes_of(a@)[k as int] != bytes_of(b@)[k as int]);
            }
            return false;
        }
        k = k + 1;
    }
    proof {
        assert(ab@ =~= bb@);
    }
    true
}

} // verus!
