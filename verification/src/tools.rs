//! The schema codec and the tool descriptor.
//!
//! A parameter shape is described explicitly, field by field; the codec
//! turns it into a JSON Schema document with `type: "object"`, one
//! property per field in declaration order, a `required` list holding
//! exactly the non-optional field names, and `additionalProperties: false`.
//! A [`Tool`] pairs a name and a description with such a shape and builds
//! the wire-level tool definition, always strict.

use vstd::prelude::*;

use crate::json::Json;
use crate::json::JsonV;
use crate::json::jv;
use crate::json::jv_list;
use crate::json::jv_members;
use crate::json_types::JsonFunctionInfo;
use crate::json_types::JsonTool;
use crate::json_types::bytes_of;

verus! {

/// The semantic type of one described field.
pub enum SchemaType {
    /// A JSON string; its tag is `string`.
    Text,
    /// A JSON number; its tag is `number`.
    Number,
    /// A JSON integer; its tag is `integer`.
    Integer,
    /// A JSON boolean; its tag is `boolean`.
    Boolean,
}

/// One field of a described parameter shape.
pub struct SchemaField {
    /// The property name.
    pub name: String,
    /// The semantic type of the property.
    pub field_type: SchemaType,
    /// The documentation string of the property.
    pub description: String,
    /// Whether the field may be absent; optional fields are left out of
    /// the `required` list.
    pub optional: bool,
}

/// The tag bytes of a schema type.
pub open spec fn spec_type_tag(t: SchemaType) -> Seq<u8> {
    match t {
        SchemaType::Text => bytes_of("string"@),
        SchemaType::Number => bytes_of("number"@),
        SchemaType::Integer => bytes_of("integer"@),
        SchemaType::Boolean => bytes_of("boolean"@),
    }
}

/// The property entry of one field: its name, mapped to an object with
/// the type tag and the documentation string.
pub open spec fn spec_property(f: SchemaField) -> (Seq<u8>, JsonV) {
    (
        bytes_of(f.name@),
        JsonV::Obj(
            seq![
                (bytes_of("type"@), JsonV::Str(spec_type_tag(f.field_type))),
                (bytes_of("description"@), JsonV::Str(bytes_of(f.description@))),
            ],
        ),
    )
}

/// The `required` entries contributed by the fields from `i` on: the
/// names of the non-optional ones, in declaration order.
pub open spec fn spec_required_from(fs: Seq<SchemaField>, i: int) -> Seq<JsonV>
    decreases fs.len() - i,
{
    if i < 0 || i >= fs.len() {
        Seq::empty()
    } else if fs[i].optional {
        spec_required_from(fs, i + 1)
    } else {
        seq![JsonV::Str(bytes_of(fs[i].name@))] + spec_required_from(fs, i + 1)
    }
}

/// The schema document of a parameter shape.
pub open spec fn spec_schema_doc(fs: Seq<SchemaField>) -> JsonV {
    JsonV::Obj(
        seq![
            (bytes_of("type"@), JsonV::Str(bytes_of("object"@))),
            (
                bytes_of("properties"@),
                JsonV::Obj(fs.map_values(|f: SchemaField| spec_property(f))),
            ),
            (bytes_of("required"@), JsonV::Arr(spec_required_from(fs, 0))),
            (bytes_of("additionalProperties"@), JsonV::Bool(false)),
        ],
    )
}

/// A name appears in the `required` entries from `i` on exactly when a
/// non-optional field from `i` on carries it.
pub proof fn lemma_required_names(fs: Seq<SchemaField>, i: int, n: Seq<u8>)
    requires
        0 <= i <= fs.len(),
    ensures
        spec_required_from(fs, i).contains(JsonV::Str(n)) <==> exists|k: int|
            i <= k < fs.len() && !fs[k].optional && bytes_of(#[trigger] fs[k].name@) == n,
    decreases fs.len() - i,
{
    if i < fs.len() {
        lemma_required_names(fs, i + 1, n);
        let rest = spec_required_from(fs, i + 1);
        if fs[i].optional {
            if rest.contains(JsonV::Str(n)) {
                let k = choose|k: int|
                    i + 1 <= k < fs.len() && !fs[k].optional && bytes_of(
                        #[trigger] fs[k].name@,
                    ) == n;
                assert(i <= k < fs.len() && !fs[k].optional && bytes_of(fs[k].name@) == n);
            }
            if exists|k: int|
                i <= k < fs.len() && !fs[k].optional && bytes_of(#[trigger] fs[k].name@) == n {
                let k = choose|k: int|
                    i <= k < fs.len() && !fs[k].optional && bytes_of(#[trigger] fs[k].name@) == n;
                assert(i + 1 <= k);
            }
        } else {
            let whole = seq![JsonV::Str(bytes_of(fs[i].name@))] + rest;
            assert(spec_required_from(fs, i) == whole);
            if bytes_of(fs[i].name@) == n {
                assert(whole[0] == JsonV::Str(n));
                assert(whole.contains(JsonV::Str(n)));
            } else {
                if whole.contains(JsonV::Str(n)) {
                    let w = choose|w: int| 0 <= w < whole.len() && whole[w] == JsonV::Str(n);
                    assert(w != 0);
                    assert(rest[w - 1] == JsonV::Str(n));
                    assert(rest.contains(JsonV::Str(n)));
                }
                if rest.contains(JsonV::Str(n)) {
                    let w = choose|w: int| 0 <= w < rest.len() && rest[w] == JsonV::Str(n);
                    assert(whole[w + 1] == JsonV::Str(n));
                    assert(whole.contains(JsonV::Str(n)));
                }
            }
        }
    }
}

/// The schema document lists exactly the non-optional field names as
/// required, keeps one property per field in declaration order, and sets
/// `additionalProperties` to `false`.
pub proof fn lemma_schema_doc_shape(fs: Seq<SchemaField>)
    ensures
        spec_schema_doc(fs) matches JsonV::Obj(ms) && {
            &&& ms.len() == 4
            &&& ms[3] == (bytes_of("additionalProperties"@), JsonV::Bool(false))
            &&& ms[1].1 matches JsonV::Obj(props) && props.len() == fs.len() && forall|k: int|
                0 <= k < fs.len() ==> (#[trigger] props[k]) == spec_property(fs[k])
            &&& ms[2].1 matches JsonV::Arr(req) && forall|n: Seq<u8>|
                (#[trigger] req.contains(JsonV::Str(n))) <==> exists|k: int|
                    0 <= k < fs.len() && !fs[k].optional && bytes_of(#[trigger] fs[k].name@) == n
        },
{
    let ms = spec_schema_doc(fs)->Obj_0;
    assert forall|n: Seq<u8>| #[trigger]
        spec_required_from(fs, 0).contains(JsonV::Str(n)) <==> exists|k: int|
            0 <= k < fs.len() && !fs[k].optional && bytes_of(#[trigger] fs[k].name@) == n by {
        lemma_required_names(fs, 0, n);
    }
}

/// The exec tag string of a schema type.
fn type_tag(t: &SchemaType) -> (r: &'static str)
    ensures
        bytes_of(r@) == spec_type_tag(*t),
{
    match t {
        SchemaType::Text => "string",
        SchemaType::Number => "number",
        SchemaType::Integer => "integer",
        SchemaType::Boolean => "boolean",
    }
}

/// Builds the `required` entries of the fields from `i` on.
fn build_required(fs: &Vec<SchemaField>, i: usize) -> (r: Vec<Json>)
    requires
        i <= fs@.len(),
    ensures
        jv_list(r@) == spec_required_from(fs@, i as int),
    decreases fs@.len() - i,
{
    if i == fs.len() {
        let r: Vec<Json> = Vec::new();
        proof {
            assert(jv_list(r@) =~= spec_required_from(fs@, i as int));
        }
        r
    } else {
        let mut rest = build_required(fs, i + 1);
        if fs[i].optional {
            rest
        } else {
            let ghost restv = rest@;
            rest.insert(0, Json::Str(crate::json_types::string_bytes(&fs[i].name)));
            proof {
                crate::json::lemma_jv_list(rest@);
                crate::json::lemma_jv_list(restv);
                assert(jv_list(rest@) =~= spec_required_from(fs@, i as int));
            }
            rest
        }
    }
}

/// Builds the JSON Schema document of a parameter shape: an object
/// schema over the described fields.
pub fn create_parameters_schema(fields: &Vec<SchemaField>) -> (r: Json)
    ensures
        jv(r) == spec_schema_doc(fields@),
{
    let mut props: Vec<(Vec<u8>, Json)> = Vec::new();
    let n = fields.len();
    let mut i: usize = 0;
    while i < n
        invariant
            i <= n,
            n == fields@.len(),
            jv_members(props@) =~= fields@.take(i as int).map_values(
                |f: SchemaField| spec_property(f),
            ),
        decreases n - i,
    {
        let ghost before = props@;
        let f = &fields[i];
        let mut entry: Vec<(Vec<u8>, Json)> = Vec::new();
        entry.push((
            crate::json_types::str_bytes("type"),
            Json::Str(crate::json_types::str_bytes(type_tag(&f.field_type))),
        ));
        entry.push((
            crate::json_types::str_bytes("description"),
            Json::Str(crate::json_types::string_bytes(&f.description)),
        ));
        let ghost entryv = entry@;
        props.push((crate::json_types::string_bytes(&f.name), Json::Obj(entry)));
        proof {
            crate::json::lemma_jv_members(entryv);
            assert(jv_members(entryv) =~= (spec_property(fields@[i as int]).1->Obj_0));
            assert(props@.drop_last() =~= before);
            assert(props@.last().0@ == bytes_of(fields@[i as int].name@));
            assert(jv(props@.last().1) == spec_property(fields@[i as int]).1);
            assert(jv_members(props@) == jv_members(before).push(
                (props@.last().0@, jv(props@.last().1)),
            ));
            assert(fields@.take(i + 1).map_values(|f: SchemaField| spec_property(f))
                =~= fields@.take(i as int).map_values(|f: SchemaField| spec_property(f)).push(
                spec_property(fields@[i as int]),
            ));
            assert(jv_members(props@) =~= fields@.take(i + 1).map_values(
                |f: SchemaField| spec_property(f),
            ));
        }
        i = i + 1;
    }
    proof {
        assert(fields@.take(n as int) =~= fields@);
    }
    let required = build_required(fields, 0);

    let mut ms: Vec<(Vec<u8>, Json)> = Vec::new();
    ms.push((
        crate::json_types::str_bytes("type"),
        Json::Str(crate::json_types::str_bytes("object")),
    ));
    ms.push((crate::json_types::str_bytes("properties"), Json::Obj(props)));
    ms.push((crate::json_types::str_bytes("required"), Json::Arr(required)));
    ms.push((crate::json_types::str_bytes("additionalProperties"), Json::Bool(false)));
    let r = Json::Obj(ms);
    proof {
        crate::json::lemma_jv_members(ms@);
        assert(jv(r) matches JsonV::Obj(s) && s =~= (spec_schema_doc(fields@)->Obj_0));
    }
    r
}

/// The description of a callable tool: a name, a description and the
/// shape of its parameters.
pub struct Tool {
    name: String,
    description: String,
    parameters: Vec<SchemaField>,
}

impl Tool {
    /// The name of the tool, as its character sequence.
    pub closed spec fn spec_name(&self) -> Seq<char> {
        self.name@
    }

    /// The description of the tool, as its character sequence.
    pub closed spec fn spec_description(&self) -> Seq<char> {
        self.description@
    }

    /// The described parameter shape.
    pub closed spec fn spec_parameters(&self) -> Seq<SchemaField> {
        self.parameters@
    }

    /// Describes a tool with the given name, description and parameter
    /// shape.
    pub fn new(name: String, description: String, parameters: Vec<SchemaField>) -> (r: Self)
        ensures
            r.spec_name() == name@,
            r.spec_description() == description@,
            r.spec_parameters() == parameters@,
    {
        Tool { name, description, parameters }
    }

    /// The name of the tool.
    pub fn name(&self) -> (r: &str)
        ensures
            r@ == self.spec_name(),
    {
        self.name.as_str()
    }

    /// The description of the tool.
    pub fn description(&self) -> (r: &str)
        ensures
            r@ == self.spec_description(),
    {
        self.description.as_str()
    }

    /// Turns the tool into its wire-level definition: a function tool,
    /// always strict, whose parameter schema is built by
    /// [`create_parameters_schema`].
    pub fn into_json(self) -> (r: JsonTool)
        ensures
            r.tool_type@ == "function"@,
            r.function.name@ == self.spec_name(),
            r.function.description@ == self.spec_description(),
            r.function.strict == true,
            jv(r.function.parameters) == spec_schema_doc(self.spec_parameters()),
    {
        let parameters = create_parameters_schema(&self.parameters);
        JsonTool {
            tool_type: "function".to_owned(),
            function: JsonFunctionInfo {
                name: self.name,
                description: self.description,
                strict: true,
                parameters,
            },
        }
    }
}

} // verus!
