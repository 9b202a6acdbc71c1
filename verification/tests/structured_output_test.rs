//! Tests of the schema codec and the structured-output response format:
//! the generated document, its serialization, and the round trip back
//! through the parser.

use ai::json::Json;
use ai::parse::parse_json;
use ai::json::write_json;
use ai::json_types::ResponseFormat;
use ai::JsonSchemaDescription;
use ai::SchemaField;
use ai::SchemaType;
use ai::create_parameters_schema;

fn member<'a>(doc: &'a Json, key: &str) -> &'a Json {
    match doc {
        Json::Obj(ms) => {
            for (k, v) in ms {
                if k.as_slice() == key.as_bytes() {
                    return v;
                }
            }
            panic!("missing member");
        }
        _ => panic!("expected an object"),
    }
}

fn text(doc: &Json) -> String {
    match doc {
        Json::Str(bytes) => String::from_utf8(bytes.clone()).unwrap(),
        _ => panic!("expected a string"),
    }
}

fn weather_fields() -> Vec<SchemaField> {
    vec![
        SchemaField {
            name: "location".to_string(),
            field_type: SchemaType::Text,
            description: "City or location name".to_string(),
            optional: false,
        },
        SchemaField {
            name: "temperature".to_string(),
            field_type: SchemaType::Number,
            description: "Temperature in Celsius".to_string(),
            optional: false,
        },
        SchemaField {
            name: "conditions".to_string(),
            field_type: SchemaType::Text,
            description: "Weather conditions description".to_string(),
            optional: false,
        },
        SchemaField {
            name: "humidity".to_string(),
            field_type: SchemaType::Number,
            description: "Optionally, the humidity level in percentage".to_string(),
            optional: true,
        },
    ]
}

#[test]
fn test_schema() {
    let schema = create_parameters_schema(&weather_fields());

    let json_schema = JsonSchemaDescription {
        name: "weather".to_string(),
        strict: true,
        schema,
    };

    let json_schema = ResponseFormat {
        schema_type: "json_schema",
        json_schema: Some(&json_schema),
    };

    let envelope = json_schema.to_json();
    let serialized = write_json(&envelope);

    // Re-parsing the serialized form yields a structurally equal document.
    let parsed = parse_json(&serialized).unwrap();
    assert_eq!(parsed, envelope, "Parsed JSON schema does not match the reference");

    assert_eq!(text(member(&parsed, "type")), "json_schema");
    let desc = member(&parsed, "json_schema");
    assert_eq!(text(member(desc, "name")), "weather");
    assert_eq!(member(desc, "strict"), &Json::Bool(true));

    let schema = member(desc, "schema");
    assert_eq!(text(member(schema, "type")), "object");
    assert_eq!(member(schema, "additionalProperties"), &Json::Bool(false));

    // Properties keep insertion order and carry type and description.
    match member(schema, "properties") {
        Json::Obj(props) => {
            let keys: Vec<String> = props
                .iter()
                .map(|(k, _)| String::from_utf8(k.clone()).unwrap())
                .collect();
            assert_eq!(keys, vec!["location", "temperature", "conditions", "humidity"]);
        }
        _ => panic!("expected an object"),
    }
    assert_eq!(
        text(member(member(member(schema, "properties"), "temperature"), "type")),
        "number"
    );
    assert_eq!(
        text(member(member(member(schema, "properties"), "location"), "description")),
        "City or location name"
    );

    // The required set holds exactly the non-optional field names,
    // compared without regard to order.
    match member(schema, "required") {
        Json::Arr(es) => {
            let mut names: Vec<String> = es.iter().map(text).collect();
            names.sort();
            assert_eq!(names, vec!["conditions", "location", "temperature"]);
        }
        _ => panic!("expected an array"),
    }
}

#[test]
fn test_schema_all_optional() {
    let fields = vec![SchemaField {
        name: "note".to_string(),
        field_type: SchemaType::Text,
        description: "A free-form note".to_string(),
        optional: true,
    }];
    let schema = create_parameters_schema(&fields);
    match member(&schema, "required") {
        Json::Arr(es) => assert!(es.is_empty()),
        _ => panic!("expected an array"),
    }
    match member(&schema, "properties") {
        Json::Obj(props) => assert_eq!(props.len(), 1),
        _ => panic!("expected an object"),
    }
}
