//! Wire-format behaviour of the record codecs: presence rules, tolerant
//! decoding, required-field failures, and concrete round trips.

use conjure_core::aliases::{AliasedBinary, Documentation, EndpointName, NestedAliasedBinary, ParameterId};
use conjure_core::base64::{decode, encode};
use conjure_core::error_code::ErrorCode;
use conjure_core::error_def::ErrorDefinition;
use conjure_core::fields::{EndpointDefinition, FieldDefinition};
use conjure_core::json::{DecodeError, JsonValue};
use conjure_core::names::TypeName;
use conjure_core::product::{EnumExample, EnumFieldExample, OptionalExample};
use conjure_core::query::QueryParameterType;
use conjure_core::service::ServiceDefinition;

fn obj(entries: Vec<(&str, JsonValue)>) -> JsonValue {
    JsonValue::Object(entries.into_iter().map(|(k, v)| (k.to_string(), v)).collect())
}

fn s(v: &str) -> JsonValue {
    JsonValue::String(v.to_string())
}

#[test]
fn type_name_serializes_to_expected_object() {
    let tn = TypeName::new("FooBar".to_string(), "com.palantir.bar".to_string());
    let j = tn.to_json();
    assert_eq!(j, obj(vec![("name", s("FooBar")), ("package", s("com.palantir.bar"))]));
}

#[test]
fn type_name_round_trips() {
    let tn = TypeName::new("FooBar".to_string(), "com.palantir.bar".to_string());
    let back = TypeName::from_json(&tn.to_json()).unwrap();
    assert_eq!(back, tn);
    assert_eq!(back.name(), "FooBar");
    assert_eq!(back.package(), "com.palantir.bar");
}

#[test]
fn type_name_tolerates_unknown_keys() {
    let with_extra = obj(vec![
        ("name", s("FooBar")),
        ("mystery", s("ignored")),
        ("package", s("com.palantir.bar")),
    ]);
    let without = obj(vec![("name", s("FooBar")), ("package", s("com.palantir.bar"))]);
    assert_eq!(
        TypeName::from_json(&with_extra).unwrap(),
        TypeName::from_json(&without).unwrap()
    );
}

#[test]
fn type_name_missing_required_field_fails() {
    let j = obj(vec![("package", s("com.palantir.bar"))]);
    assert_eq!(
        TypeName::from_json(&j),
        Err(DecodeError::MissingField("name".to_string()))
    );
}

#[test]
fn type_name_missing_package_fails_symmetrically() {
    let j = obj(vec![("name", s("FooBar")), ("extra", s("ignored"))]);
    assert_eq!(
        TypeName::from_json(&j),
        Err(DecodeError::MissingField("package".to_string()))
    );
}

#[test]
fn type_name_wrong_shape_fails() {
    let j = obj(vec![("name", JsonValue::Null), ("package", s("p"))]);
    assert_eq!(
        TypeName::from_json(&j),
        Err(DecodeError::TypeMismatch("name".to_string()))
    );
}

#[test]
fn type_name_non_object_fails() {
    assert_eq!(
        TypeName::from_json(&JsonValue::Bool(true)),
        Err(DecodeError::TypeMismatch("TypeName".to_string()))
    );
}

#[test]
fn type_name_last_key_occurrence_wins() {
    let j = obj(vec![
        ("name", s("First")),
        ("package", s("p")),
        ("name", s("Second")),
    ]);
    assert_eq!(TypeName::from_json(&j).unwrap().name(), "Second");
}

#[test]
fn type_name_builder_builds_and_is_repeatable() {
    let tn = TypeName::builder()
        .name("FooBar".to_string())
        .package("com.palantir.bar".to_string())
        .build();
    assert_eq!(tn, TypeName::new("FooBar".to_string(), "com.palantir.bar".to_string()));
    let mut b = TypeName::builder();
    b.name("A".to_string());
    b.package("b".to_string());
    let first = b.build();
    let second = b.build();
    assert_eq!(first, second);
}

#[test]
fn type_name_builder_from_value_supports_copy_and_modify() {
    let tn = TypeName::new("FooBar".to_string(), "com.palantir.bar".to_string());
    let mut b = conjure_core::names::Builder::from(tn);
    b.name("Other".to_string());
    let tn2 = b.build();
    assert_eq!(tn2.name(), "Other");
    assert_eq!(tn2.package(), "com.palantir.bar");
}

#[test]
fn optional_example_absent_field_omits_key() {
    let v = OptionalExample::new();
    assert_eq!(v.to_json(), JsonValue::Object(vec![]));
}

#[test]
fn optional_example_present_field_is_emitted() {
    let v = OptionalExample::with_item("hello".to_string());
    assert_eq!(v.to_json(), obj(vec![("item", s("hello"))]));
}

#[test]
fn optional_example_round_trips_both_ways() {
    let absent = OptionalExample::new();
    let present = OptionalExample::with_item("hi".to_string());
    assert_eq!(OptionalExample::from_json(&absent.to_json()).unwrap(), absent);
    assert_eq!(OptionalExample::from_json(&present.to_json()).unwrap(), present);
}

#[test]
fn optional_example_null_reads_as_absent() {
    let j = obj(vec![("item", JsonValue::Null)]);
    assert_eq!(OptionalExample::from_json(&j).unwrap(), OptionalExample::new());
}

#[test]
fn optional_example_missing_key_defaults_to_absent() {
    let j = obj(vec![("other", s("x"))]);
    assert_eq!(OptionalExample::from_json(&j).unwrap().item(), None);
}

#[test]
fn enum_field_example_round_trips() {
    let v = EnumFieldExample::new(EnumExample::One);
    assert_eq!(v.to_json(), obj(vec![("enum", s("ONE"))]));
    assert_eq!(EnumFieldExample::from_json(&v.to_json()).unwrap(), v);
}

#[test]
fn enum_field_example_keeps_unknown_wire_name() {
    let j = obj(vec![("enum", s("THREE"))]);
    let v = EnumFieldExample::from_json(&j).unwrap();
    assert_eq!(*v.enum_(), EnumExample::Unknown("THREE".to_string()));
    assert_eq!(v.to_json(), j);
}

#[test]
fn enum_field_example_missing_field_fails() {
    assert_eq!(
        EnumFieldExample::from_json(&obj(vec![])),
        Err(DecodeError::MissingField("enum".to_string()))
    );
}

#[test]
fn query_parameter_type_round_trips() {
    let v = QueryParameterType::new(ParameterId("limit".to_string()));
    assert_eq!(v.to_json(), obj(vec![("paramId", s("limit"))]));
    assert_eq!(QueryParameterType::from_json(&v.to_json()).unwrap(), v);
    assert_eq!(
        QueryParameterType::from_json(&obj(vec![])),
        Err(DecodeError::MissingField("paramId".to_string()))
    );
}

#[test]
fn service_definition_omits_empty_collections() {
    let v = ServiceDefinition {
        service_name: TypeName::new("Svc".to_string(), "com.example".to_string()),
        endpoints: vec![],
        docs: None,
    };
    let j = v.to_json();
    match &j {
        JsonValue::Object(es) => {
            assert_eq!(es.len(), 1);
            assert_eq!(es[0].0, "serviceName");
        }
        other => panic!("expected an object, got {:?}", other),
    }
}

#[test]
fn service_definition_round_trips_with_endpoints_and_docs() {
    let v = ServiceDefinition::new(
        TypeName::new("Svc".to_string(), "com.example".to_string()),
        vec![
            EndpointDefinition::new(EndpointName("getThing".to_string())),
            EndpointDefinition {
                endpoint_name: EndpointName("putThing".to_string()),
                docs: Some(Documentation("stores a thing".to_string())),
            },
        ],
        Documentation("a service".to_string()),
    );
    let back = ServiceDefinition::from_json(&v.to_json()).unwrap();
    assert_eq!(back, v);
}

#[test]
fn service_definition_bad_endpoint_element_fails() {
    let j = obj(vec![
        ("serviceName", obj(vec![("name", s("Svc")), ("package", s("p"))])),
        ("endpoints", JsonValue::Array(vec![JsonValue::Bool(false)])),
    ]);
    assert_eq!(
        ServiceDefinition::from_json(&j),
        Err(DecodeError::TypeMismatch("EndpointDefinition".to_string()))
    );
}

#[test]
fn error_definition_round_trips_fully_populated() {
    let v = ErrorDefinition::builder()
        .error_name(TypeName::new("MyError".to_string(), "com.example".to_string()))
        .docs(Some(Documentation("doc".to_string())))
        .namespace(conjure_core::aliases::ErrorNamespace("Test".to_string()))
        .code(ErrorCode::Conflict)
        .push_safe_args(FieldDefinition::new("safeOne".to_string()))
        .push_unsafe_args(FieldDefinition::new("secret".to_string()))
        .build();
    let back = ErrorDefinition::from_json(&v.to_json()).unwrap();
    assert_eq!(back, v);
    assert_eq!(back.code(), &ErrorCode::Conflict);
    assert_eq!(back.safe_args().len(), 1);
}

#[test]
fn error_definition_wire_name_joins_namespace_and_name() {
    let v = ErrorDefinition::builder()
        .error_name(TypeName::new("MyError".to_string(), "com.example".to_string()))
        .namespace(conjure_core::aliases::ErrorNamespace("Test".to_string()))
        .code(ErrorCode::Internal)
        .build();
    assert_eq!(v.wire_error_name(), "Test:MyError");
}

#[test]
fn error_definition_empty_lists_leave_keys_off() {
    let v = ErrorDefinition::builder()
        .error_name(TypeName::new("E".to_string(), "p".to_string()))
        .namespace(conjure_core::aliases::ErrorNamespace("Ns".to_string()))
        .code(ErrorCode::Timeout)
        .build();
    match v.to_json() {
        JsonValue::Object(es) => {
            let keys: Vec<&str> = es.iter().map(|e| e.0.as_str()).collect();
            assert_eq!(keys, vec!["errorName", "namespace", "code"]);
        }
        other => panic!("expected an object, got {:?}", other),
    }
}

#[test]
fn error_definition_missing_namespace_fails() {
    let j = obj(vec![
        ("errorName", obj(vec![("name", s("E")), ("package", s("p"))])),
        ("code", s("Timeout")),
    ]);
    assert_eq!(
        ErrorDefinition::from_json(&j),
        Err(DecodeError::MissingField("namespace".to_string()))
    );
}

#[test]
fn error_definition_unknown_code_name_fails() {
    let j = obj(vec![
        ("errorName", obj(vec![("name", s("E")), ("package", s("p"))])),
        ("namespace", s("Ns")),
        ("code", s("NotACode")),
    ]);
    assert_eq!(
        ErrorDefinition::from_json(&j),
        Err(DecodeError::TypeMismatch("ErrorCode".to_string()))
    );
}

#[test]
fn field_definition_docs_round_trip() {
    let bare = FieldDefinition::new("f".to_string());
    let documented = FieldDefinition {
        field_name: "g".to_string(),
        docs: Some(Documentation("about g".to_string())),
    };
    assert_eq!(FieldDefinition::from_json(&bare.to_json()).unwrap(), bare);
    assert_eq!(FieldDefinition::from_json(&documented.to_json()).unwrap(), documented);
}

#[test]
fn base64_encodes_canonical_text() {
    assert_eq!(encode(&b"Man".to_vec()), "TWFu");
    assert_eq!(encode(&b"Ma".to_vec()), "TWE=");
    assert_eq!(encode(&b"M".to_vec()), "TQ==");
    assert_eq!(encode(&Vec::new()), "");
    assert_eq!(encode(&vec![251, 255]), "+/8=");
    assert_eq!(decode("TWFu"), Some(b"Man".to_vec()));
    assert_eq!(decode("TWE="), Some(b"Ma".to_vec()));
    assert_eq!(decode("TQ=="), Some(b"M".to_vec()));
    assert_eq!(decode(""), Some(Vec::new()));
    assert_eq!(decode("TWF"), None);
    assert_eq!(decode("T@=="), None);
    assert_eq!(decode("TR=="), None);
    assert_eq!(decode("=AAA"), None);
}

#[test]
fn binary_alias_plain_text_round_trips() {
    let b = AliasedBinary::new(vec![0, 1, 2, 253, 254, 255]);
    let text = b.to_plain();
    assert_eq!(AliasedBinary::from_plain(&text), Some(b.clone()));
    let n = NestedAliasedBinary::new(b);
    assert_eq!(NestedAliasedBinary::from_plain(&n.to_plain()), Some(n.clone()));
    assert_eq!(NestedAliasedBinary::from_plain("***"), None);
}

#[test]
fn alias_transparency_round_trips_plain_text() {
    let e = EndpointName::from_plain("lowerCamel");
    assert_eq!(e.to_plain(), "lowerCamel");
    let a = conjure_core::aliases::AliasedString::from_plain("anything at all");
    assert_eq!(a.to_plain(), "anything at all");
}
