//! The error pipeline and its supporting pieces: status mapping, envelope
//! encoding, parameter stringification, identifiers, and the double alias.

use conjure_core::double_alias::DoubleAliasExample;
use conjure_core::error_code::ErrorCode;
use conjure_core::errors::{encode, ErrorType, NotFound, ParamValue, WithInstanceId};
use conjure_core::json::{DecodeError, JsonValue};
use conjure_core::client::{Body, IntoWriteBody, WriteBody};
use conjure_core::errors::value_string;
use conjure_core::serializable_error::SerializableError;
use conjure_core::text::{i64_to_string, str_lt, u64_to_string};
use conjure_core::uuid::Uuid;

#[test]
fn status_codes_match_the_table() {
    assert_eq!(ErrorCode::PermissionDenied.status_code(), 403);
    assert_eq!(ErrorCode::InvalidArgument.status_code(), 400);
    assert_eq!(ErrorCode::NotFound.status_code(), 404);
    assert_eq!(ErrorCode::Conflict.status_code(), 409);
    assert_eq!(ErrorCode::RequestEntityTooLarge.status_code(), 413);
    assert_eq!(ErrorCode::FailedPrecondition.status_code(), 500);
    assert_eq!(ErrorCode::Internal.status_code(), 500);
    assert_eq!(ErrorCode::Timeout.status_code(), 500);
    assert_eq!(ErrorCode::CustomClient.status_code(), 400);
    assert_eq!(ErrorCode::CustomServer.status_code(), 500);
}

#[test]
fn error_code_wire_names_round_trip() {
    let codes = [
        ErrorCode::PermissionDenied,
        ErrorCode::InvalidArgument,
        ErrorCode::NotFound,
        ErrorCode::Conflict,
        ErrorCode::RequestEntityTooLarge,
        ErrorCode::FailedPrecondition,
        ErrorCode::Internal,
        ErrorCode::Timeout,
        ErrorCode::CustomClient,
        ErrorCode::CustomServer,
    ];
    for code in codes {
        let j = code.to_json();
        assert_eq!(ErrorCode::from_json(&j).unwrap(), code);
    }
    assert_eq!(ErrorCode::NotFound.name(), "NotFound");
}

#[test]
fn encode_not_found_produces_expected_envelope() {
    let se = encode(&NotFound::new());
    assert_eq!(*se.error_code(), ErrorCode::NotFound);
    assert_eq!(se.error_name(), "Default:NotFound");
    assert_eq!(se.parameters().len(), 0);
    match se.to_json() {
        JsonValue::Object(es) => {
            let keys: Vec<&str> = es.iter().map(|e| e.0.as_str()).collect();
            assert_eq!(keys, vec!["errorCode", "errorName", "errorInstanceId"]);
            assert_eq!(es[0].1, JsonValue::String("NotFound".to_string()));
            assert_eq!(es[1].1, JsonValue::String("Default:NotFound".to_string()));
            match &es[2].1 {
                JsonValue::String(id) => {
                    assert_eq!(id.len(), 36);
                    assert_eq!(&id[14..15], "4");
                    assert!(Uuid::parse(id).is_some());
                }
                other => panic!("expected a string id, got {:?}", other),
            }
        }
        other => panic!("expected an object, got {:?}", other),
    }
}

#[test]
fn encode_keeps_a_supplied_instance_id() {
    let id = Uuid::from_bytes([
        0x11, 0x22, 0x33, 0x44, 0x55, 0x66, 0x47, 0x88, 0x99, 0xaa, 0xbb, 0xcc, 0xdd, 0xee,
        0xff, 0x00,
    ]);
    let se = encode(&WithInstanceId::new(NotFound::new(), id));
    assert_eq!(se.error_instance_id(), id);
    assert_eq!(
        se.error_instance_id().to_hyphenated(),
        "11223344-5566-4788-99aa-bbccddeeff00"
    );
    let again = encode(&WithInstanceId::new(NotFound::new(), id));
    assert_eq!(again.error_instance_id(), id);
}

#[test]
fn with_instance_id_overrides_and_delegates() {
    let id = Uuid::from_bytes([9; 16]);
    let wrapped = NotFound::new().with_instance_id(id);
    assert_eq!(wrapped.code(), ErrorCode::NotFound);
    assert_eq!(wrapped.name(), "Default:NotFound");
    assert_eq!(wrapped.instance_id(), Some(id));
    assert!(wrapped.safe_args().is_empty());
}

#[test]
fn encode_without_an_id_draws_fresh_distinct_ids() {
    let a = encode(&NotFound::new());
    let b = encode(&NotFound::new());
    assert_ne!(a.error_instance_id(), b.error_instance_id());
    assert!(Uuid::parse(&a.error_instance_id().to_hyphenated()).is_some());
    assert!(Uuid::parse(&b.error_instance_id().to_hyphenated()).is_some());
}

#[test]
fn encode_stringifies_and_sorts_parameters() {
    let id = Uuid::from_bytes([0; 16]);
    let mut builder = SerializableError::builder();
    builder.error_code(ErrorCode::InvalidArgument);
    builder.error_name("Test:BadInput".to_string());
    builder.error_instance_id(id);
    builder.insert_parameters("zebra".to_string(), "last".to_string());
    builder.insert_parameters("alpha".to_string(), "first".to_string());
    builder.insert_parameters("middle".to_string(), "between".to_string());
    let se = builder.build();
    let keys: Vec<&str> = se.parameters().entries().iter().map(|e| e.0.as_str()).collect();
    assert_eq!(keys, vec!["alpha", "middle", "zebra"]);
    // Re-encoding an envelope keeps its parameters and identity.
    let re = encode(&se);
    assert_eq!(re, se);
}

#[test]
fn parameters_setter_replaces_and_sorts() {
    let mut builder = SerializableError::builder();
    builder.error_code(ErrorCode::Internal);
    builder.error_name("Default:Internal".to_string());
    builder.error_instance_id(Uuid::from_bytes([3; 16]));
    builder.insert_parameters("stale".to_string(), "gone".to_string());
    builder.parameters(vec![
        ("b".to_string(), "2".to_string()),
        ("a".to_string(), "1".to_string()),
        ("b".to_string(), "3".to_string()),
    ]);
    let se = builder.build();
    let entries: Vec<(&str, &str)> = se
        .parameters()
        .entries()
        .iter()
        .map(|e| (e.0.as_str(), e.1.as_str()))
        .collect();
    assert_eq!(entries, vec![("a", "1"), ("b", "3")]);
}

#[test]
fn extend_parameters_merges_over_existing() {
    let mut builder = SerializableError::builder();
    builder.error_code(ErrorCode::Internal);
    builder.error_name("Default:Internal".to_string());
    builder.error_instance_id(Uuid::from_bytes([4; 16]));
    builder.insert_parameters("kept".to_string(), "old".to_string());
    builder.insert_parameters("replaced".to_string(), "old".to_string());
    builder.extend_parameters(vec![
        ("replaced".to_string(), "new".to_string()),
        ("added".to_string(), "fresh".to_string()),
    ]);
    let se = builder.build();
    let entries: Vec<(&str, &str)> = se
        .parameters()
        .entries()
        .iter()
        .map(|e| (e.0.as_str(), e.1.as_str()))
        .collect();
    assert_eq!(entries, vec![("added", "fresh"), ("kept", "old"), ("replaced", "new")]);
}

#[test]
fn insert_with_equal_keys_keeps_the_last_value() {
    let mut builder = SerializableError::builder();
    builder.error_code(ErrorCode::Internal);
    builder.error_name("Default:Internal".to_string());
    builder.error_instance_id(Uuid::from_bytes([1; 16]));
    builder.insert_parameters("key".to_string(), "old".to_string());
    builder.insert_parameters("key".to_string(), "new".to_string());
    let se = builder.build();
    assert_eq!(se.parameters().len(), 1);
    assert_eq!(se.parameters().entries()[0].1, "new");
}

#[test]
fn serializable_error_round_trips_with_parameters() {
    let mut builder = SerializableError::builder();
    builder.error_code(ErrorCode::Conflict);
    builder.error_name("Test:Conflict".to_string());
    builder.error_instance_id(Uuid::from_bytes([7; 16]));
    builder.insert_parameters("a".to_string(), "1".to_string());
    builder.insert_parameters("b".to_string(), "2".to_string());
    let se = builder.build();
    let back = SerializableError::from_json(&se.to_json()).unwrap();
    assert_eq!(back, se);
}

#[test]
fn serializable_error_empty_parameters_key_is_omitted() {
    let mut builder = SerializableError::builder();
    builder.error_code(ErrorCode::Timeout);
    builder.error_name("Test:Timeout".to_string());
    builder.error_instance_id(Uuid::from_bytes([2; 16]));
    let se = builder.build();
    match se.to_json() {
        JsonValue::Object(es) => {
            assert!(es.iter().all(|e| e.0 != "parameters"));
            assert_eq!(es.len(), 3);
        }
        other => panic!("expected an object, got {:?}", other),
    }
}

#[test]
fn serializable_error_missing_code_fails() {
    let j = JsonValue::Object(vec![
        ("errorName".to_string(), JsonValue::String("A:B".to_string())),
        (
            "errorInstanceId".to_string(),
            JsonValue::String("00000000-0000-0000-0000-000000000000".to_string()),
        ),
    ]);
    assert_eq!(
        SerializableError::from_json(&j),
        Err(DecodeError::MissingField("errorCode".to_string()))
    );
}

#[test]
fn value_string_covers_each_leaf_kind() {
    assert_eq!(value_string(&ParamValue::Bool(true)), Some("true".to_string()));
    assert_eq!(value_string(&ParamValue::Bool(false)), Some("false".to_string()));
    assert_eq!(value_string(&ParamValue::U8(0)), Some("0".to_string()));
    assert_eq!(value_string(&ParamValue::U64(u64::MAX)), Some("18446744073709551615".to_string()));
    assert_eq!(value_string(&ParamValue::I32(-42)), Some("-42".to_string()));
    assert_eq!(value_string(&ParamValue::I64(i64::MIN)), Some("-9223372036854775808".to_string()));
    assert_eq!(value_string(&ParamValue::Char('x')), Some("x".to_string()));
    assert_eq!(value_string(&ParamValue::String("s".to_string())), Some("s".to_string()));
    assert_eq!(value_string(&ParamValue::Unit), None);
    assert_eq!(
        value_string(&ParamValue::Option(Some(Box::new(ParamValue::U16(7))))),
        Some("7".to_string())
    );
    assert_eq!(value_string(&ParamValue::Option(None)), None);
    assert_eq!(
        value_string(&ParamValue::Newtype(Box::new(ParamValue::I8(-1)))),
        Some("-1".to_string())
    );
    assert_eq!(value_string(&ParamValue::List(vec![ParamValue::Bool(true)])), None);
    assert_eq!(value_string(&ParamValue::Dict(vec![])), None);
    assert_eq!(value_string(&ParamValue::Bytes(vec![1, 2, 3])), None);
}

#[test]
fn decimal_formatting_matches_expected_values() {
    assert_eq!(u64_to_string(0), "0");
    assert_eq!(u64_to_string(12345), "12345");
    assert_eq!(i64_to_string(-1), "-1");
    assert_eq!(i64_to_string(987), "987");
}

#[test]
fn string_order_is_lexicographic() {
    assert!(str_lt("alpha", "beta"));
    assert!(str_lt("alp", "alpha"));
    assert!(!str_lt("alpha", "alpha"));
    assert!(!str_lt("beta", "alpha"));
}

#[test]
fn uuid_formats_and_parses_canonically() {
    let u = Uuid::from_bytes([
        0xde, 0xad, 0xbe, 0xef, 0x00, 0x11, 0x42, 0x33, 0x80, 0x44, 0x55, 0x66, 0x77, 0x88,
        0x99, 0xaa,
    ]);
    let text = u.to_hyphenated();
    assert_eq!(text, "deadbeef-0011-4233-8044-5566778899aa");
    assert_eq!(Uuid::parse(&text), Some(u));
    assert_eq!(Uuid::parse("DEADBEEF-0011-4233-8044-5566778899AA"), Some(u));
    assert_eq!(Uuid::parse("not a uuid"), None);
    assert_eq!(Uuid::parse("deadbeef-0011-4233-8044-556677889:aa"), None);
}

#[test]
fn double_alias_canonicalizes_nan_and_keeps_signed_zeros() {
    let quiet = DoubleAliasExample::from_bits(f64::NAN.to_bits());
    let weird = DoubleAliasExample::from_bits(0x7ff0000000000001);
    assert_eq!(quiet, weird);
    let pos = DoubleAliasExample::from_bits((0.0f64).to_bits());
    let neg = DoubleAliasExample::from_bits((-0.0f64).to_bits());
    assert_ne!(pos, neg);
    assert!(neg.lt_total(&pos));
    let one = DoubleAliasExample::from_bits((1.0f64).to_bits());
    let minus = DoubleAliasExample::from_bits((-1.0f64).to_bits());
    assert!(minus.lt_total(&one));
    assert!(!one.lt_total(&minus));
    assert!(one.eq_value(&DoubleAliasExample::from_bits((1.0f64).to_bits())));
}

#[test]
fn streaming_body_appends_its_bytes() {
    let data: &[u8] = &[1, 2, 3];
    let mut body = data.into_write_body();
    let mut sink: Vec<u8> = vec![0];
    assert!(body.write_body(&mut sink).is_ok());
    assert_eq!(sink, vec![0, 1, 2, 3]);
    assert!(body.reset());
    let _empty: Body<&[u8]> = Body::Empty;
    let _fixed: Body<&[u8]> = Body::Fixed(vec![9]);
}
