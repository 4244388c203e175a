//! End-to-end scenarios: schema, raw document, environment, resolution and
//! typed conversion.

use replace_env::convert::{convert_document, load, TypedValue};
use replace_env::doc::{RawDocument, RawField, RawValue};
use replace_env::env::Env;
use replace_env::resolve::resolve_document;
use replace_env::schema::{FieldSpec, Schema, TargetType};
use replace_env::parse::ParseCause;

fn field(name: &str, target: TargetType) -> FieldSpec {
    FieldSpec {
        name: name.to_string(),
        target,
        optional: false,
        secret: false,
        raw_override: None,
    }
}

fn raw_doc(entries: Vec<(&str, RawValue)>) -> RawDocument {
    RawDocument {
        fields: entries
            .into_iter()
            .map(|(n, v)| RawField { name: n.to_string(), value: v })
            .collect(),
    }
}

fn leaf(s: &str) -> RawValue {
    RawValue::Str(s.to_string())
}

#[test]
fn timeout_default_when_env_unset() {
    let schema = Schema::new(vec![field("timeout_ms", TargetType::U32)]).unwrap();
    let env = Env::new();
    let mut log: Vec<String> = Vec::new();
    let doc = raw_doc(vec![("timeout_ms", leaf("${TIMEOUT_MS:30}"))]);
    let typed = load(&schema, doc, &env, &mut log).unwrap();
    assert!(matches!(typed.fields[0].value, TypedValue::U32(30)));
    assert_eq!(log.len(), 1);
    assert_eq!(
        log[0],
        "ENV variable \"TIMEOUT_MS\" not present. Using default: \"30\""
    );
}

#[test]
fn timeout_from_env_value() {
    let schema = Schema::new(vec![field("timeout_ms", TargetType::U32)]).unwrap();
    let mut env = Env::new();
    env.set_text("TIMEOUT_MS".to_string(), "500".to_string());
    let mut log: Vec<String> = Vec::new();
    let doc = raw_doc(vec![("timeout_ms", leaf("${TIMEOUT_MS:30}"))]);
    let typed = load(&schema, doc, &env, &mut log).unwrap();
    assert!(matches!(typed.fields[0].value, TypedValue::U32(500)));
    assert!(log.is_empty());
}

#[test]
fn bool_from_env_value() {
    let schema = Schema::new(vec![field("enabled", TargetType::Bool)]).unwrap();
    let mut env = Env::new();
    env.set_text("FLAG".to_string(), "false".to_string());
    let mut log: Vec<String> = Vec::new();
    let doc = raw_doc(vec![("enabled", leaf("${FLAG:true}"))]);
    let typed = load(&schema, doc, &env, &mut log).unwrap();
    assert!(matches!(typed.fields[0].value, TypedValue::Bool(false)));
    assert!(log.is_empty());
}

#[test]
fn optional_empty_string_is_absent() {
    let schema = Schema::new(vec![FieldSpec {
        name: "name".to_string(),
        target: TargetType::Str,
        optional: true,
        secret: false,
        raw_override: None,
    }])
    .unwrap();
    let env = Env::new();
    let mut log: Vec<String> = Vec::new();
    let doc = raw_doc(vec![("name", leaf(""))]);
    let typed = load(&schema, doc, &env, &mut log).unwrap();
    assert!(matches!(typed.fields[0].value, TypedValue::Absent));
}

#[test]
fn secret_default_never_logged() {
    let schema = Schema::new(vec![FieldSpec {
        name: "token".to_string(),
        target: TargetType::Str,
        optional: false,
        secret: true,
        raw_override: None,
    }])
    .unwrap();
    let env = Env::new();
    let mut log: Vec<String> = Vec::new();
    let doc = raw_doc(vec![("token", leaf("${TOKEN:changeme}"))]);
    let typed = load(&schema, doc, &env, &mut log).unwrap();
    match &typed.fields[0].value {
        TypedValue::Str(s) => assert_eq!(s, "changeme"),
        other => panic!("expected a string, got {:?}", other),
    }
    assert_eq!(log.len(), 1);
    assert!(!log[0].contains("changeme"));
    assert_eq!(
        log[0],
        "ENV variable \"TOKEN\" not present. Using secret default."
    );
}

#[test]
fn unparseable_port_names_the_field() {
    let schema = Schema::new(vec![field("port", TargetType::U16)]).unwrap();
    let env = Env::new();
    let mut log: Vec<String> = Vec::new();
    let doc = raw_doc(vec![("port", leaf("abc"))]);
    let err = load(&schema, doc, &env, &mut log).unwrap_err();
    assert_eq!(err.field, "port");
    assert_eq!(err.raw_value.as_deref(), Some("abc"));
    assert_eq!(err.cause, ParseCause::NotNumeric);
    assert_eq!(
        err.message(),
        "field 'port': not an integer literal (value: 'abc')"
    );
}

#[test]
fn secret_parse_error_hides_value() {
    let schema = Schema::new(vec![FieldSpec {
        name: "pin".to_string(),
        target: TargetType::U16,
        optional: false,
        secret: true,
        raw_override: None,
    }])
    .unwrap();
    let env = Env::new();
    let mut log: Vec<String> = Vec::new();
    let doc = raw_doc(vec![("pin", leaf("hunter2"))]);
    let err = load(&schema, doc, &env, &mut log).unwrap_err();
    assert_eq!(err.field, "pin");
    assert_eq!(err.raw_value, None);
    assert!(!err.message().contains("hunter2"));
    assert_eq!(err.message(), "field 'pin': not an integer literal");
}

#[test]
fn nested_document_resolves_and_converts() {
    let sub = Schema::new(vec![field("port", TargetType::U16)]).unwrap();
    let schema = Schema::new(vec![FieldSpec {
        name: "server".to_string(),
        target: TargetType::Nested(Box::new(sub)),
        optional: false,
        secret: false,
        raw_override: Some("RawServer".to_string()),
    }])
    .unwrap();
    let env = Env::new();
    let mut log: Vec<String> = Vec::new();
    let doc = raw_doc(vec![(
        "server",
        RawValue::Doc(raw_doc(vec![("port", leaf("${PORT:8080}"))])),
    )]);
    let typed = load(&schema, doc, &env, &mut log).unwrap();
    match &typed.fields[0].value {
        TypedValue::Doc(inner) => {
            assert_eq!(inner.fields[0].name, "port");
            assert!(matches!(inner.fields[0].value, TypedValue::U16(8080)));
        }
        other => panic!("expected a nested document, got {:?}", other),
    }
    assert_eq!(log.len(), 1);
    assert!(log[0].contains("PORT"));
}

#[test]
fn nested_error_carries_field_path() {
    let sub = Schema::new(vec![field("port", TargetType::U16)]).unwrap();
    let schema = Schema::new(vec![FieldSpec {
        name: "server".to_string(),
        target: TargetType::Nested(Box::new(sub)),
        optional: false,
        secret: false,
        raw_override: Some("RawServer".to_string()),
    }])
    .unwrap();
    let doc = raw_doc(vec![(
        "server",
        RawValue::Doc(raw_doc(vec![("port", leaf("oops"))])),
    )]);
    let err = convert_document(&schema, &doc).unwrap_err();
    assert_eq!(err.field, "server.port");
    assert_eq!(err.cause, ParseCause::NotNumeric);
}

#[test]
fn missing_non_optional_field_fails() {
    let schema = Schema::new(vec![field("port", TargetType::U16)]).unwrap();
    let doc = raw_doc(vec![]);
    let err = convert_document(&schema, &doc).unwrap_err();
    assert_eq!(err.field, "port");
    assert_eq!(err.cause, ParseCause::MissingValue);
}

#[test]
fn absent_value_for_non_optional_field_fails() {
    let schema = Schema::new(vec![field("port", TargetType::U16)]).unwrap();
    let doc = raw_doc(vec![("port", RawValue::Absent)]);
    let err = convert_document(&schema, &doc).unwrap_err();
    assert_eq!(err.cause, ParseCause::MissingValue);
}

#[test]
fn absent_optional_field_is_absent() {
    let schema = Schema::new(vec![FieldSpec {
        name: "name".to_string(),
        target: TargetType::Str,
        optional: true,
        secret: false,
        raw_override: None,
    }])
    .unwrap();
    let doc = raw_doc(vec![("name", RawValue::Absent)]);
    let typed = convert_document(&schema, &doc).unwrap();
    assert!(matches!(typed.fields[0].value, TypedValue::Absent));
}

#[test]
fn shape_mismatch_document_for_primitive() {
    let schema = Schema::new(vec![field("port", TargetType::U16)]).unwrap();
    let doc = raw_doc(vec![("port", RawValue::Doc(raw_doc(vec![])))]);
    let err = convert_document(&schema, &doc).unwrap_err();
    assert_eq!(err.cause, ParseCause::ShapeMismatch);
}

#[test]
fn shape_mismatch_string_for_nested() {
    let sub = Schema::new(vec![field("port", TargetType::U16)]).unwrap();
    let schema = Schema::new(vec![FieldSpec {
        name: "server".to_string(),
        target: TargetType::Nested(Box::new(sub)),
        optional: false,
        secret: false,
        raw_override: Some("RawServer".to_string()),
    }])
    .unwrap();
    let doc = raw_doc(vec![("server", leaf("not a document"))]);
    let err = convert_document(&schema, &doc).unwrap_err();
    assert_eq!(err.cause, ParseCause::ShapeMismatch);
}

#[test]
fn empty_optional_short_circuit_needs_string_raw_type() {
    let schema = Schema::new(vec![FieldSpec {
        name: "blob".to_string(),
        target: TargetType::U32,
        optional: true,
        secret: false,
        raw_override: Some("Custom".to_string()),
    }])
    .unwrap();
    let doc = raw_doc(vec![("blob", leaf(""))]);
    let err = convert_document(&schema, &doc).unwrap_err();
    assert_eq!(err.cause, ParseCause::NotNumeric);
}

#[test]
fn optional_present_value_is_parsed() {
    let schema = Schema::new(vec![FieldSpec {
        name: "retries".to_string(),
        target: TargetType::U8,
        optional: true,
        secret: false,
        raw_override: None,
    }])
    .unwrap();
    let doc = raw_doc(vec![("retries", leaf("3"))]);
    let typed = convert_document(&schema, &doc).unwrap();
    assert!(matches!(typed.fields[0].value, TypedValue::U8(3)));
}

#[test]
fn float_leaf_carries_resolved_text() {
    let schema = Schema::new(vec![field("ratio", TargetType::F64)]).unwrap();
    let env = Env::new();
    let mut log: Vec<String> = Vec::new();
    let doc = raw_doc(vec![("ratio", leaf("${RATIO:3.5}"))]);
    let typed = load(&schema, doc, &env, &mut log).unwrap();
    match &typed.fields[0].value {
        TypedValue::FloatText(s) => {
            assert_eq!(s, "3.5");
            let v: f64 = s.parse().unwrap();
            assert_eq!(v, 3.5f64);
        }
        other => panic!("expected float text, got {:?}", other),
    }
}

#[test]
fn every_primitive_width_converts() {
    let schema = Schema::new(vec![
        field("s", TargetType::Str),
        field("b", TargetType::Bool),
        field("u8", TargetType::U8),
        field("u16", TargetType::U16),
        field("u32", TargetType::U32),
        field("u64", TargetType::U64),
        field("u128", TargetType::U128),
        field("i8", TargetType::I8),
        field("i16", TargetType::I16),
        field("i32", TargetType::I32),
        field("i64", TargetType::I64),
        field("i128", TargetType::I128),
    ])
    .unwrap();
    let doc = raw_doc(vec![
        ("s", leaf("hello")),
        ("b", leaf("true")),
        ("u8", leaf("255")),
        ("u16", leaf("65535")),
        ("u32", leaf("4294967295")),
        ("u64", leaf("18446744073709551615")),
        ("u128", leaf("340282366920938463463374607431768211455")),
        ("i8", leaf("-128")),
        ("i16", leaf("-32768")),
        ("i32", leaf("-2147483648")),
        ("i64", leaf("-9223372036854775808")),
        ("i128", leaf("-170141183460469231731687303715884105728")),
    ]);
    let typed = convert_document(&schema, &doc).unwrap();
    assert!(matches!(&typed.fields[0].value, TypedValue::Str(s) if s == "hello"));
    assert!(matches!(typed.fields[1].value, TypedValue::Bool(true)));
    assert!(matches!(typed.fields[2].value, TypedValue::U8(u8::MAX)));
    assert!(matches!(typed.fields[3].value, TypedValue::U16(u16::MAX)));
    assert!(matches!(typed.fields[4].value, TypedValue::U32(u32::MAX)));
    assert!(matches!(typed.fields[5].value, TypedValue::U64(u64::MAX)));
    assert!(matches!(typed.fields[6].value, TypedValue::U128(u128::MAX)));
    assert!(matches!(typed.fields[7].value, TypedValue::I8(i8::MIN)));
    assert!(matches!(typed.fields[8].value, TypedValue::I16(i16::MIN)));
    assert!(matches!(typed.fields[9].value, TypedValue::I32(i32::MIN)));
    assert!(matches!(typed.fields[10].value, TypedValue::I64(i64::MIN)));
    assert!(matches!(typed.fields[11].value, TypedValue::I128(i128::MIN)));
}

#[test]
fn warnings_accumulate_in_document_order() {
    let sub = Schema::new(vec![field("inner", TargetType::Str)]).unwrap();
    let schema = Schema::new(vec![
        field("a", TargetType::Str),
        FieldSpec {
            name: "nest".to_string(),
            target: TargetType::Nested(Box::new(sub)),
            optional: false,
            secret: false,
            raw_override: Some("RawNest".to_string()),
        },
        field("b", TargetType::Str),
    ])
    .unwrap();
    let env = Env::new();
    let mut log: Vec<String> = Vec::new();
    let doc = raw_doc(vec![
        ("a", leaf("${A:1}")),
        ("nest", RawValue::Doc(raw_doc(vec![("inner", leaf("${IN:2}"))]))),
        ("b", leaf("${B:3}")),
    ]);
    let _ = load(&schema, doc, &env, &mut log).unwrap();
    assert_eq!(log.len(), 3);
    assert!(log[0].contains("\"A\""));
    assert!(log[1].contains("\"IN\""));
    assert!(log[2].contains("\"B\""));
}

#[test]
fn extra_document_fields_are_ignored() {
    let schema = Schema::new(vec![field("a", TargetType::U8)]).unwrap();
    let env = Env::new();
    let mut log: Vec<String> = Vec::new();
    let doc = raw_doc(vec![("stray", leaf("${X:1}")), ("a", leaf("7"))]);
    let resolved = resolve_document(&schema, doc, &env, &mut log);
    // A field the schema does not know is passed through unresolved.
    match &resolved.fields[0].value {
        RawValue::Str(s) => assert_eq!(s, "${X:1}"),
        other => panic!("expected a string, got {:?}", other),
    }
    assert!(log.is_empty());
    let typed = convert_document(&schema, &resolved).unwrap();
    assert_eq!(typed.fields.len(), 1);
    assert!(matches!(typed.fields[0].value, TypedValue::U8(7)));
}
