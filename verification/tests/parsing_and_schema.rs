//! The literal grammars, their ranges, and schema raw-type derivation.

use replace_env::parse::{parse_bool, parse_signed, parse_unsigned, ParseCause};
use replace_env::schema::{raw_type, FieldSpec, Schema, SchemaError, TargetType};

fn field(name: &str, target: TargetType, raw_override: Option<&str>) -> FieldSpec {
    FieldSpec {
        name: name.to_string(),
        target,
        optional: false,
        secret: false,
        raw_override: raw_override.map(|s| s.to_string()),
    }
}

#[test]
fn unsigned_literals() {
    assert_eq!(parse_unsigned("0", u8::MAX as u128), Ok(0));
    assert_eq!(parse_unsigned("255", u8::MAX as u128), Ok(255));
    assert_eq!(parse_unsigned("+17", u8::MAX as u128), Ok(17));
    assert_eq!(parse_unsigned("007", u8::MAX as u128), Ok(7));
    assert_eq!(parse_unsigned("256", u8::MAX as u128), Err(ParseCause::OutOfRange));
    assert_eq!(parse_unsigned("", u8::MAX as u128), Err(ParseCause::NotNumeric));
    assert_eq!(parse_unsigned("+", u8::MAX as u128), Err(ParseCause::NotNumeric));
    assert_eq!(parse_unsigned("-1", u8::MAX as u128), Err(ParseCause::NotNumeric));
    assert_eq!(parse_unsigned("12a", u8::MAX as u128), Err(ParseCause::NotNumeric));
    assert_eq!(parse_unsigned(" 1", u8::MAX as u128), Err(ParseCause::NotNumeric));
}

#[test]
fn unsigned_extremes() {
    assert_eq!(
        parse_unsigned("340282366920938463463374607431768211455", u128::MAX),
        Ok(u128::MAX)
    );
    assert_eq!(
        parse_unsigned("340282366920938463463374607431768211456", u128::MAX),
        Err(ParseCause::OutOfRange)
    );
    assert_eq!(
        parse_unsigned("999999999999999999999999999999999999999999999", u64::MAX as u128),
        Err(ParseCause::OutOfRange)
    );
}

#[test]
fn signed_literals() {
    let min = i8::MIN as i128;
    let max = i8::MAX as i128;
    assert_eq!(parse_signed("-128", min, max), Ok(-128));
    assert_eq!(parse_signed("127", min, max), Ok(127));
    assert_eq!(parse_signed("+42", min, max), Ok(42));
    assert_eq!(parse_signed("-0", min, max), Ok(0));
    assert_eq!(parse_signed("-129", min, max), Err(ParseCause::OutOfRange));
    assert_eq!(parse_signed("128", min, max), Err(ParseCause::OutOfRange));
    assert_eq!(parse_signed("-", min, max), Err(ParseCause::NotNumeric));
    assert_eq!(parse_signed("+-3", min, max), Err(ParseCause::NotNumeric));
    assert_eq!(parse_signed("--3", min, max), Err(ParseCause::NotNumeric));
}

#[test]
fn signed_extremes() {
    assert_eq!(
        parse_signed("-170141183460469231731687303715884105728", i128::MIN, i128::MAX),
        Ok(i128::MIN)
    );
    assert_eq!(
        parse_signed("170141183460469231731687303715884105727", i128::MIN, i128::MAX),
        Ok(i128::MAX)
    );
    assert_eq!(
        parse_signed("-170141183460469231731687303715884105729", i128::MIN, i128::MAX),
        Err(ParseCause::OutOfRange)
    );
}

#[test]
fn bool_literals_are_strict() {
    assert_eq!(parse_bool("true"), Ok(true));
    assert_eq!(parse_bool("false"), Ok(false));
    assert_eq!(parse_bool("TRUE"), Err(ParseCause::NotBool));
    assert_eq!(parse_bool("1"), Err(ParseCause::NotBool));
    assert_eq!(parse_bool(""), Err(ParseCause::NotBool));
    assert_eq!(parse_bool(" true"), Err(ParseCause::NotBool));
}

#[test]
fn raw_type_of_primitive_is_string() {
    let sh = raw_type(&field("a", TargetType::U32, None)).unwrap();
    assert_eq!(sh.raw_name, "String");
    assert_eq!(sh.name, "a");
    assert!(!sh.optional);
}

#[test]
fn raw_type_keeps_override() {
    let sub = Schema::new(vec![field("x", TargetType::U8, None)]).unwrap();
    let sh = raw_type(&field("b", TargetType::Nested(Box::new(sub)), Some("RawB"))).unwrap();
    assert_eq!(sh.raw_name, "RawB");
}

#[test]
fn redundant_string_override_is_refused() {
    let err = raw_type(&field("a", TargetType::U32, Some("String"))).unwrap_err();
    match &err {
        SchemaError::RedundantAnnotation(n) => assert_eq!(n, "a"),
        other => panic!("wrong error: {:?}", other),
    }
    assert_eq!(
        err.message(),
        "field 'a': the override repeats the raw type derived for a primitive"
    );
}

#[test]
fn string_override_on_non_primitive_is_kept() {
    let sub = Schema::new(vec![field("x", TargetType::U8, None)]).unwrap();
    let sh = raw_type(&field("b", TargetType::Nested(Box::new(sub)), Some("String"))).unwrap();
    assert_eq!(sh.raw_name, "String");
}

#[test]
fn non_primitive_without_override_is_refused() {
    let sub = Schema::new(vec![field("x", TargetType::U8, None)]).unwrap();
    let err = raw_type(&field("b", TargetType::Nested(Box::new(sub)), None)).unwrap_err();
    match &err {
        SchemaError::UnresolvedRawType(n) => assert_eq!(n, "b"),
        other => panic!("wrong error: {:?}", other),
    }
    assert_eq!(
        err.message(),
        "field 'b': a non-primitive field must declare a raw-type override"
    );
}

#[test]
fn schema_construction_fails_on_first_bad_field() {
    let fields = vec![
        field("ok", TargetType::U32, None),
        field("bad", TargetType::Bool, Some("String")),
        field("alsook", TargetType::Str, None),
    ];
    let err = Schema::new(fields).unwrap_err();
    assert!(matches!(err, SchemaError::RedundantAnnotation(n) if n == "bad"));
}

#[test]
fn schema_caches_raw_shape() {
    let sub = Schema::new(vec![field("x", TargetType::U8, None)]).unwrap();
    let schema = Schema::new(vec![
        field("a", TargetType::U32, None),
        field("b", TargetType::Nested(Box::new(sub)), Some("RawB")),
    ])
    .unwrap();
    assert_eq!(schema.len(), 2);
    let shapes = schema.raw_shape();
    assert_eq!(shapes.len(), 2);
    assert_eq!(shapes[0].name, "a");
    assert_eq!(shapes[0].raw_name, "String");
    assert_eq!(shapes[1].name, "b");
    assert_eq!(shapes[1].raw_name, "RawB");
}
