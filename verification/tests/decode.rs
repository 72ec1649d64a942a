use ovsdb_schema::common::{AtomicType, RealValue, SetValue};
use ovsdb_schema::json::Json;
use ovsdb_schema::types::{
    BaseType, ColumnShape, ColumnType, ConstrainedBaseType, MaxOrUnlimited, RefType,
};
use ovsdb_schema::Error;

fn s(x: &str) -> String {
    x.to_string()
}

fn obj(fields: Vec<(&str, Json)>) -> Json {
    Json::Obj(fields.into_iter().map(|(k, v)| (s(k), v)).collect())
}

#[test]
fn test_base_type_int_many_enums() {
    let json = obj(vec![
        ("type", Json::Str(s("integer"))),
        ("minInteger", Json::Int(-1)),
        ("maxInteger", Json::Int(1)),
        (
            "enum",
            Json::Arr(vec![
                Json::Str(s("set")),
                Json::Arr(vec![Json::Int(-1), Json::Int(0), Json::Int(1)]),
            ]),
        ),
    ]);
    let base_type = ConstrainedBaseType::decode(&json).unwrap();
    match base_type {
        ConstrainedBaseType::BaseTypeInt {
            min_integer,
            max_integer,
            enum_,
        } => {
            assert_eq!(min_integer, Some(-1));
            assert_eq!(max_integer, Some(1));
            match enum_.unwrap() {
                SetValue::Many(values) => assert_eq!(values, vec![-1, 0, 1]),
                _ => panic!("Expected Set::Many"),
            }
        }
        _ => panic!("Expected BaseTypeInt"),
    }
}

#[test]
fn test_base_type_int_single_enum() {
    let json = obj(vec![
        ("type", Json::Str(s("integer"))),
        ("minInteger", Json::Int(-1)),
        ("maxInteger", Json::Int(1)),
        ("enum", Json::Int(0)),
    ]);
    let base_type = ConstrainedBaseType::decode(&json).unwrap();
    match base_type {
        ConstrainedBaseType::BaseTypeInt {
            min_integer,
            max_integer,
            enum_,
        } => {
            assert_eq!(min_integer, Some(-1));
            assert_eq!(max_integer, Some(1));
            match enum_.unwrap() {
                SetValue::One(value) => assert_eq!(value, 0),
                _ => panic!("Expected Set::One"),
            }
        }
        _ => panic!("Expected BaseTypeInt"),
    }
}

#[test]
fn test_base_type_int_serialize_many_enums() {
    let base_type = ConstrainedBaseType::BaseTypeInt {
        min_integer: Some(-1),
        max_integer: Some(1),
        enum_: Some(SetValue::Many(vec![-1, 0, 1])),
    };
    let json = base_type.encode();
    let expected = obj(vec![
        ("type", Json::Str(s("integer"))),
        ("minInteger", Json::Int(-1)),
        ("maxInteger", Json::Int(1)),
        (
            "enum",
            Json::Arr(vec![
                Json::Str(s("set")),
                Json::Arr(vec![Json::Int(-1), Json::Int(0), Json::Int(1)]),
            ]),
        ),
    ]);
    assert_eq!(json, expected);
}

#[test]
fn test_base_type_string_serialize_many_enums() {
    let base_type = ConstrainedBaseType::BaseTypeString {
        min_length: Some(0),
        max_length: Some(100),
        enum_: Some(SetValue::Many(vec![s("tcp"), s("udp"), s("stcp")])),
    };
    let json = base_type.encode();
    let expected = obj(vec![
        ("type", Json::Str(s("string"))),
        ("minLength", Json::Int(0)),
        ("maxLength", Json::Int(100)),
        (
            "enum",
            Json::Arr(vec![
                Json::Str(s("set")),
                Json::Arr(vec![
                    Json::Str(s("tcp")),
                    Json::Str(s("udp")),
                    Json::Str(s("stcp")),
                ]),
            ]),
        ),
    ]);
    assert_eq!(json, expected);
}

#[test]
fn test_base_type_real() {
    let json = obj(vec![
        ("type", Json::Str(s("real"))),
        ("minReal", Json::Real((-1.5f64).to_bits())),
        ("maxReal", Json::Real((1.5f64).to_bits())),
    ]);
    let base_type = ConstrainedBaseType::decode(&json).unwrap();
    match base_type {
        ConstrainedBaseType::BaseTypeReal {
            min_real,
            max_real,
            enum_,
        } => {
            assert_eq!(min_real, Some(RealValue::Bits((-1.5f64).to_bits())));
            assert_eq!(max_real, Some(RealValue::Bits((1.5f64).to_bits())));
            assert_eq!(enum_, None);
        }
        _ => panic!("Expected BaseTypeReal"),
    }
}

#[test]
fn test_base_type_string_with_many_enums() {
    let json = obj(vec![
        ("type", Json::Str(s("string"))),
        ("minLength", Json::Int(0)),
        ("maxLength", Json::Int(100)),
        (
            "enum",
            Json::Arr(vec![
                Json::Str(s("set")),
                Json::Arr(vec![
                    Json::Str(s("tcp")),
                    Json::Str(s("udp")),
                    Json::Str(s("stcp")),
                ]),
            ]),
        ),
    ]);
    let base_type = ConstrainedBaseType::decode(&json).unwrap();
    match base_type {
        ConstrainedBaseType::BaseTypeString {
            min_length,
            max_length,
            enum_,
        } => {
            assert_eq!(min_length, Some(0));
            assert_eq!(max_length, Some(100));
            match enum_.unwrap() {
                SetValue::Many(values) => assert_eq!(values, vec!["tcp", "udp", "stcp"]),
                _ => panic!("Expected Set::Many"),
            }
        }
        _ => panic!("Expected BaseTypeString"),
    }
}

#[test]
fn test_base_type_string_with_single_enum() {
    let json = obj(vec![
        ("type", Json::Str(s("string"))),
        ("minLength", Json::Int(0)),
        ("maxLength", Json::Int(100)),
        ("enum", Json::Str(s("tcp"))),
    ]);
    let base_type = ConstrainedBaseType::decode(&json).unwrap();
    match base_type {
        ConstrainedBaseType::BaseTypeString {
            min_length,
            max_length,
            enum_,
        } => {
            assert_eq!(min_length, Some(0));
            assert_eq!(max_length, Some(100));
            match enum_.unwrap() {
                SetValue::One(value) => assert_eq!(value, "tcp"),
                _ => panic!("Expected Set::One"),
            }
        }
        _ => panic!("Expected BaseTypeString"),
    }
}

#[test]
fn test_base_type_uuid() {
    let json = obj(vec![
        ("type", Json::Str(s("uuid"))),
        ("refTable", Json::Str(s("DNS"))),
        ("refType", Json::Str(s("weak"))),
    ]);
    let base_type = ConstrainedBaseType::decode(&json).unwrap();
    match base_type {
        ConstrainedBaseType::BaseTypeUUID {
            ref_table,
            ref_type,
        } => {
            assert_eq!(ref_table, "DNS");
            assert!(matches!(ref_type, RefType::Weak));
        }
        _ => panic!("Expected BaseTypeUUID"),
    }
}

#[test]
fn test_base_type_uuid_default_value() {
    let json = obj(vec![
        ("type", Json::Str(s("uuid"))),
        ("refTable", Json::Str(s("TestTable"))),
    ]);
    let base_type = ConstrainedBaseType::decode(&json).unwrap();
    match base_type {
        ConstrainedBaseType::BaseTypeUUID {
            ref_table,
            ref_type,
        } => {
            assert_eq!(ref_table, "TestTable");
            assert!(matches!(ref_type, RefType::Strong));
        }
        _ => panic!("Expected BaseTypeUUID"),
    }
}

#[test]
fn test_column_type_int() {
    let json = obj(vec![
        (
            "key",
            obj(vec![
                ("type", Json::Str(s("integer"))),
                ("minInteger", Json::Int(0)),
                ("maxInteger", Json::Int(4095)),
            ]),
        ),
        ("min", Json::Int(0)),
        ("max", Json::Int(1)),
    ]);
    let column_type = ColumnType::decode(&json).unwrap();
    match column_type {
        ColumnType::Complex(complex) => match complex.key {
            BaseType::Constrained(ConstrainedBaseType::BaseTypeInt {
                min_integer,
                max_integer,
                enum_,
            }) => {
                assert_eq!(min_integer, Some(0));
                assert_eq!(max_integer, Some(4095));
                assert_eq!(enum_, None);
                assert!(complex.value.is_none());
                assert_eq!(complex.min, 0);
                assert!(matches!(complex.max, MaxOrUnlimited::Max(1)));
            }
            _ => panic!("Expected BaseTypeInt"),
        },
        _ => panic!("Expected ColumnComplexType"),
    }
}

#[test]
fn test_column_type_uuid() {
    let json = obj(vec![
        (
            "key",
            obj(vec![
                ("type", Json::Str(s("uuid"))),
                ("refTable", Json::Str(s("DNS"))),
                ("refType", Json::Str(s("weak"))),
            ]),
        ),
        ("min", Json::Int(0)),
        ("max", Json::Str(s("unlimited"))),
    ]);
    let column_type = ColumnType::decode(&json).unwrap();
    match column_type {
        ColumnType::Complex(complex) => match complex.key {
            BaseType::Constrained(ConstrainedBaseType::BaseTypeUUID {
                ref_table,
                ref_type,
            }) => {
                assert_eq!(ref_table, "DNS");
                assert!(matches!(ref_type, RefType::Weak));
                assert!(complex.value.is_none());
                assert_eq!(complex.min, 0);
                assert!(matches!(complex.max, MaxOrUnlimited::Unlimited));
            }
            _ => panic!("Expected BaseTypeUUID"),
        },
        _ => panic!("Expected ColumnComplexType"),
    }
}

#[test]
fn test_set_round_trip_one() {
    let set: Option<SetValue<i64>> = Some(SetValue::One(42));
    let encoded = ovsdb_schema::common::serialize_set(&set);
    assert_eq!(encoded, Json::Int(42));
    let decoded = ovsdb_schema::common::deserialize_set::<i64>(&encoded).unwrap();
    assert_eq!(decoded, set);
}

#[test]
fn test_set_round_trip_many() {
    let set: Option<SetValue<String>> = Some(SetValue::Many(vec![s("a"), s("b")]));
    let encoded = ovsdb_schema::common::serialize_set(&set);
    let expected = Json::Arr(vec![
        Json::Str(s("set")),
        Json::Arr(vec![Json::Str(s("a")), Json::Str(s("b"))]),
    ]);
    assert_eq!(encoded, expected);
    let decoded = ovsdb_schema::common::deserialize_set::<String>(&encoded).unwrap();
    assert_eq!(decoded, set);
}

#[test]
fn test_set_round_trip_absent() {
    let set: Option<SetValue<i64>> = None;
    let encoded = ovsdb_schema::common::serialize_set(&set);
    assert_eq!(encoded, Json::Null);
    let decoded = ovsdb_schema::common::deserialize_set::<i64>(&encoded).unwrap();
    assert_eq!(decoded, None);
}

#[test]
fn test_set_malformed_header() {
    let json = Json::Arr(vec![
        Json::Str(s("nope")),
        Json::Arr(vec![Json::Int(1), Json::Int(2)]),
    ]);
    let err = ovsdb_schema::common::deserialize_set::<i64>(&json).unwrap_err();
    assert_eq!(err, Error::MalformedSet);
}

#[test]
fn test_set_malformed_length() {
    let json = Json::Arr(vec![Json::Str(s("set"))]);
    let err = ovsdb_schema::common::deserialize_set::<i64>(&json).unwrap_err();
    assert_eq!(err, Error::MalformedSet);
}

#[test]
fn test_set_element_mismatch() {
    let json = Json::Arr(vec![
        Json::Str(s("set")),
        Json::Arr(vec![Json::Int(1), Json::Bool(true)]),
    ]);
    let err = ovsdb_schema::common::deserialize_set::<i64>(&json).unwrap_err();
    assert_eq!(err, Error::TypeMismatch);
}

#[test]
fn test_atomic_type_names() {
    assert_eq!(
        AtomicType::decode(&Json::Str(s("integer"))),
        Some(AtomicType::Integer)
    );
    assert_eq!(
        AtomicType::decode(&Json::Str(s("string"))),
        Some(AtomicType::String)
    );
    assert_eq!(
        AtomicType::decode(&Json::Str(s("real"))),
        Some(AtomicType::Real)
    );
    assert_eq!(
        AtomicType::decode(&Json::Str(s("boolean"))),
        Some(AtomicType::Boolean)
    );
    assert_eq!(
        AtomicType::decode(&Json::Str(s("uuid"))),
        Some(AtomicType::Uuid)
    );
    assert_eq!(AtomicType::decode(&Json::Str(s("float"))), None);
    assert_eq!(AtomicType::decode(&Json::Int(1)), None);
}

#[test]
fn test_unknown_variant() {
    let json = obj(vec![
        ("type", Json::Str(s("decimal"))),
        ("minInteger", Json::Int(0)),
    ]);
    let err = ConstrainedBaseType::decode(&json).unwrap_err();
    assert_eq!(err, Error::UnknownVariant);
}

#[test]
fn test_invalid_reference_kind() {
    let json = obj(vec![
        ("type", Json::Str(s("uuid"))),
        ("refTable", Json::Str(s("DNS"))),
        ("refType", Json::Str(s("Weak"))),
    ]);
    let err = ConstrainedBaseType::decode(&json).unwrap_err();
    assert_eq!(err, Error::InvalidReferenceKind);
}

#[test]
fn test_missing_ref_table() {
    let json = obj(vec![("type", Json::Str(s("uuid")))]);
    let err = ConstrainedBaseType::decode(&json).unwrap_err();
    assert_eq!(err, Error::MissingRequiredField);
}

#[test]
fn test_invalid_cardinality_bound() {
    let json = obj(vec![
        (
            "key",
            obj(vec![("type", Json::Str(s("uuid"))), ("refTable", Json::Str(s("DNS")))]),
        ),
        ("max", Json::Str(s("bounded"))),
    ]);
    let err = ColumnType::decode(&json).unwrap_err();
    assert_eq!(err, Error::InvalidCardinalityBound);
    let json = obj(vec![
        (
            "key",
            obj(vec![("type", Json::Str(s("uuid"))), ("refTable", Json::Str(s("DNS")))]),
        ),
        ("max", Json::Real((1.5f64).to_bits())),
    ]);
    let err = ColumnType::decode(&json).unwrap_err();
    assert_eq!(err, Error::InvalidCardinalityBound);
}

#[test]
fn test_type_mismatch_min() {
    let json = obj(vec![
        (
            "key",
            obj(vec![("type", Json::Str(s("uuid"))), ("refTable", Json::Str(s("DNS")))]),
        ),
        ("min", Json::Str(s("zero"))),
    ]);
    let err = ColumnType::decode(&json).unwrap_err();
    assert_eq!(err, Error::TypeMismatch);
}

#[test]
fn test_missing_key() {
    let json = obj(vec![("min", Json::Int(0)), ("max", Json::Int(1))]);
    let err = ColumnType::decode(&json).unwrap_err();
    assert_eq!(err, Error::MissingRequiredField);
}

#[test]
fn test_cbt_decode_encode_round_trip() {
    let json = obj(vec![
        ("type", Json::Str(s("integer"))),
        ("minInteger", Json::Int(-1)),
        ("maxInteger", Json::Int(1)),
        (
            "enum",
            Json::Arr(vec![
                Json::Str(s("set")),
                Json::Arr(vec![Json::Int(-1), Json::Int(0), Json::Int(1)]),
            ]),
        ),
    ]);
    let base_type = ConstrainedBaseType::decode(&json).unwrap();
    assert_eq!(base_type.encode(), json);
}

#[test]
fn test_column_shape() {
    let scalar = obj(vec![("key", Json::Str(s("integer")))]);
    match ColumnType::decode(&scalar).unwrap() {
        ColumnType::Complex(c) => assert_eq!(c.shape(), ColumnShape::Scalar),
        _ => panic!("Expected ColumnComplexType"),
    }
    let set = obj(vec![
        ("key", Json::Str(s("integer"))),
        ("min", Json::Int(0)),
        ("max", Json::Str(s("unlimited"))),
    ]);
    match ColumnType::decode(&set).unwrap() {
        ColumnType::Complex(c) => assert_eq!(c.shape(), ColumnShape::SetType),
        _ => panic!("Expected ColumnComplexType"),
    }
    let map = obj(vec![
        ("key", Json::Str(s("string"))),
        ("value", Json::Str(s("string"))),
    ]);
    match ColumnType::decode(&map).unwrap() {
        ColumnType::Complex(c) => assert_eq!(c.shape(), ColumnShape::MapType),
        _ => panic!("Expected ColumnComplexType"),
    }
}
