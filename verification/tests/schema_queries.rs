use ovsdb_schema::json::Json;
use ovsdb_schema::schema::{Column, Schema, Table};
use ovsdb_schema::types::{ColumnType, MaxOrUnlimited};
use ovsdb_schema::common::AtomicType;
use ovsdb_schema::Error;

fn s(x: &str) -> String {
    x.to_string()
}

fn obj(fields: Vec<(&str, Json)>) -> Json {
    Json::Obj(fields.into_iter().map(|(k, v)| (s(k), v)).collect())
}

fn small_schema() -> Json {
    obj(vec![
        ("name", Json::Str(s("OVN_Northbound"))),
        ("version", Json::Str(s("5.16.0"))),
        ("cksum", Json::Str(s("923459061 23095"))),
        (
            "tables",
            obj(vec![
                (
                    "NB_Global",
                    obj(vec![
                        (
                            "columns",
                            obj(vec![(
                                "nb_cfg",
                                obj(vec![("type", Json::Str(s("integer")))]),
                            )]),
                        ),
                        ("maxRows", Json::Int(1)),
                        ("isRoot", Json::Bool(true)),
                    ]),
                ),
                (
                    "DNS",
                    obj(vec![
                        (
                            "columns",
                            obj(vec![
                                (
                                    "records",
                                    obj(vec![
                                        (
                                            "type",
                                            obj(vec![
                                                ("key", Json::Str(s("string"))),
                                                ("value", Json::Str(s("string"))),
                                                ("min", Json::Int(0)),
                                                ("max", Json::Str(s("unlimited"))),
                                            ]),
                                        ),
                                        ("mutable", Json::Bool(true)),
                                    ]),
                                ),
                                (
                                    "external_ids",
                                    obj(vec![(
                                        "type",
                                        obj(vec![
                                            ("key", Json::Str(s("string"))),
                                            ("value", Json::Str(s("string"))),
                                            ("min", Json::Int(0)),
                                            ("max", Json::Str(s("unlimited"))),
                                        ]),
                                    )]),
                                ),
                            ]),
                        ),
                        ("isRoot", Json::Bool(false)),
                        (
                            "indexes",
                            Json::Arr(vec![Json::Arr(vec![Json::Str(s("external_ids"))])]),
                        ),
                    ]),
                ),
            ]),
        ),
    ])
}

#[test]
fn test_schema_decode() {
    let schema = Schema::decode(&small_schema()).unwrap();
    assert_eq!(schema.name, "OVN_Northbound");
    assert_eq!(schema.version, Some(s("5.16.0")));
    assert_eq!(schema.cksum, Some(s("923459061 23095")));
    assert_eq!(schema.table_count(), 2);
    let names = schema.table_names();
    assert_eq!(names, vec![s("NB_Global"), s("DNS")]);
}

#[test]
fn test_has_table_and_get_table() {
    let schema = Schema::decode(&small_schema()).unwrap();
    assert!(schema.has_table("NB_Global"));
    assert!(schema.has_table("DNS"));
    assert!(!schema.has_table("X"));
    assert!(schema.get_table("X").is_none());
    assert!(schema.get_table("DNS").is_some());
}

#[test]
fn test_table_queries() {
    let schema = Schema::decode(&small_schema()).unwrap();
    let nb = schema.get_table("NB_Global").unwrap();
    assert!(nb.is_root());
    assert_eq!(nb.get_max_rows(), Some(1));
    assert!(!nb.has_index());
    assert!(nb.index().is_none());
    assert_eq!(nb.iter_columns().len(), 1);
    let dns = schema.get_table("DNS").unwrap();
    assert!(!dns.is_root());
    assert_eq!(dns.get_max_rows(), None);
    assert!(dns.has_index());
    assert_eq!(
        dns.index().unwrap(),
        &vec![vec![s("external_ids")]]
    );
    let (first_name, records) = &dns.iter_columns()[0];
    assert_eq!(first_name, "records");
    assert!(records.mutable);
    assert!(!records.ephemeral);
    match &records.type_ {
        ColumnType::Complex(c) => {
            assert_eq!(c.min, 0);
            assert!(matches!(c.max, MaxOrUnlimited::Unlimited));
            assert!(c.value.is_some());
        }
        _ => panic!("Expected ColumnComplexType"),
    }
}

#[test]
fn test_is_root_default() {
    let json = obj(vec![(
        "columns",
        obj(vec![("c", obj(vec![("type", Json::Str(s("string")))]))]),
    )]);
    let table = Table::decode(&json).unwrap();
    assert!(table.is_root());
    assert_eq!(table.get_max_rows(), None);
    assert!(!table.has_index());
}

#[test]
fn test_column_defaults() {
    let json = obj(vec![("type", Json::Str(s("boolean")))]);
    let column = Column::decode(&json).unwrap();
    assert!(!column.ephemeral);
    assert!(!column.mutable);
    assert!(matches!(column.type_, ColumnType::Atomic(AtomicType::Boolean)));
}

#[test]
fn test_schema_missing_tables() {
    let json = obj(vec![("name", Json::Str(s("S")))]);
    let err = Schema::decode(&json).unwrap_err();
    assert_eq!(err, Error::MissingRequiredField);
}

#[test]
fn test_table_missing_columns() {
    let json = obj(vec![("isRoot", Json::Bool(true))]);
    let err = Table::decode(&json).unwrap_err();
    assert_eq!(err, Error::MissingRequiredField);
}

#[test]
fn test_table_bad_indexes() {
    let json = obj(vec![
        (
            "columns",
            obj(vec![("c", obj(vec![("type", Json::Str(s("string")))]))]),
        ),
        ("indexes", Json::Arr(vec![Json::Str(s("c"))])),
    ]);
    let err = Table::decode(&json).unwrap_err();
    assert_eq!(err, Error::TypeMismatch);
}

#[test]
fn test_table_negative_max_rows() {
    let json = obj(vec![
        (
            "columns",
            obj(vec![("c", obj(vec![("type", Json::Str(s("string")))]))]),
        ),
        ("maxRows", Json::Int(-5)),
    ]);
    let err = Table::decode(&json).unwrap_err();
    assert_eq!(err, Error::TypeMismatch);
}

#[test]
fn test_schema_not_an_object() {
    let err = Schema::decode(&Json::Str(s("nope"))).unwrap_err();
    assert_eq!(err, Error::TypeMismatch);
}
