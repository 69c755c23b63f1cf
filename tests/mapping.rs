use arrow_avro_rs::mapper::{parse_record_fields, parse_schema, parse_struct_fields};
use arrow_avro_rs::types::{ColumnType, Error, RecordField, SchemaNode, TimeUnit};

fn field(name: &str, schema: SchemaNode) -> RecordField {
    RecordField { name: name.to_string(), schema }
}

#[test]
fn union_of_null_and_long_is_nullable_int64() {
    let u = SchemaNode::Union(vec![SchemaNode::Null, SchemaNode::Long]);
    assert_eq!(parse_schema(&u, Some(false)), Ok((ColumnType::Int64, true)));
    assert_eq!(parse_schema(&u, None), Ok((ColumnType::Int64, true)));
}

#[test]
fn union_of_long_and_null_is_nullable_int64() {
    let u = SchemaNode::Union(vec![SchemaNode::Long, SchemaNode::Null]);
    assert_eq!(parse_schema(&u, Some(false)), Ok((ColumnType::Int64, true)));
}

#[test]
fn union_of_null_alone_is_null_column() {
    let u = SchemaNode::Union(vec![SchemaNode::Null]);
    assert_eq!(parse_schema(&u, Some(false)), Ok((ColumnType::Null, true)));
}

#[test]
fn union_without_null_is_not_nullable() {
    let u = SchemaNode::Union(vec![SchemaNode::String]);
    assert_eq!(parse_schema(&u, Some(true)), Ok((ColumnType::LargeUtf8, false)));
}

#[test]
fn union_with_two_non_null_members_is_refused() {
    let u = SchemaNode::Union(vec![SchemaNode::Null, SchemaNode::Int, SchemaNode::String]);
    assert_eq!(parse_schema(&u, None), Err(Error::UnsupportedSchema));
}

#[test]
fn union_with_a_record_member_is_refused() {
    let u = SchemaNode::Union(vec![SchemaNode::Null, SchemaNode::Record(vec![])]);
    assert_eq!(parse_schema(&u, None), Err(Error::UnsupportedSchema));
}

#[test]
fn bare_int_field_is_not_nullable() {
    let fields = vec![field("a", SchemaNode::Int)];
    let cols = parse_record_fields(&fields).unwrap();
    assert_eq!(cols.len(), 1);
    assert_eq!(cols[0].name, "a");
    assert_eq!(cols[0].column_type, ColumnType::Int32);
    assert!(!cols[0].nullable);
}

#[test]
fn scalar_without_handed_down_nullability_is_nullable() {
    assert_eq!(parse_schema(&SchemaNode::Int, None), Ok((ColumnType::Int32, true)));
    assert_eq!(parse_schema(&SchemaNode::Null, None), Ok((ColumnType::Null, true)));
}

#[test]
fn scalar_kinds_map_one_to_one() {
    let cases = vec![
        (SchemaNode::Null, ColumnType::Null),
        (SchemaNode::Boolean, ColumnType::Boolean),
        (SchemaNode::Int, ColumnType::Int32),
        (SchemaNode::Long, ColumnType::Int64),
        (SchemaNode::Float, ColumnType::Float32),
        (SchemaNode::Double, ColumnType::Float64),
        (SchemaNode::Bytes, ColumnType::Binary),
        (SchemaNode::String, ColumnType::LargeUtf8),
        (SchemaNode::Uuid, ColumnType::Utf8),
        (SchemaNode::Date, ColumnType::Date32),
        (SchemaNode::TimeMillis, ColumnType::Time32(TimeUnit::Millisecond)),
        (SchemaNode::TimeMicros, ColumnType::Time64(TimeUnit::Microsecond)),
        (SchemaNode::TimestampMillis, ColumnType::Timestamp(TimeUnit::Millisecond)),
        (SchemaNode::TimestampMicros, ColumnType::Timestamp(TimeUnit::Microsecond)),
        (SchemaNode::Duration, ColumnType::Duration(TimeUnit::Microsecond)),
    ];
    for (node, t) in cases {
        assert_eq!(parse_schema(&node, Some(false)), Ok((t, false)));
    }
}

#[test]
fn decimal_keeps_precision_and_scale() {
    let d = SchemaNode::Decimal { precision: 10, scale: 2 };
    assert_eq!(parse_schema(&d, None), Ok((ColumnType::Decimal128(10, 2), true)));
}

#[test]
fn collection_kinds_are_refused() {
    for node in vec![SchemaNode::Array, SchemaNode::MapOf, SchemaNode::Enum, SchemaNode::Fixed] {
        assert_eq!(parse_schema(&node, None), Err(Error::UnsupportedSchema));
    }
}

#[test]
fn nested_record_is_refused() {
    let inner = SchemaNode::Record(vec![field("x", SchemaNode::Int)]);
    let fields = vec![field("a", SchemaNode::Int), field("b", inner)];
    assert_eq!(parse_record_fields(&fields), Err(Error::UnsupportedSchema));
}

#[test]
fn top_level_schema_must_be_a_record() {
    assert_eq!(parse_struct_fields(&SchemaNode::Long), Err(Error::UnsupportedSchema));
}

#[test]
fn record_fields_keep_declaration_order() {
    let schema = SchemaNode::Record(vec![
        field("z", SchemaNode::String),
        field("a", SchemaNode::Union(vec![SchemaNode::Null, SchemaNode::Double])),
        field("m", SchemaNode::Boolean),
    ]);
    let cols = parse_struct_fields(&schema).unwrap();
    let names: Vec<&str> = cols.iter().map(|c| c.name.as_str()).collect();
    assert_eq!(names, vec!["z", "a", "m"]);
    assert_eq!(cols[1].column_type, ColumnType::Float64);
    assert!(cols[1].nullable);
    assert!(!cols[0].nullable);
}
