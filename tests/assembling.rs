use arrow_avro_rs::assembler::{assemble, BatchAssembler};
use arrow_avro_rs::types::{ColumnData, ColumnType, DecodedValue, Error, Number, RecordField, SchemaNode};

fn field(name: &str, schema: SchemaNode) -> RecordField {
    RecordField { name: name.to_string(), schema }
}

fn schema() -> SchemaNode {
    SchemaNode::Record(vec![
        field("id", SchemaNode::Long),
        field("name", SchemaNode::Union(vec![SchemaNode::Null, SchemaNode::String])),
        field("score", SchemaNode::Double),
        field("ok", SchemaNode::Boolean),
    ])
}

fn row(id: i64, name: Option<&str>, score: f64, ok: bool) -> DecodedValue {
    let name = match name {
        Some(s) => DecodedValue::Union(Box::new(DecodedValue::String(s.to_string()))),
        None => DecodedValue::Union(Box::new(DecodedValue::Null)),
    };
    DecodedValue::Record(vec![
        DecodedValue::Long(id),
        name,
        DecodedValue::Double(score.to_bits()),
        DecodedValue::Boolean(ok),
    ])
}

fn column_len(c: &ColumnData) -> usize {
    match c {
        ColumnData::Null(n) => *n,
        ColumnData::Boolean(v) => v.len(),
        ColumnData::Utf8(v) => v.len(),
        ColumnData::Int32(v) => v.len(),
        ColumnData::Int64(v) => v.len(),
        ColumnData::Int128(v) => v.len(),
        ColumnData::Number(v) => v.len(),
    }
}

#[test]
fn rows_that_are_not_records_are_dropped() {
    let mut rows = Vec::new();
    for i in 0..5 {
        rows.push(row(i, Some("n"), 1.0, true));
        if i % 2 == 0 && i < 4 {
            rows.push(DecodedValue::Long(99));
        }
    }
    assert_eq!(rows.len(), 7);
    let s = assemble(&schema(), rows).unwrap();
    assert_eq!(s.columns.len(), 4);
    for c in &s.columns {
        assert_eq!(column_len(c), 5);
    }
    assert_eq!(s.columns[0], ColumnData::Int64(vec![Some(0), Some(1), Some(2), Some(3), Some(4)]));
}

#[test]
fn heterogeneous_cells_keep_column_lengths() {
    let rows = vec![
        row(1, None, 2.0, false),
        DecodedValue::Record(vec![
            DecodedValue::String("x".to_string()),
            DecodedValue::Int(5),
            DecodedValue::Other,
            DecodedValue::Null,
        ]),
        DecodedValue::Record(vec![DecodedValue::Int(7)]),
    ];
    let s = assemble(&schema(), rows).unwrap();
    assert_eq!(s.fields.len(), 4);
    assert_eq!(s.fields[1].name, "name");
    assert!(s.fields[1].nullable);
    assert_eq!(s.fields[2].column_type, ColumnType::Float64);
    for c in &s.columns {
        assert_eq!(column_len(c), 3);
    }
    assert_eq!(s.columns[0], ColumnData::Int64(vec![Some(1), None, Some(7)]));
    assert_eq!(s.columns[1], ColumnData::Utf8(vec![None, None, None]));
    assert_eq!(s.columns[3], ColumnData::Boolean(vec![Some(false), None, None]));
}

#[test]
fn exact_rows_give_no_null_entries() {
    let rows = vec![row(1, Some("a"), 0.5, true), row(2, Some("b"), -3.0, false)];
    let s = assemble(&schema(), rows).unwrap();
    assert_eq!(s.columns[0], ColumnData::Int64(vec![Some(1), Some(2)]));
    assert_eq!(
        s.columns[1],
        ColumnData::Utf8(vec![Some("a".to_string()), Some("b".to_string())])
    );
    assert_eq!(
        s.columns[2],
        ColumnData::Number(vec![
            Some(Number::Double(0.5f64.to_bits())),
            Some(Number::Double((-3.0f64).to_bits())),
        ])
    );
    assert_eq!(s.columns[3], ColumnData::Boolean(vec![Some(true), Some(false)]));
}

#[test]
fn no_rows_give_empty_columns() {
    let s = assemble(&schema(), vec![]).unwrap();
    for c in &s.columns {
        assert_eq!(column_len(c), 0);
    }
}

#[test]
fn assemble_refuses_a_non_record_schema() {
    assert_eq!(assemble(&SchemaNode::Int, vec![]), Err(Error::UnsupportedSchema));
}

#[test]
fn assemble_refuses_a_bytes_field() {
    let s = SchemaNode::Record(vec![field("b", SchemaNode::Bytes)]);
    assert_eq!(assemble(&s, vec![]), Err(Error::UnsupportedTarget));
}

#[test]
fn assembler_takes_rows_one_at_a_time() {
    let mut a = BatchAssembler::new(&schema()).unwrap();
    a.push_row(row(10, Some("p"), 1.0, true));
    a.push_row(DecodedValue::Null);
    a.push_row(row(11, None, 1.0, true));
    let s = a.finish().unwrap();
    assert_eq!(s.columns[0], ColumnData::Int64(vec![Some(10), Some(11)]));
}
