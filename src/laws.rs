use vstd::prelude::*;
use crate::assembler::{field_cells, record_cell, record_rows, schema_fields, StructColumns};
use crate::decoder::{column_len, decoded_column, entry_is_null};
use crate::mapper::{fields_mapped, mapped};
use crate::numeric::{be_signed, fits_i128};
use crate::types::{DecodedValue, SchemaNode};

verus! {

/// Whether a cell is a plain value (no union) of exactly the kind that a
/// scalar schema node describes, and one that the column can hold. Kinds
/// whose cells never fill an entry (`Null`, `Bytes`, `Uuid`, `Duration`) and
/// compound kinds have no such value.
pub open spec fn value_of_kind(node: SchemaNode, v: DecodedValue) -> bool {
    match node {
        SchemaNode::Boolean => v is Boolean,
        SchemaNode::Int => v is Int,
        SchemaNode::Long => v is Long,
        SchemaNode::Float => v is Float,
        SchemaNode::Double => v is Double,
        SchemaNode::String => v is String,
        SchemaNode::Decimal { .. } => v matches DecodedValue::Decimal(b) && b@.len() > 0 && fits_i128(
            be_signed(b@),
        ),
        SchemaNode::Date => v is Date,
        SchemaNode::TimeMillis => v is TimeMillis,
        SchemaNode::TimeMicros => v is TimeMicros,
        SchemaNode::TimestampMillis => v is TimestampMillis,
        SchemaNode::TimestampMicros => v is TimestampMicros,
        _ => false,
    }
}

/// Whether every row is a record whose cells match the field kinds of the
/// record schema one for one.
pub open spec fn rows_of_schema(fields: Seq<crate::types::RecordField>, rows: Seq<DecodedValue>) -> bool {
    forall|r: int|
        0 <= r < rows.len() ==> (#[trigger] rows[r] matches DecodedValue::Record(cells) && cells@.len()
            == fields.len() && forall|i: int|
            0 <= i < fields.len() ==> value_of_kind(fields[i].schema, #[trigger] cells@[i]))
}

/// A column decoded, under the column type that a node maps to, from cells
/// that are exactly of the node's kind has no null entry.
pub proof fn lemma_exact_cells_decode_without_nulls(
    node: SchemaNode,
    inherited: Option<bool>,
    cells: Seq<DecodedValue>,
    d: crate::types::ColumnData,
)
    requires
        forall|i: int| 0 <= i < cells.len() ==> value_of_kind(node, #[trigger] cells[i]),
        mapped(node, inherited) matches Some(p) && decoded_column(cells, p.0, d),
    ensures
        column_len(d) == cells.len(),
        forall|i: int| 0 <= i < cells.len() ==> !entry_is_null(d, i),
{
    assert forall|i: int| 0 <= i < cells.len() implies !entry_is_null(d, i) by {
        assert(value_of_kind(node, cells[i]));
    }
}

/// Mapping a record schema and decoding rows that match its field kinds
/// exactly, with no unions, gives columns without a null entry.
pub proof fn lemma_round_trip_without_nulls(schema: SchemaNode, rows: Seq<DecodedValue>, s: StructColumns)
    requires
        rows_of_schema(schema_fields(schema), rows),
        fields_mapped(schema_fields(schema), s.fields@),
        s.decoded_from(record_rows(rows)),
    ensures
        forall|i: int, r: int|
            0 <= i < s.columns@.len() && 0 <= r < record_rows(rows).len() ==> !#[trigger] entry_is_null(
                s.columns@[i],
                r,
            ),
{
    let fields = schema_fields(schema);
    lemma_record_rows_of_schema(fields, rows);
    let recs = record_rows(rows);
    assert forall|i: int, r: int|
        0 <= i < s.columns@.len() && 0 <= r < recs.len() implies !#[trigger] entry_is_null(
        s.columns@[i],
        r,
    ) by {
        let cells = field_cells(recs, i);
        assert(decoded_column(cells, s.fields@[i].column_type, s.columns@[i]));
        assert forall|k: int| 0 <= k < cells.len() implies value_of_kind(
            fields[i].schema,
            #[trigger] cells[k],
        ) by {
            assert(cells[k] == record_cell(recs[k], i));
        }
        lemma_exact_cells_decode_without_nulls(fields[i].schema, Some(false), cells, s.columns@[i]);
    }
}

/// Every record row of rows that match a record schema has one cell per
/// field, each of the field's kind.
proof fn lemma_record_rows_of_schema(fields: Seq<crate::types::RecordField>, rows: Seq<DecodedValue>)
    requires
        rows_of_schema(fields, rows),
    ensures
        record_rows(rows).len() == rows.len(),
        forall|r: int| 0 <= r < rows.len() ==> (#[trigger] record_rows(rows)[r]).len() == fields.len(),
        forall|r: int, i: int|
            0 <= r < rows.len() && 0 <= i < fields.len() ==> value_of_kind(
                fields[i].schema,
                #[trigger] record_cell(record_rows(rows)[r], i),
            ),
    decreases rows.len(),
{
    if rows.len() > 0 {
        let before = rows.drop_last();
        assert forall|r: int| 0 <= r < before.len() implies (#[trigger] before[r] matches DecodedValue::Record(cells)
            && cells@.len() == fields.len() && forall|i: int|
            0 <= i < fields.len() ==> value_of_kind(fields[i].schema, #[trigger] cells@[i])) by {
            assert(before[r] == rows[r]);
        }
        lemma_record_rows_of_schema(fields, before);
        let last = rows.last();
        assert(rows[rows.len() - 1] == last);
    }
}

} // verus!
