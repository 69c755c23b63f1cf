use vstd::prelude::*;
use crate::types::{ColumnField, ColumnType, Error, RecordField, SchemaNode, TimeUnit};

verus! {

/// The column type of a node that is neither a union nor a record, if any.
pub open spec fn scalar_column_type(node: SchemaNode) -> Option<ColumnType> {
    match node {
        SchemaNode::Null => Some(ColumnType::Null),
        SchemaNode::Boolean => Some(ColumnType::Boolean),
        SchemaNode::Int => Some(ColumnType::Int32),
        SchemaNode::Long => Some(ColumnType::Int64),
        SchemaNode::Float => Some(ColumnType::Float32),
        SchemaNode::Double => Some(ColumnType::Float64),
        SchemaNode::Bytes => Some(ColumnType::Binary),
        SchemaNode::String => Some(ColumnType::LargeUtf8),
        SchemaNode::Decimal { precision, scale } => Some(ColumnType::Decimal128(precision, scale)),
        SchemaNode::Uuid => Some(ColumnType::Utf8),
        SchemaNode::Date => Some(ColumnType::Date32),
        SchemaNode::TimeMillis => Some(ColumnType::Time32(TimeUnit::Millisecond)),
        SchemaNode::TimeMicros => Some(ColumnType::Time64(TimeUnit::Microsecond)),
        SchemaNode::TimestampMillis => Some(ColumnType::Timestamp(TimeUnit::Millisecond)),
        SchemaNode::TimestampMicros => Some(ColumnType::Timestamp(TimeUnit::Microsecond)),
        SchemaNode::Duration => Some(ColumnType::Duration(TimeUnit::Microsecond)),
        _ => None,
    }
}

/// The members of a union that are not `Null`, in declaration order.
pub open spec fn non_null_variants(vs: Seq<SchemaNode>) -> Seq<SchemaNode>
    decreases vs.len(),
{
    if vs.len() == 0 {
        Seq::empty()
    } else {
        let rest = non_null_variants(vs.drop_last());
        if vs.last() is Null {
            rest
        } else {
            rest.push(vs.last())
        }
    }
}

/// Whether a union has a `Null` member.
pub open spec fn has_null_variant(vs: Seq<SchemaNode>) -> bool {
    exists|i: int| 0 <= i < vs.len() && #[trigger] vs[i] is Null
}

/// The column type and nullability of a schema node, given the nullability
/// that the caller hands down; `None` where no column type stands for it.
pub open spec fn mapped(node: SchemaNode, inherited: Option<bool>) -> Option<(ColumnType, bool)> {
    match node {
        SchemaNode::Union(vs) => {
            let members = non_null_variants(vs@);
            if members.len() == 0 {
                Some((ColumnType::Null, true))
            } else if members.len() == 1 {
                match scalar_column_type(members[0]) {
                    Some(t) => Some((t, has_null_variant(vs@))),
                    None => None,
                }
            } else {
                None
            }
        },
        _ => match scalar_column_type(node) {
            Some(t) => Some((t, inherited.unwrap_or(true))),
            None => None,
        },
    }
}

/// Whether a field of the assembled struct is the mapping of a record field.
pub open spec fn field_mapped(f: RecordField, c: ColumnField) -> bool {
    &&& c.name@ == f.name@
    &&& mapped(f.schema, Some(false)) == Some((c.column_type, c.nullable))
}

/// The struct fields of a record schema, one per record field, in order.
pub open spec fn fields_mapped(fields: Seq<RecordField>, cols: Seq<ColumnField>) -> bool {
    &&& cols.len() == fields.len()
    &&& forall|i: int| 0 <= i < fields.len() ==> field_mapped(#[trigger] fields[i], cols[i])
}

/// Whether every field of a record schema has a column type.
pub open spec fn record_mappable(fields: Seq<RecordField>) -> bool {
    forall|i: int| 0 <= i < fields.len() ==> (#[trigger] mapped(fields[i].schema, Some(false))) is Some
}

fn scalar_type(node: &SchemaNode) -> (r: Option<ColumnType>)
    ensures
        r == scalar_column_type(*node),
{
    match node {
        SchemaNode::Null => Some(ColumnType::Null),
        SchemaNode::Boolean => Some(ColumnType::Boolean),
        SchemaNode::Int => Some(ColumnType::Int32),
        SchemaNode::Long => Some(ColumnType::Int64),
        SchemaNode::Float => Some(ColumnType::Float32),
        SchemaNode::Double => Some(ColumnType::Float64),
        SchemaNode::Bytes => Some(ColumnType::Binary),
        SchemaNode::String => Some(ColumnType::LargeUtf8),
        SchemaNode::Decimal { precision, scale } => Some(ColumnType::Decimal128(*precision, *scale)),
        SchemaNode::Uuid => Some(ColumnType::Utf8),
        SchemaNode::Date => Some(ColumnType::Date32),
        SchemaNode::TimeMillis => Some(ColumnType::Time32(TimeUnit::Millisecond)),
        SchemaNode::TimeMicros => Some(ColumnType::Time64(TimeUnit::Microsecond)),
        SchemaNode::TimestampMillis => Some(ColumnType::Timestamp(TimeUnit::Millisecond)),
        SchemaNode::TimestampMicros => Some(ColumnType::Timestamp(TimeUnit::Microsecond)),
        SchemaNode::Duration => Some(ColumnType::Duration(TimeUnit::Microsecond)),
        _ => None,
    }
}

/// Maps one schema node to its column type and nullability.
///
/// A union stands for its only non-`Null` member and is nullable exactly
/// when it has a `Null` member; a union of `Null` alone is a `Null` column.
/// Any other node keeps the nullability handed down, `true` when none is.
/// Records, enums, arrays, maps, fixed-size bytes and unions with more
/// than one non-`Null` member are refused.
pub fn parse_schema(schema: &SchemaNode, nullable: Option<bool>) -> (r: Result<(ColumnType, bool), Error>)
    ensures
        match mapped(*schema, nullable) {
            Some(p) => r == Ok::<(ColumnType, bool), Error>(p),
            None => r == Err::<(ColumnType, bool), Error>(Error::UnsupportedSchema),
        },
{
    match schema {
        SchemaNode::Union(vs) => {
            let mut count: usize = 0;
            let mut first: usize = 0;
            let mut has_null = false;
            let mut i: usize = 0;
            while i < vs.len()
                invariant
                    0 <= i <= vs.len(),
                    count <= i,
                    count == non_null_variants(vs@.subrange(0, i as int)).len(),
                    count > 0 ==> first < vs.len() && vs@[first as int] == non_null_variants(
                        vs@.subrange(0, i as int),
                    )[0],
                    has_null == exists|j: int| 0 <= j < i && #[trigger] vs@[j] is Null,
                decreases vs.len() - i,
            {
                proof {
                    assert(vs@.subrange(0, i + 1).drop_last() == vs@.subrange(0, i as int));
                }
                if matches!(vs[i], SchemaNode::Null) {
                    has_null = true;
                } else {
                    if count == 0 {
                        first = i;
                    }
                    count = count + 1;
                }
                i = i + 1;
            }
            proof {
                assert(vs@.subrange(0, vs@.len() as int) == vs@);
            }
            if count == 0 {
                Ok((ColumnType::Null, true))
            } else if count == 1 {
                match scalar_type(&vs[first]) {
                    Some(t) => Ok((t, has_null)),
                    None => Err(Error::UnsupportedSchema),
                }
            } else {
                Err(Error::UnsupportedSchema)
            }
        },
        _ => match scalar_type(schema) {
            Some(t) => Ok(
                (
                    t,
                    match nullable {
                        Some(b) => b,
                        None => true,
                    },
                ),
            ),
            None => Err(Error::UnsupportedSchema),
        },
    }
}

/// Maps the fields of a record schema, in declaration order, each as a
/// field that is not nullable unless its own schema is a nullable union.
pub fn parse_record_fields(fields: &Vec<RecordField>) -> (r: Result<Vec<ColumnField>, Error>)
    ensures
        r is Ok <==> record_mappable(fields@),
        r matches Ok(cols) ==> fields_mapped(fields@, cols@),
        r matches Err(e) ==> e == Error::UnsupportedSchema,
{
    let mut cols: Vec<ColumnField> = Vec::new();
    let mut i: usize = 0;
    while i < fields.len()
        invariant
            0 <= i <= fields.len(),
            cols.len() == i,
            forall|j: int| 0 <= j < i ==> field_mapped(#[trigger] fields@[j], cols@[j]),
            forall|j: int| 0 <= j < i ==> (#[trigger] mapped(fields@[j].schema, Some(false))) is Some,
        decreases fields.len() - i,
    {
        match parse_schema(&fields[i].schema, Some(false)) {
            Ok((t, n)) => {
                cols.push(ColumnField { name: fields[i].name.clone(), column_type: t, nullable: n });
            },
            Err(e) => {
                return Err(e);
            },
        }
        i = i + 1;
    }
    Ok(cols)
}

/// The struct fields of a top-level schema, which must be a record.
pub fn parse_struct_fields(schema: &SchemaNode) -> (r: Result<Vec<ColumnField>, Error>)
    ensures
        r is Ok <==> (schema matches SchemaNode::Record(fields) && record_mappable(fields@)),
        r matches Ok(cols) ==> (schema matches SchemaNode::Record(fields) && fields_mapped(fields@, cols@)),
        r matches Err(e) ==> e == Error::UnsupportedSchema,
{
    match schema {
        SchemaNode::Record(fields) => parse_record_fields(fields),
        _ => Err(Error::UnsupportedSchema),
    }
}

} // verus!
