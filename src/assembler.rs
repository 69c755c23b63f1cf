use vstd::prelude::*;
use crate::decoder::{column_len, decodable, decoded_column, read_avro_value};
use crate::mapper::{fields_mapped, mapped, parse_struct_fields, record_mappable};
use crate::types::{ColumnData, ColumnField, DecodedValue, Error, SchemaNode};

verus! {

/// The cell of field `i` in a record row; a missing cell is `Null`.
pub open spec fn record_cell(cells: Seq<DecodedValue>, i: int) -> DecodedValue {
    if 0 <= i < cells.len() {
        cells[i]
    } else {
        DecodedValue::Null
    }
}

/// The cells of field `i` over the given record rows, in row order.
pub open spec fn field_cells(rows: Seq<Seq<DecodedValue>>, i: int) -> Seq<DecodedValue> {
    Seq::new(rows.len(), |r: int| record_cell(rows[r], i))
}

/// The cells of the rows that are records, in order; other rows are left out.
pub open spec fn record_rows(rows: Seq<DecodedValue>) -> Seq<Seq<DecodedValue>>
    decreases rows.len(),
{
    if rows.len() == 0 {
        Seq::empty()
    } else {
        let before = record_rows(rows.drop_last());
        match rows.last() {
            DecodedValue::Record(cells) => before.push(cells@),
            _ => before,
        }
    }
}

/// Whether every field of the struct has a column type the decoder fills.
pub open spec fn all_decodable(fields: Seq<ColumnField>) -> bool {
    forall|i: int| 0 <= i < fields.len() ==> decodable(#[trigger] fields[i].column_type)
}

/// The schema's record fields, where the schema is a record.
pub open spec fn schema_fields(schema: SchemaNode) -> Seq<crate::types::RecordField> {
    match schema {
        SchemaNode::Record(fields) => fields@,
        _ => Seq::empty(),
    }
}

/// Whether every field of a record schema maps to a column type that the
/// decoder fills.
pub open spec fn schema_decodable(fields: Seq<crate::types::RecordField>) -> bool {
    forall|i: int|
        0 <= i < fields.len() ==> (#[trigger] mapped(fields[i].schema, Some(false)) matches Some(
            p,
        ) && decodable(p.0))
}

/// Named, typed columns of equal length, one per field of a record schema.
#[derive(Debug, PartialEq, Eq)]
pub struct StructColumns {
    pub fields: Vec<ColumnField>,
    pub columns: Vec<ColumnData>,
}

impl StructColumns {
    /// Whether these are the columns decoded from the given record rows.
    pub open spec fn decoded_from(&self, rows: Seq<Seq<DecodedValue>>) -> bool {
        &&& self.columns@.len() == self.fields@.len()
        &&& forall|i: int|
            0 <= i < self.fields@.len() ==> decoded_column(
                #[trigger] field_cells(rows, i),
                self.fields@[i].column_type,
                self.columns@[i],
            )
    }
}

/// Buffers the cells of record rows, one buffer per field, and decodes each
/// buffer once all rows are in.
pub struct BatchAssembler {
    fields: Vec<ColumnField>,
    buffers: Vec<Vec<DecodedValue>>,
    rows: Ghost<Seq<Seq<DecodedValue>>>,
}

impl BatchAssembler {
    /// The struct fields that the schema maps to.
    pub closed spec fn fields(&self) -> Seq<ColumnField> {
        self.fields@
    }

    /// The cells of the record rows taken so far.
    pub closed spec fn rows(&self) -> Seq<Seq<DecodedValue>> {
        self.rows@
    }

    pub closed spec fn wf(&self) -> bool {
        &&& self.buffers@.len() == self.fields@.len()
        &&& forall|i: int|
            0 <= i < self.fields@.len() ==> #[trigger] self.buffers@[i]@ == field_cells(
                self.rows@,
                i,
            )
    }

    /// Starts a batch for a record schema; any other schema, or a record
    /// with a field that maps to no column type, is refused.
    pub fn new(schema: &SchemaNode) -> (r: Result<BatchAssembler, Error>)
        ensures
            r is Ok <==> (schema is Record && record_mappable(schema_fields(*schema))),
            r matches Ok(a) ==> {
                &&& a.wf()
                &&& a.rows().len() == 0
                &&& fields_mapped(schema_fields(*schema), a.fields())
            },
            r matches Err(e) ==> e == Error::UnsupportedSchema,
    {
        match parse_struct_fields(schema) {
            Ok(fields) => {
                let mut buffers: Vec<Vec<DecodedValue>> = Vec::new();
                let mut i: usize = 0;
                while i < fields.len()
                    invariant
                        0 <= i <= fields@.len(),
                        buffers@.len() == i,
                        forall|j: int| 0 <= j < i ==> (#[trigger] buffers@[j])@.len() == 0,
                    decreases fields@.len() - i,
                {
                    buffers.push(Vec::new());
                    i = i + 1;
                }
                let a = BatchAssembler { fields, buffers, rows: Ghost(Seq::empty()) };
                assert forall|j: int| 0 <= j < a.fields@.len() implies #[trigger] a.buffers@[j]@
                    == field_cells(a.rows@, j) by {
                    assert(a.buffers@[j]@ =~= field_cells(a.rows@, j));
                }
                Ok(a)
            },
            Err(e) => Err(e),
        }
    }

    /// Takes one row: a record's cells join the field buffers, in field
    /// order; a row that is not a record is dropped.
    pub fn push_row(&mut self, row: DecodedValue)
        requires
            old(self).wf(),
        ensures
            final(self).wf(),
            final(self).fields() == old(self).fields(),
            row matches DecodedValue::Record(cells) ==> final(self).rows() == old(self).rows().push(
                cells@,
            ),
            row !is Record ==> final(self).rows() == old(self).rows(),
    {
        match row {
            DecodedValue::Record(cells) => {
                let ghost original = cells@;
                let n = self.fields.len();
                let mut cells = cells;
                while cells.len() > n
                    invariant
                        cells@.len() <= original.len(),
                        cells@ == original.subrange(0, cells@.len() as int),
                        cells@.len() == original.len() || cells@.len() >= n,
                    decreases cells@.len(),
                {
                    cells.pop();
                    proof {
                        assert(cells@ =~= original.subrange(0, cells@.len() as int));
                    }
                }
                while cells.len() < n
                    invariant
                        cells@.len() <= n,
                        forall|j: int|
                            0 <= j < cells@.len() ==> #[trigger] cells@[j] == record_cell(original, j),
                        forall|j: int| cells@.len() <= j < n ==> record_cell(original, j) is Null,
                    decreases n - cells@.len(),
                {
                    cells.push(DecodedValue::Null);
                }
                let ghost old_rows = self.rows@;
                let ghost new_rows = old_rows.push(original);
                let mut i: usize = n;
                while i > 0
                    invariant
                        n == self.fields@.len(),
                        self.fields == old(self).fields,
                        self.rows@ == old_rows,
                        old(self).wf(),
                        old_rows == old(self).rows@,
                        new_rows == old_rows.push(original),
                        0 <= i <= n,
                        cells@.len() == i,
                        forall|j: int| 0 <= j < i ==> #[trigger] cells@[j] == record_cell(original, j),
                        self.buffers@.len() == n,
                        forall|j: int|
                            0 <= j < i ==> #[trigger] self.buffers@[j]@ == field_cells(old_rows, j),
                        forall|j: int|
                            i <= j < n ==> #[trigger] self.buffers@[j]@ == field_cells(new_rows, j),
                    decreases i,
                {
                    i = i - 1;
                    let cell = cells.pop().unwrap();
                    let mut b = self.buffers.remove(i);
                    b.push(cell);
                    self.buffers.insert(i, b);
                    proof {
                        assert(self.buffers@[i as int]@ =~= field_cells(new_rows, i as int));
                    }
                }
                self.rows = Ghost(new_rows);
            },
            _ => {},
        }
    }

    /// Decodes every field buffer into its column, in field order; a field
    /// whose column type the decoder does not fill is refused.
    pub fn finish(self) -> (r: Result<StructColumns, Error>)
        requires
            self.wf(),
        ensures
            r is Ok <==> all_decodable(self.fields()),
            r matches Ok(s) ==> s.fields@ == self.fields() && s.decoded_from(self.rows()),
            r matches Err(e) ==> e == Error::UnsupportedTarget,
    {
        let mut columns: Vec<ColumnData> = Vec::new();
        let mut i: usize = 0;
        while i < self.fields.len()
            invariant
                self.wf(),
                0 <= i <= self.fields@.len(),
                columns@.len() == i,
                forall|j: int| 0 <= j < i ==> decodable(#[trigger] self.fields@[j].column_type),
                forall|j: int|
                    0 <= j < i ==> decoded_column(
                        #[trigger] field_cells(self.rows@, j),
                        self.fields@[j].column_type,
                        columns@[j],
                    ),
            decreases self.fields@.len() - i,
        {
            match read_avro_value(&self.buffers[i], self.fields[i].column_type) {
                Ok(d) => columns.push(d),
                Err(e) => {
                    return Err(e);
                },
            }
            i = i + 1;
        }
        let s = StructColumns { fields: self.fields, columns };
        Ok(s)
    }
}

/// Converts a batch of rows under a record schema into one column per
/// field, in declaration order. Rows that are not records are dropped; every
/// column has one entry per record row, a null entry wherever a cell does
/// not fit the field's column type.
pub fn assemble(schema: &SchemaNode, rows: Vec<DecodedValue>) -> (r: Result<StructColumns, Error>)
    ensures
        !(schema is Record && record_mappable(schema_fields(*schema))) ==> r
            == Err::<StructColumns, Error>(Error::UnsupportedSchema),
        (schema is Record && record_mappable(schema_fields(*schema))) ==> {
            &&& r is Ok <==> schema_decodable(schema_fields(*schema))
            &&& r matches Err(e) ==> e == Error::UnsupportedTarget
        },
        r matches Ok(s) ==> {
            &&& fields_mapped(schema_fields(*schema), s.fields@)
            &&& s.decoded_from(record_rows(rows@))
            &&& forall|i: int|
                0 <= i < s.columns@.len() ==> column_len(#[trigger] s.columns@[i]) == record_rows(
                    rows@,
                ).len()
        },
{
    let mut a = match BatchAssembler::new(schema) {
        Ok(a) => a,
        Err(e) => {
            return Err(e);
        },
    };
    let ghost all = rows@;
    let n = rows.len();
    let mut rest = rows;
    let mut reversed: Vec<DecodedValue> = Vec::new();
    while rest.len() > 0
        invariant
            all.len() == n,
            rest@.len() + reversed@.len() == n,
            rest@ == all.subrange(0, rest@.len() as int),
            forall|k: int| 0 <= k < reversed@.len() ==> #[trigger] reversed@[k] == all[n - 1 - k],
        decreases rest@.len(),
    {
        let row = rest.pop().unwrap();
        reversed.push(row);
        proof {
            assert(rest@ =~= all.subrange(0, rest@.len() as int));
        }
    }
    let ghost fields = a.fields();
    while reversed.len() > 0
        invariant
            all.len() == n,
            reversed@.len() <= n,
            forall|k: int| 0 <= k < reversed@.len() ==> #[trigger] reversed@[k] == all[n - 1 - k],
            a.wf(),
            a.fields() == fields,
            a.rows() == record_rows(all.subrange(0, n - reversed@.len())),
        decreases reversed@.len(),
    {
        let ghost i = n - reversed@.len();
        let row = reversed.pop().unwrap();
        proof {
            assert(all.subrange(0, i + 1).drop_last() =~= all.subrange(0, i));
        }
        a.push_row(row);
    }
    proof {
        assert(all.subrange(0, n as int) =~= all);
    }
    let r = a.finish();
    proof {
        if r is Ok {
            let s = r->Ok_0;
            assert forall|i: int| 0 <= i < s.columns@.len() implies column_len(
                #[trigger] s.columns@[i],
            ) == record_rows(all).len() by {
                assert(decoded_column(field_cells(record_rows(all), i), s.fields@[i].column_type, s.columns@[i]));
            }
        }
        assert(all_decodable(fields) <==> schema_decodable(schema_fields(*schema))) by {
            if all_decodable(fields) {
                assert forall|i: int| 0 <= i < schema_fields(*schema).len() implies (
                #[trigger] mapped(schema_fields(*schema)[i].schema, Some(false)) matches Some(p)
                    && decodable(p.0)) by {
                    assert(decodable(fields[i].column_type));
                }
            }
            if schema_decodable(schema_fields(*schema)) {
                assert forall|i: int| 0 <= i < fields.len() implies decodable(
                    #[trigger] fields[i].column_type,
                ) by {
                    assert(mapped(schema_fields(*schema)[i].schema, Some(false)) is Some);
                }
            }
        }
    }
    r
}

} // verus!
