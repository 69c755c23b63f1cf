use vstd::prelude::*;
use crate::numeric::{be_signed, decimal_value, float_bits_integer, float_integer, widen128, within};
use crate::types::{ColumnData, ColumnType, DecodedValue, Error, Number};

verus! {

/// A cell with one union wrapper taken off; a union inside a union is read
/// as `Null`.
pub open spec fn resolved(v: DecodedValue) -> DecodedValue {
    match v {
        DecodedValue::Union(inner) => match *inner {
            DecodedValue::Union(_) => DecodedValue::Null,
            x => x,
        },
        _ => v,
    }
}

/// The exact integer that a cell (already unwrapped) stands for, if any.
pub open spec fn integer_value(v: DecodedValue) -> Option<int> {
    match v {
        DecodedValue::Double(b) => float_integer(b as nat, 52, 11),
        DecodedValue::Float(b) => float_integer(b as nat, 23, 8),
        DecodedValue::Long(n) => Some(n as int),
        DecodedValue::Int(n) => Some(n as int),
        DecodedValue::Boolean(b) => Some(
            if b {
                1int
            } else {
                0int
            },
        ),
        DecodedValue::Decimal(bytes) => if bytes@.len() == 0 {
            None
        } else {
            Some(be_signed(bytes@))
        },
        DecodedValue::TimestampMillis(n) => Some(n as int),
        DecodedValue::TimestampMicros(n) => Some(n as int),
        DecodedValue::TimeMicros(n) => Some(n as int),
        DecodedValue::TimeMillis(n) => Some(n as int),
        DecodedValue::Date(n) => Some(n as int),
        _ => None,
    }
}

/// The entry of an integer column with values in `lo..=hi` for a cell:
/// its integer where it has one in that range, else null.
pub open spec fn integer_cell(v: DecodedValue, lo: int, hi: int) -> Option<int> {
    within(integer_value(resolved(v)), lo, hi)
}

/// The entry of a floating-point column for a cell, before the cast into
/// the column's width.
pub open spec fn number_cell(v: DecodedValue) -> Option<Number> {
    match resolved(v) {
        DecodedValue::Double(b) => Some(Number::Double(b)),
        DecodedValue::Float(b) => Some(Number::Single(b)),
        other => match within(integer_value(other), i128::MIN as int, i128::MAX as int) {
            Some(x) => Some(Number::Integer(x as i128)),
            None => None,
        },
    }
}

/// The entry of a boolean column for a cell.
pub open spec fn boolean_cell(v: DecodedValue) -> Option<bool> {
    match resolved(v) {
        DecodedValue::Boolean(b) => Some(b),
        _ => None,
    }
}

/// The entry of a string column for a cell.
pub open spec fn utf8_cell(v: DecodedValue) -> Option<String> {
    match resolved(v) {
        DecodedValue::String(s) => Some(s),
        _ => None,
    }
}

pub open spec fn widen32(o: Option<i32>) -> Option<int> {
    match o {
        Some(x) => Some(x as int),
        None => None,
    }
}

pub open spec fn widen64(o: Option<i64>) -> Option<int> {
    match o {
        Some(x) => Some(x as int),
        None => None,
    }
}

/// Whether the column type is one that the decoder fills.
pub open spec fn decodable(t: ColumnType) -> bool {
    t !is Binary
}

/// Whether `d` is the column of type `t` decoded from `rows`, entry by entry.
pub open spec fn decoded_column(rows: Seq<DecodedValue>, t: ColumnType, d: ColumnData) -> bool {
    match t {
        ColumnType::Null => d matches ColumnData::Null(n) && n == rows.len(),
        ColumnType::Boolean => d matches ColumnData::Boolean(c) && c@.len() == rows.len() && forall|
            i: int,
        |
            0 <= i < rows.len() ==> #[trigger] c@[i] == boolean_cell(rows[i]),
        ColumnType::Utf8 | ColumnType::LargeUtf8 => d matches ColumnData::Utf8(c) && c@.len()
            == rows.len() && forall|i: int|
            0 <= i < rows.len() ==> #[trigger] c@[i] == utf8_cell(rows[i]),
        ColumnType::Int32 | ColumnType::Date32 | ColumnType::Time32(_) => d matches ColumnData::Int32(
            c,
        ) && c@.len() == rows.len() && forall|i: int|
            0 <= i < rows.len() ==> widen32(#[trigger] c@[i]) == integer_cell(
                rows[i],
                i32::MIN as int,
                i32::MAX as int,
            ),
        ColumnType::Int64
        | ColumnType::Time64(_)
        | ColumnType::Timestamp(_)
        | ColumnType::Duration(_) => d matches ColumnData::Int64(c) && c@.len() == rows.len()
            && forall|i: int|
            0 <= i < rows.len() ==> widen64(#[trigger] c@[i]) == integer_cell(
                rows[i],
                i64::MIN as int,
                i64::MAX as int,
            ),
        ColumnType::Decimal128(_, _) => d matches ColumnData::Int128(c) && c@.len() == rows.len()
            && forall|i: int|
            0 <= i < rows.len() ==> widen128(#[trigger] c@[i]) == integer_cell(
                rows[i],
                i128::MIN as int,
                i128::MAX as int,
            ),
        ColumnType::Float32 | ColumnType::Float64 => d matches ColumnData::Number(c) && c@.len()
            == rows.len() && forall|i: int|
            0 <= i < rows.len() ==> #[trigger] c@[i] == number_cell(rows[i]),
        ColumnType::Binary => false,
    }
}

/// The number of entries of a column.
pub open spec fn column_len(d: ColumnData) -> nat {
    match d {
        ColumnData::Null(n) => n as nat,
        ColumnData::Boolean(c) => c@.len(),
        ColumnData::Utf8(c) => c@.len(),
        ColumnData::Int32(c) => c@.len(),
        ColumnData::Int64(c) => c@.len(),
        ColumnData::Int128(c) => c@.len(),
        ColumnData::Number(c) => c@.len(),
    }
}

/// Whether entry `i` of a column is null.
pub open spec fn entry_is_null(d: ColumnData, i: int) -> bool {
    match d {
        ColumnData::Null(_) => true,
        ColumnData::Boolean(c) => c@[i] is None,
        ColumnData::Utf8(c) => c@[i] is None,
        ColumnData::Int32(c) => c@[i] is None,
        ColumnData::Int64(c) => c@[i] is None,
        ColumnData::Int128(c) => c@[i] is None,
        ColumnData::Number(c) => c@[i] is None,
    }
}

/// Takes one union wrapper off a cell; `None` for a union inside a union.
fn resolve(v: &DecodedValue) -> (r: Option<&DecodedValue>)
    ensures
        r matches Some(x) ==> *x == resolved(*v),
        r is None ==> resolved(*v) is Null,
{
    match v {
        DecodedValue::Union(inner) => match &**inner {
            DecodedValue::Union(_) => None,
            x => Some(x),
        },
        _ => Some(v),
    }
}

/// The integer that a cell stands for, where it has one that fits in an
/// `i128`.
pub fn integer_of(v: &DecodedValue) -> (r: Option<i128>)
    ensures
        widen128(r) == integer_cell(*v, i128::MIN as int, i128::MAX as int),
{
    match resolve(v) {
        None => None,
        Some(x) => match x {
            DecodedValue::Double(b) => float_bits_integer(*b, 52, 11),
            DecodedValue::Float(b) => float_bits_integer(*b as u64, 23, 8),
            DecodedValue::Long(n) => Some(*n as i128),
            DecodedValue::Int(n) => Some(*n as i128),
            DecodedValue::Boolean(b) => Some(
                if *b {
                    1
                } else {
                    0
                },
            ),
            DecodedValue::Decimal(bytes) => decimal_value(bytes),
            DecodedValue::TimestampMillis(n) => Some(*n as i128),
            DecodedValue::TimestampMicros(n) => Some(*n as i128),
            DecodedValue::TimeMicros(n) => Some(*n as i128),
            DecodedValue::TimeMillis(n) => Some(*n as i128),
            DecodedValue::Date(n) => Some(*n as i128),
            _ => None,
        },
    }
}

/// The entry of a floating-point column for one cell.
pub fn number_of(v: &DecodedValue) -> (r: Option<Number>)
    ensures
        r == number_cell(*v),
{
    match resolve(v) {
        Some(DecodedValue::Double(b)) => Some(Number::Double(*b)),
        Some(DecodedValue::Float(b)) => Some(Number::Single(*b)),
        _ => match integer_of(v) {
            Some(x) => Some(Number::Integer(x)),
            None => None,
        },
    }
}

/// Decodes the cells of a string column.
pub fn read_utf8(rows: &Vec<DecodedValue>) -> (r: Vec<Option<String>>)
    ensures
        r@.len() == rows@.len(),
        forall|i: int| 0 <= i < rows@.len() ==> #[trigger] r@[i] == utf8_cell(rows@[i]),
{
    let mut out: Vec<Option<String>> = Vec::new();
    let mut i: usize = 0;
    while i < rows.len()
        invariant
            0 <= i <= rows@.len(),
            out@.len() == i,
            forall|j: int| 0 <= j < i ==> #[trigger] out@[j] == utf8_cell(rows@[j]),
        decreases rows@.len() - i,
    {
        let cell = match resolve(&rows[i]) {
            Some(DecodedValue::String(s)) => Some(s.clone()),
            _ => None,
        };
        out.push(cell);
        i = i + 1;
    }
    out
}

/// Decodes the cells of a boolean column.
pub fn read_boolean(rows: &Vec<DecodedValue>) -> (r: Vec<Option<bool>>)
    ensures
        r@.len() == rows@.len(),
        forall|i: int| 0 <= i < rows@.len() ==> #[trigger] r@[i] == boolean_cell(rows@[i]),
{
    let mut out: Vec<Option<bool>> = Vec::new();
    let mut i: usize = 0;
    while i < rows.len()
        invariant
            0 <= i <= rows@.len(),
            out@.len() == i,
            forall|j: int| 0 <= j < i ==> #[trigger] out@[j] == boolean_cell(rows@[j]),
        decreases rows@.len() - i,
    {
        let cell = match resolve(&rows[i]) {
            Some(DecodedValue::Boolean(b)) => Some(*b),
            _ => None,
        };
        out.push(cell);
        i = i + 1;
    }
    out
}

/// Decodes the cells of a 32-bit integer column; a cell without an integer
/// in range is null.
pub fn read_int32(rows: &Vec<DecodedValue>) -> (r: Vec<Option<i32>>)
    ensures
        r@.len() == rows@.len(),
        forall|i: int|
            0 <= i < rows@.len() ==> widen32(#[trigger] r@[i]) == integer_cell(
                rows@[i],
                i32::MIN as int,
                i32::MAX as int,
            ),
{
    let mut out: Vec<Option<i32>> = Vec::new();
    let mut i: usize = 0;
    while i < rows.len()
        invariant
            0 <= i <= rows@.len(),
            out@.len() == i,
            forall|j: int|
                0 <= j < i ==> widen32(#[trigger] out@[j]) == integer_cell(
                    rows@[j],
                    i32::MIN as int,
                    i32::MAX as int,
                ),
        decreases rows@.len() - i,
    {
        let cell = match integer_of(&rows[i]) {
            Some(x) => if i32::MIN as i128 <= x && x <= i32::MAX as i128 {
                Some(x as i32)
            } else {
                None
            },
            None => None,
        };
        out.push(cell);
        i = i + 1;
    }
    out
}

/// Decodes the cells of a 64-bit integer column; a cell without an integer
/// in range is null.
pub fn read_int64(rows: &Vec<DecodedValue>) -> (r: Vec<Option<i64>>)
    ensures
        r@.len() == rows@.len(),
        forall|i: int|
            0 <= i < rows@.len() ==> widen64(#[trigger] r@[i]) == integer_cell(
                rows@[i],
                i64::MIN as int,
                i64::MAX as int,
            ),
{
    let mut out: Vec<Option<i64>> = Vec::new();
    let mut i: usize = 0;
    while i < rows.len()
        invariant
            0 <= i <= rows@.len(),
            out@.len() == i,
            forall|j: int|
                0 <= j < i ==> widen64(#[trigger] out@[j]) == integer_cell(
                    rows@[j],
                    i64::MIN as int,
                    i64::MAX as int,
                ),
        decreases rows@.len() - i,
    {
        let cell = match integer_of(&rows[i]) {
            Some(x) => if i64::MIN as i128 <= x && x <= i64::MAX as i128 {
                Some(x as i64)
            } else {
                None
            },
            None => None,
        };
        out.push(cell);
        i = i + 1;
    }
    out
}

/// Decodes the cells of a 128-bit decimal column.
pub fn read_int128(rows: &Vec<DecodedValue>) -> (r: Vec<Option<i128>>)
    ensures
        r@.len() == rows@.len(),
        forall|i: int|
            0 <= i < rows@.len() ==> widen128(#[trigger] r@[i]) == integer_cell(
                rows@[i],
                i128::MIN as int,
                i128::MAX as int,
            ),
{
    let mut out: Vec<Option<i128>> = Vec::new();
    let mut i: usize = 0;
    while i < rows.len()
        invariant
            0 <= i <= rows@.len(),
            out@.len() == i,
            forall|j: int|
                0 <= j < i ==> widen128(#[trigger] out@[j]) == integer_cell(
                    rows@[j],
                    i128::MIN as int,
                    i128::MAX as int,
                ),
        decreases rows@.len() - i,
    {
        out.push(integer_of(&rows[i]));
        i = i + 1;
    }
    out
}

/// Decodes the cells of a floating-point column.
pub fn read_numbers(rows: &Vec<DecodedValue>) -> (r: Vec<Option<Number>>)
    ensures
        r@.len() == rows@.len(),
        forall|i: int| 0 <= i < rows@.len() ==> #[trigger] r@[i] == number_cell(rows@[i]),
{
    let mut out: Vec<Option<Number>> = Vec::new();
    let mut i: usize = 0;
    while i < rows.len()
        invariant
            0 <= i <= rows@.len(),
            out@.len() == i,
            forall|j: int| 0 <= j < i ==> #[trigger] out@[j] == number_cell(rows@[j]),
        decreases rows@.len() - i,
    {
        out.push(number_of(&rows[i]));
        i = i + 1;
    }
    out
}

/// Decodes one field's cells into a column of the given type, one entry per
/// cell; a cell that does not fit the type is a null entry. A `Binary`
/// column is refused.
pub fn read_avro_value(rows: &Vec<DecodedValue>, data_type: ColumnType) -> (r: Result<ColumnData, Error>)
    ensures
        decodable(data_type) ==> (r matches Ok(d) && decoded_column(rows@, data_type, d)),
        !decodable(data_type) ==> r == Err::<ColumnData, Error>(Error::UnsupportedTarget),
{
    match data_type {
        ColumnType::Null => Ok(ColumnData::Null(rows.len())),
        ColumnType::Boolean => Ok(ColumnData::Boolean(read_boolean(rows))),
        ColumnType::Utf8 | ColumnType::LargeUtf8 => Ok(ColumnData::Utf8(read_utf8(rows))),
        ColumnType::Int32 | ColumnType::Date32 | ColumnType::Time32(_) => Ok(
            ColumnData::Int32(read_int32(rows)),
        ),
        ColumnType::Int64
        | ColumnType::Time64(_)
        | ColumnType::Timestamp(_)
        | ColumnType::Duration(_) => Ok(ColumnData::Int64(read_int64(rows))),
        ColumnType::Decimal128(_, _) => Ok(ColumnData::Int128(read_int128(rows))),
        ColumnType::Float32 | ColumnType::Float64 => Ok(ColumnData::Number(read_numbers(rows))),
        ColumnType::Binary => Err(Error::UnsupportedTarget),
    }
}

} // verus!
