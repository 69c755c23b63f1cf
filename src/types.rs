use vstd::prelude::*;

verus! {

/// One node of a row schema.
#[derive(Debug, PartialEq, Eq)]
pub enum SchemaNode {
    Null,
    Boolean,
    Int,
    Long,
    Float,
    Double,
    Bytes,
    String,
    Record(Vec<RecordField>),
    Enum,
    Array,
    MapOf,
    Fixed,
    Decimal { precision: usize, scale: usize },
    Uuid,
    Date,
    TimeMillis,
    TimeMicros,
    TimestampMillis,
    TimestampMicros,
    Duration,
    Union(Vec<SchemaNode>),
}

/// A named field of a record schema.
#[derive(Debug, PartialEq, Eq)]
pub struct RecordField {
    pub name: String,
    pub schema: SchemaNode,
}

/// Resolution of a time-bearing column.
#[derive(Clone, Copy, Debug, PartialEq, Eq, Structural)]
pub enum TimeUnit {
    Millisecond,
    Microsecond,
}

/// The type of one column.
#[derive(Clone, Copy, Debug, PartialEq, Eq, Structural)]
pub enum ColumnType {
    Null,
    Boolean,
    Int32,
    Int64,
    Float32,
    Float64,
    Binary,
    Utf8,
    LargeUtf8,
    Decimal128(usize, usize),
    Date32,
    Time32(TimeUnit),
    Time64(TimeUnit),
    Timestamp(TimeUnit),
    Duration(TimeUnit),
}

/// A named, typed field of the assembled struct.
#[derive(Debug, PartialEq, Eq)]
pub struct ColumnField {
    pub name: String,
    pub column_type: ColumnType,
    pub nullable: bool,
}

/// One decoded cell of a row.
#[derive(Debug, PartialEq, Eq)]
pub enum DecodedValue {
    Null,
    Boolean(bool),
    Int(i32),
    Long(i64),
    /// A single-precision float, as its IEEE 754 bit pattern.
    Float(u32),
    /// A double-precision float, as its IEEE 754 bit pattern.
    Double(u64),
    Bytes(Vec<u8>),
    String(String),
    /// An unscaled decimal, as big-endian two's-complement bytes.
    Decimal(Vec<u8>),
    /// Days since the epoch.
    Date(i32),
    TimeMillis(i32),
    TimeMicros(i64),
    TimestampMillis(i64),
    TimestampMicros(i64),
    Duration,
    /// The cells of a record, in field order.
    Record(Vec<DecodedValue>),
    Union(Box<DecodedValue>),
    /// A cell of a kind that no column holds (enum, array, map, fixed, uuid).
    Other,
}

/// A numeric cell bound for a floating-point column, before the cast into
/// the column's width.
#[derive(Clone, Copy, Debug, PartialEq, Eq, Structural)]
pub enum Number {
    Integer(i128),
    /// A single-precision float, as its bit pattern.
    Single(u32),
    /// A double-precision float, as its bit pattern.
    Double(u64),
}

/// The values of one column; `None` is a null entry.
#[derive(Debug, PartialEq, Eq)]
pub enum ColumnData {
    /// A column of nulls, of the given length.
    Null(usize),
    Boolean(Vec<Option<bool>>),
    Utf8(Vec<Option<String>>),
    Int32(Vec<Option<i32>>),
    Int64(Vec<Option<i64>>),
    Int128(Vec<Option<i128>>),
    /// The cells of a `Float32` or `Float64` column.
    Number(Vec<Option<Number>>),
}

/// Failures that abort a conversion.
#[derive(Debug, PartialEq, Eq)]
pub enum Error {
    /// A schema kind that no column type stands for.
    UnsupportedSchema,
    /// A column type that the decoder cannot fill.
    UnsupportedTarget,
    /// The row source could not produce a row.
    ReaderError(String),
    /// The columns could not be written out.
    WriterError(String),
}

} // verus!
