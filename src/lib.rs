//! Conversion of row-oriented, self-describing records into typed columns.
//!
//! The schema mapper decides the column type and nullability of every
//! field, the value decoder turns one field's cells into a column, and the
//! batch assembler buffers rows and decodes each field once all rows are in.
pub mod types;
pub mod mapper;
pub mod numeric;
pub mod decoder;
pub mod assembler;
pub mod laws;
