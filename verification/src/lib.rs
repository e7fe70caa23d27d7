//! Decoding of individual B-tree cells from a SQLite-format database file:
//! the variable-length integer encoding, the four on-disk cell layouts, and
//! the exact local-payload/overflow threshold formula of the file format.

pub mod cell;
pub mod varint;
