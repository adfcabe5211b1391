//! Merging delimiter-separated record files into one table, and checking the rows of
//! the merged table against the rules of an image archive.
//!
//! `merge` turns the record files of a directory into the bytes of the merged table.
//! `table` reads a merged table back, `schema` finds the checked columns in its header,
//! `check` holds a row against the rules, and `report` collects and shows the rows that
//! break one. Reading and writing the records is left to the `csv` crate, through
//! `codec`.

pub mod check;
pub mod codec;
pub mod merge;
pub mod number;
pub mod report;
pub mod rules;
pub mod schema;
pub mod table;
pub mod text;
pub mod violation;
