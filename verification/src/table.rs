//! Reading the merged table back.

use crate::codec::{header_in, read_header, read_rows, rows_in, OUTPUT_DELIMITER};
use crate::schema::{absent_columns, Schema};
use vstd::prelude::*;

verus! {

/// A merged table: its header, with the checked columns found in it, and its data rows.
#[derive(Debug)]
pub struct Table {
    /// The header and the places of the checked columns.
    pub schema: Schema,
    /// The data rows, in the order of the table.
    pub rows: Vec<Vec<String>>,
}

/// Why a merged table cannot be checked.
#[derive(Debug)]
pub enum LoadError {
    /// The header row or a data row cannot be read.
    Unreadable(csv::Error),
    /// The header does not hold these checked columns.
    MissingColumns(Vec<String>),
}

/// What a `LoadError` stands for.
pub enum LoadFault {
    Unreadable,
    MissingColumns(Seq<Seq<char>>),
}

impl View for LoadError {
    type V = LoadFault;

    open spec fn view(&self) -> LoadFault {
        match *self {
            LoadError::Unreadable(_) => LoadFault::Unreadable,
            LoadError::MissingColumns(names) => LoadFault::MissingColumns(names.deep_view()),
        }
    }
}

/// What reading `data` as a merged table gives: the header and the data rows, or the
/// reason why there are none. The header is read first, then the checked columns are
/// looked up in it, then the data rows are read.
pub open spec fn loaded(data: Seq<u8>) -> Result<(Seq<Seq<char>>, Seq<Seq<Seq<char>>>), LoadFault> {
    match header_in(data, OUTPUT_DELIMITER) {
        None => Err(LoadFault::Unreadable),
        Some(header) => if absent_columns(header).len() > 0 {
            Err(LoadFault::MissingColumns(absent_columns(header)))
        } else {
            match rows_in(data, OUTPUT_DELIMITER) {
                None => Err(LoadFault::Unreadable),
                Some(rows) => Ok((header, rows)),
            }
        },
    }
}

/// Reads a merged table with the output delimiter and looks up the checked columns in
/// its header.
pub fn load_table(data: &[u8]) -> (out: Result<Table, LoadError>)
    ensures
        match out {
            Ok(table) => loaded(data@) == Ok::<_, LoadFault>(
                (table.schema@.header, table.rows.deep_view()),
            ) && table.schema@.wf(),
            Err(error) => loaded(data@) == Err::<(Seq<Seq<char>>, Seq<Seq<Seq<char>>>), _>(error@),
        },
{
    let header = match read_header(data, OUTPUT_DELIMITER) {
        Ok(header) => header,
        Err(cause) => {
            return Err(LoadError::Unreadable(cause));
        },
    };
    let schema = match Schema::resolve(header) {
        Ok(schema) => schema,
        Err(missing) => {
            return Err(LoadError::MissingColumns(missing));
        },
    };
    match read_rows(data, OUTPUT_DELIMITER) {
        Ok(rows) => Ok(Table { schema, rows }),
        Err(cause) => Err(LoadError::Unreadable(cause)),
    }
}

} // verus!
