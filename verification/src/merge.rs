//! Merging the record files of a directory into one table.
//!
//! The files are taken in the order in which they are given. Those whose name does not
//! end in the record-file extension are passed over. Of the others, the first header row
//! that can be read heads the table, and the data rows of all of them follow, file by
//! file and row by row.

use crate::codec::{
    delimiter_of, encoded, finish_writer, header_in, new_writer, read_header, read_rows,
    rows_in, write_record, written, OUTPUT_DELIMITER, RAW_DELIMITER,
};
use crate::text::{copy_fields, ends_with, strip_suffix};
use vstd::prelude::*;

verus! {

/// What the name of a record file ends with.
pub const RECORD_SUFFIX: &'static str = ".csv";

/// An entry of the directory: the name of a file and what the file holds.
#[derive(Debug)]
pub struct SourceFile {
    /// The name of the file, without the directory.
    pub name: String,
    /// The bytes of the file.
    pub data: Vec<u8>,
}

/// What a `SourceFile` stands for.
pub struct SourceView {
    pub name: Seq<char>,
    pub data: Seq<u8>,
}

impl View for SourceFile {
    type V = SourceView;

    open spec fn view(&self) -> SourceView {
        SourceView { name: self.name@, data: self.data@ }
    }
}

impl DeepView for SourceFile {
    type V = SourceView;

    open spec fn deep_view(&self) -> SourceView {
        self@
    }
}

/// A record file as it was read: its header row, where that could be read, and its data
/// rows.
#[derive(Debug)]
pub struct ParsedFile {
    /// The header row; `None` where it could not be read.
    pub header: Option<Vec<String>>,
    /// The data rows, in the order of the file.
    pub rows: Vec<Vec<String>>,
}

/// What a `ParsedFile` stands for.
pub struct ParsedView {
    pub header: Option<Seq<Seq<char>>>,
    pub rows: Seq<Seq<Seq<char>>>,
}

impl View for ParsedFile {
    type V = ParsedView;

    open spec fn view(&self) -> ParsedView {
        ParsedView { header: self.header.deep_view(), rows: self.rows.deep_view() }
    }
}

impl DeepView for ParsedFile {
    type V = ParsedView;

    open spec fn deep_view(&self) -> ParsedView {
        self@
    }
}

/// A record file with a row that cannot be read.
#[derive(Debug)]
pub struct MergeError {
    /// The name of the file.
    pub file: String,
    /// What the reader reported.
    pub cause: csv::Error,
}

/// Whether a file of this name is a record file: the name ends with the record-file
/// extension, and something stands before the extension.
pub open spec fn is_record_name(name: Seq<char>) -> bool {
    ends_with(name, RECORD_SUFFIX@) && name.len() > RECORD_SUFFIX@.len()
}

/// A record file as it is read with the raw delimiter; `None` where one of its data
/// rows cannot be read.
pub open spec fn parsed_of(file: SourceView) -> Option<ParsedView> {
    match rows_in(file.data, RAW_DELIMITER) {
        None => None,
        Some(rows) => Some(ParsedView { header: header_in(file.data, RAW_DELIMITER), rows }),
    }
}

/// The record files among the first `n` entries as they are read, in order; or the name
/// of the first of them that has a row that cannot be read.
pub open spec fn parsed_files(entries: Seq<SourceView>, n: nat) -> Result<
    Seq<ParsedView>,
    Seq<char>,
>
    decreases n,
{
    if n == 0 {
        Ok(Seq::empty())
    } else {
        match parsed_files(entries, (n - 1) as nat) {
            Err(name) => Err(name),
            Ok(files) => {
                let entry = entries[n - 1];
                if !is_record_name(entry.name) {
                    Ok(files)
                } else {
                    match parsed_of(entry) {
                        None => Err(entry.name),
                        Some(file) => Ok(files.push(file)),
                    }
                }
            },
        }
    }
}

/// Whether one of the first `n` files has a header row.
pub open spec fn has_header(files: Seq<ParsedView>, n: nat) -> bool
    decreases n,
{
    n > 0 && (files[n - 1].header is Some || has_header(files, (n - 1) as nat))
}

/// The merged table of the first `n` files: the header row of the first file that has
/// one, where that file stands, and the data rows of every file, in order.
pub open spec fn combined(files: Seq<ParsedView>, n: nat) -> Seq<Seq<Seq<char>>>
    decreases n,
{
    if n == 0 {
        Seq::empty()
    } else {
        let before = combined(files, (n - 1) as nat);
        let file = files[n - 1];
        match file.header {
            Some(header) if !has_header(files, (n - 1) as nat) => before.push(header) + file.rows,
            _ => before + file.rows,
        }
    }
}

/// What the merge of `entries` gives: the bytes of the merged table, written with the
/// output delimiter; or the name of the first record file that has a row that cannot be
/// read.
pub open spec fn merged(entries: Seq<SourceView>) -> Result<Seq<u8>, Seq<char>> {
    match parsed_files(entries, entries.len()) {
        Err(name) => Err(name),
        Ok(files) => Ok(encoded(combined(files, files.len()), OUTPUT_DELIMITER)),
    }
}

/// Whether a file of this name is a record file.
pub fn is_record_file(name: &str) -> (out: bool)
    ensures
        out == is_record_name(name@),
{
    match strip_suffix(name, RECORD_SUFFIX) {
        Some(stem) => !stem.is_empty(),
        None => false,
    }
}

/// Reads a record file with the raw delimiter. A header row that cannot be read is left
/// out; a data row that cannot be read fails the file.
pub fn parse_file(file: &SourceFile) -> (out: Result<ParsedFile, MergeError>)
    ensures
        match out {
            Ok(parsed) => parsed_of(file@) == Some(parsed@),
            Err(error) => parsed_of(file@).is_none() && error.file@ == file.name@,
        },
{
    let header = match read_header(file.data.as_slice(), RAW_DELIMITER) {
        Ok(header) => Some(header),
        Err(_) => None,
    };
    match read_rows(file.data.as_slice(), RAW_DELIMITER) {
        Ok(rows) => Ok(ParsedFile { header, rows }),
        Err(cause) => Err(MergeError { file: file.name.clone(), cause }),
    }
}

/// The merged table of `files`: the header row of the first file that has one, and the
/// data rows of every file, file by file and row by row.
pub fn combine(files: &Vec<ParsedFile>) -> (table: Vec<Vec<String>>)
    ensures
        table.deep_view() == combined(files.deep_view(), files.len() as nat),
{
    let mut table: Vec<Vec<String>> = Vec::new();
    let mut headed = false;
    let mut i: usize = 0;
    while i < files.len()
        invariant
            i <= files.len(),
            headed == has_header(files.deep_view(), i as nat),
            table.deep_view() == combined(files.deep_view(), i as nat),
        decreases files.len() - i,
    {
        let file = &files[i];
        if !headed {
            if let Some(header) = &file.header {
                table.push(copy_fields(header));
                headed = true;
            }
        }
        let ghost start = table.deep_view();
        let mut j: usize = 0;
        while j < file.rows.len()
            invariant
                j <= file.rows.len(),
                table.deep_view() == start + file.rows.deep_view().take(j as int),
            decreases file.rows.len() - j,
        {
            let ghost so_far = table.deep_view();
            table.push(copy_fields(&file.rows[j]));
            assert(table.deep_view() =~= so_far.push(file.rows.deep_view()[j as int]));
            assert(file.rows.deep_view().take(j + 1) =~= file.rows.deep_view().take(j as int).push(
                file.rows.deep_view()[j as int],
            ));
            j += 1;
        }
        i += 1;
    }
    table
}

/// The bytes of `records`, written with the output delimiter.
pub fn encode(records: &Vec<Vec<String>>) -> (bytes: Vec<u8>)
    ensures
        bytes@ == encoded(records.deep_view(), OUTPUT_DELIMITER),
{
    let mut writer = new_writer(OUTPUT_DELIMITER);
    let mut i: usize = 0;
    while i < records.len()
        invariant
            i <= records.len(),
            written(writer) == records.deep_view().take(i as int),
            delimiter_of(writer) == OUTPUT_DELIMITER,
        decreases records.len() - i,
    {
        let taken = write_record(&mut writer, &records[i]);
        assert(taken is Ok);
        assert(records.deep_view().take(i + 1) =~= records.deep_view().take(i as int).push(
            records.deep_view()[i as int],
        ));
        i += 1;
    }
    assert(records.deep_view().take(records.len() as int) =~= records.deep_view());
    finish_writer(writer)
}

/// Merges the record files among `entries` into one table and writes it with the output
/// delimiter. The first record file with a row that cannot be read fails the merge.
pub fn merge(entries: &Vec<SourceFile>) -> (out: Result<Vec<u8>, MergeError>)
    ensures
        match out {
            Ok(bytes) => merged(entries.deep_view()) == Ok::<Seq<u8>, Seq<char>>(bytes@),
            Err(error) => merged(entries.deep_view()) == Err::<Seq<u8>, Seq<char>>(error.file@),
        },
{
    let mut files: Vec<ParsedFile> = Vec::new();
    let mut i: usize = 0;
    assert(files.deep_view() =~= Seq::<ParsedView>::empty());
    while i < entries.len()
        invariant
            i <= entries.len(),
            parsed_files(entries.deep_view(), i as nat) == Ok::<Seq<ParsedView>, Seq<char>>(
                files.deep_view(),
            ),
        decreases entries.len() - i,
    {
        let entry = &entries[i];
        if is_record_file(entry.name.as_str()) {
            let ghost before = files.deep_view();
            match parse_file(entry) {
                Ok(file) => {
                    let ghost view = file@;
                    files.push(file);
                    assert(files.deep_view() =~= before.push(view));
                },
                Err(error) => {
                    proof {
                        lemma_failure_stays(entries.deep_view(), (i + 1) as nat, entries.len() as nat);
                    }
                    return Err(error);
                },
            }
        }
        i += 1;
    }
    let table = combine(&files);
    Ok(encode(&table))
}

/// The merged table is written with another delimiter than the one that the record
/// files are read with: its bytes are those of the rows as they were read with the raw
/// delimiter, written with the output delimiter.
pub proof fn lemma_written_with_output_delimiter(entries: Seq<SourceView>)
    ensures
        OUTPUT_DELIMITER != RAW_DELIMITER,
        merged(entries) matches Ok(bytes) ==> parsed_files(entries, entries.len()) matches Ok(
            files,
        ) && bytes == encoded(combined(files, files.len()), OUTPUT_DELIMITER),
{
}

/// Once a file has failed, the files after it change nothing.
pub proof fn lemma_failure_stays(entries: Seq<SourceView>, n: nat, m: nat)
    requires
        n <= m,
        parsed_files(entries, n) is Err,
    ensures
        parsed_files(entries, m) == parsed_files(entries, n),
    decreases m - n,
{
    if n < m {
        lemma_failure_stays(entries, n, (m - 1) as nat);
    }
}

/// The data rows of the first `n` files, file by file and row by row.
pub open spec fn data_rows(files: Seq<ParsedView>, n: nat) -> Seq<Seq<Seq<char>>>
    decreases n,
{
    if n == 0 {
        Seq::empty()
    } else {
        data_rows(files, (n - 1) as nat) + files[n - 1].rows
    }
}

/// The number of data rows in the first `n` files.
pub open spec fn row_count(files: Seq<ParsedView>, n: nat) -> nat
    decreases n,
{
    if n == 0 {
        0
    } else {
        row_count(files, (n - 1) as nat) + files[n - 1].rows.len()
    }
}

/// The entries among the first `n` that are record files, in order.
pub open spec fn record_files(entries: Seq<SourceView>, n: nat) -> Seq<SourceView>
    decreases n,
{
    if n == 0 {
        Seq::empty()
    } else {
        let before = record_files(entries, (n - 1) as nat);
        if is_record_name(entries[n - 1].name) {
            before.push(entries[n - 1])
        } else {
            before
        }
    }
}

/// The data rows of the first `n` files are as many as the files hold together, and
/// the row `j` of the file `i` stands after all the rows of the files before it.
pub proof fn lemma_data_rows(files: Seq<ParsedView>, n: nat)
    requires
        n <= files.len(),
    ensures
        data_rows(files, n).len() == row_count(files, n),
        forall|i: int, j: int|
            0 <= i < n && 0 <= j < files[i].rows.len() ==> #[trigger] data_rows(
                files,
                n,
            )[row_count(files, i as nat) + j] == #[trigger] files[i].rows[j],
        forall|i: int| 0 <= i <= n ==> #[trigger] row_count(files, i as nat) <= row_count(files, n),
    decreases n,
{
    if n > 0 {
        let m = (n - 1) as nat;
        lemma_data_rows(files, m);
        assert forall|i: int, j: int| 0 <= i < n && 0 <= j < files[i].rows.len() implies #[trigger] data_rows(
            files,
            n,
        )[row_count(files, i as nat) + j] == #[trigger] files[i].rows[j] by {
            if i < m {
                assert(row_count(files, (i + 1) as nat) <= row_count(files, m));
            }
        }
    }
}

/// Where the first file has a header row, every later prefix of the files has one.
proof fn lemma_headed_from_the_first(files: Seq<ParsedView>, n: nat)
    requires
        0 < n <= files.len(),
        files[0].header is Some,
    ensures
        has_header(files, n),
    decreases n,
{
    if n > 1 {
        lemma_headed_from_the_first(files, (n - 1) as nat);
    }
}

/// Where the first file has a header row, the merged table of the first `n` files is
/// that row and then the data rows.
proof fn lemma_combined_prefix(files: Seq<ParsedView>, n: nat)
    requires
        0 < n <= files.len(),
        files[0].header is Some,
    ensures
        combined(files, n) == seq![files[0].header->0] + data_rows(files, n),
    decreases n,
{
    if n == 1 {
        assert(combined(files, 0) =~= Seq::<Seq<Seq<char>>>::empty());
    } else {
        lemma_combined_prefix(files, (n - 1) as nat);
        lemma_headed_from_the_first(files, (n - 1) as nat);
    }
}

/// Where the first of the files has a header row, the merged table holds that header
/// row, once and in the first place, and after it the data rows of all the files: as
/// many as the files hold together, the rows of a file after those of the files before
/// it, and in the order in which the file holds them.
pub proof fn lemma_merged_table_rows(files: Seq<ParsedView>)
    requires
        files.len() > 0,
        files[0].header is Some,
    ensures
        combined(files, files.len()) == seq![files[0].header->0] + data_rows(files, files.len()),
        combined(files, files.len()).len() == 1 + row_count(files, files.len()),
        forall|i: int, j: int|
            0 <= i < files.len() && 0 <= j < files[i].rows.len() ==> #[trigger] combined(
                files,
                files.len(),
            )[1 + row_count(files, i as nat) + j] == #[trigger] files[i].rows[j],
{
    let n = files.len();
    lemma_combined_prefix(files, n);
    lemma_data_rows(files, n);
    assert forall|i: int, j: int| 0 <= i < n && 0 <= j < files[i].rows.len() implies #[trigger] combined(
        files,
        n,
    )[1 + row_count(files, i as nat) + j] == #[trigger] files[i].rows[j] by {
        assert(row_count(files, (i + 1) as nat) <= row_count(files, n));
        assert(data_rows(files, n)[row_count(files, i as nat) + j] == files[i].rows[j]);
    }
}

/// What is read from the first `n` entries does not depend on the entries after them.
proof fn lemma_parsed_files_of_prefix(a: Seq<SourceView>, b: Seq<SourceView>, n: nat)
    requires
        n <= a.len(),
        n <= b.len(),
        forall|i: int| 0 <= i < n ==> a[i] == b[i],
    ensures
        parsed_files(a, n) == parsed_files(b, n),
    decreases n,
{
    if n > 0 {
        lemma_parsed_files_of_prefix(a, b, (n - 1) as nat);
    }
}

/// What is read from the first `n` entries is what is read from the record files among
/// them.
proof fn lemma_record_files_suffice(entries: Seq<SourceView>, n: nat)
    requires
        n <= entries.len(),
    ensures
        parsed_files(record_files(entries, n), record_files(entries, n).len()) == parsed_files(
            entries,
            n,
        ),
    decreases n,
{
    if n > 0 {
        let m = (n - 1) as nat;
        lemma_record_files_suffice(entries, m);
        if is_record_name(entries[n - 1].name) {
            let before = record_files(entries, m);
            let now = record_files(entries, n);
            lemma_parsed_files_of_prefix(now, before, before.len());
        }
    }
}

/// Entries whose name does not end in the record-file extension change nothing: the
/// merge of all entries is the merge of the record files among them.
pub proof fn lemma_other_files_change_nothing(entries: Seq<SourceView>)
    ensures
        merged(record_files(entries, entries.len())) == merged(entries),
{
    lemma_record_files_suffice(entries, entries.len());
}


} // verus!
