use csv_validator::codec::{OUTPUT_DELIMITER, RAW_DELIMITER};
use csv_validator::merge::{
    combine, encode, is_record_file, merge, parse_file, ParsedFile, SourceFile, RECORD_SUFFIX,
};
use csv_validator::table::{load_table, LoadError};

fn strings(fields: &[&str]) -> Vec<String> {
    fields.iter().map(|field| field.to_string()).collect()
}

fn source(name: &str, data: &str) -> SourceFile {
    SourceFile { name: name.to_string(), data: data.as_bytes().to_vec() }
}

const HEADER: &str = "Filename:Size:Width:\"IPTC:Object Name\":\"IPTC:Caption\":\"IPTC:Sup. Category\":\"IPTC:Source\"";

#[test]
fn delimiters_are_colon_and_semicolon() {
    assert_eq!(RAW_DELIMITER, b':');
    assert_eq!(OUTPUT_DELIMITER, b';');
    assert_ne!(RAW_DELIMITER, OUTPUT_DELIMITER);
    assert_eq!(RECORD_SUFFIX, ".csv");
}

#[test]
fn record_files_end_in_the_extension() {
    assert!(is_record_file("a.csv"));
    assert!(is_record_file("a.b.csv"));
    assert!(is_record_file("..csv"));
    assert!(is_record_file("é.csv"));
    assert!(!is_record_file(".csv"));
    assert!(!is_record_file("csv"));
    assert!(!is_record_file("a.CSV"));
    assert!(!is_record_file("a.csv.bak"));
    assert!(!is_record_file("a.csv "));
    assert!(!is_record_file("acsv"));
    assert!(!is_record_file(""));
    assert!(!is_record_file("notes.txt"));
}

#[test]
fn parse_file_reads_with_the_raw_delimiter() {
    let parsed = parse_file(&source("a.csv", "h1:h2\n1:2\n\"x:y\":z;w\n")).unwrap();
    assert_eq!(parsed.header, Some(strings(&["h1", "h2"])));
    assert_eq!(parsed.rows, vec![strings(&["1", "2"]), strings(&["x:y", "z;w"])]);
}

#[test]
fn parse_file_of_nothing_has_an_empty_header() {
    let parsed = parse_file(&source("a.csv", "")).unwrap();
    assert_eq!(parsed.header, Some(Vec::new()));
    assert!(parsed.rows.is_empty());
}

#[test]
fn parse_file_keeps_rows_of_any_length() {
    let parsed = parse_file(&source("a.csv", "a:b\n1\n1:2:3\n")).unwrap();
    assert_eq!(parsed.rows, vec![strings(&["1"]), strings(&["1", "2", "3"])]);
}

#[test]
fn parse_file_leaves_out_a_header_that_cannot_be_read() {
    let file = SourceFile { name: "a.csv".to_string(), data: b"\xff:b\n1:2\n".to_vec() };
    let parsed = parse_file(&file).unwrap();
    assert_eq!(parsed.header, None);
    assert_eq!(parsed.rows, vec![strings(&["1", "2"])]);
}

#[test]
fn parse_file_fails_on_a_row_that_cannot_be_read() {
    let file = SourceFile { name: "bad.csv".to_string(), data: b"a:b\n1:2\n\xff:4\n".to_vec() };
    let error = parse_file(&file).unwrap_err();
    assert_eq!(error.file, "bad.csv");
    assert!(matches!(error.cause.kind(), csv::ErrorKind::Utf8 { .. }));
}

#[test]
fn combine_keeps_one_header_and_every_row() {
    let files = vec![
        ParsedFile {
            header: Some(strings(&["h1", "h2"])),
            rows: vec![strings(&["1", "2"]), strings(&["3", "4"])],
        },
        ParsedFile { header: Some(strings(&["h1", "h2"])), rows: Vec::new() },
        ParsedFile { header: Some(strings(&["other", "names"])), rows: vec![strings(&["5", "6"])] },
    ];
    assert_eq!(
        combine(&files),
        vec![
            strings(&["h1", "h2"]),
            strings(&["1", "2"]),
            strings(&["3", "4"]),
            strings(&["5", "6"]),
        ]
    );
    assert_eq!(combine(&Vec::new()), Vec::<Vec<String>>::new());
}

#[test]
fn combine_takes_the_first_header_that_was_read() {
    let files = vec![
        ParsedFile { header: None, rows: vec![strings(&["1", "2"])] },
        ParsedFile { header: Some(strings(&["h1", "h2"])), rows: vec![strings(&["3", "4"])] },
        ParsedFile { header: Some(strings(&["h1", "h2"])), rows: vec![strings(&["5", "6"])] },
    ];
    assert_eq!(
        combine(&files),
        vec![
            strings(&["1", "2"]),
            strings(&["h1", "h2"]),
            strings(&["3", "4"]),
            strings(&["5", "6"]),
        ]
    );
}

#[test]
fn encode_writes_with_the_output_delimiter() {
    let records = vec![strings(&["a", "b"]), strings(&["x:y", "z;w"]), strings(&["", "q\"r"])];
    assert_eq!(encode(&records), b"a;b\nx:y;\"z;w\"\n;\"q\"\"r\"\n".to_vec());
    assert_eq!(encode(&Vec::new()), Vec::<u8>::new());
}

#[test]
fn encode_takes_rows_of_any_length() {
    let records = vec![strings(&["a", "b"]), strings(&["c"]), Vec::new()];
    assert_eq!(encode(&records), b"a;b\nc\n\"\"\n".to_vec());
}

#[test]
fn merge_keeps_one_header_and_every_row() {
    let entries = vec![
        source("a.csv", "h1:h2\n1:2\n3:4\n"),
        source("b.csv", "h1:h2\n"),
        source("c.csv", "h1:h2\n5:6\n"),
    ];
    assert_eq!(merge(&entries).unwrap(), b"h1;h2\n1;2\n3;4\n5;6\n".to_vec());
}

#[test]
fn merge_translates_the_delimiter() {
    let entries = vec![source("a.csv", "h1:h2\n\"a:b\":c;d\n")];
    assert_eq!(merge(&entries).unwrap(), b"h1;h2\na:b;\"c;d\"\n".to_vec());
}

#[test]
fn merge_output_reads_back_to_the_same_fields() {
    let first = format!("{}\nf_1.tif:\"2:5 Mio\":3200:f:a;b:cat:\"src\n2\"\n", HEADER);
    let second = format!("{}\ng.tif: 3 Mio :x:\"g\"\"g\":::\n", HEADER);
    let entries = vec![source("1.csv", &first), source("2.csv", &second)];
    let merged = merge(&entries).unwrap();
    let table = load_table(&merged).unwrap();
    assert_eq!(
        table.schema.header(),
        &strings(&[
            "Filename",
            "Size",
            "Width",
            "IPTC:Object Name",
            "IPTC:Caption",
            "IPTC:Sup. Category",
            "IPTC:Source"
        ])
    );
    assert_eq!(
        table.rows,
        vec![
            strings(&["f_1.tif", "2:5 Mio", "3200", "f", "a;b", "cat", "src\n2"]),
            strings(&["g.tif", " 3 Mio ", "x", "g\"g", "", "", ""]),
        ]
    );
}

#[test]
fn merge_passes_over_other_files() {
    let with_others = vec![
        source("notes.txt", "not:a:table\n"),
        source("a.csv", "h1:h2\n1:2\n"),
        source(".csv", "x:y\n7:8\n"),
        source("b.csv", "h1:h2\n3:4\n"),
        source("c.csv.bak", "\u{0}"),
    ];
    let without = vec![source("a.csv", "h1:h2\n1:2\n"), source("b.csv", "h1:h2\n3:4\n")];
    assert_eq!(merge(&with_others).unwrap(), merge(&without).unwrap());
    assert_eq!(merge(&with_others).unwrap(), b"h1;h2\n1;2\n3;4\n".to_vec());
}

#[test]
fn merge_passes_over_a_broken_file_that_is_no_record_file() {
    let entries = vec![
        SourceFile { name: "raw.bin".to_string(), data: b"a:b\n\xff:1\n".to_vec() },
        source("a.csv", "h1:h2\n1:2\n"),
    ];
    assert_eq!(merge(&entries).unwrap(), b"h1;h2\n1;2\n".to_vec());
}

#[test]
fn merge_of_nothing_is_empty() {
    assert_eq!(merge(&Vec::new()).unwrap(), Vec::<u8>::new());
    assert_eq!(merge(&vec![source("a.txt", "h\n1\n")]).unwrap(), Vec::<u8>::new());
}

#[test]
fn merge_fails_on_the_first_file_that_cannot_be_read() {
    let entries = vec![
        source("a.csv", "h1:h2\n1:2\n"),
        SourceFile { name: "b.csv".to_string(), data: b"h1:h2\n\xff:4\n".to_vec() },
        SourceFile { name: "c.csv".to_string(), data: b"h1:h2\n\xfe:4\n".to_vec() },
    ];
    let error = merge(&entries).unwrap_err();
    assert_eq!(error.file, "b.csv");
}

#[test]
fn merge_takes_the_header_of_the_first_file_that_has_one() {
    let entries = vec![
        SourceFile { name: "a.csv".to_string(), data: b"\xff:h2\n1:2\n".to_vec() },
        source("b.csv", "h1:h2\n3:4\n"),
    ];
    assert_eq!(merge(&entries).unwrap(), b"1;2\nh1;h2\n3;4\n".to_vec());
}

#[test]
fn load_table_reads_with_the_output_delimiter() {
    let data = "Filename;Size;Width;IPTC:Object Name;IPTC:Sup. Category;IPTC:Source\n\
        a_b.tif;2 Mio;3200;a;cat;src\n\
        short;row\n";
    let table = load_table(data.as_bytes()).unwrap();
    assert_eq!(table.schema.header().len(), 6);
    assert_eq!(table.schema.filename(), 0);
    assert_eq!(table.schema.source(), 5);
    assert_eq!(
        table.rows,
        vec![strings(&["a_b.tif", "2 Mio", "3200", "a", "cat", "src"]), strings(&["short", "row"])]
    );
}

#[test]
fn load_table_names_the_missing_columns() {
    let error = load_table(b"Filename;Size;IPTC:Source\nx;y;z\n").unwrap_err();
    match error {
        LoadError::MissingColumns(names) => {
            assert_eq!(names, strings(&["Width", "IPTC:Object Name", "IPTC:Sup. Category"]))
        }
        other => panic!("{:?}", other),
    }
    assert!(matches!(load_table(b"").unwrap_err(), LoadError::MissingColumns(_)));
}

#[test]
fn load_table_fails_on_a_header_that_cannot_be_read() {
    let error = load_table(b"Filename;\xff\n").unwrap_err();
    assert!(matches!(error, LoadError::Unreadable(_)));
}

#[test]
fn load_table_fails_on_a_row_that_cannot_be_read() {
    let data = b"Filename;Size;Width;IPTC:Object Name;IPTC:Sup. Category;IPTC:Source\n\xff;;;;;\n";
    let error = load_table(data).unwrap_err();
    assert!(matches!(error, LoadError::Unreadable(_)));
}

#[test]
fn encode_takes_fields_of_any_size() {
    let long = "x".repeat(100_000);
    let records = vec![vec![long.clone(), "b".to_string()], vec!["c".to_string(), long.clone()]];
    let expected = format!("{};b\nc;{}\n", long, long);
    assert_eq!(encode(&records), expected.into_bytes());
}

#[test]
fn parse_file_reads_quoted_fields_and_line_ends() {
    let parsed = parse_file(&source("a.csv", "h1:h2\r\n\"a\nb\":\"c\"\"d\"\r\n\r\n e : f \n")).unwrap();
    assert_eq!(parsed.header, Some(strings(&["h1", "h2"])));
    assert_eq!(parsed.rows, vec![strings(&["a\nb", "c\"d"]), strings(&[" e ", " f "])]);
}
