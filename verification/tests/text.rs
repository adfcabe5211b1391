use csv_validator::number::{below, Number};
use csv_validator::text::{
    chars_of, copy_fields, decimal_text, first_segment, same_text, strip_suffix, trim,
};

#[test]
fn chars_of_gives_every_character() {
    assert_eq!(chars_of(""), Vec::<char>::new());
    assert_eq!(chars_of("a_é"), vec!['a', '_', 'é']);
}

#[test]
fn same_text_compares_characters() {
    assert!(same_text("", ""));
    assert!(same_text("Size", "Size"));
    assert!(!same_text("Size", "size"));
    assert!(!same_text("Size", "Sizes"));
    assert!(!same_text("Sizes", "Size"));
}

#[test]
fn trim_removes_white_space_at_both_ends() {
    assert_eq!(trim("  3200 \t\n"), "3200");
    assert_eq!(trim("a b"), "a b");
    assert_eq!(trim("  a b  "), "a b");
    assert_eq!(trim(""), "");
    assert_eq!(trim(" \t "), "");
}

#[test]
fn trim_agrees_with_the_standard_library() {
    let samples = [
        "\u{a0}x\u{2003}",
        "\u{3000}",
        "\u{85}y",
        "é ",
        " \u{200b} ",
        "\r\n z \u{1680}",
        "plain",
    ];
    for sample in samples {
        assert_eq!(trim(sample), sample.trim());
    }
}

#[test]
fn strip_suffix_takes_the_suffix_off() {
    assert_eq!(strip_suffix("2.5 Mio", " Mio"), Some("2.5"));
    assert_eq!(strip_suffix(" Mio", " Mio"), Some(""));
    assert_eq!(strip_suffix("2.5Mio", " Mio"), None);
    assert_eq!(strip_suffix("Mio", " Mio"), None);
    assert_eq!(strip_suffix("2.5 Mio ", " Mio"), None);
    assert_eq!(strip_suffix("abc", ""), Some("abc"));
    assert_eq!(strip_suffix("é Mio", " Mio"), Some("é"));
}

#[test]
fn first_segment_stops_at_the_separator() {
    assert_eq!(first_segment("ABC123_front.tif", '_'), "ABC123");
    assert_eq!(first_segment("ABC123.tif", '_'), "ABC123.tif");
    assert_eq!(first_segment("_front", '_'), "");
    assert_eq!(first_segment("a_b_c", '_'), "a");
    assert_eq!(first_segment("", '_'), "");
    assert_eq!(first_segment("é_x", '_'), "é");
}

#[test]
fn decimal_text_writes_numerals() {
    assert_eq!(decimal_text(0), "0");
    assert_eq!(decimal_text(7), "7");
    assert_eq!(decimal_text(10), "10");
    assert_eq!(decimal_text(2024), "2024");
    assert_eq!(decimal_text(u128::MAX), u128::MAX.to_string());
}

#[test]
fn copy_fields_copies() {
    let fields = vec!["a".to_string(), "".to_string(), "é".to_string()];
    assert_eq!(copy_fields(&fields), fields);
    assert_eq!(copy_fields(&Vec::new()), Vec::<String>::new());
}

#[test]
fn below_orders_numbers_as_floats_do() {
    let samples: [f64; 22] = [
        0.0,
        -0.0,
        1.0,
        -1.0,
        1.9,
        2.0,
        2.0000000000000004,
        1.9999999999999998,
        3.5,
        4.0,
        4.1,
        4.000000000000001,
        5e-324,
        -5e-324,
        2.2250738585072014e-308,
        1.7976931348623157e308,
        -1.7976931348623157e308,
        f64::INFINITY,
        f64::NEG_INFINITY,
        f64::NAN,
        -f64::NAN,
        1e10,
    ];
    for a in samples {
        for b in samples {
            assert_eq!(below(a.to_bits(), b.to_bits()), a < b, "{} < {}", a, b);
        }
    }
}

#[test]
fn below_takes_the_bounds_as_equal_to_themselves() {
    let two = Number { bits: 2.0f64.to_bits(), text: "2".to_string() };
    let four = Number { bits: 4.0f64.to_bits(), text: "4".to_string() };
    assert!(!below(two.bits, two.bits));
    assert!(below(two.bits, four.bits));
    assert!(!below(four.bits, two.bits));
    assert_eq!(two.bits, 0x4000_0000_0000_0000);
    assert_eq!(four.bits, 0x4010_0000_0000_0000);
}
