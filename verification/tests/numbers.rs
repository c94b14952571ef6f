use rwr_gfl_armor_parser::decode::decode_utf8_with_bom_removal;
use rwr_gfl_armor_parser::numbers::{i8_to_string, is_float_text, parse_i8};
use rwr_gfl_armor_parser::textutil::{log_entry, str_eq};

#[test]
fn parse_i8_accepts_plain_integers() {
    assert_eq!(parse_i8("0"), Some(0));
    assert_eq!(parse_i8("1"), Some(1));
    assert_eq!(parse_i8("42"), Some(42));
    assert_eq!(parse_i8("127"), Some(127));
    assert_eq!(parse_i8("-128"), Some(-128));
    assert_eq!(parse_i8("+5"), Some(5));
    assert_eq!(parse_i8("0012"), Some(12));
}

#[test]
fn parse_i8_rejects_bad_text() {
    assert_eq!(parse_i8(""), None);
    assert_eq!(parse_i8("+"), None);
    assert_eq!(parse_i8("-"), None);
    assert_eq!(parse_i8("abc"), None);
    assert_eq!(parse_i8("1 "), None);
    assert_eq!(parse_i8(" 1"), None);
    assert_eq!(parse_i8("1.0"), None);
    assert_eq!(parse_i8("--1"), None);
}

#[test]
fn parse_i8_rejects_out_of_range() {
    assert_eq!(parse_i8("128"), None);
    assert_eq!(parse_i8("-129"), None);
    assert_eq!(parse_i8("1000"), None);
    assert_eq!(parse_i8("99999999999999999999"), None);
}

#[test]
fn parse_i8_agrees_with_the_standard_parser() {
    let cases = [
        "", "0", "1", "+1", "-1", "127", "128", "-128", "-129", "0005", "5.0", "abc", " 7", "7 ",
        "+-3", "00", "99999999999999999999",
    ];
    for c in cases {
        assert_eq!(parse_i8(c), c.parse::<i8>().ok(), "case {:?}", c);
    }
}

#[test]
fn float_text_accepts_the_documented_grammar() {
    for ok in [
        "0", "1", "0.5", "5.", ".5", "+1.5", "-2", "1e5", "1E5", "1e+5", "1e-5", "2.5e-3", "inf",
        "-inf", "Infinity", "NaN", "nan", "3.", "120",
    ] {
        assert!(is_float_text(ok), "should accept {:?}", ok);
    }
}

#[test]
fn float_text_rejects_everything_else() {
    for bad in [
        "", ".", "+", "-", "e5", "5e", "5e+", "1.2.3", "1e5e5", "abc", "1_000", "--5", " 1", "1 ",
        "0x1", "infx",
    ] {
        assert!(!is_float_text(bad), "should reject {:?}", bad);
    }
}

#[test]
fn float_text_agrees_with_the_standard_parser() {
    let cases = [
        "", "0", "0.5", "5.", ".5", "+1.5e-3", "inf", "-Infinity", "NaN", "nan", ".", "e5", "5e",
        "1.2.3", "1_000", " 1", "1 ", "--5", "3e0", "1E-0",
    ];
    for c in cases {
        assert_eq!(is_float_text(c), c.parse::<f32>().is_ok(), "case {:?}", c);
    }
}

#[test]
fn i8_to_string_renders_decimals() {
    assert_eq!(i8_to_string(0), "0");
    assert_eq!(i8_to_string(7), "7");
    assert_eq!(i8_to_string(10), "10");
    assert_eq!(i8_to_string(42), "42");
    assert_eq!(i8_to_string(100), "100");
    assert_eq!(i8_to_string(127), "127");
    assert_eq!(i8_to_string(-1), "-1");
    assert_eq!(i8_to_string(-99), "-99");
    assert_eq!(i8_to_string(-128), "-128");
}

#[test]
fn bom_is_stripped_from_decoded_text() {
    assert_eq!(decode_utf8_with_bom_removal("\u{FEFF}abc"), "abc");
    assert_eq!(decode_utf8_with_bom_removal("abc"), "abc");
    assert_eq!(decode_utf8_with_bom_removal(""), "");
    // only a leading mark is stripped
    assert_eq!(decode_utf8_with_bom_removal("a\u{FEFF}b"), "a\u{FEFF}b");
}

#[test]
fn str_eq_compares_characters() {
    assert!(str_eq("", ""));
    assert!(str_eq("abc", "abc"));
    assert!(str_eq("护甲", "护甲"));
    assert!(!str_eq("abc", "abd"));
    assert!(!str_eq("abc", "ab"));
}

#[test]
fn log_entry_has_the_diagnostic_shape() {
    assert_eq!(log_entry("foo", "bar"), "carry_item: foo/bar");
}
