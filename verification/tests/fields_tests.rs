use otd_core::number::{is_measure_text, parse_i32};
use otd_core::parser::fields::{
    parse_float_value, parse_int_value, parse_key_value, parse_multi_values, parse_string_value,
};
use otd_core::text::{starts_with, str_equal, trim};

#[test]
fn test_parse_key_value_simple() {
    let result = parse_key_value("Key=Value");
    assert_eq!(result, Some(("Key", "Value")));
}

#[test]
fn test_parse_key_value_with_spaces() {
    let result = parse_key_value("  Key  =  Value  ");
    assert_eq!(result, Some(("Key", "Value")));
}

#[test]
fn test_parse_key_value_empty_value() {
    let result = parse_key_value("Key=");
    assert_eq!(result, Some(("Key", "")));
}

#[test]
fn test_parse_key_value_no_equals() {
    let result = parse_key_value("NoEquals");
    assert_eq!(result, None);
}

#[test]
fn test_parse_key_value_numeric() {
    let result = parse_key_value("Width=123.456");
    assert_eq!(result, Some(("Width", "123.456")));
}

#[test]
fn test_parse_multi_values_single() {
    let result = parse_multi_values("x=10.5");
    assert_eq!(result, vec![("x", "10.5")]);
}

#[test]
fn test_parse_multi_values_multiple() {
    let result = parse_multi_values("x=10 y=20 X=30 Y=40");
    assert_eq!(
        result,
        vec![("x", "10"), ("y", "20"), ("X", "30"), ("Y", "40")]
    );
}

#[test]
fn test_parse_multi_values_geometry_line() {
    let result = parse_multi_values("x=0 y=0 X=100 Y=0 R=50");
    assert_eq!(result.len(), 5);
    assert_eq!(result[4], ("R", "50"));
}

#[test]
fn test_parse_multi_values_empty() {
    let result = parse_multi_values("");
    assert!(result.is_empty());
}

#[test]
fn multi_values_keep_blanks_inside_a_value() {
    // a word that no `=` follows belongs to the value before it
    let result = parse_multi_values("Customer=ACME Corp Info=2");
    assert_eq!(result, vec![("Customer", "ACME Corp"), ("Info", "2")]);
    // a key has letters and numerals only: `a-b=` starts no field
    let result = parse_multi_values("k=1 a-b=2");
    assert_eq!(result, vec![("k", "1 a-"), ("b", "2")]);
    // the first key is whatever stands before the first `=`
    let result = parse_multi_values("  two words = v ");
    assert_eq!(result, vec![("two words", "v")]);
    // without `=` there is no field
    assert!(parse_multi_values("no fields here").is_empty());
    // a value is never empty where text follows: the search for the next
    // key starts at its second character
    let result = parse_multi_values("a=b=c");
    assert_eq!(result, vec![("a", "b=c")]);
}

#[test]
fn key_value_splits_at_the_first_equals_sign() {
    assert_eq!(parse_key_value("a=b=c"), Some(("a", "b=c")));
    assert_eq!(parse_key_value("=v"), Some(("", "v")));
    assert_eq!(parse_key_value("\t k \u{a0}=\u{3000}v\r"), Some(("k", "v")));
}

#[test]
fn typed_values_need_the_key_to_match() {
    assert_eq!(parse_string_value("Name = Door ", "Name"), Some("Door".to_string()));
    assert_eq!(parse_string_value("Name=Door", "name"), None);
    assert_eq!(parse_string_value("Name", "Name"), None);
    assert_eq!(parse_int_value("Id=42", "Id"), Some(42));
    assert_eq!(parse_int_value("Id=-7", "Id"), Some(-7));
    assert_eq!(parse_int_value("Id=+7", "Id"), Some(7));
    assert_eq!(parse_int_value("Id=4.2", "Id"), None);
    assert_eq!(parse_int_value("Id=", "Id"), None);
    assert_eq!(parse_int_value("Id=42", "Code"), None);
    assert_eq!(parse_float_value("Width=3000", "Width"), Some("3000".to_string()));
    assert_eq!(parse_float_value("Width=6.5e1", "Width"), Some("6.5e1".to_string()));
    assert_eq!(parse_float_value("Width=abc", "Width"), None);
    assert_eq!(parse_float_value("Width=3000", "Height"), None);
}

#[test]
fn integers_read_as_the_standard_parser_reads_them() {
    let cases = [
        "0", "-0", "+0", "7", "007", "2147483647", "2147483648", "-2147483648", "-2147483649",
        "99999999999999999999", "-99999999999999999999", "", "+", "-", "--1", "+-1", "1 ", " 1",
        "1_000", "0x10", "12a", "a12", "１２", "00000000000000000000001",
    ];
    for text in cases {
        assert_eq!(parse_i32(text), text.parse::<i32>().ok(), "{:?}", text);
    }
}

#[test]
fn measures_are_recognised_as_the_standard_parser_accepts_them() {
    let cases = [
        "0", "1", "-1", "+1", "1.", ".5", "-.5", "+.5e3", "1.5", "1e5", "1E5", "1e+5", "1e-5",
        "1.e5", "1.5e", "1.5e+", "e5", ".", "+", "-", "", "inf", "-inf", "+Inf", "INF",
        "infinity", "Infinity", "-INFINITY", "infinit", "nan", "NaN", "-nan", "nanx", "1f", "1_0",
        "0x10", " 1", "1 ", "1..2", "1.2.3", "--1", "1e5e5", "1e5.5", "129.46062992126", "86.6",
        "1e400", "1e-400", "０", "i", "in",
    ];
    for text in cases {
        assert_eq!(is_measure_text(text), text.parse::<f64>().is_ok(), "{:?}", text);
    }
}

#[test]
fn trim_strips_what_the_standard_trim_strips() {
    let cases = [
        "", " ", "a", " a ", "\t\n\r a b \u{b}\u{c}", "\u{85}x\u{a0}", "\u{1680}x\u{2000}",
        "\u{200a}x\u{2028}", "\u{2029}x\u{202f}", "\u{205f}x\u{3000}", "\u{200b}x\u{feff}",
        "\u{180e}x", "  \u{1}  ",
    ];
    for text in cases {
        assert_eq!(trim(text), text.trim(), "{:?}", text);
    }
    for code in 0u32..0x3100 {
        if let Some(c) = char::from_u32(code) {
            let text = format!("{}x{}", c, c);
            assert_eq!(trim(&text), text.trim(), "{:?}", c);
        }
    }
}

#[test]
fn prefixes_and_equality() {
    assert!(starts_with("X=100", "X="));
    assert!(starts_with("X=100", ""));
    assert!(!starts_with("X", "X="));
    assert!(!starts_with("Y=1", "X="));
    assert!(str_equal("abc", "abc"));
    assert!(!str_equal("abc", "abd"));
    assert!(!str_equal("abc", "ab"));
}
