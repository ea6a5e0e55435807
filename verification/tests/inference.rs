use insighter::infer::{infer_value_type, parse_bool, parse_integer};
use insighter::text::{chars_of, eq_ignore_ascii_case, is_whitespace, to_ascii_lower, trim_bounds};
use insighter::value::{is_finite, Value};

fn reading(text: &str) -> Option<u64> {
    text.trim().parse::<f64>().ok().map(f64::to_bits)
}

fn infer(text: &str) -> Value {
    infer_value_type(text, reading(text))
}

fn integer(text: &str) -> Option<i64> {
    let chars: Vec<char> = text.chars().collect();
    parse_integer(&chars, 0, chars.len())
}

#[test]
fn blank_cells_are_null() {
    assert_eq!(infer(""), Value::Null);
    assert_eq!(infer(" "), Value::Null);
    assert_eq!(infer("   \t\r\n"), Value::Null);
    assert_eq!(infer("\u{a0}\u{3000}"), Value::Null);
}

#[test]
fn integers_are_integers() {
    assert_eq!(infer("42"), Value::Integer(42));
    assert_eq!(infer("-7"), Value::Integer(-7));
    assert_eq!(infer("0"), Value::Integer(0));
    assert_eq!(infer("-0"), Value::Integer(0));
    assert_eq!(infer("007"), Value::Integer(7));
    assert_eq!(infer("  42\t"), Value::Integer(42));
}

#[test]
fn integers_reach_both_ends_of_their_range() {
    assert_eq!(infer("9223372036854775807"), Value::Integer(i64::MAX));
    assert_eq!(infer("-9223372036854775808"), Value::Integer(i64::MIN));
    assert_eq!(integer("9223372036854775808"), None);
    assert_eq!(integer("-9223372036854775809"), None);
    assert_eq!(integer("99999999999999999999999"), None);
}

#[test]
fn an_integer_out_of_range_is_a_float() {
    let text = "9223372036854775808";
    assert_eq!(infer(text), Value::Float(9223372036854775808.0f64.to_bits()));
}

#[test]
fn what_is_no_integer() {
    assert_eq!(integer(""), None);
    assert_eq!(integer("-"), None);
    assert_eq!(integer("+5"), None);
    assert_eq!(integer("1,000"), None);
    assert_eq!(integer("1_000"), None);
    assert_eq!(integer("12a"), None);
    assert_eq!(integer("--1"), None);
    assert_eq!(integer("1-"), None);
    assert_eq!(integer(" 1"), None);
    assert_eq!(integer("\u{661}"), None);
}

#[test]
fn integer_reading_agrees_with_the_standard_one() {
    let samples = [
        "0", "1", "-1", "10", "-10", "123456789", "-123456789", "9223372036854775807",
        "-9223372036854775808", "9223372036854775808", "-9223372036854775809", "", "-", "a",
        "1a", "a1", "1.0", "00", "-00012", "18446744073709551616",
    ];
    for text in samples {
        assert_eq!(integer(text), text.parse::<i64>().ok(), "{:?}", text);
    }
}

#[test]
fn part_of_the_text_can_be_read_as_an_integer() {
    let chars: Vec<char> = "ab-12cd".chars().collect();
    assert_eq!(parse_integer(&chars, 2, 5), Some(-12));
    assert_eq!(parse_integer(&chars, 3, 5), Some(12));
    assert_eq!(parse_integer(&chars, 2, 6), None);
    assert_eq!(parse_integer(&chars, 3, 3), None);
}

#[test]
fn a_leading_plus_makes_a_float() {
    assert_eq!(infer("+5"), Value::Float(5.0f64.to_bits()));
}

#[test]
fn floats_are_floats() {
    assert_eq!(infer("3.14"), Value::Float(3.14f64.to_bits()));
    assert_eq!(infer("-0.5"), Value::Float((-0.5f64).to_bits()));
    assert_eq!(infer("1e3"), Value::Float(1000.0f64.to_bits()));
    assert_eq!(infer(" 2.5 "), Value::Float(2.5f64.to_bits()));
    match infer("3.14") {
        Value::Float(bits) => assert_eq!(f64::from_bits(bits), 3.14),
        other => panic!("{:?}", other),
    }
}

#[test]
fn floats_that_are_not_finite_stay_text() {
    assert_eq!(infer("inf"), Value::String("inf".to_string()));
    assert_eq!(infer("-inf"), Value::String("-inf".to_string()));
    assert_eq!(infer("NaN"), Value::String("NaN".to_string()));
    assert_eq!(infer("1e999"), Value::String("1e999".to_string()));
    assert_eq!(infer(" infinity "), Value::String(" infinity ".to_string()));
}

#[test]
fn a_reading_that_is_not_finite_does_not_hide_a_boolean() {
    assert_eq!(infer_value_type("yes", Some(f64::INFINITY.to_bits())), Value::Bool(true));
    assert_eq!(infer_value_type("no", Some(f64::NAN.to_bits())), Value::Bool(false));
}

#[test]
fn the_reading_is_ignored_for_blank_cells_and_integers() {
    assert_eq!(infer_value_type("  ", Some(1.5f64.to_bits())), Value::Null);
    assert_eq!(infer_value_type("12", Some(1.5f64.to_bits())), Value::Integer(12));
}

#[test]
fn without_a_reading_the_text_is_no_float() {
    assert_eq!(infer_value_type("3.14", None), Value::String("3.14".to_string()));
}

#[test]
fn boolean_literals_are_booleans() {
    for text in ["true", "t", "yes", "y", "TRUE", "True", "T", "YES", "Yes", "Y", " yes "] {
        assert_eq!(infer(text), Value::Bool(true), "{:?}", text);
    }
    for text in ["false", "f", "no", "n", "FALSE", "False", "F", "NO", "No", "N", "\tno\n"] {
        assert_eq!(infer(text), Value::Bool(false), "{:?}", text);
    }
}

#[test]
fn one_and_zero_are_integers_not_booleans() {
    assert_eq!(infer("1"), Value::Integer(1));
    assert_eq!(infer("0"), Value::Integer(0));
    let one: Vec<char> = vec!['1'];
    let zero: Vec<char> = vec!['0'];
    assert_eq!(parse_bool(&one), Some(true));
    assert_eq!(parse_bool(&zero), Some(false));
}

#[test]
fn what_is_no_boolean() {
    for text in ["tru", "yess", "nope", "ye", "fals", "tt", "", "on", "off", "\u{212a}"] {
        let chars: Vec<char> = text.chars().collect();
        assert_eq!(parse_bool(&chars), None, "{:?}", text);
    }
}

#[test]
fn boolean_reading_agrees_with_lowercasing() {
    let samples = ["TrUe", "yEs", "nO", "FaLsE", "T", "f", "Y", "n", "1", "0", "maybe", "YES!"];
    for text in samples {
        let chars: Vec<char> = text.chars().collect();
        let want = match text.to_lowercase().as_str() {
            "true" | "t" | "yes" | "y" | "1" => Some(true),
            "false" | "f" | "no" | "n" | "0" => Some(false),
            _ => None,
        };
        assert_eq!(parse_bool(&chars), want, "{:?}", text);
    }
}

#[test]
fn other_text_is_kept_as_it_came() {
    assert_eq!(infer(" hello "), Value::String(" hello ".to_string()));
    assert_eq!(infer("Ann"), Value::String("Ann".to_string()));
    assert_eq!(infer("1,000"), Value::String("1,000".to_string()));
    assert_eq!(infer("  12 apples"), Value::String("  12 apples".to_string()));
    assert_eq!(infer("\u{e9}t\u{e9}"), Value::String("\u{e9}t\u{e9}".to_string()));
}

#[test]
fn inference_gives_the_same_value_each_time() {
    for text in ["", "42", "3.14", "yes", " hello ", "1e999"] {
        assert_eq!(infer(text), infer(text));
    }
}

#[test]
fn whitespace_is_what_the_standard_library_calls_whitespace() {
    let mut code: u32 = 0;
    while code <= 0x10ffff {
        if let Some(c) = char::from_u32(code) {
            assert_eq!(is_whitespace(c), c.is_whitespace(), "U+{:04X}", code);
        }
        code += 1;
    }
}

#[test]
fn trimming_agrees_with_the_standard_library() {
    let samples = [
        "", " ", "a", " a", "a ", "  a b  ", "\t\na\u{a0}", "\u{3000}x\u{2003}y\u{2028}", "   ",
        "\u{feff}a ", "a\u{200b}",
    ];
    for text in samples {
        let chars = chars_of(text);
        assert_eq!(chars, text.chars().collect::<Vec<char>>());
        let (from, to) = trim_bounds(&chars);
        let got: String = chars[from..to].iter().collect();
        assert_eq!(got, text.trim(), "{:?}", text);
    }
}

#[test]
fn letters_compare_without_regard_to_ascii_case() {
    let csv: Vec<char> = "CsV".chars().collect();
    assert!(eq_ignore_ascii_case(&csv, "csv"));
    assert!(eq_ignore_ascii_case(&csv, "CSV"));
    assert!(!eq_ignore_ascii_case(&csv, "cs"));
    assert!(!eq_ignore_ascii_case(&csv, "csvx"));
    assert!(!eq_ignore_ascii_case(&csv, "pdf"));
    let kelvin: Vec<char> = vec!['\u{212a}'];
    assert!(!eq_ignore_ascii_case(&kelvin, "k"));
    assert_eq!(to_ascii_lower('A'), 'a');
    assert_eq!(to_ascii_lower('Z'), 'z');
    assert_eq!(to_ascii_lower('a'), 'a');
    assert_eq!(to_ascii_lower('@'), '@');
    assert_eq!(to_ascii_lower('['), '[');
    assert_eq!(to_ascii_lower('\u{c9}'), '\u{c9}');
}

#[test]
fn finite_floats_are_told_by_their_bits() {
    assert!(is_finite(0.0f64.to_bits()));
    assert!(is_finite((-0.0f64).to_bits()));
    assert!(is_finite(3.14f64.to_bits()));
    assert!(is_finite(f64::MAX.to_bits()));
    assert!(is_finite(f64::MIN.to_bits()));
    assert!(is_finite(f64::MIN_POSITIVE.to_bits()));
    assert!(is_finite(5e-324f64.to_bits()));
    assert!(!is_finite(f64::INFINITY.to_bits()));
    assert!(!is_finite(f64::NEG_INFINITY.to_bits()));
    assert!(!is_finite(f64::NAN.to_bits()));
    assert!(!is_finite(0x7ff0_0000_0000_0001));
    assert!(!is_finite(0xffff_ffff_ffff_ffff));
}
