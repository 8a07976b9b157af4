use coastal::model::{define_line, Constant, ConstantValue};
use coastal::text::{
    escape_bytes, integer_to_string, is_decimal, natural_to_string, parse_digits, squeeze,
};

fn line(name: &str, value: ConstantValue) -> String {
    Constant { name: name.to_string(), value }.c_header("MYLIB_")
}

#[test]
fn version_major_is_defined_with_a_suffix() {
    assert_eq!(line("VERSION_MAJOR", ConstantValue::U32(1)), "#define MYLIB_VERSION_MAJOR 1u\n");
}

#[test]
fn version_is_defined_as_a_string() {
    assert_eq!(
        line("VERSION", ConstantValue::Str("1.0".to_string())),
        "#define MYLIB_VERSION \"1.0\"\n"
    );
}

#[test]
fn the_name_of_a_constant_is_written_in_upper_snake_case() {
    assert_eq!(line("maxRetries", ConstantValue::I32(3)), "#define MYLIB_MAX_RETRIES 3\n");
    assert_eq!(line("max_retries", ConstantValue::I32(3)), "#define MYLIB_MAX_RETRIES 3\n");
    assert_eq!(
        Constant { name: "Limit".to_string(), value: ConstantValue::I32(3) }.c_header(""),
        "#define LIMIT 3\n"
    );
}

#[test]
fn each_kind_of_value_has_its_own_form() {
    assert_eq!(ConstantValue::CChar(b'a').c_literal(), "'a'");
    assert_eq!(ConstantValue::CChar(b'\n').c_literal(), "'\\n'");
    assert_eq!(ConstantValue::CChar(b'\'').c_literal(), "'\\''");
    assert_eq!(ConstantValue::I8(-128).c_literal(), "((int8_t)-128)");
    assert_eq!(ConstantValue::I8(127).c_literal(), "((int8_t)127)");
    assert_eq!(ConstantValue::I16(-32768).c_literal(), "((int16_t)-32768)");
    assert_eq!(ConstantValue::I32(-2147483648).c_literal(), "-2147483648");
    assert_eq!(ConstantValue::I32(0).c_literal(), "0");
    assert_eq!(ConstantValue::I64(i64::MIN).c_literal(), "-9223372036854775808ll");
    assert_eq!(ConstantValue::I64(i64::MAX).c_literal(), "9223372036854775807ll");
    assert_eq!(ConstantValue::U8(255).c_literal(), "((uint8_t)255u)");
    assert_eq!(ConstantValue::U16(65535).c_literal(), "((uint16_t)65535u)");
    assert_eq!(ConstantValue::U32(4294967295).c_literal(), "4294967295u");
    assert_eq!(ConstantValue::U64(u64::MAX).c_literal(), "18446744073709551615ull");
    assert_eq!(ConstantValue::F32(1.5f32.to_string()).c_literal(), "1.5f");
    assert_eq!(ConstantValue::F64(2.25f64.to_string()).c_literal(), "2.25");
    assert_eq!(ConstantValue::Str("a\"b\\c\n".to_string()).c_literal(), "\"a\\\"b\\\\c\\n\"");
    assert_eq!(ConstantValue::Str(String::new()).c_literal(), "\"\"");
    assert_eq!(ConstantValue::Bytes(vec![b'h', b'i', 0, 255, b'"']).c_literal(), "\"hi\\x00\\xff\\\"\"");
    assert_eq!(ConstantValue::Bytes(Vec::new()).c_literal(), "\"\"");
}

#[test]
fn bytes_are_escaped_as_the_standard_library_does() {
    let all: Vec<u8> = (0..=255).collect();
    let expected: String =
        String::from_utf8(all.iter().copied().flat_map(u8::escape_ascii).collect()).unwrap();
    assert_eq!(escape_bytes(&all), expected);
    assert_eq!(escape_bytes(&vec![9, 10, 13, 39, 34, 92]), "\\t\\n\\r\\'\\\"\\\\");
    assert_eq!(escape_bytes(&vec![0x1f, 0x20, 0x7e, 0x7f]), "\\x1f ~\\x7f");
    assert_eq!(escape_bytes(&Vec::new()), "");
}

#[test]
fn numbers_are_written_in_decimal() {
    assert_eq!(natural_to_string(0), "0");
    assert_eq!(natural_to_string(7), "7");
    assert_eq!(natural_to_string(10), "10");
    assert_eq!(natural_to_string(1203), "1203");
    assert_eq!(natural_to_string(u64::MAX), u64::MAX.to_string());
    assert_eq!(integer_to_string(0), "0");
    assert_eq!(integer_to_string(-1), "-1");
    assert_eq!(integer_to_string(-120), "-120");
    assert_eq!(integer_to_string(i64::MIN), i64::MIN.to_string());
    assert_eq!(integer_to_string(i64::MAX), i64::MAX.to_string());
}

#[test]
fn digits_are_read_up_to_a_limit() {
    assert_eq!(parse_digits("0", 0), Some(0));
    assert_eq!(parse_digits("007", 10), Some(7));
    assert_eq!(parse_digits("255", 255), Some(255));
    assert_eq!(parse_digits("256", 255), None);
    assert_eq!(parse_digits("18446744073709551615", u64::MAX), Some(u64::MAX));
    assert_eq!(parse_digits("18446744073709551616", u64::MAX), None);
    assert_eq!(parse_digits("99999999999999999999999", u64::MAX), None);
    assert_eq!(parse_digits("", 10), None);
    assert_eq!(parse_digits("1a", 100), None);
    assert_eq!(parse_digits("-1", 100), None);
    assert_eq!(parse_digits("+1", 100), None);
    assert_eq!(parse_digits("١", 100), None);
    assert_eq!(parse_digits("300x", 255), None);
}

#[test]
fn a_definition_is_one_line() {
    assert_eq!(define_line("MYLIB_LIMIT", "((int8_t)-3)"), "#define MYLIB_LIMIT ((int8_t)-3)\n");
    assert_eq!(define_line("", ""), "#define  \n");
}

#[test]
fn the_space_between_tokens_is_taken_out() {
    assert_eq!(squeeze("& 'static  str"), "&'staticstr");
    assert_eq!(squeeze(" [ u8 ;\t4 ]\r\n"), "[u8;4]");
    assert_eq!(squeeze("i32"), "i32");
    assert_eq!(squeeze("   "), "");
    assert_eq!(squeeze(""), "");
    assert_eq!(squeeze("a\u{a0}b"), "a\u{a0}b");
}

#[test]
fn a_number_in_decimal_is_digits_with_at_most_one_point() {
    for text in ["0", "1", "10", "1.5", "0.0000001", "-1", "-0.25", "340282350000000000000"] {
        assert!(is_decimal(text), "{text:?}");
    }
    for text in
        ["", "-", ".", "1.", ".5", "-.5", "1..2", "1.2.3", "1e5", "inf", "NaN", "+1", "--1", "1-", "1 ", " 1", "1\n", "١"]
    {
        assert!(!is_decimal(text), "{text:?}");
    }
    assert!(is_decimal(&1.5f32.to_string()));
    assert!(is_decimal(&f32::MAX.to_string()));
    assert!(is_decimal(&f64::MIN_POSITIVE.to_string()));
    assert!(is_decimal(&(-0.0f64).to_string()));
    assert!(!is_decimal(&f32::INFINITY.to_string()));
    assert!(!is_decimal(&f64::NAN.to_string()));
}

#[test]
fn a_float_that_is_no_number_is_not_well_formed() {
    assert!(ConstantValue::F32("1.5".to_string()).is_well_formed());
    assert!(ConstantValue::F64("-2".to_string()).is_well_formed());
    assert!(!ConstantValue::F32("1\n#define X 2".to_string()).is_well_formed());
    assert!(!ConstantValue::F64(String::new()).is_well_formed());
    assert!(ConstantValue::Str("1\n2".to_string()).is_well_formed());
    assert!(ConstantValue::I8(-1).is_well_formed());
    assert!(ConstantValue::Bytes(vec![10]).is_well_formed());
}
