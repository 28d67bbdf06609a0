use buffer_manager::trace::{parse_decimal_i32, parse_trace_line};

fn number(text: &str) -> Option<i32> {
    parse_decimal_i32(text.as_bytes(), 0, text.len())
}

#[test]
fn comma_separated_line_is_a_request() {
    assert_eq!(parse_trace_line(b"0,17"), Some((false, 17)));
    assert_eq!(parse_trace_line(b"1,17"), Some((true, 17)));
    assert_eq!(parse_trace_line(b"1,0"), Some((true, 0)));
    assert_eq!(parse_trace_line(b"0,2147483647"), Some((false, 2147483647)));
}

#[test]
fn space_separated_line_is_a_request() {
    assert_eq!(parse_trace_line(b"0 17"), Some((false, 17)));
    assert_eq!(parse_trace_line(b"1 49999"), Some((true, 49999)));
}

#[test]
fn any_flag_but_zero_asks_for_a_write() {
    assert_eq!(parse_trace_line(b"2,5"), Some((true, 5)));
    assert_eq!(parse_trace_line(b"-1,5"), Some((true, 5)));
    assert_eq!(parse_trace_line(b"+0,5"), Some((false, 5)));
    assert_eq!(parse_trace_line(b"00,5"), Some((false, 5)));
}

#[test]
fn flag_that_is_no_number_counts_as_zero() {
    assert_eq!(parse_trace_line(b"x,5"), Some((false, 5)));
    assert_eq!(parse_trace_line(b",5"), Some((false, 5)));
    assert_eq!(parse_trace_line(b"1 ,5"), Some((false, 5)));
    assert_eq!(parse_trace_line(b"99999999999,5"), Some((false, 5)));
}

#[test]
fn lines_without_a_page_are_skipped() {
    assert_eq!(parse_trace_line(b""), None);
    assert_eq!(parse_trace_line(b"1"), None);
    assert_eq!(parse_trace_line(b"1,"), None);
    assert_eq!(parse_trace_line(b"1,abc"), None);
    assert_eq!(parse_trace_line(b"1, 5"), None);
    assert_eq!(parse_trace_line(b"1,5 "), None);
    assert_eq!(parse_trace_line(b"1,2147483648"), None);
}

#[test]
fn negative_pages_are_skipped() {
    assert_eq!(parse_trace_line(b"1,-1"), None);
    assert_eq!(parse_trace_line(b"0,-42"), None);
    assert_eq!(parse_trace_line(b"0 -42"), None);
    assert_eq!(parse_trace_line(b"0,-0"), Some((false, 0)));
}

#[test]
fn lines_with_more_or_fewer_fields_are_skipped() {
    assert_eq!(parse_trace_line(b"1,2,3"), None);
    assert_eq!(parse_trace_line(b",,"), None);
    assert_eq!(parse_trace_line(b"1  2"), None);
    assert_eq!(parse_trace_line(b"1 2 3"), None);
    assert_eq!(parse_trace_line(b"12"), None);
}

#[test]
fn a_comma_makes_spaces_part_of_the_fields() {
    assert_eq!(parse_trace_line(b"1 5,7"), Some((false, 7)));
    assert_eq!(parse_trace_line(b"1,5 7"), None);
}

#[test]
fn decimal_numbers_are_read_like_the_standard_library_reads_them() {
    let texts = [
        "", "0", "7", "42", "007", "+7", "-7", "+", "-", "+-7", "--7", "-0", "+0", "2147483647",
        "2147483648", "-2147483648", "-2147483649", "99999999999999999999999", "-99999999999999999999999",
        "00000000000000000000000012", "1_000", " 1", "1 ", "1.0", "0x10", "1e3", "12a", "a12", "١٢", "4294967296",
        "-4294967296", "21474836470", "+2147483647", "+2147483648",
    ];
    for text in texts {
        assert_eq!(number(text), text.parse::<i32>().ok(), "{:?}", text);
    }
}

#[test]
fn decimal_numbers_are_read_from_the_middle_of_a_line() {
    let line = b"ab-123cd";
    assert_eq!(parse_decimal_i32(line, 2, 6), Some(-123));
    assert_eq!(parse_decimal_i32(line, 3, 6), Some(123));
    assert_eq!(parse_decimal_i32(line, 2, 7), None);
    assert_eq!(parse_decimal_i32(line, 4, 4), None);
    assert_eq!(parse_decimal_i32(line, 2, 3), None);
}

#[test]
fn every_small_number_is_read_back() {
    for value in -1200..1200 {
        let text = format!("{}", value);
        assert_eq!(number(&text), Some(value));
        let line = format!("1,{}", value);
        let expected = if value >= 0 { Some((true, value)) } else { None };
        assert_eq!(parse_trace_line(line.as_bytes()), expected);
    }
}
