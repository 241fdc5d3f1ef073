use mud_server::decimal::{parse_i32, to_decimal, to_decimal_two};
use mud_server::text::{split_on, trim};

#[test]
fn trim_removes_surrounding_whitespace() {
    assert_eq!(trim("  alice \r\n"), "alice");
    assert_eq!(trim("\t\n"), "");
    assert_eq!(trim("a b"), "a b");
    assert_eq!(trim("\u{3000}x\u{a0}"), "x");
}

#[test]
fn split_gives_every_piece() {
    assert_eq!(split_on("m:f:u", ':'), vec!["m", "f", "u"]);
    assert_eq!(split_on("", ':'), vec![""]);
    assert_eq!(split_on("a::b:", ':'), vec!["a", "", "b", ""]);
}

#[test]
fn parse_reads_decimal_notation() {
    assert_eq!(parse_i32("42"), Some(42));
    assert_eq!(parse_i32("-7"), Some(-7));
    assert_eq!(parse_i32("+007"), Some(7));
    assert_eq!(parse_i32("2147483647"), Some(2147483647));
    assert_eq!(parse_i32("-2147483648"), Some(-2147483648));
    assert_eq!(parse_i32("2147483648"), None);
    assert_eq!(parse_i32("99999999999999999999"), None);
    assert_eq!(parse_i32(""), None);
    assert_eq!(parse_i32("-"), None);
    assert_eq!(parse_i32("1 2"), None);
    assert_eq!(parse_i32("x"), None);
}

#[test]
fn decimal_notation_is_written_as_std_writes_it() {
    assert_eq!(to_decimal(0), "0");
    assert_eq!(to_decimal(15), "15");
    assert_eq!(to_decimal(-2147483648), "-2147483648");
    assert_eq!(to_decimal(2147483647), 2147483647.to_string());
    assert_eq!(to_decimal_two(5), "05");
    assert_eq!(to_decimal_two(23), "23");
    assert_eq!(to_decimal_two(-5), "-5");
}
