use toasty::schema::db::history_file::leading_number;
use toasty::text::{decimal, decimal_padded, parse_u32};

#[test]
fn decimal_formats_like_display() {
    assert_eq!(decimal(0), "0");
    assert_eq!(decimal(7), "7");
    assert_eq!(decimal(1234), "1234");
    assert_eq!(decimal(u64::MAX), u64::MAX.to_string());
}

#[test]
fn padded_decimal_formats_like_zero_padding() {
    assert_eq!(decimal_padded(0, 4), "0000");
    assert_eq!(decimal_padded(7, 4), "0007");
    assert_eq!(decimal_padded(123456, 4), "123456");
    assert_eq!(decimal_padded(42, 0), "42");
}

#[test]
fn parse_u32_accepts_what_str_parse_accepts() {
    for s in ["0", "0003", "+12", "4294967295", "", "+", "-1", "12a", "4294967296", " 1"] {
        assert_eq!(parse_u32(s), s.parse::<u32>().ok(), "input {s:?}");
    }
}

#[test]
fn leading_number_of_migration_names() {
    assert_eq!(leading_number("0003_add_users.sql"), Some(3));
    assert_eq!(leading_number("0042"), Some(42));
    assert_eq!(leading_number("init"), None);
    assert_eq!(leading_number("_x"), None);
    assert_eq!(leading_number("12_34_x"), Some(12));
}
