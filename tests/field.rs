use std::ops::Range;

use coda_rs::calendar::{parse_date, Date};
use coda_rs::field::{
    parse_duplicate, parse_field, parse_sign, parse_str, parse_str_append, parse_str_trim,
    parse_u32, parse_u64, parse_u8, Sign, StringUtils, ValueError,
};

#[test]
fn sign_credit_to_sign() {
    assert_eq!(Sign::Credit.to_sign(), "+");
}

#[test]
fn sign_debit_to_sign() {
    assert_eq!(Sign::Debit.to_sign(), "-");
}

#[test]
fn substring_0_to_3() {
    assert_eq!("012345678901234567890".to_string().get_range(0..3), "012");
}

#[test]
fn substring_5_to_10() {
    assert_eq!("012345678901234567890".to_string().get_range(5..10), "56789");
}

#[test]
fn substring_5_to_10_multibytes() {
    assert_eq!("01é345678901234567890".to_string().get_range(5..10), "56789");
}

#[test]
fn substring_past_the_end_is_cut() {
    assert_eq!("0123".to_string().get_range(2..10), "23");
    assert_eq!("0123".to_string().get_range(6..10), "");
}

#[test]
fn parse_date_valid() {
    let actual = parse_date("290318");

    assert_eq!(actual.is_ok(), true, "Date should be ok");
    assert_eq!(
        actual.unwrap(),
        Date { year: 2018, month: 3, day: 29 },
        "creation_date should be 29/03/2018"
    )
}

#[test]
fn parse_date_century_pivot() {
    assert_eq!(parse_date("010170"), Ok(Date { year: 1970, month: 1, day: 1 }));
    assert_eq!(parse_date("311269"), Ok(Date { year: 2069, month: 12, day: 31 }));
    assert_eq!(parse_date("311299"), Ok(Date { year: 1999, month: 12, day: 31 }));
}

#[test]
fn parse_date_rejects_days_that_do_not_exist() {
    assert_eq!(parse_date("290218"), Err(ValueError::InvalidDate));
    assert_eq!(parse_date("290220"), Ok(Date { year: 2020, month: 2, day: 29 }));
    assert_eq!(parse_date("310418"), Err(ValueError::InvalidDate));
    assert_eq!(parse_date("011318"), Err(ValueError::InvalidDate));
    assert_eq!(parse_date("000118"), Err(ValueError::InvalidDate));
    assert_eq!(parse_date("290200"), Ok(Date { year: 2000, month: 2, day: 29 }));
}

#[test]
fn parse_date_rejects_non_digits() {
    assert_eq!(parse_date("29 318"), Err(ValueError::NotDigits));
    assert_eq!(parse_date("2903181"), Err(ValueError::NotDigits));
    assert_eq!(parse_date(""), Err(ValueError::NotDigits));
}

#[test]
fn parse_str_valid() {
    let actual = parse_str("05505");

    assert_eq!(actual.is_ok(), true, "String should be ok");
    assert_eq!(actual.unwrap(), String::from("05505"), "String should be 05505");
}

#[test]
fn parse_duplicate_valid_true() {
    let actual = parse_duplicate("D");

    assert_eq!(actual.is_ok(), true, "Duplicate 'D' should be ok");
    assert_eq!(actual.unwrap(), true, "Duplicate 'D' should be true");
}

#[test]
fn parse_duplicate_valid_false() {
    let actual = parse_duplicate(" ");

    assert_eq!(actual.is_ok(), true, "Duplicate ' ' should be ok");
    assert_eq!(actual.unwrap(), false, "Duplicate ' ' should be false");
}

#[test]
fn parse_duplicate_invalid() {
    let actual = parse_duplicate("B");

    assert_eq!(actual.is_ok(), false, "Duplicate 'B' should not be ok");
    assert_eq!(actual, Err(ValueError::InvalidCode('B')));
    assert_eq!(parse_duplicate(""), Err(ValueError::Missing));
}

#[test]
fn parse_u8_valid() {
    let actual = parse_u8("2");

    assert_eq!(actual.is_ok(), true, "u8 '2' should be ok");
    assert_eq!(actual.unwrap(), 2, "u8 '2' should be 2");
}

#[test]
fn parse_u8_invalid() {
    let actual = parse_u8("200000");

    assert_eq!(actual.is_ok(), false, "u8 '200000' should not be ok");
    assert_eq!(actual, Err(ValueError::Overflow));
}

#[test]
fn parse_u8_bounds() {
    assert_eq!(parse_u8("255"), Ok(255));
    assert_eq!(parse_u8("256"), Err(ValueError::Overflow));
    assert_eq!(parse_u8("007"), Ok(7));
    assert_eq!(parse_u8(""), Err(ValueError::NotDigits));
    assert_eq!(parse_u8("+1"), Err(ValueError::NotDigits));
    assert_eq!(parse_u8(" 1"), Err(ValueError::NotDigits));
}

#[test]
fn parse_u64_valid() {
    let actual = parse_u64("20000");

    assert_eq!(actual.is_ok(), true, "u64 '20000' should be ok");
    assert_eq!(actual.unwrap(), 20000, "u64 '20000' should be 20000");
}

#[test]
fn parse_u64_bounds() {
    assert_eq!(parse_u64("18446744073709551615"), Ok(u64::MAX));
    assert_eq!(parse_u64("18446744073709551616"), Err(ValueError::Overflow));
    assert_eq!(parse_u64("12a"), Err(ValueError::NotDigits));
}

#[test]
fn parse_u32_valid() {
    let actual = parse_u32("200000");

    assert_eq!(actual.is_ok(), true, "u32 '200000' should be ok");
    assert_eq!(actual.unwrap(), 200000, "u32 '200000' should be 200000");
}

#[test]
fn parse_u32_bounds() {
    assert_eq!(parse_u32("4294967295"), Ok(u32::MAX));
    assert_eq!(parse_u32("4294967296"), Err(ValueError::Overflow));
}

#[test]
fn parse_str_trim_valid() {
    let actual = parse_str_trim("BLAH   ");

    assert_eq!(actual.is_ok(), true, "str 'BLAH   ' should be ok");
    assert_eq!(actual.unwrap(), "BLAH", "str 'BLAH   ' should be 'BLAH'");
}

#[test]
fn parse_str_trim_keeps_inner_and_leading_spaces() {
    assert_eq!(parse_str_trim("  A  B  "), Ok(String::from("  A  B")));
    assert_eq!(parse_str_trim("    "), Ok(String::new()));
}

#[test]
fn parse_str_append_valid() {
    let actual = parse_str_append("BLAH   ");

    assert_eq!(actual.is_ok(), true, "str 'BLAH   ' should be ok");
    assert_eq!(actual.unwrap(), "\nBLAH", "str 'BLAH   ' should be '\\nBLAH'");
}

#[test]
fn parse_u64_invalid() {
    let actual = parse_u8("200000200000200000200000200000200000");

    assert_eq!(
        actual.is_ok(),
        false,
        "u8 '200000200000200000200000200000200000' should not be ok"
    );
}

#[test]
#[allow(non_snake_case)]
fn parse_sign_valid_Credit() {
    let actual = parse_sign("0");
    assert_eq!(actual.is_ok(), true, "'0' should be ok");
    assert_eq!(actual.unwrap(), Sign::Credit, "'0' should be Credit");
}

#[test]
#[allow(non_snake_case)]
fn parse_sign_valid_Debit() {
    let actual = parse_sign("1");
    assert_eq!(actual.is_ok(), true, "'1' should be ok");
    assert_eq!(actual.unwrap(), Sign::Debit, "'1' should be Debit");
}

#[test]
fn parse_sign_valid_invalid() {
    let actual = parse_sign("3");
    assert_eq!(actual.is_ok(), false, "'3' should not be ok");
    assert_eq!(actual, Err(ValueError::InvalidCode('3')));
}

#[test]
fn sign_applies_to_minor_units() {
    assert_eq!(Sign::Credit.signed(100000), 100000);
    assert_eq!(Sign::Debit.signed(100000), -100000);
    assert_eq!(Sign::Debit.signed(u64::MAX), -(u64::MAX as i128));
}

#[test]
fn parse_field_valid() {
    let line_header = "0000029031872505        00099449  Testgebruiker21           KREDBEBB   00630366277 00000                                       2";
    let range: Range<usize> = 5..11;
    let actual = parse_field(line_header, range, parse_date);
    assert_eq!(actual.is_ok(), true, "Date should be ok");
    assert_eq!(
        actual.unwrap(),
        Date { year: 2018, month: 3, day: 29 },
        "creation_date should be 29/03/2018"
    )
}

#[test]
fn parse_field_past_the_end_is_an_error() {
    assert_eq!(parse_field("0123", 2..5, parse_str), Err(ValueError::Missing));
    assert_eq!(parse_field("0123", 2..4, parse_str), Ok(String::from("23")));
    assert_eq!(parse_field("01é3", 2..4, parse_str), Ok(String::from("é3")));
}
