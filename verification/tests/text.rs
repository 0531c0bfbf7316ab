use lmc_service::text::{append_decimal, append_signed, start_line_message};

fn decimal(n: u64) -> String {
    let mut out = String::new();
    append_decimal(&mut out, n);
    out
}

fn signed(n: i16) -> String {
    let mut out = String::new();
    append_signed(&mut out, n);
    out
}

#[test]
fn decimal_numerals() {
    assert_eq!(decimal(0), "0");
    assert_eq!(decimal(9), "9");
    assert_eq!(decimal(10), "10");
    assert_eq!(decimal(1999), "1999");
    assert_eq!(decimal(1234567890), "1234567890");
    assert_eq!(decimal(u64::MAX), "18446744073709551615");
}

#[test]
fn decimal_agrees_with_std() {
    for n in (0u64..3000).chain([99_999, 100_000, 4_294_967_295, 4_294_967_296]) {
        assert_eq!(decimal(n), n.to_string());
    }
}

#[test]
fn signed_numerals() {
    assert_eq!(signed(0), "0");
    assert_eq!(signed(-1), "-1");
    assert_eq!(signed(999), "999");
    assert_eq!(signed(-999), "-999");
    assert_eq!(signed(i16::MAX), "32767");
    assert_eq!(signed(i16::MIN), "-32768");
}

#[test]
fn numerals_are_appended() {
    let mut out = String::from("n=");
    append_decimal(&mut out, 42);
    out.push(',');
    append_signed(&mut out, -7);
    assert_eq!(out, "n=42,-7");
}

#[test]
fn line_message_opening() {
    assert_eq!(start_line_message(1), "line 1: ");
    assert_eq!(start_line_message(250), "line 250: ");
}
