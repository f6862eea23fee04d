use juno::text::{decimal_text, quoted_text};

#[test]
fn decimal_numbers() {
    assert_eq!(decimal_text(0), "0");
    assert_eq!(decimal_text(7), "7");
    assert_eq!(decimal_text(10), "10");
    assert_eq!(decimal_text(80), "80");
    assert_eq!(decimal_text(443), "443");
    assert_eq!(decimal_text(1234), "1234");
    assert_eq!(decimal_text(65535), "65535");
    assert_eq!(decimal_text(60009), "60009");
}

#[test]
fn quoted_numbers() {
    assert_eq!(quoted_text("illegal request ", 0), "illegal request `0`");
    assert_eq!(quoted_text("", 255), "`255`");
    assert_eq!(quoted_text("x", 19), "x`19`");
}
