use com::text::{push_hex, to_hex, to_upper};

#[test]
fn small_letters_become_capitals() {
    assert_eq!(to_upper("IClassFactory2"), "ICLASSFACTORY2");
    assert_eq!(to_upper("az_AZ09{`"), "AZ_AZ09{`");
    assert_eq!(to_upper("é"), "é");
    assert_eq!(to_upper(""), "");
}

#[test]
fn hexadecimal_text_has_the_digits_asked_for() {
    assert_eq!(to_hex(0xC000_0000_0000_0046, 16), "C000000000000046");
    assert_eq!(to_hex(0x1F, 4), "001F");
    assert_eq!(to_hex(0x12345, 4), "2345");
    assert_eq!(to_hex(7, 0), "");
    assert_eq!(to_hex(0xABCDEF, 6), "ABCDEF");
}

#[test]
fn hexadecimal_text_is_appended() {
    let mut out = String::from("0x");
    push_hex(&mut out, 255, 2);
    assert_eq!(out, "0xFF");
}
