use hmcdk::error::{from_str, Error, ErrorWithMsg};
use hmcdk::utils::{hex_digit, hex_to_bytes, str_eq};

fn check_conversion_hex_and_bytes(s: &str, b: &[u8]) {
    let v = hex_to_bytes(s);
    assert_eq!(v, b.to_vec());
}

#[test]
fn lib_it_works() {
    assert_eq!(2 + 2, 4);
}

#[test]
fn test_hex_conversion() {
    check_conversion_hex_and_bytes("0x0000", &[0, 0]);
    check_conversion_hex_and_bytes("0x0100", &[1, 0]);
    check_conversion_hex_and_bytes("0x0101", &[1, 1]);
    check_conversion_hex_and_bytes("0xFF01", &[255, 1]);
    check_conversion_hex_and_bytes("0xFFFF", &[255, 255]);
    check_conversion_hex_and_bytes("FFFF", &[255, 255]);
    check_conversion_hex_and_bytes("0xffffffff", &[255, 255, 255, 255]);
    check_conversion_hex_and_bytes("0xFffFfFFf", &[255, 255, 255, 255]);
}

#[test]
fn hex_skips_what_is_no_digit() {
    assert_eq!(hex_to_bytes("0x12-34 zz 5"), vec![0x12, 0x34]);
    assert_eq!(hex_to_bytes(""), Vec::<u8>::new());
    assert_eq!(hex_to_bytes("0x"), Vec::<u8>::new());
    assert_eq!(hex_to_bytes("f"), Vec::<u8>::new());
    assert_eq!(hex_to_bytes("abc"), vec![0xab]);
    assert_eq!(hex_to_bytes("0X10"), vec![0x01]);
    assert_eq!(hex_to_bytes("\u{e9}1\u{e9}f"), vec![0x1f]);
}

#[test]
fn hex_digit_values() {
    assert_eq!(hex_digit(b'0'), Some(0));
    assert_eq!(hex_digit(b'9'), Some(9));
    assert_eq!(hex_digit(b'a'), Some(10));
    assert_eq!(hex_digit(b'F'), Some(15));
    assert_eq!(hex_digit(b'g'), None);
    assert_eq!(hex_digit(b'/'), None);
    assert_eq!(hex_digit(b':'), None);
}

#[test]
fn str_eq_compares_text() {
    assert!(str_eq("contract", "contract"));
    assert!(!str_eq("contract", "contrac"));
    assert!(!str_eq("contract", "contracT"));
    assert!(str_eq("", ""));
}

#[test]
fn error_messages() {
    assert_eq!(Error::NotFound.message(), "not found");
    assert_eq!(
        Error::LengthMismatch { expected: 20, actual: 0 }.message(),
        "a length of bytes must be 20, but got 0"
    );
    assert_eq!(
        Error::LengthMismatch { expected: 8, actual: 1234567 }.message(),
        "a length of bytes must be 8, but got 1234567"
    );
    assert_eq!(Error::InvalidUtf8.message(), "invalid UTF-8 sequence");
    assert_eq!(Error::InvalidBoolValue(255).message(), "expected a boolean value, but got 255");
    assert_eq!(Error::TruncatedFrame.message(), "truncated frame");
    assert_eq!(Error::HostCallFailure.message(), "host call failed");
    assert_eq!(Error::RemoteCallFailure.message(), "failed to call contract");
    assert_eq!(from_str("invalid signer").message(), "invalid signer");
    assert_eq!(
        from_str("not match"),
        Error::WithMsg(ErrorWithMsg { msg: "not match".to_string() })
    );
}
