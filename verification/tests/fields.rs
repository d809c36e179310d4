use csv_parser::errors::{DecodeFault, ErrorMessage, FieldName, ServerErrors, BAD_REQUEST, OK};
use csv_parser::text::{bytes_equal, decimal, decode_text, decode_unsigned};

#[test]
fn bytes_equal_compares_contents() {
    assert!(bytes_equal(b"", b""));
    assert!(bytes_equal(b"id", b"id"));
    assert!(!bytes_equal(b"id", b"Id"));
    assert!(!bytes_equal(b"id", b"id "));
    assert!(!bytes_equal(b"", b"x"));
    assert!(!bytes_equal(b"abc", b"abd"));
}

#[test]
fn decode_text_keeps_the_bytes() {
    assert_eq!(decode_text(b""), Some(String::new()));
    assert_eq!(decode_text(b" a b "), Some(" a b ".to_string()));
    assert_eq!(decode_text("héllo €".as_bytes()), Some("héllo €".to_string()));
    assert_eq!(decode_text("héllo €".as_bytes()).unwrap().as_bytes(), "héllo €".as_bytes());
}

#[test]
fn decode_text_refuses_what_is_not_utf8() {
    assert_eq!(decode_text(b"\xff"), None);
    assert_eq!(decode_text(b"ab\xc3"), None);
    assert_eq!(decode_text(b"\xed\xa0\x80"), None);
    assert_eq!(decode_text(b"\xc0\x80"), None);
}

#[test]
fn decode_unsigned_decimal() {
    assert_eq!(decode_unsigned(b"0"), Some(0));
    assert_eq!(decode_unsigned(b"1"), Some(1));
    assert_eq!(decode_unsigned(b"42"), Some(42));
    assert_eq!(decode_unsigned(b"255"), Some(255));
    assert_eq!(decode_unsigned(b"0000255"), Some(255));
    assert_eq!(decode_unsigned(b"+7"), Some(7));
    assert_eq!(decode_unsigned(b"256"), None);
    assert_eq!(decode_unsigned(b"1000"), None);
    assert_eq!(decode_unsigned(b"99999999999999999999999"), None);
    assert_eq!(decode_unsigned(b""), None);
    assert_eq!(decode_unsigned(b"+"), None);
    assert_eq!(decode_unsigned(b"-"), None);
    assert_eq!(decode_unsigned(b"-0"), None);
    assert_eq!(decode_unsigned(b"++1"), None);
    assert_eq!(decode_unsigned(b"1a"), None);
    assert_eq!(decode_unsigned(b"a"), None);
    assert_eq!(decode_unsigned(b" 1"), None);
    assert_eq!(decode_unsigned("١".as_bytes()), None);
}

#[test]
fn decode_unsigned_hexadecimal() {
    assert_eq!(decode_unsigned(b"0x0"), Some(0));
    assert_eq!(decode_unsigned(b"0x1"), Some(1));
    assert_eq!(decode_unsigned(b"0xa"), Some(10));
    assert_eq!(decode_unsigned(b"0xF"), Some(15));
    assert_eq!(decode_unsigned(b"0xfF"), Some(255));
    assert_eq!(decode_unsigned(b"0x+1f"), Some(31));
    assert_eq!(decode_unsigned(b"0x00ff"), Some(255));
    assert_eq!(decode_unsigned(b"0x100"), None);
    assert_eq!(decode_unsigned(b"0x"), None);
    assert_eq!(decode_unsigned(b"0x+"), None);
    assert_eq!(decode_unsigned(b"0xg"), None);
    assert_eq!(decode_unsigned(b"0X1"), None);
    assert_eq!(decode_unsigned(b"+0x1"), None);
    assert_eq!(decode_unsigned(b"ff"), None);
}

#[test]
fn decode_unsigned_agrees_with_the_standard_parser() {
    for n in 0u32..=300 {
        let dec = n.to_string();
        assert_eq!(decode_unsigned(dec.as_bytes()), dec.parse::<u8>().ok());
        let hex = format!("{:x}", n);
        assert_eq!(
            decode_unsigned(format!("0x{}", hex).as_bytes()),
            u8::from_str_radix(&hex, 16).ok()
        );
    }
    for b in 0u8..=255 {
        let field = [b];
        let expected = std::str::from_utf8(&field).ok().and_then(|s| s.parse::<u8>().ok());
        assert_eq!(decode_unsigned(&field), expected, "byte {}", b);
        let field = [b'0', b'x', b];
        let expected = std::str::from_utf8(&field[2..]).ok().and_then(|s| u8::from_str_radix(s, 16).ok());
        assert_eq!(decode_unsigned(&field), expected, "hex byte {}", b);
    }
}

#[test]
fn decimal_writes_every_value() {
    assert_eq!(decimal(0), "0");
    assert_eq!(decimal(7), "7");
    assert_eq!(decimal(10), "10");
    assert_eq!(decimal(99), "99");
    assert_eq!(decimal(100), "100");
    assert_eq!(decimal(101), "101");
    assert_eq!(decimal(255), "255");
    for n in 0u8..=255 {
        assert_eq!(decimal(n), n.to_string());
    }
}

#[test]
fn field_labels() {
    assert_eq!(FieldName::Id.label(), "id");
    assert_eq!(FieldName::Email.label(), "email");
    assert_eq!(FieldName::Name.label(), "name");
    assert_eq!(FieldName::IsParent.label(), "is_parent");
}

#[test]
fn fault_descriptions() {
    assert_eq!(DecodeFault::MissingField(FieldName::Id).describe(), "missing field `id`");
    assert_eq!(DecodeFault::DuplicateField(FieldName::Email).describe(), "duplicate field `email`");
    assert_eq!(DecodeFault::ShortRow(FieldName::Name).describe(), "row ends before field `name`");
    assert_eq!(DecodeFault::InvalidText(FieldName::Name).describe(), "invalid UTF-8 in field `name`");
    assert_eq!(
        DecodeFault::InvalidInteger(FieldName::IsParent).describe(),
        "invalid unsigned integer in field `is_parent`"
    );
}

#[test]
fn error_messages() {
    let parse = ServerErrors::ParseFailure { msg: "boom".to_string() };
    assert_eq!(parse.message(), "boom");
    let de = ServerErrors::DeserializationFailure { fault: DecodeFault::MissingField(FieldName::Name) };
    assert_eq!(de.message(), "CSV deserialize error: missing field `name`");
    let val = ServerErrors::ValidationFailure { value: 2 };
    assert_eq!(val.message(), "Invalid \"is_parent\" found in record, set to 2");
    let val = ServerErrors::ValidationFailure { value: 213 };
    assert_eq!(val.message(), "Invalid \"is_parent\" found in record, set to 213");
}

#[test]
fn every_failure_has_the_same_status() {
    assert_eq!(BAD_REQUEST, 400);
    assert_eq!(OK, 200);
    assert_eq!(ServerErrors::ParseFailure { msg: String::new() }.status_code(), 400);
    assert_eq!(
        ServerErrors::DeserializationFailure { fault: DecodeFault::ShortRow(FieldName::Id) }.status_code(),
        400
    );
    assert_eq!(ServerErrors::ValidationFailure { value: 9 }.status_code(), 400);
}

#[test]
fn envelope_wraps_the_message() {
    let e = ServerErrors::ValidationFailure { value: 3 };
    assert_eq!(
        ErrorMessage::from_error(&e),
        ErrorMessage { msg: "Invalid \"is_parent\" found in record, set to 3".to_string() }
    );
}
