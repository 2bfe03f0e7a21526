use stomp_parser::error::ErrorKind;
use stomp_parser::parser::headers::{header_name, header_section, header_value};
use stomp_parser::parser::{always_fail, command_line, null, remaining_without_null};
use stomp_parser::text::{bytes_eq, find, parse_u32, push_decimal};

#[test]
fn escaped_colon_decodes_to_colon() {
    let (rest, text) = header_section(b"d\\cef\n").unwrap();

    assert_eq!(b"d:ef", text.as_slice());
    assert_eq!(b"\n", rest);
}

#[test]
fn escaped_tab_is_refused() {
    let error = header_section(b"d\\tef\n").unwrap_err();

    assert_eq!(ErrorKind::InvalidEscapeSequence, *error.kind());
}

#[test]
fn unescaped_colon_ends_the_text() {
    let (rest, text) = header_section(b"d:ef\n").unwrap();

    assert_eq!(b"d", text.as_slice());
    assert_eq!(b":ef\n", rest);
}

#[test]
fn all_four_escapes_decode() {
    let (rest, text) = header_section(b"\\n\\r\\c\\\\").unwrap();

    assert_eq!(b"\n\r:\\", text.as_slice());
    assert_eq!(b"", rest);
    assert!(header_section(b"abc\\").is_err());
    assert!(header_section(b"\\N").is_err());
}

#[test]
fn header_section_needs_text_unless_the_input_is_empty() {
    assert_eq!(
        ErrorKind::MalformedHeaderLine,
        *header_section(b":x").unwrap_err().kind()
    );
    assert_eq!(
        ErrorKind::MalformedHeaderLine,
        *header_section(b"\nx").unwrap_err().kind()
    );
    let (rest, text) = header_section(b"").unwrap();
    assert!(text.is_empty());
    assert!(rest.is_empty());
}

#[test]
fn header_name_ends_at_the_colon() {
    let (rest, name) = header_name(b"na\\cme:value\n").unwrap();

    assert_eq!("na:me", name);
    assert_eq!(b"value\n", rest);
    assert!(header_name(b"name\n").is_err());
    assert!(header_name(b"name").is_err());
}

#[test]
fn header_value_ends_at_the_line_ending() {
    let (rest, value) = header_value(b"va\\nlue\r\nnext").unwrap();

    assert_eq!("va\nlue", value);
    assert_eq!(b"next", rest);
    assert!(header_value(b"value\rnext").is_err());
    assert!(header_value(b"value").is_err());
}

#[test]
fn command_line_reads_keyword_and_line_ending() {
    let (rest, keyword) = command_line(b"SEND\r\nrest").unwrap();
    assert_eq!(b"SEND", keyword);
    assert_eq!(b"rest", rest);
    let (rest, keyword) = command_line(b"a b\n").unwrap();
    assert_eq!(b"a b", keyword);
    assert_eq!(b"", rest);
    assert!(command_line(b"\nSEND\n").is_err());
    assert!(command_line(b"SEND\rx\n").is_err());
    assert!(command_line(b"SEND").is_err());
}

#[test]
fn null_reads_the_single_zero_octet() {
    let (rest, octet) = null(b"\x00").unwrap();
    assert_eq!(b"", rest);
    assert_eq!(b"\x00", octet);
    assert_eq!(ErrorKind::MissingTerminator, *null(b"").unwrap_err().kind());
    assert_eq!(ErrorKind::MissingTerminator, *null(b"a").unwrap_err().kind());
    assert_eq!(ErrorKind::BodyNotAllowed, *null(b"a\x00").unwrap_err().kind());
    assert_eq!(
        ErrorKind::UnexpectedTrailingData,
        *null(b"\x00a").unwrap_err().kind()
    );
}

#[test]
fn remaining_without_null_keeps_inner_zero_octets() {
    let (rest, body) = remaining_without_null(b"a\x00b\x00").unwrap();
    assert_eq!(b"", rest);
    assert_eq!(b"a\x00b", body);
    assert_eq!(
        ErrorKind::MissingTerminator,
        *remaining_without_null(b"ab").unwrap_err().kind()
    );
    assert!(remaining_without_null(b"").is_err());
}

#[test]
fn always_fail_fails() {
    let result = always_fail::<u8>(b"anything");

    assert_eq!(ErrorKind::UnknownCommand, *result.unwrap_err().kind());
}

#[test]
fn numbers_are_read_and_written_in_decimal() {
    assert_eq!(Some(0), parse_u32(b"0"));
    assert_eq!(Some(42), parse_u32(b"+42"));
    assert_eq!(Some(42), parse_u32(b"0042"));
    assert_eq!(Some(4294967295), parse_u32(b"4294967295"));
    assert_eq!(None, parse_u32(b"4294967296"));
    assert_eq!(None, parse_u32(b"99999999999999999999999"));
    assert_eq!(None, parse_u32(b""));
    assert_eq!(None, parse_u32(b"+"));
    assert_eq!(None, parse_u32(b"-1"));
    assert_eq!(None, parse_u32(b"1 "));
    assert_eq!(None, parse_u32(b"++1"));
    let mut out = b"n=".to_vec();
    push_decimal(&mut out, 0);
    push_decimal(&mut out, 1070);
    push_decimal(&mut out, 4294967295);
    assert_eq!(b"n=010704294967295", out.as_slice());
}

#[test]
fn bytes_are_compared_and_searched() {
    assert!(bytes_eq(b"", b""));
    assert!(bytes_eq(b"abc", b"abc"));
    assert!(!bytes_eq(b"abc", b"abd"));
    assert!(!bytes_eq(b"abc", b"ab"));
    assert_eq!(1, find(b"a,b,c", b',', 0));
    assert_eq!(3, find(b"a,b,c", b',', 2));
    assert_eq!(5, find(b"a,b,c", b',', 4));
}
