use stomp_parser::error::{ErrorKind, StompParseError};
use stomp_parser::headers::{
    CustomValue, Header, HeaderType, HeaderValue, HeartBeatIntervalls, HeartBeatValue,
};
use stomp_parser::parser::headers::headers_parser;

type Parsed<O> = Result<(&'static [u8], O), StompParseError>;

/// Runs a parser and, where it fails, prints the input under the given label.
fn dbg_dmp<O>(
    parser: impl Fn(&'static [u8]) -> Parsed<O>,
    label: &'static str,
) -> impl Fn(&'static [u8]) -> Parsed<O> {
    move |input| {
        let result = parser(input);
        if let Err(e) = &result {
            println!("{}: {} at:\n{:02x?}", label, e.message(), input);
        }
        result
    }
}

fn header(input: &'static [u8]) -> Parsed<Header> {
    headers(input).map(|x| {
        let bytes = x.0;
        let mut vec = x.1;
        (bytes, vec.pop().unwrap())
    })
}

fn headers(input: &'static [u8]) -> Parsed<Vec<Header>> {
    dbg_dmp(
        |input| {
            headers_parser(
                Vec::new(),
                vec![
                    HeaderType::HeartBeat,
                    HeaderType::Destination,
                    HeaderType::Host,
                ],
                true,
            )
            .parse(input)
        },
        "header_line",
    )(input)
}

fn headers_no_custom(input: &'static [u8]) -> Parsed<Vec<Header>> {
    dbg_dmp(
        |input| {
            headers_parser(
                Vec::new(),
                vec![
                    HeaderType::HeartBeat,
                    HeaderType::Destination,
                    HeaderType::Host,
                ],
                false,
            )
            .parse(input)
        },
        "header_line",
    )(input)
}

fn assert_custom_header(
    input: &'static str,
    expected_key: &'static str,
    expected_value: &'static str,
) {
    let result = headers(input.as_bytes()).unwrap().1;

    if let Header::Custom(value) = &result[0] {
        assert_eq!(*expected_key, *value.header_name());
        assert_eq!(*expected_value, *value.value());
    } else {
        panic!("Expected custom header");
    }
}

#[test]
fn header_line_terminated_by_rn() {
    assert_custom_header("abc:def\r\n\n", "abc", "def");
}

#[test]
fn header_line_terminated_by_n() {
    assert_custom_header("abc:def\n\n", "abc", "def");
}

#[test]
fn header_with_cr_fails() {
    let result = dbg_dmp(header, "header_line")(b"ab\rc:def\n");

    assert!(result.is_err());
}

#[test]
fn header_with_nl_fails() {
    let result = dbg_dmp(header, "header_line")(b"ab\nc:def\n");

    assert!(result.is_err());
}

#[test]
fn header_with_colon_fails() {
    let result = dbg_dmp(header, "header_line")(b"abc:d:ef\n");

    assert!(result.is_err());
}

#[test]
fn header_accepts_escaped_cr() {
    assert_custom_header("a\\rbc:def\n\n", "a\rbc", "def");
}

#[test]
fn header_line_accepts_escaped_nl() {
    assert_custom_header("abc:d\\nef\n\n", "abc", "d\nef");
    assert_custom_header("abc:d\\nef\n\n", "abc", "d\nef");
}

#[test]
fn header_line_accepts_escaped_colon() {
    assert_custom_header("abc:d\\cef\n\n", "abc", "d:ef");
}

#[test]
fn header_accepts_fwd_slash() {
    assert_custom_header("abc:d\\\\ef\n\n", "abc", "d\\ef");
}

#[test]
fn header_rejects_escaped_tab() {
    let result = dbg_dmp(header, "header_line")(b"abc:d\\tef\n\n");

    assert!(result.is_err());
}

#[test]
fn header_works_for_custom() {
    assert_custom_header("a\\rbc:d\\\\ef\n\n", "a\rbc", "d\\ef");
}

#[test]
fn header_works_for_host() {
    let header = dbg_dmp(header, "header_line")(b"host:d\\nef\n\n")
        .unwrap()
        .1;

    if let Header::Host(value) = header {
        assert_eq!("d\nef", value.value());
    } else {
        panic!("Expected host header");
    }
}

#[test]
fn header_is_case_sensitive() {
    //heart-beat not recognised
    assert_custom_header("heArt-beat:10,20\n\n", "heArt-beat", "10,20");
}

#[test]
fn headers_works_for_no_headers() {
    let headers = dbg_dmp(headers, "headers")(b"\n\n").unwrap().1;

    assert_eq!(0, headers.len());
}

#[test]
fn headers_rejects_custom_when_disallowed() {
    let result = dbg_dmp(headers_no_custom, "headers")(b"heart-beat:10,20\r\nabc:d\\nef\n\n");

    assert_eq!(true, result.is_err());
}

#[test]
fn headers_fails_when_no_empty_line() {
    let headers = dbg_dmp(headers, "headers")(b"heart-beat:10,20\r\nabc:d\\nef\n");

    assert!(headers.is_err());
}

#[test]
fn heart_beat_header_is_supplied_then_expected() {
    let header = dbg_dmp(header, "header_line")(b"heart-beat:10,20\n\n")
        .unwrap()
        .1;

    if let Header::HeartBeat(value) = header {
        assert_eq!(
            HeartBeatIntervalls {
                supplied: 10,
                expected: 20
            },
            *value.value()
        );
    } else {
        panic!("Expected heart-beat header");
    }
}

#[test]
fn headers_keep_the_order_of_their_lines() {
    let (rest, headers) =
        dbg_dmp(headers, "headers")(b"heart-beat:10,20\r\nabc:d\\nef\n\nbody").unwrap();

    assert_eq!(b"body", rest);
    assert_eq!(2, headers.len());
    assert_eq!(
        Header::HeartBeat(HeartBeatValue::new(HeartBeatIntervalls {
            supplied: 10,
            expected: 20
        })),
        headers[0]
    );
    assert_eq!(
        Header::Custom(CustomValue::new("abc".to_string(), "d\nef".to_string())),
        headers[1]
    );
}

#[test]
fn rejected_header_is_named_in_the_error() {
    let error = headers_no_custom(b"heart-beat:10,20\r\nab\\cc:def\n\n").unwrap_err();

    assert_eq!(ErrorKind::UnexpectedHeader("ab:c".to_string()), *error.kind());
    assert_eq!("Unexpected header 'ab:c' encountered", error.message());
}

#[test]
fn known_header_of_another_command_is_custom_where_custom_is_allowed() {
    let headers = headers(b"login:me\n\n").unwrap().1;

    assert_eq!(
        Header::Custom(CustomValue::new("login".to_string(), "me".to_string())),
        headers[0]
    );
    assert!(headers_no_custom(b"login:me\n\n").is_err());
}

#[test]
fn header_line_errors_have_their_kinds() {
    let kind = |input: &'static [u8]| headers(input).unwrap_err().kind().clone();

    assert_eq!(ErrorKind::MissingTerminator, kind(b""));
    assert_eq!(ErrorKind::MissingTerminator, kind(b"host:a\n"));
    assert_eq!(ErrorKind::MalformedHeaderLine, kind(b"host\n\n"));
    assert_eq!(ErrorKind::MalformedHeaderLine, kind(b":a\n\n"));
    assert_eq!(ErrorKind::MalformedHeaderLine, kind(b"host:\n\n"));
    assert_eq!(ErrorKind::MalformedHeaderLine, kind(b"host:a:b\n\n"));
    assert_eq!(ErrorKind::MalformedHeaderLine, kind(b"host:a\rb\n\n"));
    assert_eq!(ErrorKind::MissingTerminator, kind(b"host:a"));
    assert_eq!(ErrorKind::MissingTerminator, kind(b"host:"));
    assert_eq!(ErrorKind::MissingTerminator, kind(b"host"));
    assert_eq!(ErrorKind::MalformedHeaderLine, kind(b"host:a\r"));
    assert_eq!(ErrorKind::MalformedHeaderLine, kind(b"host\r\n\n"));
    assert_eq!(ErrorKind::InvalidEscapeSequence, kind(b"ho\\st:a\n\n"));
    assert_eq!(ErrorKind::InvalidEscapeSequence, kind(b"host:a\\"));
    assert_eq!(ErrorKind::NonUtf8Text, kind(b"host:\xff\n\n"));
    assert_eq!(ErrorKind::NonUtf8Text, kind(b"\xc3:a\n\n"));
    assert_eq!(
        ErrorKind::InvalidHeaderValue(HeaderType::HeartBeat),
        kind(b"heart-beat:10\n\n")
    );
    assert_eq!(
        ErrorKind::InvalidHeaderValue(HeaderType::HeartBeat),
        kind(b"heart-beat:10,x\n\n")
    );
}

#[test]
fn header_text_is_utf8() {
    let headers = headers("gr\u{fc}\u{df}e:\u{4f60}\u{597d}\\c\u{1f600}\n\n".as_bytes())
        .unwrap()
        .1;

    assert_eq!(
        Header::Custom(CustomValue::new(
            "gr\u{fc}\u{df}e".to_string(),
            "\u{4f60}\u{597d}:\u{1f600}".to_string()
        )),
        headers[0]
    );
    assert_eq!("gr\u{fc}\u{df}e:\u{4f60}\u{597d}:\u{1f600}", headers[0].to_string());
}

#[test]
fn typed_header_errors_name_the_header() {
    let error = headers(b"heart-beat:1,2,3\n\n").unwrap_err();

    assert_eq!(
        ErrorKind::InvalidHeaderValue(HeaderType::HeartBeat),
        *error.kind()
    );
    assert_eq!("Poorly formatted value of header: heart-beat", error.message());
    let error = headers(b"host:\xff\n\n").unwrap_err();
    assert_eq!("bytes are not utf8", error.message());
}
