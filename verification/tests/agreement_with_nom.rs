//! The grammar of the library, held against the same grammar written with
//! the combinators of `nom`, on every input up to some length over bytes that
//! matter to it.
use nom::branch::alt;
use nom::bytes::complete::{escaped_transform, is_not, tag};
use nom::character::complete::{char, line_ending};
use nom::combinator::{eof, flat_map, map_res, value};
use nom::multi::many0;
use nom::sequence::terminated;
use nom::IResult;
use stomp_parser::headers::{Header, HeaderValue};
use stomp_parser::parser::headers::{header_name, header_section, header_value, headers_parser};
use stomp_parser::parser::{command_line, null};

/// Every byte string of at most `max` bytes of `alphabet`.
fn inputs(alphabet: &[u8], max: usize) -> Vec<Vec<u8>> {
    let mut all: Vec<Vec<u8>> = vec![Vec::new()];
    let mut last: Vec<Vec<u8>> = vec![Vec::new()];
    for _ in 0..max {
        let mut next = Vec::new();
        for prefix in &last {
            for byte in alphabet {
                let mut longer = prefix.clone();
                longer.push(*byte);
                next.push(longer);
            }
        }
        all.extend(next.iter().cloned());
        last = next;
    }
    all
}

const BYTES: [u8; 10] = [b'a', b'\\', b':', b'\n', b'\r', b'n', b'c', 0x00, 0xc3, 0xa9];

const FEW_BYTES: [u8; 6] = [b'a', b'\\', b':', b'\n', b'\r', b'c'];

fn nom_header_section(input: &[u8]) -> IResult<&[u8], Vec<u8>> {
    escaped_transform(
        is_not("\\:\n\r"),
        '\\',
        alt((
            value(b"\n" as &[u8], tag("n")),
            value(b"\r" as &[u8], tag("r")),
            value(b":" as &[u8], tag("c")),
            value(b"\\" as &[u8], tag("\\")),
        )),
    )(input)
}

fn nom_header_name(input: &[u8]) -> IResult<&[u8], String> {
    map_res(terminated(nom_header_section, char(':')), String::from_utf8)(input)
}

fn nom_header_value(input: &[u8]) -> IResult<&[u8], String> {
    map_res(terminated(nom_header_section, line_ending), String::from_utf8)(input)
}

fn nom_headers(input: &[u8]) -> IResult<&[u8], Vec<(String, String)>> {
    terminated(
        many0(flat_map(nom_header_name, |name| {
            nom::combinator::map(nom_header_value, move |value| (name.clone(), value))
        })),
        line_ending,
    )(input)
}

#[test]
fn header_section_agrees_with_escaped_transform() {
    for input in inputs(&BYTES, 5) {
        match (header_section(&input), nom_header_section(&input)) {
            (Ok((rest, text)), Ok((nom_rest, nom_text))) => {
                assert_eq!(nom_rest, rest, "on {:?}", input);
                assert_eq!(nom_text, text, "on {:?}", input);
            }
            (Err(_), Err(_)) => {}
            (ours, theirs) => panic!("on {:?}: {:?} and {:?}", input, ours, theirs),
        }
    }
}

#[test]
fn header_name_and_value_agree_with_nom() {
    for input in inputs(&BYTES, 5) {
        match (header_name(&input), nom_header_name(&input)) {
            (Ok(ours), Ok(theirs)) => assert_eq!(theirs, ours, "on {:?}", input),
            (Err(_), Err(_)) => {}
            (ours, theirs) => panic!("on {:?}: {:?} and {:?}", input, ours, theirs),
        }
        match (header_value(&input), nom_header_value(&input)) {
            (Ok(ours), Ok(theirs)) => assert_eq!(theirs, ours, "on {:?}", input),
            (Err(_), Err(_)) => {}
            (ours, theirs) => panic!("on {:?}: {:?} and {:?}", input, ours, theirs),
        }
    }
}

#[test]
fn command_line_agrees_with_nom() {
    for input in inputs(&BYTES, 5) {
        let theirs: IResult<&[u8], &[u8]> = terminated(is_not("\r\n"), line_ending)(&input[..]);
        match (command_line(&input), theirs) {
            (Ok(ours), Ok(theirs)) => assert_eq!(theirs, ours, "on {:?}", input),
            (Err(_), Err(_)) => {}
            (ours, theirs) => panic!("on {:?}: {:?} and {:?}", input, ours, theirs),
        }
    }
}

#[test]
fn null_agrees_with_nom() {
    for input in inputs(&BYTES, 3) {
        let theirs: IResult<&[u8], char> = terminated(char('\x00'), eof)(&input[..]);
        assert_eq!(theirs.is_ok(), null(&input).is_ok(), "on {:?}", input);
    }
}

#[test]
fn header_sections_agree_with_nom() {
    let parser = headers_parser(Vec::new(), Vec::new(), true);
    for input in inputs(&FEW_BYTES, 7) {
        match (parser.parse(&input), nom_headers(&input)) {
            (Ok((rest, headers)), Ok((nom_rest, pairs))) => {
                assert_eq!(nom_rest, rest, "on {:?}", input);
                let ours: Vec<(String, String)> = headers
                    .iter()
                    .map(|header| match header {
                        Header::Custom(custom) => {
                            (custom.header_name().to_owned(), custom.value().clone())
                        }
                        _ => panic!("on {:?}: {:?}", input, header),
                    })
                    .collect();
                assert_eq!(pairs, ours, "on {:?}", input);
            }
            (Err(_), Err(_)) => {}
            (ours, theirs) => panic!("on {:?}: {:?} and {:?}", input, ours, theirs),
        }
    }
}
