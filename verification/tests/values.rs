use stomp_parser::error::{ErrorKind, StompParseError};
use stomp_parser::headers::{
    split_once, AckType, ContentLengthValue, CustomValue, HeaderType, HeaderValue,
    HeartBeatIntervalls, HostValue, NameValue, StompVersion, StompVersions,
};
use stomp_parser::parser::headers::into_string;
use stomp_parser::model::frames::utils::select_slice;

#[test]
fn writeln_writes_line() {
    let mut buffer: Vec<u8> = Vec::new();
    stomp_parser::model::frames::utils::writeln(&mut buffer, "abc").expect("Error writing");

    assert_eq!(b"abc\n", buffer.as_slice());
}

#[test]
fn select_slice_selects() {
    let buffer = b"abc\n".to_vec();

    let option = Some(buffer);

    let selection = select_slice(&option, &(1, 2));

    assert_eq!(b"bc", selection.unwrap());
}

#[test]
fn select_slice_with_none() {
    let selection = select_slice(&None, &(1, 2));

    assert!(selection.is_none());
}

#[test]
fn header_value_display() {
    let x = ContentLengthValue::new(10);

    assert_eq!("content-length:10", x.to_string())
}

#[test]
fn heartbeat_is_supplied_then_expected() {
    let hb = HeartBeatIntervalls::from_str("100,200").expect("Heartbeat parse failed");

    assert_eq!(100, hb.supplied);
    assert_eq!(200, hb.expected);
}

#[test]
fn ack_display() {
    let s = format!("Prefix: {}", AckType::ClientIndividual.to_string());

    assert_eq!("Prefix: client-individual", s);
}

#[test]
fn heartbeat_text_round_trips() {
    let hb = HeartBeatIntervalls::new(4294967295, 0);

    assert_eq!("4294967295,0", hb.to_string());
    assert_eq!(hb, HeartBeatIntervalls::from_str("4294967295,0").unwrap());
    let error = HeartBeatIntervalls::from_str("1,2,3").unwrap_err();
    assert_eq!(
        ErrorKind::InvalidHeaderValue(HeaderType::HeartBeat),
        *error.kind()
    );
    assert_eq!("Poorly formatted heartbeats: 1,2,3", error.message());
    assert_eq!(
        "Poorly formatted heartbeats: x",
        HeartBeatIntervalls::from_str("x").unwrap_err().message()
    );
    assert!(HeartBeatIntervalls::from_str("1").is_err());
    assert!(HeartBeatIntervalls::from_str(",1").is_err());
    assert!(HeartBeatIntervalls::from_str("-1,1").is_err());
    assert!(HeartBeatIntervalls::from_str("1, 1").is_err());
    assert_eq!(
        HeartBeatIntervalls::new(7, 10),
        HeartBeatIntervalls::from_str("+007,010").unwrap()
    );
}

#[test]
fn versions_keep_the_order_of_the_list() {
    let versions = StompVersions::from_str("1.2,x,1.0,,1.1").unwrap();

    assert_eq!(
        StompVersions(vec![
            StompVersion::V1_2,
            StompVersion::Unknown("x".to_string()),
            StompVersion::V1_0,
            StompVersion::Unknown("".to_string()),
            StompVersion::V1_1,
        ]),
        versions
    );
    assert_eq!("1.2,x,1.0,,1.1", versions.to_string());
    assert_eq!(
        StompVersions(vec![StompVersion::Unknown("".to_string())]),
        StompVersions::from_str("").unwrap()
    );
    assert_eq!(
        StompVersions(vec![StompVersion::Unknown("1.1 ".to_string())]),
        StompVersions::from_str("1.1 ").unwrap()
    );
    assert_eq!(
        StompVersions(vec![StompVersion::Unknown("v\u{e9}".to_string()), StompVersion::V1_1]),
        StompVersions::from_str("v\u{e9},1.1").unwrap()
    );
}

#[test]
fn ack_modes_have_their_texts() {
    assert_eq!(AckType::Auto, AckType::from_str("auto").unwrap());
    assert_eq!(AckType::Client, AckType::from_str("client").unwrap());
    assert_eq!(
        AckType::ClientIndividual,
        AckType::from_str("client-individual").unwrap()
    );
    let error = AckType::from_str("client-").unwrap_err();
    assert_eq!(ErrorKind::InvalidHeaderValue(HeaderType::Ack), *error.kind());
    assert_eq!("Unknown ack-type: client-", error.message());
    assert_eq!("Unknown ack-type: ", AckType::from_str("").unwrap_err().message());
}

#[test]
fn name_value_splits_at_the_first_colon() {
    let pair = NameValue::from_str("abc:d:ef").unwrap();

    assert_eq!("abc", pair.name);
    assert_eq!("d:ef", pair.value);
    assert_eq!("abc:d:ef", pair.to_string());
    let error = NameValue::from_str("abcdef").unwrap_err();
    assert_eq!(ErrorKind::MalformedHeaderLine, *error.kind());
    assert_eq!("Poorly formatted header: abcdef", error.message());
    let pair = NameValue::from_str("\u{e9}:\u{fc}").unwrap();
    assert_eq!("\u{e9}", pair.name);
    assert_eq!("\u{fc}", pair.value);
}

#[test]
fn header_types_match_their_names_exactly() {
    assert!(HeaderType::HeartBeat.matches("heart-beat"));
    assert!(!HeaderType::HeartBeat.matches("heArt-beat"));
    assert!(!HeaderType::HeartBeat.matches("heart-beat "));
    assert_eq!(Some(HeaderType::MessageId), HeaderType::from_name(b"message-id"));
    assert_eq!(Some(HeaderType::Message), HeaderType::from_name(b"message"));
    assert_eq!(None, HeaderType::from_name(b"Message"));
    assert_eq!("receipt-id", HeaderType::ReceiptId.name());
}

#[test]
fn errors_carry_their_message() {
    let error = StompParseError::new("bad things");

    assert_eq!("bad things", error.message());
    assert_eq!(ErrorKind::Other, *error.kind());
    let error = StompParseError::of(ErrorKind::MissingRequiredHeader(HeaderType::Host));
    assert_eq!("Missing required header: host", error.message());
    let error = StompParseError::with_message(ErrorKind::UnknownCommand, "what?".to_owned());
    assert_eq!("what?", error.message());
    assert_eq!(ErrorKind::UnknownCommand, *error.kind());
}

#[test]
fn split_once_splits_at_the_first_delimiter() {
    assert_eq!(Some(("a", "b,c")), split_once("a,b,c", b','));
    assert_eq!(Some(("", "")), split_once(",", b','));
    assert_eq!(Some(("\u{e9}", "\u{e8}")), split_once("\u{e9}:\u{e8}", b':'));
    assert_eq!(None, split_once("abc", b','));
    assert_eq!(None, split_once("", b','));
}

#[test]
fn into_string_takes_utf8_only() {
    assert_eq!("h\u{e9}", into_string(vec![0x68, 0xc3, 0xa9]).unwrap());
    assert_eq!("", into_string(Vec::new()).unwrap());
    let error = into_string(vec![0x68, 0xc3]).unwrap_err();
    assert_eq!(ErrorKind::NonUtf8Text, *error.kind());
    assert_eq!("bytes are not utf8", error.message());
    assert!(into_string(vec![0xed, 0xa0, 0x80]).is_err());
    assert!(into_string(vec![0xc0, 0x80]).is_err());
}

#[test]
fn versions_can_be_used_as_a_list() {
    let versions = StompVersions::from_str("1.1,1.2").unwrap();

    assert_eq!(2, versions.len());
    assert!(versions.contains(&StompVersion::V1_2));
    assert_eq!("1.1", versions[0].to_string());
}

#[test]
fn header_values_know_their_type() {
    assert_eq!(
        Some(HeaderType::ContentLength),
        ContentLengthValue::new(1).header_type()
    );
    assert_eq!(
        Some(HeaderType::Host),
        HostValue::new("h".to_owned()).header_type()
    );
    let custom = CustomValue::new("host".to_owned(), "h".to_owned());
    assert_eq!(None, HeaderValue::header_type(&custom));
    assert_eq!("host", custom.header_name());
}
