use stomp_parser::client::{ClientFrame, ConnectFrame, SendFrame, SubscribeFrame};
use stomp_parser::error::ErrorKind;
use stomp_parser::headers::{
    AcceptVersionValue, AckType, ContentLengthValue, ContentTypeValue, CustomValue,
    DestinationValue, HeaderType, HeaderValue, HeartBeatIntervalls, HeartBeatValue, HostValue,
    IdValue, MessageIdValue, StompVersion, StompVersions, SubscriptionValue, VersionValue,
};
use stomp_parser::model::frames::sender::{
    ConnectFrameBuilder, ErrorFrameBuilder, MessageFrameBuilder, SendFrameBuilder,
    SubscribeFrameBuilder,
};
use stomp_parser::parser::HasBody;
use stomp_parser::server::{ConnectedFrame, ErrorFrame, MessageFrame, ServerFrame};

#[test]
fn body_extracts_correct_slice() {
    let mut frame = SendFrame::from_parsed(
        DestinationValue::new("foo".to_owned()),
        None,
        None,
        None,
        None,
        Vec::default(),
        (2, 3),
    );
    frame.set_raw(vec![0, 1, 2, 3, 4, 5, 6, 7]);

    assert_eq!(b"\x02\x03\x04", frame.body().unwrap());
}

#[test]
fn writes_message_frame_bytes() {
    let body = b"Lorem ipsum dolor sit amet,".to_vec();

    let frame = MessageFrame::new(
        MessageIdValue::new("msg-1".to_owned()),
        DestinationValue::new("path/to/hell".to_owned()),
        SubscriptionValue::new("annual".to_owned()),
        Some(ContentTypeValue::new("foo/bar".to_owned())),
        None,
        body,
    );

    let bytes: Vec<u8> = frame.try_into().expect("Error writing bytes");

    assert_eq!(
        b"MESSAGE\n\
            message-id:msg-1\n\
            destination:path/to/hell\n\
            subscription:annual\n\
            content-type:foo/bar\n\
            \n\
            Lorem ipsum dolor sit amet,\x00",
        bytes.as_slice()
    );
}

#[test]
fn writes_binary_message_frame() {
    let body = vec![0, 1, 1, 2, 3, 5, 8, 13];

    let frame = MessageFrame::new(
        MessageIdValue::new("msg-1".to_owned()),
        DestinationValue::new("path/to/hell".to_owned()),
        SubscriptionValue::new("annual".to_owned()),
        Some(ContentTypeValue::new("foo/bar".to_owned())),
        None,
        body,
    );

    let bytes: Vec<u8> = frame.try_into().expect("Error writing bytes");

    assert_eq!(
        b"MESSAGE\n\
            message-id:msg-1\n\
            destination:path/to/hell\n\
            subscription:annual\n\
            content-type:foo/bar\n\
            \n\
            \x00\x01\x01\x02\x03\x05\x08\x0d\
            \x00",
        bytes.as_slice()
    );
}

#[test]
fn error_frame_from_message_has_the_message_as_body() {
    let frame = ErrorFrame::from_message("went wrong");

    assert_eq!(b"went wrong", frame.body().unwrap());
    assert!(frame.custom.is_empty());
    let bytes = ServerFrame::Error(frame).try_into().unwrap();
    assert_eq!(b"ERROR\n\nwent wrong\x00", bytes.as_slice());
}

#[test]
fn writes_connected_frame() {
    let frame = ConnectedFrame::new(
        VersionValue::new(StompVersion::V1_1),
        Some(HeartBeatValue::new(HeartBeatIntervalls {
            supplied: 20,
            expected: 10,
        })),
        None,
        None,
    );

    let displayed = frame.to_string();

    assert_eq!(
        "CONNECTED\nversion:1.1\nheart-beat:20,10\n\n\u{00}",
        displayed
    );
}

#[test]
fn writes_message_frame() {
    let body = b"Lorem ipsum dolor sit amet,".to_vec();

    let frame = MessageFrame::new(
        MessageIdValue::new("msg-1".to_owned()),
        DestinationValue::new("path/to/hell".to_owned()),
        SubscriptionValue::new("annual".to_owned()),
        Some(ContentTypeValue::new("foo/bar".to_owned())),
        None,
        body,
    );

    let displayed = frame.to_string();

    assert_eq!(
        "MESSAGE\n\
            message-id:msg-1\n\
            destination:path/to/hell\n\
            subscription:annual\n\
            content-type:foo/bar\n\
            \n\
            Lorem ipsum dolor sit amet,\u{00}",
        displayed
    );
}

#[test]
fn display_leaves_out_a_body_that_is_not_text() {
    let frame = MessageFrame::new(
        MessageIdValue::new("m".to_owned()),
        DestinationValue::new("d".to_owned()),
        SubscriptionValue::new("s".to_owned()),
        None,
        Some(ContentLengthValue::new(2)),
        vec![0xff, 0xfe],
    );

    assert_eq!(
        "MESSAGE\nmessage-id:m\ndestination:d\nsubscription:s\ncontent-length:2\n\n\u{00}",
        ServerFrame::Message(frame).to_string()
    );
}

#[test]
fn defaults_are_written() {
    let connect = ConnectFrame::new(
        HostValue::new("h".to_owned()),
        AcceptVersionValue::new(StompVersions(vec![
            StompVersion::V1_0,
            StompVersion::Unknown("9.9".to_owned()),
        ])),
        None,
        None,
        None,
    );
    assert_eq!(HeartBeatIntervalls::new(0, 0), *connect.heartbeat.value());
    let bytes = ClientFrame::Connect(connect).try_into().unwrap();
    assert_eq!(
        b"CONNECT\nhost:h\naccept-version:1.0,9.9\nheart-beat:0,0\n\n\x00",
        bytes.as_slice()
    );
    let subscribe = SubscribeFrame::new(
        DestinationValue::new("d".to_owned()),
        IdValue::new("1".to_owned()),
        None,
        None,
        vec![CustomValue::new("k".to_owned(), "v".to_owned())],
    );
    assert_eq!(AckType::Auto, *subscribe.ack_type.value());
    assert_eq!(
        "SUBSCRIBE\ndestination:d\nid:1\nack:auto\n\n\u{00}",
        subscribe.to_string()
    );
}

#[test]
fn written_frame_is_read_back() {
    let frame = MessageFrame::new(
        MessageIdValue::new("msg-1".to_owned()),
        DestinationValue::new("path/to/hell".to_owned()),
        SubscriptionValue::new("annual".to_owned()),
        Some(ContentTypeValue::new("foo/bar".to_owned())),
        Some(ContentLengthValue::new(9)),
        vec![0, 1, 1, 2, 3, 5, 8, 13, 0],
    );

    let bytes: Vec<u8> = frame.try_into().unwrap();
    let read = ServerFrame::try_from(bytes.clone()).unwrap();

    if let ServerFrame::Message(read) = read {
        assert_eq!("msg-1", *read.message_id.value());
        assert_eq!("path/to/hell", *read.destination.value());
        assert_eq!("annual", *read.subscription.value());
        assert_eq!(
            Some(ContentTypeValue::new("foo/bar".to_owned())),
            read.content_type
        );
        assert_eq!(Some(ContentLengthValue::new(9)), read.content_length);
        assert_eq!(&[0u8, 1, 1, 2, 3, 5, 8, 13, 0], read.body().unwrap());
        assert_eq!(bytes, read.try_into().unwrap());
    } else {
        panic!("Not a MESSAGE");
    }
}

#[test]
fn structural_bytes_in_values_are_written_as_they_are() {
    let frame = SendFrame::new(
        DestinationValue::new("a:b".to_owned()),
        None,
        None,
        None,
        None,
        Vec::new(),
        Vec::new(),
    );

    let bytes = frame.try_into().unwrap();

    assert_eq!(b"SEND\ndestination:a:b\n\n\x00", bytes.as_slice());
    assert!(ClientFrame::try_from(bytes).is_err());
}

#[test]
fn frame_without_buffer_is_not_written() {
    let frame = SendFrame::from_parsed(
        DestinationValue::new("foo".to_owned()),
        None,
        None,
        None,
        None,
        Vec::default(),
        (0, 0),
    );

    assert!(frame.body().is_none());
    assert_eq!(
        ErrorKind::BuilderBodyUnset,
        *frame.try_into().unwrap_err().kind()
    );
}

#[test]
fn builder_builds_a_message_frame() {
    let frame = MessageFrameBuilder::new()
        .subscription("annual".to_owned())
        .message_id("msg-1".to_owned())
        .content_length(5)
        .destination("path/to/hell".to_owned())
        .body(b"hello".to_vec())
        .build()
        .unwrap();

    assert_eq!("msg-1", *frame.message_id.value());
    assert_eq!(None, frame.content_type);
    assert_eq!(5, *frame.content_length.as_ref().unwrap().value());
    assert_eq!(b"hello", frame.body().unwrap());
    assert_eq!(
        b"MESSAGE\nmessage-id:msg-1\ndestination:path/to/hell\nsubscription:annual\n\
            content-length:5\n\nhello\x00",
        frame.raw.as_ref().unwrap().as_slice()
    );
    assert_eq!((88, 5), frame.body_offset_length);
}

#[test]
fn builder_names_the_first_required_header_that_is_not_set() {
    let error = MessageFrameBuilder::new()
        .subscription("annual".to_owned())
        .body(Vec::new())
        .build()
        .unwrap_err();
    assert_eq!(
        ErrorKind::BuilderRequiredFieldUnset(HeaderType::MessageId),
        *error.kind()
    );
    assert_eq!("Required header message-id not set.", error.message());

    let error = MessageFrameBuilder::new()
        .message_id("m".to_owned())
        .subscription("annual".to_owned())
        .build()
        .unwrap_err();
    assert_eq!(
        ErrorKind::BuilderRequiredFieldUnset(HeaderType::Destination),
        *error.kind()
    );
}

#[test]
fn builder_asks_for_the_body() {
    let error = SendFrameBuilder::new()
        .destination("d".to_owned())
        .build()
        .unwrap_err();
    assert_eq!(ErrorKind::BuilderBodyUnset, *error.kind());
    assert_eq!("Body not set.", error.message());

    let error = ErrorFrameBuilder::new().build().unwrap_err();
    assert_eq!(ErrorKind::BuilderBodyUnset, *error.kind());

    let frame = ErrorFrameBuilder::new()
        .add_custom_header("a".to_owned(), "1".to_owned())
        .add_custom_header("b".to_owned(), "2".to_owned())
        .body(b"oops".to_vec())
        .build()
        .unwrap();
    assert_eq!(
        vec![
            CustomValue::new("a".to_owned(), "1".to_owned()),
            CustomValue::new("b".to_owned(), "2".to_owned())
        ],
        frame.custom
    );
    assert_eq!(b"oops", frame.body().unwrap());
    assert_eq!(b"ERROR\n\noops\x00", frame.raw.as_ref().unwrap().as_slice());
}

#[test]
fn builder_keeps_defaults_and_last_values() {
    let connect = ConnectFrameBuilder::new()
        .host("first".to_owned())
        .accept_version(StompVersions(vec![StompVersion::V1_2]))
        .host("second".to_owned())
        .build()
        .unwrap();
    assert_eq!("second", *connect.host.value());
    assert_eq!(HeartBeatIntervalls::new(0, 0), *connect.heartbeat.value());
    assert_eq!(None, connect.login);

    let subscribe = SubscribeFrameBuilder::new()
        .destination("d".to_owned())
        .id("1".to_owned())
        .ack_type(AckType::Client)
        .build()
        .unwrap();
    assert_eq!(AckType::Client, *subscribe.ack_type.value());
    assert_eq!(
        b"SUBSCRIBE\ndestination:d\nid:1\nack:client\n\n\x00",
        subscribe.try_into().unwrap().as_slice()
    );
}
