use stomp_parser::client::ClientFrame;
use stomp_parser::error::ErrorKind;
use stomp_parser::headers::{
    AckType, HeaderType, HeaderValue, HeartBeatIntervalls, StompVersion, StompVersions,
};
use stomp_parser::server::ServerFrame;

#[test]
fn it_recognises_connect_frames() {
    let frame = ClientFrame::try_from(
        "CONNECT\naccept-version:1.1,1.2,funk\nhost:b\r\n\n\u{00}"
            .as_bytes()
            .to_owned(),
    );

    match frame.unwrap() {
        ClientFrame::Connect(frame) => {
            assert_eq!(
                StompVersions(vec![
                    StompVersion::V1_1,
                    StompVersion::V1_2,
                    StompVersion::Unknown("funk".to_string())
                ]),
                *frame.accept_version.value()
            );
            assert_eq!("b", *frame.host.value());
            assert_eq!(None, frame.login);
            assert_eq!(None, frame.passcode);
        }
        _ => panic!("Not a Connect Frame!"),
    }
}

#[test]
fn it_accepts_optional_connect_frame_headers() {
    let frame = ClientFrame::try_from(
        "CONNECT\naccept-version:1.1,1.2,\
            funk\nhost:b\r\nlogin:slarti\npasscode:bartfast\n\n\u{00}"
            .as_bytes()
            .to_owned(),
    );
    match frame.unwrap() {
        ClientFrame::Connect(frame) => {
            assert_eq!("slarti", *frame.login.as_ref().unwrap().value());
            assert_eq!("bartfast", *frame.passcode.as_ref().unwrap().value());
        }
        _ => panic!("Not a Connect Frame!"),
    }
}

#[test]
fn it_fails_if_host_missing() {
    let frame = ClientFrame::try_from(
        "CONNECT\naccept-version:a\nlogin:foo\r\nheart-beat:10,20\r\n\
            \nasakldkf\u{00}"
            .as_bytes()
            .to_owned(),
    );

    assert!(matches!(frame, Err(_)));
}

#[test]
fn it_accepts_heartbeat() {
    let frame = ClientFrame::try_from(
        "CONNECT\naccept-version:a\nhost:b\r\nlogin:foo\r\nheart-beat:10,20\r\n\
            \n\u{00}"
            .as_bytes()
            .to_owned(),
    )
    .unwrap();
    if let ClientFrame::Connect(frame) = frame {
        assert_eq!(
            HeartBeatIntervalls {
                supplied: 10,
                expected: 20,
            },
            *frame.heartbeat.value()
        );
    } else {
        panic!("Not a connect frame!")
    }
}

#[test]
#[allow(non_snake_case)]
fn CONNECT_frame_rejects_body() {
    let frame =
        ClientFrame::try_from(b"CONNECT\naccept-version:a\nhost:b\r\n\nfoobar\x00".to_vec());
    assert!(frame.is_err());
}

#[test]
#[allow(non_snake_case)]
fn CONNECT_frame_rejects_data_after_null() {
    let frame =
        ClientFrame::try_from(b"CONNECT\naccept-version:a\nhost:b\r\n\n\x00foobar".to_vec());
    assert!(frame.is_err());
}

#[test]
fn it_is_case_sensitive() {
    let frame = ClientFrame::try_from(
        b"coNNect\naccept-version:a\nhost:b\r\n\n
        \x00"
            .to_vec(),
    );
    assert!(frame.is_err());
}

#[test]
fn it_doesnt_match_rubbish() {
    let frame =
        ClientFrame::try_from(b"coNct\naccept-version:a\nhost:b\r\n\nasakldkf\x00".to_vec());
    assert!(frame.is_err());
}

#[test]
#[allow(non_snake_case)]
fn STOMP_frame_works() {
    let frame =
        ClientFrame::try_from(b"STOMP\naccept-version:a\nhost:b\r\n\n\x00".to_vec()).unwrap();
    assert!(matches!(frame, ClientFrame::Connect(_)));
}

#[test]
#[allow(non_snake_case)]
fn SUBSCRIBE_frame_accepted() {
    let frame = ClientFrame::try_from(
        b"SUBSCRIBE\r\ndestination:y/b\nid:1\nack:client\n\n\x00".to_vec(),
    )
    .unwrap();

    if let ClientFrame::Subscribe(frame) = frame {
        assert_eq!("y/b", *frame.destination.value());
        assert_eq!("1", *frame.id.value());
        assert_eq!(AckType::Client, *frame.ack_type.value())
    } else {
        panic!("Not a SUBSCRIBE");
    }
}

#[test]
#[allow(non_snake_case)]
fn SUBSCRIBE_frame_requires_id() {
    let frame =
        ClientFrame::try_from(b"SUBSCRIBE\r\ndestination:y/b\nack:client\n\n\x00".to_vec());
    assert!(frame.is_err())
}

#[test]
#[allow(non_snake_case)]
fn SUBSCRIBE_frame_requires_destination() {
    let frame = ClientFrame::try_from(b"SUBSCRIBE\r\nid:1\nack:client\n\n\x00".to_vec());
    assert!(frame.is_err())
}

#[test]
#[allow(non_snake_case)]
fn SUBSCRIBE_frame_accepts_ack() {
    let frame = ClientFrame::try_from(
        b"SUBSCRIBE\r\ndestination:y/b\nid:1\nack:client-individual\n\n\x00".to_vec(),
    )
    .unwrap();

    if let ClientFrame::Subscribe(frame) = frame {
        assert_eq!(AckType::ClientIndividual, *frame.ack_type.value())
    } else {
        panic!("Not a SUBSCRIBE");
    }
}

#[test]
#[allow(non_snake_case)]
fn SUBSCRIBE_frame_disallows_body() {
    let frame = ClientFrame::try_from(
        b"SUBSCRIBE\r\ndestination:y/b\nid:1\nack:client-individual\n\nsdsd\x00".to_vec(),
    );

    assert!(frame.is_err())
}

#[test]
#[allow(non_snake_case)]
fn it_accepts_SEND_frame() {
    let frame =
        ClientFrame::try_from(b"SEND\ndestination:foo\r\n\nhello,world\x00".to_vec()).unwrap();

    if let ClientFrame::Send(frame) = frame {
        assert_eq!(
            "hello,world",
            std::str::from_utf8(frame.body().unwrap()).unwrap()
        );
    } else {
        panic!("Not a send");
    }
}

#[test]
fn parses_stomp_frame() {
    let result = ClientFrame::try_from(
        "STOMP\nhost:foo\naccept-version:1.1\nheart-beat:10,20\n\n\u{00}"
            .as_bytes()
            .to_owned(),
    );

    if let Ok(ClientFrame::Connect(frame)) = result {
        assert_eq!(StompVersion::V1_1, frame.accept_version.value().0[0])
    } else {
        panic!("Expected a connect frame")
    }
}

#[test]
fn parses_send_frame() {
    let message = b"SEND\n\
            destination:stairway/to/heaven\n\
            \n\
            Lorem ipsum dolor sit amet,...\x00"
        .to_vec();

    if let Ok(ClientFrame::Send(frame)) = ClientFrame::try_from(message) {
        assert_eq!(
            "Lorem ipsum dolor sit amet,...",
            std::str::from_utf8(frame.body().unwrap()).unwrap()
        );
    } else {
        panic!("Send Frame not parsed correctly");
    }
}

#[test]
fn parses_binary_send_frame() {
    let message = b"SEND\n\
            destination:stairway/to/heaven\n\
            \n\
            \x00\x01\x01\x02\x03\x05\x08\x0d\
            \x00"
        .to_vec();

    if let Ok(ClientFrame::Send(frame)) = ClientFrame::try_from(message) {
        assert_eq!(&[0u8, 1, 1, 2, 3, 5, 8, 13], frame.body().unwrap());
    } else {
        panic!("Send Frame not parsed correctly");
    }
}

fn client_message(input: &[u8]) -> String {
    match ClientFrame::try_from(input.to_vec()) {
        Ok(_) => panic!("Expected an error"),
        Err(e) => e.message().to_owned(),
    }
}

fn client_error(input: &[u8]) -> ErrorKind<String> {
    match ClientFrame::try_from(input.to_vec()) {
        Ok(_) => panic!("Expected an error"),
        Err(e) => e.kind().clone(),
    }
}

fn server_error(input: &[u8]) -> ErrorKind<String> {
    match ServerFrame::try_from(input.to_vec()) {
        Ok(_) => panic!("Expected an error"),
        Err(e) => e.kind().clone(),
    }
}

#[test]
fn absent_defaults_are_materialised() {
    let connect =
        ClientFrame::try_from(b"CONNECT\nhost:h\naccept-version:1.2\n\n\x00".to_vec()).unwrap();
    if let ClientFrame::Connect(frame) = connect {
        assert_eq!(HeartBeatIntervalls::new(0, 0), *frame.heartbeat.value());
    } else {
        panic!("Not a Connect Frame!");
    }
    let subscribe =
        ClientFrame::try_from(b"SUBSCRIBE\ndestination:d\nid:7\n\n\x00".to_vec()).unwrap();
    if let ClientFrame::Subscribe(frame) = subscribe {
        assert_eq!(AckType::Auto, *frame.ack_type.value());
        assert_eq!(None, frame.receipt);
    } else {
        panic!("Not a SUBSCRIBE");
    }
    let connected = ServerFrame::try_from(b"CONNECTED\nversion:1.2\n\n\x00".to_vec()).unwrap();
    if let ServerFrame::Connected(frame) = connected {
        assert_eq!(StompVersion::V1_2, *frame.version.value());
        assert_eq!(None, frame.heartbeat);
    } else {
        panic!("Not a CONNECTED");
    }
}

#[test]
fn missing_required_headers_are_named() {
    assert_eq!(
        ErrorKind::MissingRequiredHeader(HeaderType::Host),
        client_error(b"CONNECT\naccept-version:1.2\n\n\x00")
    );
    assert_eq!(
        ErrorKind::MissingRequiredHeader(HeaderType::AcceptVersion),
        client_error(b"CONNECT\nhost:h\n\n\x00")
    );
    assert_eq!(
        ErrorKind::MissingRequiredHeader(HeaderType::Host),
        client_error(b"CONNECT\nlogin:l\n\nbody")
    );
    assert_eq!(
        ErrorKind::MissingRequiredHeader(HeaderType::Destination),
        client_error(b"SUBSCRIBE\nid:1\n\n\x00")
    );
    assert_eq!(
        ErrorKind::MissingRequiredHeader(HeaderType::Id),
        client_error(b"SUBSCRIBE\ndestination:d\n\n\x00")
    );
    assert_eq!(
        ErrorKind::MissingRequiredHeader(HeaderType::MessageId),
        server_error(b"MESSAGE\ndestination:d\nsubscription:s\n\n\x00")
    );
}

#[test]
fn unknown_commands_are_refused() {
    assert_eq!(ErrorKind::UnknownCommand, client_error(b""));
    assert_eq!(ErrorKind::UnknownCommand, client_error(b"\nhost:b\n\n\x00"));
    assert_eq!(ErrorKind::UnknownCommand, client_error(b"CONNECT"));
    assert_eq!(ErrorKind::UnknownCommand, client_error(b"CONNECT\r"));
    assert_eq!(ErrorKind::UnknownCommand, client_error(b"connect\nhost:b\n\n\x00"));
    assert_eq!(ErrorKind::UnknownCommand, client_error(b"Stomp\nhost:b\n\n\x00"));
    assert_eq!(ErrorKind::UnknownCommand, client_error(b"CONNECTED\nversion:1.2\n\n\x00"));
    assert_eq!(ErrorKind::UnknownCommand, server_error(b"SEND\ndestination:d\n\n\x00"));
    assert_eq!(ErrorKind::UnknownCommand, server_error(b"\xff\xfe\n\n\x00"));
}

#[test]
fn frames_without_a_body_end_right_after_the_headers() {
    let connect = |rest: &[u8]| {
        let mut input = b"CONNECT\nhost:h\naccept-version:1.2\n\n".to_vec();
        input.extend_from_slice(rest);
        ClientFrame::try_from(input)
    };
    assert!(connect(b"\x00").is_ok());
    assert_eq!(ErrorKind::MissingTerminator, *connect(b"").unwrap_err().kind());
    assert_eq!(ErrorKind::MissingTerminator, *connect(b"x").unwrap_err().kind());
    assert_eq!(ErrorKind::BodyNotAllowed, *connect(b"x\x00").unwrap_err().kind());
    assert_eq!(
        ErrorKind::UnexpectedTrailingData,
        *connect(b"\x00x").unwrap_err().kind()
    );
    assert_eq!(
        ErrorKind::UnexpectedTrailingData,
        *connect(b"\x00\x00").unwrap_err().kind()
    );
}

#[test]
fn frames_with_a_body_end_with_the_zero_octet() {
    assert_eq!(
        ErrorKind::MissingTerminator,
        client_error(b"SEND\ndestination:d\n\nbody")
    );
    assert_eq!(ErrorKind::MissingTerminator, client_error(b"SEND\ndestination:d\n\n"));
    let empty = ClientFrame::try_from(b"SEND\ndestination:d\n\n\x00".to_vec()).unwrap();
    if let ClientFrame::Send(frame) = empty {
        assert_eq!(b"", frame.body().unwrap());
    } else {
        panic!("Not a send");
    }
}

#[test]
fn content_length_does_not_delimit_the_body() {
    let frame =
        ClientFrame::try_from(b"SEND\ndestination:d\ncontent-length:2\n\nabcdef\x00".to_vec())
            .unwrap();
    if let ClientFrame::Send(frame) = frame {
        assert_eq!(2, *frame.content_length.as_ref().unwrap().value());
        assert_eq!(b"abcdef", frame.body().unwrap());
    } else {
        panic!("Not a send");
    }
}

#[test]
fn last_of_repeated_headers_wins() {
    let frame = ClientFrame::try_from(
        b"SEND\ndestination:first\nreceipt:r1\ndestination:second\nreceipt:r2\n\n\x00".to_vec(),
    )
    .unwrap();
    if let ClientFrame::Send(frame) = frame {
        assert_eq!("second", *frame.destination.value());
        assert_eq!("r2", *frame.receipt.as_ref().unwrap().value());
    } else {
        panic!("Not a send");
    }
}

#[test]
fn custom_headers_are_collected_in_order() {
    let frame = ClientFrame::try_from(
        b"SEND\nb:2\ndestination:d\na:1\nlogin:x\nb:3\n\nbody\x00".to_vec(),
    )
    .unwrap();
    if let ClientFrame::Send(frame) = frame {
        let pairs: Vec<(&str, &str)> = frame
            .custom
            .iter()
            .map(|custom| (custom.header_name(), custom.value().as_str()))
            .collect();
        assert_eq!(vec![("b", "2"), ("a", "1"), ("login", "x"), ("b", "3")], pairs);
    } else {
        panic!("Not a send");
    }
    assert_eq!(
        ErrorKind::UnexpectedHeader("a".to_string()),
        client_error(b"CONNECT\nhost:h\na:1\naccept-version:1.2\n\n\x00")
    );
    assert_eq!(
        ErrorKind::UnexpectedHeader("destination".to_string()),
        client_error(b"CONNECT\nhost:h\ndestination:d\naccept-version:1.2\n\n\x00")
    );
}

#[test]
fn typed_values_are_checked() {
    assert_eq!(
        ErrorKind::InvalidHeaderValue(HeaderType::ContentLength),
        client_error(b"SEND\ndestination:d\ncontent-length:many\n\n\x00")
    );
    assert_eq!(
        ErrorKind::InvalidHeaderValue(HeaderType::ContentLength),
        client_error(b"SEND\ndestination:d\ncontent-length:4294967296\n\n\x00")
    );
    assert_eq!(
        ErrorKind::InvalidHeaderValue(HeaderType::Ack),
        client_error(b"SUBSCRIBE\ndestination:d\nid:1\nack:Auto\n\n\x00")
    );
    let frame = ClientFrame::try_from(
        b"SEND\ndestination:d\ncontent-length:+4294967295\n\n\x00".to_vec(),
    )
    .unwrap();
    if let ClientFrame::Send(frame) = frame {
        assert_eq!(4294967295, *frame.content_length.as_ref().unwrap().value());
    } else {
        panic!("Not a send");
    }
}

#[test]
fn frame_errors_say_what_is_wrong() {
    assert_eq!(
        "Unknown command coNNect",
        client_message(b"coNNect\naccept-version:a\nhost:b\r\n\n\x00")
    );
    assert_eq!(
        "Unknown command CONNECTED",
        client_message(b"CONNECTED\nversion:1.2\n\n\x00")
    );
    assert_eq!(
        "badly formed command string, not utf8",
        client_message(b"\xff\xfe\n\n\x00")
    );
    assert_eq!("Error parsing frame", client_message(b""));
    assert_eq!("Error parsing frame", client_message(b"CONNECT"));
    assert_eq!(
        "Missing required header: host",
        client_message(b"CONNECT\naccept-version:1.2\n\n\x00")
    );
    assert_eq!(
        "Unexpected header 'destination' encountered",
        client_message(b"CONNECT\nhost:h\ndestination:d\naccept-version:1.2\n\n\x00")
    );
    assert_eq!(
        "Poorly formatted value of header: content-length",
        client_message(b"SEND\ndestination:d\ncontent-length:many\n\n\x00")
    );
    assert_eq!(
        "Frame must not have a body",
        client_message(b"CONNECT\nhost:h\naccept-version:1.2\n\nx\x00")
    );
    assert_eq!(
        "Unexpected data after frame",
        client_message(b"CONNECT\nhost:h\naccept-version:1.2\n\n\x00x")
    );
    assert_eq!(
        "Frame is incomplete",
        client_message(b"SEND\ndestination:d\n\nbody")
    );
    assert_eq!(
        "Invalid escape sequence",
        client_message(b"SEND\ndestination:d\\t\n\n\x00")
    );
    assert_eq!(
        "Poorly formatted header",
        client_message(b"SEND\ndestination\n\n\x00")
    );
}
