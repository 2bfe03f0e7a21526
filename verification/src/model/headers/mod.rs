//! The headers of STOMP frames: their names, and the values that the typed
//! ones carry.
mod values;

pub use values::{
    parse_header, AcceptVersionValue, AckValue, ContentLengthValue, ContentTypeValue, CustomValue,
    DestinationValue, Header, HeartBeatValue, HostValue, IdValue, LoginValue, MessageIdValue,
    MessageValue, PasscodeValue, ReceiptIdValue, ReceiptValue, ServerValue, SessionValue,
    SubscriptionValue, TransactionValue, VersionValue,
};

use crate::error::{ErrorKind, Failure, StompParseError};
use crate::parser::headers::spec_plain;
use crate::text::{
    bytes_eq, decimal_string, find, lemma_encode_concat, lemma_find, lemma_find_unique, parse_u32,
    spec_decimal, spec_find, spec_parse_u32, split_around, COLON, COMMA,
};
use vstd::prelude::*;
use vstd::string::StringExecFns;
use vstd::utf8::*;

verus! {

/// The headers that this library knows by name.
#[derive(Debug, Clone, Copy, PartialEq, Eq, Structural)]
pub enum HeaderType {
    Ack,
    AcceptVersion,
    ContentLength,
    ContentType,
    Destination,
    HeartBeat,
    Host,
    Id,
    Login,
    Message,
    MessageId,
    Passcode,
    Receipt,
    ReceiptId,
    Server,
    Session,
    Subscription,
    Transaction,
    Version,
}

impl HeaderType {
    /// The name of the header as it stands in a frame.
    pub open spec fn spec_name(self) -> Seq<char> {
        match self {
            HeaderType::Ack => "ack"@,
            HeaderType::AcceptVersion => "accept-version"@,
            HeaderType::ContentLength => "content-length"@,
            HeaderType::ContentType => "content-type"@,
            HeaderType::Destination => "destination"@,
            HeaderType::HeartBeat => "heart-beat"@,
            HeaderType::Host => "host"@,
            HeaderType::Id => "id"@,
            HeaderType::Login => "login"@,
            HeaderType::Message => "message"@,
            HeaderType::MessageId => "message-id"@,
            HeaderType::Passcode => "passcode"@,
            HeaderType::Receipt => "receipt"@,
            HeaderType::ReceiptId => "receipt-id"@,
            HeaderType::Server => "server"@,
            HeaderType::Session => "session"@,
            HeaderType::Subscription => "subscription"@,
            HeaderType::Transaction => "transaction"@,
            HeaderType::Version => "version"@,
        }
    }

    /// The bytes of the header's name.
    pub open spec fn spec_name_bytes(self) -> Seq<u8> {
        encode_utf8(self.spec_name())
    }

    /// The header type whose name is exactly `name`, byte for byte.
    #[verifier::opaque]
    pub open spec fn spec_from_name(name: Seq<u8>) -> Option<HeaderType> {
        if name == HeaderType::Ack.spec_name_bytes() {
            Some(HeaderType::Ack)
        } else if name == HeaderType::AcceptVersion.spec_name_bytes() {
            Some(HeaderType::AcceptVersion)
        } else if name == HeaderType::ContentLength.spec_name_bytes() {
            Some(HeaderType::ContentLength)
        } else if name == HeaderType::ContentType.spec_name_bytes() {
            Some(HeaderType::ContentType)
        } else if name == HeaderType::Destination.spec_name_bytes() {
            Some(HeaderType::Destination)
        } else if name == HeaderType::HeartBeat.spec_name_bytes() {
            Some(HeaderType::HeartBeat)
        } else if name == HeaderType::Host.spec_name_bytes() {
            Some(HeaderType::Host)
        } else if name == HeaderType::Id.spec_name_bytes() {
            Some(HeaderType::Id)
        } else if name == HeaderType::Login.spec_name_bytes() {
            Some(HeaderType::Login)
        } else if name == HeaderType::Message.spec_name_bytes() {
            Some(HeaderType::Message)
        } else if name == HeaderType::MessageId.spec_name_bytes() {
            Some(HeaderType::MessageId)
        } else if name == HeaderType::Passcode.spec_name_bytes() {
            Some(HeaderType::Passcode)
        } else if name == HeaderType::Receipt.spec_name_bytes() {
            Some(HeaderType::Receipt)
        } else if name == HeaderType::ReceiptId.spec_name_bytes() {
            Some(HeaderType::ReceiptId)
        } else if name == HeaderType::Server.spec_name_bytes() {
            Some(HeaderType::Server)
        } else if name == HeaderType::Session.spec_name_bytes() {
            Some(HeaderType::Session)
        } else if name == HeaderType::Subscription.spec_name_bytes() {
            Some(HeaderType::Subscription)
        } else if name == HeaderType::Transaction.spec_name_bytes() {
            Some(HeaderType::Transaction)
        } else if name == HeaderType::Version.spec_name_bytes() {
            Some(HeaderType::Version)
        } else {
            None
        }
    }

    /// The name of the header as it stands in a frame.
    pub fn name(&self) -> (name: &'static str)
        ensures
            name@ == self.spec_name(),
    {
        match self {
            HeaderType::Ack => "ack",
            HeaderType::AcceptVersion => "accept-version",
            HeaderType::ContentLength => "content-length",
            HeaderType::ContentType => "content-type",
            HeaderType::Destination => "destination",
            HeaderType::HeartBeat => "heart-beat",
            HeaderType::Host => "host",
            HeaderType::Id => "id",
            HeaderType::Login => "login",
            HeaderType::Message => "message",
            HeaderType::MessageId => "message-id",
            HeaderType::Passcode => "passcode",
            HeaderType::Receipt => "receipt",
            HeaderType::ReceiptId => "receipt-id",
            HeaderType::Server => "server",
            HeaderType::Session => "session",
            HeaderType::Subscription => "subscription",
            HeaderType::Transaction => "transaction",
            HeaderType::Version => "version",
        }
    }

    /// Whether `name` is this header's name, byte for byte.
    pub fn matches(&self, name: &str) -> (r: bool)
        ensures
            r == (encode_utf8(name@) == self.spec_name_bytes()),
    {
        bytes_eq(name.as_bytes(), self.name().as_bytes())
    }

    /// The header type whose name is exactly `name`, where there is one.
    pub fn from_name(name: &[u8]) -> (r: Option<HeaderType>)
        ensures
            r == HeaderType::spec_from_name(name@),
    {
        reveal(HeaderType::spec_from_name);
        if bytes_eq(name, HeaderType::Ack.name().as_bytes()) {
            Some(HeaderType::Ack)
        } else if bytes_eq(name, HeaderType::AcceptVersion.name().as_bytes()) {
            Some(HeaderType::AcceptVersion)
        } else if bytes_eq(name, HeaderType::ContentLength.name().as_bytes()) {
            Some(HeaderType::ContentLength)
        } else if bytes_eq(name, HeaderType::ContentType.name().as_bytes()) {
            Some(HeaderType::ContentType)
        } else if bytes_eq(name, HeaderType::Destination.name().as_bytes()) {
            Some(HeaderType::Destination)
        } else if bytes_eq(name, HeaderType::HeartBeat.name().as_bytes()) {
            Some(HeaderType::HeartBeat)
        } else if bytes_eq(name, HeaderType::Host.name().as_bytes()) {
            Some(HeaderType::Host)
        } else if bytes_eq(name, HeaderType::Id.name().as_bytes()) {
            Some(HeaderType::Id)
        } else if bytes_eq(name, HeaderType::Login.name().as_bytes()) {
            Some(HeaderType::Login)
        } else if bytes_eq(name, HeaderType::Message.name().as_bytes()) {
            Some(HeaderType::Message)
        } else if bytes_eq(name, HeaderType::MessageId.name().as_bytes()) {
            Some(HeaderType::MessageId)
        } else if bytes_eq(name, HeaderType::Passcode.name().as_bytes()) {
            Some(HeaderType::Passcode)
        } else if bytes_eq(name, HeaderType::Receipt.name().as_bytes()) {
            Some(HeaderType::Receipt)
        } else if bytes_eq(name, HeaderType::ReceiptId.name().as_bytes()) {
            Some(HeaderType::ReceiptId)
        } else if bytes_eq(name, HeaderType::Server.name().as_bytes()) {
            Some(HeaderType::Server)
        } else if bytes_eq(name, HeaderType::Session.name().as_bytes()) {
            Some(HeaderType::Session)
        } else if bytes_eq(name, HeaderType::Subscription.name().as_bytes()) {
            Some(HeaderType::Subscription)
        } else if bytes_eq(name, HeaderType::Transaction.name().as_bytes()) {
            Some(HeaderType::Transaction)
        } else if bytes_eq(name, HeaderType::Version.name().as_bytes()) {
            Some(HeaderType::Version)
        } else {
            None
        }
    }
}

/// Whether the byte is one that the names of headers are made of: a small
/// letter or a hyphen.
pub open spec fn is_name_byte(b: u8) -> bool {
    0x61 <= b <= 0x7a || b == 0x2d
}

/// The length and the first byte of a header's name, and what its bytes
/// are made of.
proof fn lemma_name_shape(header: HeaderType)
    ensures
        header.spec_name_bytes().len() == header.spec_name().len(),
        header.spec_name_bytes()[0] == header.spec_name()[0] as u8,
        forall|i: int|
            0 <= i < header.spec_name_bytes().len() ==> is_name_byte(
                #[trigger] header.spec_name_bytes()[i],
            ),
        ({
            let name = header.spec_name();
            match header {
                HeaderType::Ack => name.len() == 3 && name[0] == 'a',
                HeaderType::AcceptVersion => name.len() == 14 && name[0] == 'a',
                HeaderType::ContentLength => name.len() == 14 && name[0] == 'c',
                HeaderType::ContentType => name.len() == 12 && name[0] == 'c',
                HeaderType::Destination => name.len() == 11 && name[0] == 'd',
                HeaderType::HeartBeat => name.len() == 10 && name[0] == 'h',
                HeaderType::Host => name.len() == 4 && name[0] == 'h',
                HeaderType::Id => name.len() == 2 && name[0] == 'i',
                HeaderType::Login => name.len() == 5 && name[0] == 'l',
                HeaderType::Message => name.len() == 7 && name[0] == 'm',
                HeaderType::MessageId => name.len() == 10 && name[0] == 'm',
                HeaderType::Passcode => name.len() == 8 && name[0] == 'p',
                HeaderType::Receipt => name.len() == 7 && name[0] == 'r',
                HeaderType::ReceiptId => name.len() == 10 && name[0] == 'r',
                HeaderType::Server => name.len() == 6 && name[0] == 's',
                HeaderType::Session => name.len() == 7 && name[0] == 's',
                HeaderType::Subscription => name.len() == 12 && name[0] == 's',
                HeaderType::Transaction => name.len() == 11 && name[0] == 't',
                HeaderType::Version => name.len() == 7 && name[0] == 'v',
            }
        }),
{
    let name = header.spec_name();
    match header {
        HeaderType::Ack => reveal_strlit("ack"),
        HeaderType::AcceptVersion => reveal_strlit("accept-version"),
        HeaderType::ContentLength => reveal_strlit("content-length"),
        HeaderType::ContentType => reveal_strlit("content-type"),
        HeaderType::Destination => reveal_strlit("destination"),
        HeaderType::HeartBeat => reveal_strlit("heart-beat"),
        HeaderType::Host => reveal_strlit("host"),
        HeaderType::Id => reveal_strlit("id"),
        HeaderType::Login => reveal_strlit("login"),
        HeaderType::Message => reveal_strlit("message"),
        HeaderType::MessageId => reveal_strlit("message-id"),
        HeaderType::Passcode => reveal_strlit("passcode"),
        HeaderType::Receipt => reveal_strlit("receipt"),
        HeaderType::ReceiptId => reveal_strlit("receipt-id"),
        HeaderType::Server => reveal_strlit("server"),
        HeaderType::Session => reveal_strlit("session"),
        HeaderType::Subscription => reveal_strlit("subscription"),
        HeaderType::Transaction => reveal_strlit("transaction"),
        HeaderType::Version => reveal_strlit("version"),
    }
    assert(is_ascii_chars(name));
    is_ascii_chars_encode_utf8(name);
    assert forall|i: int| 0 <= i < header.spec_name_bytes().len() implies is_name_byte(
        #[trigger] header.spec_name_bytes()[i],
    ) by {
        assert(name[i] as u8 == encode_utf8(name)[i]);
    }
}

/// The name of a header can stand in a header line as it is, and it is the
/// name of that header and of no other.
pub proof fn lemma_names(header: HeaderType)
    ensures
        spec_plain(header.spec_name_bytes()),
        HeaderType::spec_from_name(header.spec_name_bytes()) == Some(header),
{
    reveal(HeaderType::spec_from_name);
    reveal(spec_plain);
    lemma_name_shape(HeaderType::Ack);
    lemma_name_shape(HeaderType::AcceptVersion);
    lemma_name_shape(HeaderType::ContentLength);
    lemma_name_shape(HeaderType::ContentType);
    lemma_name_shape(HeaderType::Destination);
    lemma_name_shape(HeaderType::HeartBeat);
    lemma_name_shape(HeaderType::Host);
    lemma_name_shape(HeaderType::Id);
    lemma_name_shape(HeaderType::Login);
    lemma_name_shape(HeaderType::Message);
    lemma_name_shape(HeaderType::MessageId);
    lemma_name_shape(HeaderType::Passcode);
    lemma_name_shape(HeaderType::Receipt);
    lemma_name_shape(HeaderType::ReceiptId);
    lemma_name_shape(HeaderType::Server);
    lemma_name_shape(HeaderType::Session);
    lemma_name_shape(HeaderType::Subscription);
    lemma_name_shape(HeaderType::Transaction);
    lemma_name_shape(HeaderType::Version);
    encode_utf8_valid_utf8(header.spec_name());
}

/// The line `name:value`.
pub fn header_line(name: &str, value: &str) -> (line: String)
    ensures
        encode_utf8(line@) == encode_utf8(name@) + seq![COLON] + encode_utf8(value@),
{
    let line = name.to_owned().concat(":").concat(value);
    proof {
        reveal_strlit(":");
        lemma_encode_concat(name@ + ":"@, value@);
        lemma_encode_concat(name@, ":"@);
        assert(":"@ =~= seq![':']);
        assert(is_ascii_chars(":"@));
        is_ascii_chars_encode_utf8(":"@);
        assert(encode_utf8(":"@) =~= seq![COLON]);
    }
    line
}

/// A header that knows its name and its value, and can be written as a line
/// of a frame.
pub trait HeaderValue<T> {
    /// The bytes of the header's name.
    spec fn spec_header_name(&self) -> Seq<u8>;

    /// The bytes of the header's value, as a frame holds them before
    /// escaping.
    spec fn spec_value_text(&self) -> Seq<u8>;

    /// The value of the header.
    spec fn spec_value(&self) -> T;

    /// The type of the header, or `None` for a custom header, which has a
    /// name and no type.
    spec fn spec_header_type(&self) -> Option<HeaderType>;

    fn header_type(&self) -> (header: Option<HeaderType>)
        ensures
            header == self.spec_header_type(),
            header matches Some(known) ==> self.spec_header_name() == known.spec_name_bytes(),
    ;

    fn header_name(&self) -> (name: &str)
        ensures
            encode_utf8(name@) == self.spec_header_name(),
    ;

    fn value(&self) -> (value: &T)
        ensures
            *value == self.spec_value(),
    ;

    /// The line `name:value`.
    fn to_string(&self) -> (line: String)
        ensures
            encode_utf8(line@) == self.spec_header_name() + seq![COLON] + self.spec_value_text(),
    ;
}

/// The parts of `input` before and after the first `delim`, which is an
/// ASCII byte, or nothing where `input` has none.
pub fn split_once(input: &str, delim: u8) -> (r: Option<(&str, &str)>)
    requires
        delim < 0x80,
    ensures
        ({
            let text = encode_utf8(input@);
            let at = spec_find(text, delim, 0);
            match r {
                Some((before, after)) => {
                    &&& at < text.len()
                    &&& encode_utf8(before@) == text.subrange(0, at)
                    &&& encode_utf8(after@) == text.subrange(at + 1, text.len() as int)
                },
                None => at >= text.len(),
            }
        }),
{
    let bytes = input.as_bytes();
    let at = find(bytes, delim, 0);
    if at >= bytes.len() {
        return None;
    }
    proof {
        lemma_find(bytes@, delim, 0);
    }
    Some(split_around(input, at))
}

/// A name and a value, as one line of a header section holds them.
#[derive(Eq, PartialEq, Debug, Clone)]
pub struct NameValue {
    pub name: String,
    pub value: String,
}

impl NameValue {
    /// The line `name:value`.
    pub open spec fn spec_text(&self) -> Seq<u8> {
        encode_utf8(self.name@) + seq![COLON] + encode_utf8(self.value@)
    }

    /// The line `name:value`.
    pub fn to_string(&self) -> (text: String)
        ensures
            encode_utf8(text@) == self.spec_text(),
    {
        header_line(self.name.as_str(), self.value.as_str())
    }

    /// Reads a line `name:value`. The name ends at the first colon of the
    /// line; a line without a colon is refused.
    pub fn from_str(input: &str) -> (r: Result<NameValue, StompParseError>)
        ensures
            ({
                let text = encode_utf8(input@);
                let at = spec_find(text, COLON, 0);
                match r {
                    Ok(pair) => {
                        &&& at < text.len()
                        &&& encode_utf8(pair.name@) == text.subrange(0, at)
                        &&& encode_utf8(pair.value@) == text.subrange(at + 1, text.len() as int)
                    },
                    Err(e) => {
                        &&& at >= text.len()
                        &&& e.spec_kind() == Failure::MalformedHeaderLine
                        &&& e.spec_message() == "Poorly formatted header: "@ + input@
                    },
                }
            }),
    {
        match split_once(input, COLON) {
            Some((name, value)) => Ok(
                NameValue { name: name.to_owned(), value: value.to_owned() },
            ),
            None => Err(
                StompParseError::with_message(
                    ErrorKind::MalformedHeaderLine,
                    "Poorly formatted header: ".to_owned().concat(input),
                ),
            ),
        }
    }
}

/// A pair of numbers which say at what interval, in milliseconds, the sender
/// of the frame can supply a heartbeat, and at what interval it expects one.
#[derive(Eq, PartialEq, Debug, Clone, Copy, Structural)]
pub struct HeartBeatIntervalls {
    pub supplied: u32,
    pub expected: u32,
}

impl Default for HeartBeatIntervalls {
    fn default() -> (r: HeartBeatIntervalls)
        ensures
            r == (HeartBeatIntervalls { supplied: 0, expected: 0 }),
    {
        HeartBeatIntervalls { supplied: 0, expected: 0 }
    }
}

impl HeartBeatIntervalls {
    pub fn new(supplied: u32, expected: u32) -> (r: HeartBeatIntervalls)
        ensures
            r == (HeartBeatIntervalls { supplied, expected }),
    {
        HeartBeatIntervalls { expected, supplied }
    }

    /// The text `supplied,expected`, both numbers in decimal.
    pub open spec fn spec_text(self) -> Seq<u8> {
        spec_decimal(self.supplied as nat) + seq![COMMA] + spec_decimal(self.expected as nat)
    }

    /// The intervals that a text `supplied,expected` writes, where it is two
    /// decimal numbers around its first comma.
    pub open spec fn spec_from_text(text: Seq<u8>) -> Option<HeartBeatIntervalls> {
        let at = spec_find(text, COMMA, 0);
        if at >= text.len() {
            None
        } else {
            match (
                spec_parse_u32(text.subrange(0, at)),
                spec_parse_u32(text.subrange(at + 1, text.len() as int)),
            ) {
                (Some(supplied), Some(expected)) => Some(
                    HeartBeatIntervalls { supplied, expected },
                ),
                _ => None,
            }
        }
    }

    /// The text `supplied,expected`.
    pub fn to_string(&self) -> (text: String)
        ensures
            encode_utf8(text@) == self.spec_text(),
    {
        let supplied = decimal_string(self.supplied);
        let expected = decimal_string(self.expected);
        let text = supplied.concat(",").concat(expected.as_str());
        proof {
            reveal_strlit(",");
            lemma_encode_concat(supplied@ + ","@, expected@);
            lemma_encode_concat(supplied@, ","@);
            assert(","@ =~= seq![',']);
            assert(is_ascii_chars(","@));
            is_ascii_chars_encode_utf8(","@);
            assert(encode_utf8(","@) =~= seq![COMMA]);
        }
        text
    }

    /// Reads the text `supplied,expected`.
    pub fn from_str(input: &str) -> (r: Result<HeartBeatIntervalls, StompParseError>)
        ensures
            match r {
                Ok(intervalls) => HeartBeatIntervalls::spec_from_text(encode_utf8(input@)) == Some(
                    intervalls,
                ),
                Err(e) => {
                    &&& HeartBeatIntervalls::spec_from_text(encode_utf8(input@)) is None
                    &&& e.spec_kind() == Failure::InvalidHeaderValue(HeaderType::HeartBeat)
                    &&& e.spec_message() == "Poorly formatted heartbeats: "@ + input@
                },
            },
    {
        match split_once(input, COMMA) {
            Some((supplied, expected)) => {
                match (parse_u32(supplied.as_bytes()), parse_u32(expected.as_bytes())) {
                    (Some(supplied), Some(expected)) => {
                        return Ok(HeartBeatIntervalls { supplied, expected });
                    },
                    _ => {},
                }
            },
            None => {},
        }
        Err(
            StompParseError::with_message(
                ErrorKind::InvalidHeaderValue(HeaderType::HeartBeat),
                "Poorly formatted heartbeats: ".to_owned().concat(input),
            ),
        )
    }
}

/// How the messages of a subscription are acknowledged.
#[derive(Eq, PartialEq, Debug, Clone, Copy, Structural)]
pub enum AckType {
    /// The client need not send acknowledgements: a message counts as
    /// received as soon as it is sent.
    Auto,
    /// The client acknowledges a message and, with it, all earlier ones.
    Client,
    /// The client acknowledges each message by itself.
    ClientIndividual,
}

impl AckType {
    /// The text of the mode in an `ack` header.
    pub open spec fn spec_str(self) -> Seq<char> {
        match self {
            AckType::Auto => "auto"@,
            AckType::Client => "client"@,
            AckType::ClientIndividual => "client-individual"@,
        }
    }

    /// The bytes of the mode in an `ack` header.
    pub open spec fn spec_text(self) -> Seq<u8> {
        encode_utf8(self.spec_str())
    }

    /// The mode that a text names, where it is exactly one of the three.
    pub open spec fn spec_from_text(text: Seq<u8>) -> Option<AckType> {
        if text == AckType::Auto.spec_text() {
            Some(AckType::Auto)
        } else if text == AckType::Client.spec_text() {
            Some(AckType::Client)
        } else if text == AckType::ClientIndividual.spec_text() {
            Some(AckType::ClientIndividual)
        } else {
            None
        }
    }

    /// The text of the mode in an `ack` header.
    pub fn as_str(&self) -> (text: &'static str)
        ensures
            text@ == self.spec_str(),
    {
        match self {
            AckType::Auto => "auto",
            AckType::Client => "client",
            AckType::ClientIndividual => "client-individual",
        }
    }

    /// The text of the mode in an `ack` header.
    pub fn to_string(&self) -> (text: String)
        ensures
            encode_utf8(text@) == self.spec_text(),
    {
        self.as_str().to_owned()
    }

    /// Reads the text of an `ack` header.
    pub fn from_str(input: &str) -> (r: Result<AckType, StompParseError>)
        ensures
            match r {
                Ok(ack) => AckType::spec_from_text(encode_utf8(input@)) == Some(ack),
                Err(e) => {
                    &&& AckType::spec_from_text(encode_utf8(input@)) is None
                    &&& e.spec_kind() == Failure::InvalidHeaderValue(HeaderType::Ack)
                    &&& e.spec_message() == "Unknown ack-type: "@ + input@
                },
            },
    {
        let bytes = input.as_bytes();
        if bytes_eq(bytes, AckType::Auto.as_str().as_bytes()) {
            Ok(AckType::Auto)
        } else if bytes_eq(bytes, AckType::Client.as_str().as_bytes()) {
            Ok(AckType::Client)
        } else if bytes_eq(bytes, AckType::ClientIndividual.as_str().as_bytes()) {
            Ok(AckType::ClientIndividual)
        } else {
            Err(
                StompParseError::with_message(
                    ErrorKind::InvalidHeaderValue(HeaderType::Ack),
                    "Unknown ack-type: ".to_owned().concat(input),
                ),
            )
        }
    }
}

/// A version of the protocol as specifications speak of it: one of the three
/// that this library knows, or the bytes of another.
pub enum VersionModel {
    V1_0,
    V1_1,
    V1_2,
    Unknown(Seq<u8>),
}

impl VersionModel {
    /// The text of the version in a header.
    pub open spec fn spec_text(self) -> Seq<u8> {
        match self {
            VersionModel::V1_0 => encode_utf8("1.0"@),
            VersionModel::V1_1 => encode_utf8("1.1"@),
            VersionModel::V1_2 => encode_utf8("1.2"@),
            VersionModel::Unknown(text) => text,
        }
    }

    /// The version that a text names. A text that names none of the known
    /// versions is kept as it is.
    pub open spec fn spec_from_text(text: Seq<u8>) -> VersionModel {
        if text == VersionModel::V1_0.spec_text() {
            VersionModel::V1_0
        } else if text == VersionModel::V1_1.spec_text() {
            VersionModel::V1_1
        } else if text == VersionModel::V1_2.spec_text() {
            VersionModel::V1_2
        } else {
            VersionModel::Unknown(text)
        }
    }
}

/// The versions of the protocol that client and server can agree on.
#[allow(non_camel_case_types)]
#[derive(Debug, Eq, PartialEq, Clone)]
pub enum StompVersion {
    V1_0,
    V1_1,
    V1_2,
    Unknown(String),
}

impl View for StompVersion {
    type V = VersionModel;

    open spec fn view(&self) -> VersionModel {
        match *self {
            StompVersion::V1_0 => VersionModel::V1_0,
            StompVersion::V1_1 => VersionModel::V1_1,
            StompVersion::V1_2 => VersionModel::V1_2,
            StompVersion::Unknown(text) => VersionModel::Unknown(encode_utf8(text@)),
        }
    }
}

impl StompVersion {
    /// The text of the version in a header. An unknown version is written
    /// as the text that it was read from.
    pub fn to_string(&self) -> (text: String)
        ensures
            encode_utf8(text@) == self@.spec_text(),
    {
        match self {
            StompVersion::V1_0 => "1.0".to_owned(),
            StompVersion::V1_1 => "1.1".to_owned(),
            StompVersion::V1_2 => "1.2".to_owned(),
            StompVersion::Unknown(text) => text.clone(),
        }
    }

    /// Reads the text of a version. This never fails: a text that names none
    /// of the known versions gives `Unknown` with that text.
    pub fn from_str(input: &str) -> (r: Result<StompVersion, StompParseError>)
        ensures
            r matches Ok(version) && version@ == VersionModel::spec_from_text(encode_utf8(input@)),
    {
        let bytes = input.as_bytes();
        if bytes_eq(bytes, "1.0".as_bytes()) {
            Ok(StompVersion::V1_0)
        } else if bytes_eq(bytes, "1.1".as_bytes()) {
            Ok(StompVersion::V1_1)
        } else if bytes_eq(bytes, "1.2".as_bytes()) {
            Ok(StompVersion::V1_2)
        } else {
            Ok(StompVersion::Unknown(input.to_owned()))
        }
    }
}

/// The versions that a comma-separated list names, in the order of the list.
/// A text without a comma is a list of one item, the empty text too.
pub open spec fn spec_versions_from_text(text: Seq<u8>) -> Seq<VersionModel>
    decreases text.len(),
{
    let at = spec_find(text, COMMA, 0);
    if 0 <= at < text.len() {
        seq![VersionModel::spec_from_text(text.subrange(0, at))] + spec_versions_from_text(
            text.subrange(at + 1, text.len() as int),
        )
    } else {
        seq![VersionModel::spec_from_text(text)]
    }
}

/// The comma-separated list of the given versions.
pub open spec fn spec_versions_text(versions: Seq<VersionModel>) -> Seq<u8>
    decreases versions.len(),
{
    if versions.len() == 0 {
        Seq::empty()
    } else if versions.len() == 1 {
        versions[0].spec_text()
    } else {
        versions[0].spec_text() + seq![COMMA] + spec_versions_text(versions.drop_first())
    }
}

/// The comma-separated list of the given texts.
pub open spec fn spec_join(items: Seq<Seq<u8>>) -> Seq<u8>
    decreases items.len(),
{
    if items.len() == 0 {
        Seq::empty()
    } else if items.len() == 1 {
        items[0]
    } else {
        items[0] + seq![COMMA] + spec_join(items.drop_first())
    }
}

/// A list of versions is read item by item, in the order of the list: the
/// list of one or more texts without a comma gives, for each text in turn,
/// the version that the text names, `Unknown` for a text that names none.
/// Reading such a list never fails.
pub proof fn lemma_versions_in_order(items: Seq<Seq<u8>>)
    requires
        items.len() > 0,
        forall|i: int, k: int|
            0 <= i < items.len() && 0 <= k < items[i].len() ==> items[i][k] != COMMA,
    ensures
        spec_versions_from_text(spec_join(items)) == Seq::new(
            items.len(),
            |i: int| VersionModel::spec_from_text(items[i]),
        ),
        spec_value_from_text(HeaderType::AcceptVersion, spec_join(items)) == Some(
            ValueModel::Versions(
                Seq::new(items.len(), |i: int| VersionModel::spec_from_text(items[i])),
            ),
        ),
    decreases items.len(),
{
    reveal(spec_value_from_text);
    let text = spec_join(items);
    let expected = Seq::new(items.len(), |i: int| VersionModel::spec_from_text(items[i]));
    if items.len() == 1 {
        lemma_find_unique(text, COMMA, 0, text.len() as int);
        assert(spec_versions_from_text(text) =~= expected);
    } else {
        let first = items[0];
        let rest = items.drop_first();
        lemma_find_unique(text, COMMA, 0, first.len() as int);
        assert(text.subrange(0, first.len() as int) =~= first);
        assert(text.subrange(first.len() as int + 1, text.len() as int) =~= spec_join(rest));
        assert forall|i: int, k: int|
            0 <= i < rest.len() && 0 <= k < rest[i].len() implies rest[i][k] != COMMA by {
            assert(rest[i] == items[i + 1]);
        }
        lemma_versions_in_order(rest);
        assert(spec_versions_from_text(text) =~= expected);
    }
}

/// Every text is a list of versions: an `accept-version` header is never
/// refused for its value.
pub proof fn lemma_versions_never_fail(text: Seq<u8>)
    ensures
        spec_value_from_text(HeaderType::AcceptVersion, text) is Some,
        spec_versions_from_text(text).len() > 0,
{
    reveal(spec_value_from_text);
}

/// A list of versions, as an `accept-version` header carries it.
#[derive(Eq, PartialEq, Debug, Clone)]
pub struct StompVersions(pub Vec<StompVersion>);

impl View for StompVersions {
    type V = Seq<VersionModel>;

    open spec fn view(&self) -> Seq<VersionModel> {
        Seq::new(self.0@.len(), |i: int| self.0@[i]@)
    }
}

impl std::ops::Deref for StompVersions {
    type Target = Vec<StompVersion>;

    fn deref(&self) -> (versions: &Vec<StompVersion>)
        ensures
            *versions == self.0,
    {
        &self.0
    }
}

impl StompVersions {
    /// The versions, separated by commas.
    pub fn to_string(&self) -> (text: String)
        ensures
            encode_utf8(text@) == spec_versions_text(self@),
    {
        let mut text = String::new();
        let mut i: usize = self.0.len();
        let ghost all = self@;
        proof {
            assert(all.subrange(i as int, all.len() as int) =~= Seq::<VersionModel>::empty());
        }
        while i > 0
            invariant
                i <= self.0@.len(),
                all == self@,
                encode_utf8(text@) == spec_versions_text(all.subrange(i as int, all.len() as int)),
            decreases i,
        {
            i -= 1;
            let ghost rest = all.subrange(i + 1, all.len() as int);
            let ghost now = all.subrange(i as int, all.len() as int);
            let item = self.0[i].to_string();
            proof {
                assert(now.drop_first() =~= rest);
                assert(now[0] == self.0@[i as int]@);
            }
            if i + 1 < self.0.len() {
                let ghost tail = text@;
                text = item.concat(",").concat(text.as_str());
                proof {
                    reveal_strlit(",");
                    lemma_encode_concat(item@ + ","@, tail);
                    lemma_encode_concat(item@, ","@);
                    assert(","@ =~= seq![',']);
                    assert(is_ascii_chars(","@));
                    is_ascii_chars_encode_utf8(","@);
                    assert(encode_utf8(","@) =~= seq![COMMA]);
                }
            } else {
                text = item;
            }
        }
        proof {
            assert(all.subrange(0, all.len() as int) =~= all);
        }
        text
    }

    /// Reads a comma-separated list of versions. This never fails: an item
    /// that names none of the known versions gives `Unknown` with its text.
    pub fn from_str(input: &str) -> (r: Result<StompVersions, StompParseError>)
        ensures
            r matches Ok(versions) && versions@ == spec_versions_from_text(encode_utf8(input@)),
    {
        let mut versions: Vec<StompVersion> = Vec::new();
        let mut rest: &str = input;
        let ghost whole = spec_versions_from_text(encode_utf8(input@));
        loop
            invariant
                whole == spec_versions_from_text(encode_utf8(input@)),
                whole == Seq::new(versions@.len(), |i: int| versions@[i]@)
                    + spec_versions_from_text(encode_utf8(rest@)),
            decreases encode_utf8(rest@).len(),
        {
            let bytes = rest.as_bytes();
            let at = find(bytes, COMMA, 0);
            let ghost before = Seq::new(versions@.len(), |i: int| versions@[i]@);
            if at >= bytes.len() {
                let last = match StompVersion::from_str(rest) {
                    Ok(version) => version,
                    Err(_) => unreached(),
                };
                versions.push(last);
                proof {
                    assert(Seq::new(versions@.len(), |i: int| versions@[i]@) =~= before + seq![
                        last@,
                    ]);
                }
                return Ok(StompVersions(versions));
            }
            proof {
                lemma_find(bytes@, COMMA, 0);
            }
            let (item, after) = split_around(rest, at);
            let version = match StompVersion::from_str(item) {
                Ok(version) => version,
                Err(_) => unreached(),
            };
            versions.push(version);
            proof {
                assert(Seq::new(versions@.len(), |i: int| versions@[i]@) =~= before + seq![
                    version@,
                ]);
            }
            rest = after;
        }
    }
}

/// The value of a header as specifications speak of it.
pub enum ValueModel {
    /// The UTF-8 bytes of a text.
    Text(Seq<u8>),
    /// The number of a `content-length` header.
    Length(u32),
    /// The mode of an `ack` header.
    Ack(AckType),
    /// The version of a `version` header.
    Version(VersionModel),
    /// The list of an `accept-version` header.
    Versions(Seq<VersionModel>),
    /// The intervals of a `heart-beat` header.
    HeartBeat(HeartBeatIntervalls),
}

impl ValueModel {
    /// The text of the value in a header line.
    pub open spec fn spec_text(self) -> Seq<u8> {
        match self {
            ValueModel::Text(text) => text,
            ValueModel::Length(n) => spec_decimal(n as nat),
            ValueModel::Ack(ack) => ack.spec_text(),
            ValueModel::Version(version) => version.spec_text(),
            ValueModel::Versions(versions) => spec_versions_text(versions),
            ValueModel::HeartBeat(intervalls) => intervalls.spec_text(),
        }
    }
}

/// The value that a text gives to a header of the given type, where the
/// text is one that the type accepts.
#[verifier::opaque]
pub open spec fn spec_value_from_text(header: HeaderType, text: Seq<u8>) -> Option<ValueModel> {
    match header {
        HeaderType::Ack => match AckType::spec_from_text(text) {
            Some(ack) => Some(ValueModel::Ack(ack)),
            None => None,
        },
        HeaderType::AcceptVersion => Some(ValueModel::Versions(spec_versions_from_text(text))),
        HeaderType::ContentLength => match spec_parse_u32(text) {
            Some(n) => Some(ValueModel::Length(n)),
            None => None,
        },
        HeaderType::HeartBeat => match HeartBeatIntervalls::spec_from_text(text) {
            Some(intervalls) => Some(ValueModel::HeartBeat(intervalls)),
            None => None,
        },
        HeaderType::Version => Some(ValueModel::Version(VersionModel::spec_from_text(text))),
        _ => Some(ValueModel::Text(text)),
    }
}

/// A header as specifications speak of it.
pub enum HeaderModel {
    /// A header that the library knows by name, with its typed value.
    Known(HeaderType, ValueModel),
    /// Any other header: the bytes of its name and of its value.
    Custom(Seq<u8>, Seq<u8>),
}

impl HeaderModel {
    /// The line `name:value` of the header, without a line ending.
    pub open spec fn spec_line(self) -> Seq<u8> {
        match self {
            HeaderModel::Known(header, value) => header.spec_name_bytes() + seq![COLON]
                + value.spec_text(),
            HeaderModel::Custom(name, value) => name + seq![COLON] + value,
        }
    }
}

} // verus!
