//! The commands of the protocol and, for each, the headers and the body that
//! its frames take.
use super::headers::{AckType, HeaderType, HeartBeatIntervalls, ValueModel};
use crate::parser::headers::{headers_parser, HeadersGrammar, HeadersParser};
use crate::text::bytes_eq;
use vstd::prelude::*;
use vstd::utf8::*;

verus! {

/// Who sends a frame.
#[derive(Debug, Clone, Copy, PartialEq, Eq, Structural)]
pub enum Origin {
    Client,
    Server,
}

/// The commands of the protocol.
#[derive(Debug, Clone, Copy, PartialEq, Eq, Structural)]
pub enum Command {
    /// `ABORT` aborts a transaction that has begun but is not yet committed.
    Abort,
    /// `ACK` acknowledges a message.
    Ack,
    /// `BEGIN` begins a transaction.
    Begin,
    /// `COMMIT` commits a transaction.
    Commit,
    /// `CONNECT` opens a session; `STOMP` is a second keyword for it.
    Connect,
    /// `DISCONNECT` ends a session.
    Disconnect,
    /// `NACK` says that the client did not process a message.
    Nack,
    /// `SEND` sends a message to a destination.
    Send,
    /// `SUBSCRIBE` subscribes to a destination.
    Subscribe,
    /// `UNSUBSCRIBE` ends a subscription.
    Unsubscribe,
    /// `CONNECTED` accepts a session.
    Connected,
    /// `RECEIPT` confirms that a frame of the client was processed.
    Receipt,
    /// `ERROR` reports that something went wrong.
    Error,
    /// `MESSAGE` conveys a message of a subscription.
    Message,
}

impl Command {
    /// The keyword of the command, as it stands on the first line of a frame.
    pub open spec fn spec_keyword(self) -> Seq<char> {
        match self {
            Command::Abort => "ABORT"@,
            Command::Ack => "ACK"@,
            Command::Begin => "BEGIN"@,
            Command::Commit => "COMMIT"@,
            Command::Connect => "CONNECT"@,
            Command::Disconnect => "DISCONNECT"@,
            Command::Nack => "NACK"@,
            Command::Send => "SEND"@,
            Command::Subscribe => "SUBSCRIBE"@,
            Command::Unsubscribe => "UNSUBSCRIBE"@,
            Command::Connected => "CONNECTED"@,
            Command::Receipt => "RECEIPT"@,
            Command::Error => "ERROR"@,
            Command::Message => "MESSAGE"@,
        }
    }

    /// Who sends frames of this command.
    pub open spec fn spec_origin(self) -> Origin {
        match self {
            Command::Connected
            | Command::Receipt
            | Command::Error
            | Command::Message => Origin::Server,
            _ => Origin::Client,
        }
    }

    /// The headers that a frame of this command must have, in the order in
    /// which they are written.
    pub open spec fn spec_required(self) -> Seq<HeaderType> {
        match self {
            Command::Abort => seq![HeaderType::Transaction],
            Command::Ack => seq![HeaderType::Id, HeaderType::Transaction],
            Command::Begin => seq![HeaderType::Transaction],
            Command::Commit => seq![HeaderType::Transaction],
            Command::Connect => seq![HeaderType::Host, HeaderType::AcceptVersion],
            Command::Disconnect => seq![HeaderType::Receipt],
            Command::Nack => seq![HeaderType::Id, HeaderType::Transaction],
            Command::Send => seq![HeaderType::Destination],
            Command::Subscribe => seq![HeaderType::Destination, HeaderType::Id],
            Command::Unsubscribe => seq![HeaderType::Id],
            Command::Connected => seq![HeaderType::Version],
            Command::Receipt => seq![HeaderType::ReceiptId],
            Command::Error => Seq::empty(),
            Command::Message => seq![
                HeaderType::MessageId,
                HeaderType::Destination,
                HeaderType::Subscription,
            ],
        }
    }

    /// The headers that a frame of this command may have, in the order in
    /// which they are written.
    pub open spec fn spec_optional(self) -> Seq<HeaderType> {
        match self {
            Command::Abort => Seq::empty(),
            Command::Ack => seq![HeaderType::Receipt],
            Command::Begin => seq![HeaderType::Receipt],
            Command::Commit => seq![HeaderType::Receipt],
            Command::Connect => seq![
                HeaderType::HeartBeat,
                HeaderType::Login,
                HeaderType::Passcode,
            ],
            Command::Disconnect => Seq::empty(),
            Command::Nack => seq![HeaderType::Receipt],
            Command::Send => seq![
                HeaderType::ContentType,
                HeaderType::ContentLength,
                HeaderType::Transaction,
                HeaderType::Receipt,
            ],
            Command::Subscribe => seq![HeaderType::Ack, HeaderType::Receipt],
            Command::Unsubscribe => seq![HeaderType::Receipt],
            Command::Connected => seq![
                HeaderType::HeartBeat,
                HeaderType::Session,
                HeaderType::Server,
            ],
            Command::Receipt => Seq::empty(),
            Command::Error => Seq::empty(),
            Command::Message => seq![HeaderType::ContentType, HeaderType::ContentLength],
        }
    }

    /// Whether a frame of this command takes headers of any other name.
    pub open spec fn spec_allows_custom(self) -> bool {
        match self {
            Command::Send | Command::Subscribe | Command::Error => true,
            _ => false,
        }
    }

    /// Whether a frame of this command has a body.
    pub open spec fn spec_allows_body(self) -> bool {
        match self {
            Command::Send | Command::Error | Command::Message => true,
            _ => false,
        }
    }

    /// The value that an optional header has in a frame without it: no
    /// heartbeats in either direction for `heart-beat` on `CONNECT`, and
    /// `auto` for `ack` on `SUBSCRIBE`. The other optional headers have none.
    pub open spec fn spec_default(self, header: HeaderType) -> Option<ValueModel> {
        match (self, header) {
            (Command::Connect, HeaderType::HeartBeat) => Some(
                ValueModel::HeartBeat(HeartBeatIntervalls { supplied: 0, expected: 0 }),
            ),
            (Command::Subscribe, HeaderType::Ack) => Some(ValueModel::Ack(AckType::Auto)),
            _ => None,
        }
    }

    /// The required headers, then the optional ones: the headers that a
    /// frame of this command has a place for.
    pub open spec fn spec_declared(self) -> Seq<HeaderType> {
        self.spec_required() + self.spec_optional()
    }

    /// The headers that the header section of a frame of this command takes.
    pub open spec fn spec_grammar(self) -> HeadersGrammar {
        HeadersGrammar {
            required: self.spec_required(),
            optional: self.spec_optional(),
            allows_custom: self.spec_allows_custom(),
        }
    }

    /// The command of the given origin that the keyword selects. Keywords are
    /// compared byte for byte, so `connect` selects nothing.
    #[verifier::opaque]
    pub open spec fn spec_lookup(origin: Origin, keyword: Seq<u8>) -> Option<Command> {
        match origin {
            Origin::Client => if keyword == encode_utf8("ABORT"@) {
                Some(Command::Abort)
            } else if keyword == encode_utf8("ACK"@) {
                Some(Command::Ack)
            } else if keyword == encode_utf8("BEGIN"@) {
                Some(Command::Begin)
            } else if keyword == encode_utf8("COMMIT"@) {
                Some(Command::Commit)
            } else if keyword == encode_utf8("CONNECT"@) {
                Some(Command::Connect)
            } else if keyword == encode_utf8("STOMP"@) {
                Some(Command::Connect)
            } else if keyword == encode_utf8("DISCONNECT"@) {
                Some(Command::Disconnect)
            } else if keyword == encode_utf8("NACK"@) {
                Some(Command::Nack)
            } else if keyword == encode_utf8("SEND"@) {
                Some(Command::Send)
            } else if keyword == encode_utf8("SUBSCRIBE"@) {
                Some(Command::Subscribe)
            } else if keyword == encode_utf8("UNSUBSCRIBE"@) {
                Some(Command::Unsubscribe)
            } else {
                None
            },
            Origin::Server => if keyword == encode_utf8("CONNECTED"@) {
                Some(Command::Connected)
            } else if keyword == encode_utf8("RECEIPT"@) {
                Some(Command::Receipt)
            } else if keyword == encode_utf8("ERROR"@) {
                Some(Command::Error)
            } else if keyword == encode_utf8("MESSAGE"@) {
                Some(Command::Message)
            } else {
                None
            },
        }
    }

    /// The keyword of the command.
    pub fn keyword(&self) -> (keyword: &'static str)
        ensures
            keyword@ == self.spec_keyword(),
    {
        match self {
            Command::Abort => "ABORT",
            Command::Ack => "ACK",
            Command::Begin => "BEGIN",
            Command::Commit => "COMMIT",
            Command::Connect => "CONNECT",
            Command::Disconnect => "DISCONNECT",
            Command::Nack => "NACK",
            Command::Send => "SEND",
            Command::Subscribe => "SUBSCRIBE",
            Command::Unsubscribe => "UNSUBSCRIBE",
            Command::Connected => "CONNECTED",
            Command::Receipt => "RECEIPT",
            Command::Error => "ERROR",
            Command::Message => "MESSAGE",
        }
    }

    /// Who sends frames of this command.
    pub fn origin(&self) -> (origin: Origin)
        ensures
            origin == self.spec_origin(),
    {
        match self {
            Command::Connected
            | Command::Receipt
            | Command::Error
            | Command::Message => Origin::Server,
            _ => Origin::Client,
        }
    }

    /// The headers that a frame of this command must have.
    pub fn required(&self) -> (headers: Vec<HeaderType>)
        ensures
            headers@ == self.spec_required(),
    {
        let headers = match self {
            Command::Abort => vec![HeaderType::Transaction],
            Command::Ack => vec![HeaderType::Id, HeaderType::Transaction],
            Command::Begin => vec![HeaderType::Transaction],
            Command::Commit => vec![HeaderType::Transaction],
            Command::Connect => vec![HeaderType::Host, HeaderType::AcceptVersion],
            Command::Disconnect => vec![HeaderType::Receipt],
            Command::Nack => vec![HeaderType::Id, HeaderType::Transaction],
            Command::Send => vec![HeaderType::Destination],
            Command::Subscribe => vec![HeaderType::Destination, HeaderType::Id],
            Command::Unsubscribe => vec![HeaderType::Id],
            Command::Connected => vec![HeaderType::Version],
            Command::Receipt => vec![HeaderType::ReceiptId],
            Command::Error => Vec::new(),
            Command::Message => vec![
                HeaderType::MessageId,
                HeaderType::Destination,
                HeaderType::Subscription,
            ],
        };
        assert(headers@ =~= self.spec_required());
        headers
    }

    /// The headers that a frame of this command may have.
    pub fn optional(&self) -> (headers: Vec<HeaderType>)
        ensures
            headers@ == self.spec_optional(),
    {
        let headers = match self {
            Command::Abort => Vec::new(),
            Command::Ack => vec![HeaderType::Receipt],
            Command::Begin => vec![HeaderType::Receipt],
            Command::Commit => vec![HeaderType::Receipt],
            Command::Connect => vec![
                HeaderType::HeartBeat,
                HeaderType::Login,
                HeaderType::Passcode,
            ],
            Command::Disconnect => Vec::new(),
            Command::Nack => vec![HeaderType::Receipt],
            Command::Send => vec![
                HeaderType::ContentType,
                HeaderType::ContentLength,
                HeaderType::Transaction,
                HeaderType::Receipt,
            ],
            Command::Subscribe => vec![HeaderType::Ack, HeaderType::Receipt],
            Command::Unsubscribe => vec![HeaderType::Receipt],
            Command::Connected => vec![
                HeaderType::HeartBeat,
                HeaderType::Session,
                HeaderType::Server,
            ],
            Command::Receipt => Vec::new(),
            Command::Error => Vec::new(),
            Command::Message => vec![HeaderType::ContentType, HeaderType::ContentLength],
        };
        assert(headers@ =~= self.spec_optional());
        headers
    }

    /// The required headers, then the optional ones.
    pub fn declared(&self) -> (headers: Vec<HeaderType>)
        ensures
            headers@ == self.spec_declared(),
    {
        let mut headers = self.required();
        let mut optional = self.optional();
        headers.append(&mut optional);
        headers
    }

    /// Whether a frame of this command takes headers of any other name.
    pub fn allows_custom(&self) -> (r: bool)
        ensures
            r == self.spec_allows_custom(),
    {
        match self {
            Command::Send | Command::Subscribe | Command::Error => true,
            _ => false,
        }
    }

    /// Whether a frame of this command has a body.
    pub fn allows_body(&self) -> (r: bool)
        ensures
            r == self.spec_allows_body(),
    {
        match self {
            Command::Send | Command::Error | Command::Message => true,
            _ => false,
        }
    }

    /// A parser for the header section of a frame of this command.
    pub fn headers_parser(&self) -> (parser: HeadersParser)
        ensures
            parser@ == self.spec_grammar(),
    {
        headers_parser(self.required(), self.optional(), self.allows_custom())
    }

    /// The command of the given origin that the keyword selects.
    pub fn lookup(origin: Origin, keyword: &[u8]) -> (r: Option<Command>)
        ensures
            r == Command::spec_lookup(origin, keyword@),
    {
        reveal(Command::spec_lookup);
        match origin {
            Origin::Client => if bytes_eq(keyword, "ABORT".as_bytes()) {
                Some(Command::Abort)
            } else if bytes_eq(keyword, "ACK".as_bytes()) {
                Some(Command::Ack)
            } else if bytes_eq(keyword, "BEGIN".as_bytes()) {
                Some(Command::Begin)
            } else if bytes_eq(keyword, "COMMIT".as_bytes()) {
                Some(Command::Commit)
            } else if bytes_eq(keyword, "CONNECT".as_bytes()) {
                Some(Command::Connect)
            } else if bytes_eq(keyword, "STOMP".as_bytes()) {
                Some(Command::Connect)
            } else if bytes_eq(keyword, "DISCONNECT".as_bytes()) {
                Some(Command::Disconnect)
            } else if bytes_eq(keyword, "NACK".as_bytes()) {
                Some(Command::Nack)
            } else if bytes_eq(keyword, "SEND".as_bytes()) {
                Some(Command::Send)
            } else if bytes_eq(keyword, "SUBSCRIBE".as_bytes()) {
                Some(Command::Subscribe)
            } else if bytes_eq(keyword, "UNSUBSCRIBE".as_bytes()) {
                Some(Command::Unsubscribe)
            } else {
                None
            },
            Origin::Server => if bytes_eq(keyword, "CONNECTED".as_bytes()) {
                Some(Command::Connected)
            } else if bytes_eq(keyword, "RECEIPT".as_bytes()) {
                Some(Command::Receipt)
            } else if bytes_eq(keyword, "ERROR".as_bytes()) {
                Some(Command::Error)
            } else if bytes_eq(keyword, "MESSAGE".as_bytes()) {
                Some(Command::Message)
            } else {
                None
            },
        }
    }
}

/// The length and the first byte of a keyword, and what its bytes are made
/// of: capital letters.
proof fn lemma_keyword_shape(command: Command)
    ensures
        encode_utf8(command.spec_keyword()).len() == command.spec_keyword().len(),
        encode_utf8(command.spec_keyword())[0] == command.spec_keyword()[0] as u8,
        forall|i: int|
            0 <= i < encode_utf8(command.spec_keyword()).len() ==> 0x41 <= #[trigger] encode_utf8(
                command.spec_keyword(),
            )[i] <= 0x5a,
        ({
            let keyword = command.spec_keyword();
            match command {
                Command::Abort => keyword.len() == 5 && keyword[0] == 'A',
                Command::Ack => keyword.len() == 3 && keyword[0] == 'A',
                Command::Begin => keyword.len() == 5 && keyword[0] == 'B',
                Command::Commit => keyword.len() == 6 && keyword[0] == 'C',
                Command::Connect => keyword.len() == 7 && keyword[0] == 'C',
                Command::Disconnect => keyword.len() == 10 && keyword[0] == 'D',
                Command::Nack => keyword.len() == 4 && keyword[0] == 'N',
                Command::Send => keyword.len() == 4 && keyword[0] == 'S',
                Command::Subscribe => keyword.len() == 9 && keyword[0] == 'S',
                Command::Unsubscribe => keyword.len() == 11 && keyword[0] == 'U',
                Command::Connected => keyword.len() == 9 && keyword[0] == 'C',
                Command::Receipt => keyword.len() == 7 && keyword[0] == 'R',
                Command::Error => keyword.len() == 5 && keyword[0] == 'E',
                Command::Message => keyword.len() == 7 && keyword[0] == 'M',
            }
        }),
        encode_utf8("STOMP"@).len() == 5,
        encode_utf8("STOMP"@)[0] == 0x53,
        forall|i: int| 0 <= i < 5 ==> 0x41 <= #[trigger] encode_utf8("STOMP"@)[i] <= 0x5a,
{
    let keyword = command.spec_keyword();
    match command {
        Command::Abort => reveal_strlit("ABORT"),
        Command::Ack => reveal_strlit("ACK"),
        Command::Begin => reveal_strlit("BEGIN"),
        Command::Commit => reveal_strlit("COMMIT"),
        Command::Connect => reveal_strlit("CONNECT"),
        Command::Disconnect => reveal_strlit("DISCONNECT"),
        Command::Nack => reveal_strlit("NACK"),
        Command::Send => reveal_strlit("SEND"),
        Command::Subscribe => reveal_strlit("SUBSCRIBE"),
        Command::Unsubscribe => reveal_strlit("UNSUBSCRIBE"),
        Command::Connected => reveal_strlit("CONNECTED"),
        Command::Receipt => reveal_strlit("RECEIPT"),
        Command::Error => reveal_strlit("ERROR"),
        Command::Message => reveal_strlit("MESSAGE"),
    }
    reveal_strlit("STOMP");
    assert(is_ascii_chars(keyword));
    is_ascii_chars_encode_utf8(keyword);
    let bytes = encode_utf8(keyword);
    assert forall|i: int| 0 <= i < bytes.len() implies 0x41 <= #[trigger] bytes[i] <= 0x5a by {
        assert(keyword[i] as u8 == bytes[i]);
    }
    assert(is_ascii_chars("STOMP"@));
    is_ascii_chars_encode_utf8("STOMP"@);
    assert forall|i: int| 0 <= i < 5 implies 0x41 <= #[trigger] encode_utf8("STOMP"@)[i]
        <= 0x5a by {
        assert("STOMP"@[i] as u8 == encode_utf8("STOMP"@)[i]);
    }
}

/// The keyword of a command is made of one or more capital letters, and it
/// selects that command for the command's origin. So does `STOMP` for
/// `CONNECT`.
pub proof fn lemma_keywords(command: Command)
    ensures
        encode_utf8(command.spec_keyword()).len() > 0,
        forall|i: int|
            0 <= i < encode_utf8(command.spec_keyword()).len() ==> 0x41 <= #[trigger] encode_utf8(
                command.spec_keyword(),
            )[i] <= 0x5a,
        Command::spec_lookup(command.spec_origin(), encode_utf8(command.spec_keyword())) == Some(
            command,
        ),
        Command::spec_lookup(Origin::Client, encode_utf8("STOMP"@)) == Some(Command::Connect),
{
    reveal(Command::spec_lookup);
    lemma_keyword_shape(Command::Abort);
    lemma_keyword_shape(Command::Ack);
    lemma_keyword_shape(Command::Begin);
    lemma_keyword_shape(Command::Commit);
    lemma_keyword_shape(Command::Connect);
    lemma_keyword_shape(Command::Disconnect);
    lemma_keyword_shape(Command::Nack);
    lemma_keyword_shape(Command::Send);
    lemma_keyword_shape(Command::Subscribe);
    lemma_keyword_shape(Command::Unsubscribe);
    lemma_keyword_shape(Command::Connected);
    lemma_keyword_shape(Command::Receipt);
    lemma_keyword_shape(Command::Error);
    lemma_keyword_shape(Command::Message);
}

} // verus!
