//! The frames that a client sends: one type for each command, and
//! `ClientFrame` for a frame of any of them.
use super::utils::spec_select;
use super::{
    display, lemma_complete_builds, lemma_complete_place, lemma_head_upto, lemma_place,
    spec_complete, spec_display, spec_head_upto, spec_pairs, spec_parse, spec_parse_message,
    spec_serialize, spec_serialize_head, spec_typed, spec_values, take_header, take_place,
    write_command, write_header, write_optional, FrameModel, RawFrame,
};
use crate::error::{Failure, StompParseError};
use crate::model::grammar::{Command, Origin};
use crate::model::headers::{
    AcceptVersionValue, AckType, AckValue, ContentLengthValue, ContentTypeValue, CustomValue,
    DestinationValue, Header, HeaderType, HeartBeatIntervalls, HeartBeatValue, HostValue, IdValue,
    LoginValue, PasscodeValue, ReceiptValue, TransactionValue,
};
use crate::parser::HasBody;
use crate::text::LF;
use vstd::prelude::*;
use vstd::utf8::encode_utf8;

verus! {
/// A `ABORT` frame, which aborts a transaction that has begun but is not yet committed.
///
/// Required headers: `transaction`.
#[derive(Debug)]
pub struct AbortFrame {
    /// The value of the `transaction` header.
    pub transaction: TransactionValue,
}

impl AbortFrame {
    /// The places of the frame: for each header that the command knows,
    /// required ones first, the header or `None` where the frame has none.
    pub open spec fn spec_places(&self) -> Seq<Option<Header>> {
        seq![
            Some(Header::Transaction(self.transaction)),
        ]
    }

    /// The frame as specifications speak of it.
    pub open spec fn model(&self) -> FrameModel {
        FrameModel {
            command: Command::Abort,
            slots: spec_values(self.spec_places()),
            custom: Seq::empty(),
            body: None,
        }
    }

    /// The headers that a `ABORT` frame has a place for, in the order of
    /// the places.
    pub proof fn lemma_declared()
        ensures
            Command::Abort.spec_declared() == seq![HeaderType::Transaction],
    {
        assert(Command::Abort.spec_declared() =~= seq![HeaderType::Transaction]);
    }

    /// Each place of the frame holds nothing or a header of its type, and
    /// the frame has every header that it cannot be without.
    pub proof fn lemma_places(&self)
        ensures
            spec_typed(Command::Abort.spec_declared(), self.spec_places()),
            spec_complete(self.model()),
    {
        reveal(spec_typed);
        reveal(spec_complete);
        AbortFrame::lemma_declared();
    }

    /// A frame with the given headers.
    pub fn new(transaction: TransactionValue) -> (frame: AbortFrame)
        ensures
            frame.transaction == transaction,
    {
        AbortFrame {
            transaction,
        }
    }

    /// The same frame as a frame of any command.
    pub fn into_raw(self) -> (raw: RawFrame)
        ensures
            raw@ == self.model(),
            raw.wf(),
    {
        let mut slots: Vec<Option<Header>> = Vec::new();
        slots.push(Some(Header::Transaction(self.transaction)));
        let raw = RawFrame {
            command: Command::Abort,
            slots,
            custom: Vec::new(),
            raw: None,
            body_offset_length: (0, 0),
        };
        proof {
            self.lemma_places();
            assert(raw.slots@[0] == self.spec_places()[0]);
            assert(raw.slots@ =~= self.spec_places());
            assert(raw@.custom =~= self.model().custom);
        }
        raw
    }

    /// The frame of any command as a `ABORT` frame.
    pub fn from_raw(raw: RawFrame) -> (frame: AbortFrame)
        requires
            raw.command == Command::Abort,
            raw.wf(),
            spec_complete(raw@),
        ensures
            frame.model() == raw@,
    {
        let ghost model = raw@;
        let ghost places = raw.slots@;
        let mut slots = raw.slots;
        proof {
            let declared = Command::Abort.spec_declared();
            AbortFrame::lemma_declared();
            lemma_place(declared, places, 0);
            lemma_complete_place(model, 0);
        }
        let transaction = take_header(&mut slots).into_transaction();
        let frame = AbortFrame {
            transaction,
        };
        proof {
            assert(places[0] == frame.spec_places()[0]);
            assert(places =~= frame.spec_places());
            assert(frame.model().custom =~= model.custom);
        }
        frame
    }

    /// Writes the head of the frame as bytes: the command line, the lines of
    /// the headers that are set, and a blank line.
    pub fn write_head(&self) -> (head: Vec<u8>)
        ensures
            head@ == spec_serialize_head(self.model()),
    {
        let ghost model = self.model();
        let mut out = write_command(Command::Abort);
        proof {
            AbortFrame::lemma_declared();
            assert(out@ == spec_head_upto(model, 0));
        }
        write_header(&mut out, &self.transaction);
        assert(out@ == spec_head_upto(model, 1));
        out.push(LF);
        proof {
            lemma_head_upto(model, 1);
            assert(out@ =~= spec_serialize_head(model));
        }
        out
    }

    /// The text of the frame for a reader: the frame as it is written where
    /// that is UTF-8, else the frame as it would be written without its body.
    pub fn to_string(&self) -> (text: String)
        ensures
            encode_utf8(text@) == spec_display(self.model()),
    {
        let head = self.write_head();
        display(head, None)
    }

    /// Writes the frame as bytes: the command line, the lines of the headers
    /// that are set, a blank line and the zero octet.
    pub fn try_into(self) -> (r: Result<Vec<u8>, StompParseError>)
        ensures
            r matches Ok(bytes) && bytes@ == spec_serialize(self.model()),
    {
        proof {
            self.lemma_places();
            lemma_complete_builds(self.model());
        }
        self.into_raw().serialize()
    }
}

/// A `ACK` frame, which acknowledges a message.
///
/// Required headers: `id`, `transaction`. Optional headers: `receipt`.
#[derive(Debug)]
pub struct AckFrame {
    /// The value of the `id` header.
    pub id: IdValue,
    /// The value of the `transaction` header.
    pub transaction: TransactionValue,
    /// The value of the `receipt` header, where the frame has one.
    pub receipt: Option<ReceiptValue>,
}

impl AckFrame {
    /// The places of the frame: for each header that the command knows,
    /// required ones first, the header or `None` where the frame has none.
    pub open spec fn spec_places(&self) -> Seq<Option<Header>> {
        seq![
            Some(Header::Id(self.id)),
            Some(Header::Transaction(self.transaction)),
            match self.receipt {
                Some(value) => Some(Header::Receipt(value)),
                None => None,
            },
        ]
    }

    /// The frame as specifications speak of it.
    pub open spec fn model(&self) -> FrameModel {
        FrameModel {
            command: Command::Ack,
            slots: spec_values(self.spec_places()),
            custom: Seq::empty(),
            body: None,
        }
    }

    /// The headers that a `ACK` frame has a place for, in the order of
    /// the places.
    pub proof fn lemma_declared()
        ensures
            Command::Ack.spec_declared() == seq![
                HeaderType::Id, HeaderType::Transaction, HeaderType::Receipt,
            ],
    {
        assert(Command::Ack.spec_declared() =~= seq![
            HeaderType::Id, HeaderType::Transaction, HeaderType::Receipt,
        ]);
    }

    /// Each place of the frame holds nothing or a header of its type, and
    /// the frame has every header that it cannot be without.
    pub proof fn lemma_places(&self)
        ensures
            spec_typed(Command::Ack.spec_declared(), self.spec_places()),
            spec_complete(self.model()),
    {
        reveal(spec_typed);
        reveal(spec_complete);
        AckFrame::lemma_declared();
    }

    /// A frame with the given headers.
    pub fn new(
        id: IdValue,
        transaction: TransactionValue,
        receipt: Option<ReceiptValue>,
    ) -> (frame: AckFrame)
        ensures
            frame.id == id,
            frame.transaction == transaction,
            frame.receipt == receipt,
    {
        AckFrame {
            id,
            transaction,
            receipt,
        }
    }

    /// The same frame as a frame of any command.
    pub fn into_raw(self) -> (raw: RawFrame)
        ensures
            raw@ == self.model(),
            raw.wf(),
    {
        let mut slots: Vec<Option<Header>> = Vec::new();
        slots.push(Some(Header::Id(self.id)));
        slots.push(Some(Header::Transaction(self.transaction)));
        slots.push(
            match self.receipt {
                Some(value) => Some(Header::Receipt(value)),
                None => None,
            },
        );
        let raw = RawFrame {
            command: Command::Ack,
            slots,
            custom: Vec::new(),
            raw: None,
            body_offset_length: (0, 0),
        };
        proof {
            self.lemma_places();
            assert(raw.slots@[0] == self.spec_places()[0]);
            assert(raw.slots@[1] == self.spec_places()[1]);
            assert(raw.slots@[2] == self.spec_places()[2]);
            assert(raw.slots@ =~= self.spec_places());
            assert(raw@.custom =~= self.model().custom);
        }
        raw
    }

    /// The frame of any command as a `ACK` frame.
    pub fn from_raw(raw: RawFrame) -> (frame: AckFrame)
        requires
            raw.command == Command::Ack,
            raw.wf(),
            spec_complete(raw@),
        ensures
            frame.model() == raw@,
    {
        let ghost model = raw@;
        let ghost places = raw.slots@;
        let mut slots = raw.slots;
        proof {
            let declared = Command::Ack.spec_declared();
            AckFrame::lemma_declared();
            lemma_place(declared, places, 0);
            lemma_place(declared, places, 1);
            lemma_place(declared, places, 2);
            lemma_complete_place(model, 0);
            lemma_complete_place(model, 1);
        }
        let receipt = match take_place(&mut slots) {
            Some(header) => Some(header.into_receipt()),
            None => None,
        };
        let transaction = take_header(&mut slots).into_transaction();
        let id = take_header(&mut slots).into_id();
        let frame = AckFrame {
            id,
            transaction,
            receipt,
        };
        proof {
            assert(places[0] == frame.spec_places()[0]);
            assert(places[1] == frame.spec_places()[1]);
            assert(places[2] == frame.spec_places()[2]);
            assert(places =~= frame.spec_places());
            assert(frame.model().custom =~= model.custom);
        }
        frame
    }

    /// Writes the head of the frame as bytes: the command line, the lines of
    /// the headers that are set, and a blank line.
    pub fn write_head(&self) -> (head: Vec<u8>)
        ensures
            head@ == spec_serialize_head(self.model()),
    {
        let ghost model = self.model();
        let mut out = write_command(Command::Ack);
        proof {
            AckFrame::lemma_declared();
            assert(out@ == spec_head_upto(model, 0));
        }
        write_header(&mut out, &self.id);
        assert(out@ == spec_head_upto(model, 1));
        write_header(&mut out, &self.transaction);
        assert(out@ == spec_head_upto(model, 2));
        write_optional(&mut out, &self.receipt);
        assert(out@ == spec_head_upto(model, 3));
        out.push(LF);
        proof {
            lemma_head_upto(model, 3);
            assert(out@ =~= spec_serialize_head(model));
        }
        out
    }

    /// The text of the frame for a reader: the frame as it is written where
    /// that is UTF-8, else the frame as it would be written without its body.
    pub fn to_string(&self) -> (text: String)
        ensures
            encode_utf8(text@) == spec_display(self.model()),
    {
        let head = self.write_head();
        display(head, None)
    }

    /// Writes the frame as bytes: the command line, the lines of the headers
    /// that are set, a blank line and the zero octet.
    pub fn try_into(self) -> (r: Result<Vec<u8>, StompParseError>)
        ensures
            r matches Ok(bytes) && bytes@ == spec_serialize(self.model()),
    {
        proof {
            self.lemma_places();
            lemma_complete_builds(self.model());
        }
        self.into_raw().serialize()
    }
}

/// A `BEGIN` frame, which begins a transaction.
///
/// Required headers: `transaction`. Optional headers: `receipt`.
#[derive(Debug)]
pub struct BeginFrame {
    /// The value of the `transaction` header.
    pub transaction: TransactionValue,
    /// The value of the `receipt` header, where the frame has one.
    pub receipt: Option<ReceiptValue>,
}

impl BeginFrame {
    /// The places of the frame: for each header that the command knows,
    /// required ones first, the header or `None` where the frame has none.
    pub open spec fn spec_places(&self) -> Seq<Option<Header>> {
        seq![
            Some(Header::Transaction(self.transaction)),
            match self.receipt {
                Some(value) => Some(Header::Receipt(value)),
                None => None,
            },
        ]
    }

    /// The frame as specifications speak of it.
    pub open spec fn model(&self) -> FrameModel {
        FrameModel {
            command: Command::Begin,
            slots: spec_values(self.spec_places()),
            custom: Seq::empty(),
            body: None,
        }
    }

    /// The headers that a `BEGIN` frame has a place for, in the order of
    /// the places.
    pub proof fn lemma_declared()
        ensures
            Command::Begin.spec_declared() == seq![HeaderType::Transaction, HeaderType::Receipt],
    {
        assert(Command::Begin.spec_declared() =~= seq![
            HeaderType::Transaction, HeaderType::Receipt,
        ]);
    }

    /// Each place of the frame holds nothing or a header of its type, and
    /// the frame has every header that it cannot be without.
    pub proof fn lemma_places(&self)
        ensures
            spec_typed(Command::Begin.spec_declared(), self.spec_places()),
            spec_complete(self.model()),
    {
        reveal(spec_typed);
        reveal(spec_complete);
        BeginFrame::lemma_declared();
    }

    /// A frame with the given headers.
    pub fn new(transaction: TransactionValue, receipt: Option<ReceiptValue>) -> (frame: BeginFrame)
        ensures
            frame.transaction == transaction,
            frame.receipt == receipt,
    {
        BeginFrame {
            transaction,
            receipt,
        }
    }

    /// The same frame as a frame of any command.
    pub fn into_raw(self) -> (raw: RawFrame)
        ensures
            raw@ == self.model(),
            raw.wf(),
    {
        let mut slots: Vec<Option<Header>> = Vec::new();
        slots.push(Some(Header::Transaction(self.transaction)));
        slots.push(
            match self.receipt {
                Some(value) => Some(Header::Receipt(value)),
                None => None,
            },
        );
        let raw = RawFrame {
            command: Command::Begin,
            slots,
            custom: Vec::new(),
            raw: None,
            body_offset_length: (0, 0),
        };
        proof {
            self.lemma_places();
            assert(raw.slots@[0] == self.spec_places()[0]);
            assert(raw.slots@[1] == self.spec_places()[1]);
            assert(raw.slots@ =~= self.spec_places());
            assert(raw@.custom =~= self.model().custom);
        }
        raw
    }

    /// The frame of any command as a `BEGIN` frame.
    pub fn from_raw(raw: RawFrame) -> (frame: BeginFrame)
        requires
            raw.command == Command::Begin,
            raw.wf(),
            spec_complete(raw@),
        ensures
            frame.model() == raw@,
    {
        let ghost model = raw@;
        let ghost places = raw.slots@;
        let mut slots = raw.slots;
        proof {
            let declared = Command::Begin.spec_declared();
            BeginFrame::lemma_declared();
            lemma_place(declared, places, 0);
            lemma_place(declared, places, 1);
            lemma_complete_place(model, 0);
        }
        let receipt = match take_place(&mut slots) {
            Some(header) => Some(header.into_receipt()),
            None => None,
        };
        let transaction = take_header(&mut slots).into_transaction();
        let frame = BeginFrame {
            transaction,
            receipt,
        };
        proof {
            assert(places[0] == frame.spec_places()[0]);
            assert(places[1] == frame.spec_places()[1]);
            assert(places =~= frame.spec_places());
            assert(frame.model().custom =~= model.custom);
        }
        frame
    }

    /// Writes the head of the frame as bytes: the command line, the lines of
    /// the headers that are set, and a blank line.
    pub fn write_head(&self) -> (head: Vec<u8>)
        ensures
            head@ == spec_serialize_head(self.model()),
    {
        let ghost model = self.model();
        let mut out = write_command(Command::Begin);
        proof {
            BeginFrame::lemma_declared();
            assert(out@ == spec_head_upto(model, 0));
        }
        write_header(&mut out, &self.transaction);
        assert(out@ == spec_head_upto(model, 1));
        write_optional(&mut out, &self.receipt);
        assert(out@ == spec_head_upto(model, 2));
        out.push(LF);
        proof {
            lemma_head_upto(model, 2);
            assert(out@ =~= spec_serialize_head(model));
        }
        out
    }

    /// The text of the frame for a reader: the frame as it is written where
    /// that is UTF-8, else the frame as it would be written without its body.
    pub fn to_string(&self) -> (text: String)
        ensures
            encode_utf8(text@) == spec_display(self.model()),
    {
        let head = self.write_head();
        display(head, None)
    }

    /// Writes the frame as bytes: the command line, the lines of the headers
    /// that are set, a blank line and the zero octet.
    pub fn try_into(self) -> (r: Result<Vec<u8>, StompParseError>)
        ensures
            r matches Ok(bytes) && bytes@ == spec_serialize(self.model()),
    {
        proof {
            self.lemma_places();
            lemma_complete_builds(self.model());
        }
        self.into_raw().serialize()
    }
}

/// A `COMMIT` frame, which commits a transaction.
///
/// Required headers: `transaction`. Optional headers: `receipt`.
#[derive(Debug)]
pub struct CommitFrame {
    /// The value of the `transaction` header.
    pub transaction: TransactionValue,
    /// The value of the `receipt` header, where the frame has one.
    pub receipt: Option<ReceiptValue>,
}

impl CommitFrame {
    /// The places of the frame: for each header that the command knows,
    /// required ones first, the header or `None` where the frame has none.
    pub open spec fn spec_places(&self) -> Seq<Option<Header>> {
        seq![
            Some(Header::Transaction(self.transaction)),
            match self.receipt {
                Some(value) => Some(Header::Receipt(value)),
                None => None,
            },
        ]
    }

    /// The frame as specifications speak of it.
    pub open spec fn model(&self) -> FrameModel {
        FrameModel {
            command: Command::Commit,
            slots: spec_values(self.spec_places()),
            custom: Seq::empty(),
            body: None,
        }
    }

    /// The headers that a `COMMIT` frame has a place for, in the order of
    /// the places.
    pub proof fn lemma_declared()
        ensures
            Command::Commit.spec_declared() == seq![HeaderType::Transaction, HeaderType::Receipt],
    {
        assert(Command::Commit.spec_declared() =~= seq![
            HeaderType::Transaction, HeaderType::Receipt,
        ]);
    }

    /// Each place of the frame holds nothing or a header of its type, and
    /// the frame has every header that it cannot be without.
    pub proof fn lemma_places(&self)
        ensures
            spec_typed(Command::Commit.spec_declared(), self.spec_places()),
            spec_complete(self.model()),
    {
        reveal(spec_typed);
        reveal(spec_complete);
        CommitFrame::lemma_declared();
    }

    /// A frame with the given headers.
    pub fn new(transaction: TransactionValue, receipt: Option<ReceiptValue>) -> (frame: CommitFrame)
        ensures
            frame.transaction == transaction,
            frame.receipt == receipt,
    {
        CommitFrame {
            transaction,
            receipt,
        }
    }

    /// The same frame as a frame of any command.
    pub fn into_raw(self) -> (raw: RawFrame)
        ensures
            raw@ == self.model(),
            raw.wf(),
    {
        let mut slots: Vec<Option<Header>> = Vec::new();
        slots.push(Some(Header::Transaction(self.transaction)));
        slots.push(
            match self.receipt {
                Some(value) => Some(Header::Receipt(value)),
                None => None,
            },
        );
        let raw = RawFrame {
            command: Command::Commit,
            slots,
            custom: Vec::new(),
            raw: None,
            body_offset_length: (0, 0),
        };
        proof {
            self.lemma_places();
            assert(raw.slots@[0] == self.spec_places()[0]);
            assert(raw.slots@[1] == self.spec_places()[1]);
            assert(raw.slots@ =~= self.spec_places());
            assert(raw@.custom =~= self.model().custom);
        }
        raw
    }

    /// The frame of any command as a `COMMIT` frame.
    pub fn from_raw(raw: RawFrame) -> (frame: CommitFrame)
        requires
            raw.command == Command::Commit,
            raw.wf(),
            spec_complete(raw@),
        ensures
            frame.model() == raw@,
    {
        let ghost model = raw@;
        let ghost places = raw.slots@;
        let mut slots = raw.slots;
        proof {
            let declared = Command::Commit.spec_declared();
            CommitFrame::lemma_declared();
            lemma_place(declared, places, 0);
            lemma_place(declared, places, 1);
            lemma_complete_place(model, 0);
        }
        let receipt = match take_place(&mut slots) {
            Some(header) => Some(header.into_receipt()),
            None => None,
        };
        let transaction = take_header(&mut slots).into_transaction();
        let frame = CommitFrame {
            transaction,
            receipt,
        };
        proof {
            assert(places[0] == frame.spec_places()[0]);
            assert(places[1] == frame.spec_places()[1]);
            assert(places =~= frame.spec_places());
            assert(frame.model().custom =~= model.custom);
        }
        frame
    }

    /// Writes the head of the frame as bytes: the command line, the lines of
    /// the headers that are set, and a blank line.
    pub fn write_head(&self) -> (head: Vec<u8>)
        ensures
            head@ == spec_serialize_head(self.model()),
    {
        let ghost model = self.model();
        let mut out = write_command(Command::Commit);
        proof {
            CommitFrame::lemma_declared();
            assert(out@ == spec_head_upto(model, 0));
        }
        write_header(&mut out, &self.transaction);
        assert(out@ == spec_head_upto(model, 1));
        write_optional(&mut out, &self.receipt);
        assert(out@ == spec_head_upto(model, 2));
        out.push(LF);
        proof {
            lemma_head_upto(model, 2);
            assert(out@ =~= spec_serialize_head(model));
        }
        out
    }

    /// The text of the frame for a reader: the frame as it is written where
    /// that is UTF-8, else the frame as it would be written without its body.
    pub fn to_string(&self) -> (text: String)
        ensures
            encode_utf8(text@) == spec_display(self.model()),
    {
        let head = self.write_head();
        display(head, None)
    }

    /// Writes the frame as bytes: the command line, the lines of the headers
    /// that are set, a blank line and the zero octet.
    pub fn try_into(self) -> (r: Result<Vec<u8>, StompParseError>)
        ensures
            r matches Ok(bytes) && bytes@ == spec_serialize(self.model()),
    {
        proof {
            self.lemma_places();
            lemma_complete_builds(self.model());
        }
        self.into_raw().serialize()
    }
}

/// A `CONNECT` frame, which opens a session; `STOMP` is a second keyword for it.
///
/// Required headers: `host`, `accept-version`. Optional headers: `heart-beat`, `login`, `passcode`.
#[derive(Debug)]
pub struct ConnectFrame {
    /// The value of the `host` header.
    pub host: HostValue,
    /// The value of the `accept-version` header.
    pub accept_version: AcceptVersionValue,
    /// The value of the `heart-beat` header: no heartbeats in either direction
    /// where the frame has none.
    pub heartbeat: HeartBeatValue,
    /// The value of the `login` header, where the frame has one.
    pub login: Option<LoginValue>,
    /// The value of the `passcode` header, where the frame has one.
    pub passcode: Option<PasscodeValue>,
}

impl ConnectFrame {
    /// The places of the frame: for each header that the command knows,
    /// required ones first, the header or `None` where the frame has none.
    pub open spec fn spec_places(&self) -> Seq<Option<Header>> {
        seq![
            Some(Header::Host(self.host)),
            Some(Header::AcceptVersion(self.accept_version)),
            Some(Header::HeartBeat(self.heartbeat)),
            match self.login {
                Some(value) => Some(Header::Login(value)),
                None => None,
            },
            match self.passcode {
                Some(value) => Some(Header::Passcode(value)),
                None => None,
            },
        ]
    }

    /// The frame as specifications speak of it.
    pub open spec fn model(&self) -> FrameModel {
        FrameModel {
            command: Command::Connect,
            slots: spec_values(self.spec_places()),
            custom: Seq::empty(),
            body: None,
        }
    }

    /// The headers that a `CONNECT` frame has a place for, in the order of
    /// the places.
    pub proof fn lemma_declared()
        ensures
            Command::Connect.spec_declared() == seq![
                HeaderType::Host, HeaderType::AcceptVersion, HeaderType::HeartBeat,
                HeaderType::Login, HeaderType::Passcode,
            ],
    {
        assert(Command::Connect.spec_declared() =~= seq![
            HeaderType::Host, HeaderType::AcceptVersion, HeaderType::HeartBeat, HeaderType::Login,
            HeaderType::Passcode,
        ]);
    }

    /// Each place of the frame holds nothing or a header of its type, and
    /// the frame has every header that it cannot be without.
    pub proof fn lemma_places(&self)
        ensures
            spec_typed(Command::Connect.spec_declared(), self.spec_places()),
            spec_complete(self.model()),
    {
        reveal(spec_typed);
        reveal(spec_complete);
        ConnectFrame::lemma_declared();
    }

    /// A frame with the given headers. Without a `heart-beat` header the
    /// frame has the default, no heartbeats in either direction.
    pub fn new(
        host: HostValue,
        accept_version: AcceptVersionValue,
        heartbeat: Option<HeartBeatValue>,
        login: Option<LoginValue>,
        passcode: Option<PasscodeValue>,
    ) -> (frame: ConnectFrame)
        ensures
            frame.host == host,
            frame.accept_version == accept_version,
            frame.heartbeat == match heartbeat {
                Some(value) => value,
                None => (HeartBeatValue {
                    value: HeartBeatIntervalls { supplied: 0, expected: 0 },
                }),
            },
            frame.login == login,
            frame.passcode == passcode,
    {
        ConnectFrame {
            host,
            accept_version,
            heartbeat: match heartbeat {
                Some(value) => value,
                None => HeartBeatValue::new(HeartBeatIntervalls::new(0, 0)),
            },
            login,
            passcode,
        }
    }

    /// The same frame as a frame of any command.
    pub fn into_raw(self) -> (raw: RawFrame)
        ensures
            raw@ == self.model(),
            raw.wf(),
    {
        let mut slots: Vec<Option<Header>> = Vec::new();
        slots.push(Some(Header::Host(self.host)));
        slots.push(Some(Header::AcceptVersion(self.accept_version)));
        slots.push(Some(Header::HeartBeat(self.heartbeat)));
        slots.push(
            match self.login {
                Some(value) => Some(Header::Login(value)),
                None => None,
            },
        );
        slots.push(
            match self.passcode {
                Some(value) => Some(Header::Passcode(value)),
                None => None,
            },
        );
        let raw = RawFrame {
            command: Command::Connect,
            slots,
            custom: Vec::new(),
            raw: None,
            body_offset_length: (0, 0),
        };
        proof {
            self.lemma_places();
            assert(raw.slots@[0] == self.spec_places()[0]);
            assert(raw.slots@[1] == self.spec_places()[1]);
            assert(raw.slots@[2] == self.spec_places()[2]);
            assert(raw.slots@[3] == self.spec_places()[3]);
            assert(raw.slots@[4] == self.spec_places()[4]);
            assert(raw.slots@ =~= self.spec_places());
            assert(raw@.custom =~= self.model().custom);
        }
        raw
    }

    /// The frame of any command as a `CONNECT` frame.
    pub fn from_raw(raw: RawFrame) -> (frame: ConnectFrame)
        requires
            raw.command == Command::Connect,
            raw.wf(),
            spec_complete(raw@),
        ensures
            frame.model() == raw@,
    {
        let ghost model = raw@;
        let ghost places = raw.slots@;
        let mut slots = raw.slots;
        proof {
            let declared = Command::Connect.spec_declared();
            ConnectFrame::lemma_declared();
            lemma_place(declared, places, 0);
            lemma_place(declared, places, 1);
            lemma_place(declared, places, 2);
            lemma_place(declared, places, 3);
            lemma_place(declared, places, 4);
            lemma_complete_place(model, 0);
            lemma_complete_place(model, 1);
            lemma_complete_place(model, 2);
        }
        let passcode = match take_place(&mut slots) {
            Some(header) => Some(header.into_passcode()),
            None => None,
        };
        let login = match take_place(&mut slots) {
            Some(header) => Some(header.into_login()),
            None => None,
        };
        let heartbeat = take_header(&mut slots).into_heart_beat();
        let accept_version = take_header(&mut slots).into_accept_version();
        let host = take_header(&mut slots).into_host();
        let frame = ConnectFrame {
            host,
            accept_version,
            heartbeat,
            login,
            passcode,
        };
        proof {
            assert(places[0] == frame.spec_places()[0]);
            assert(places[1] == frame.spec_places()[1]);
            assert(places[2] == frame.spec_places()[2]);
            assert(places[3] == frame.spec_places()[3]);
            assert(places[4] == frame.spec_places()[4]);
            assert(places =~= frame.spec_places());
            assert(frame.model().custom =~= model.custom);
        }
        frame
    }

    /// Writes the head of the frame as bytes: the command line, the lines of
    /// the headers that are set, and a blank line.
    pub fn write_head(&self) -> (head: Vec<u8>)
        ensures
            head@ == spec_serialize_head(self.model()),
    {
        let ghost model = self.model();
        let mut out = write_command(Command::Connect);
        proof {
            ConnectFrame::lemma_declared();
            assert(out@ == spec_head_upto(model, 0));
        }
        write_header(&mut out, &self.host);
        assert(out@ == spec_head_upto(model, 1));
        write_header(&mut out, &self.accept_version);
        assert(out@ == spec_head_upto(model, 2));
        write_header(&mut out, &self.heartbeat);
        assert(out@ == spec_head_upto(model, 3));
        write_optional(&mut out, &self.login);
        assert(out@ == spec_head_upto(model, 4));
        write_optional(&mut out, &self.passcode);
        assert(out@ == spec_head_upto(model, 5));
        out.push(LF);
        proof {
            lemma_head_upto(model, 5);
            assert(out@ =~= spec_serialize_head(model));
        }
        out
    }

    /// The text of the frame for a reader: the frame as it is written where
    /// that is UTF-8, else the frame as it would be written without its body.
    pub fn to_string(&self) -> (text: String)
        ensures
            encode_utf8(text@) == spec_display(self.model()),
    {
        let head = self.write_head();
        display(head, None)
    }

    /// Writes the frame as bytes: the command line, the lines of the headers
    /// that are set, a blank line and the zero octet.
    pub fn try_into(self) -> (r: Result<Vec<u8>, StompParseError>)
        ensures
            r matches Ok(bytes) && bytes@ == spec_serialize(self.model()),
    {
        proof {
            self.lemma_places();
            lemma_complete_builds(self.model());
        }
        self.into_raw().serialize()
    }
}

/// A `DISCONNECT` frame, which ends a session.
///
/// Required headers: `receipt`.
#[derive(Debug)]
pub struct DisconnectFrame {
    /// The value of the `receipt` header.
    pub receipt: ReceiptValue,
}

impl DisconnectFrame {
    /// The places of the frame: for each header that the command knows,
    /// required ones first, the header or `None` where the frame has none.
    pub open spec fn spec_places(&self) -> Seq<Option<Header>> {
        seq![
            Some(Header::Receipt(self.receipt)),
        ]
    }

    /// The frame as specifications speak of it.
    pub open spec fn model(&self) -> FrameModel {
        FrameModel {
            command: Command::Disconnect,
            slots: spec_values(self.spec_places()),
            custom: Seq::empty(),
            body: None,
        }
    }

    /// The headers that a `DISCONNECT` frame has a place for, in the order of
    /// the places.
    pub proof fn lemma_declared()
        ensures
            Command::Disconnect.spec_declared() == seq![HeaderType::Receipt],
    {
        assert(Command::Disconnect.spec_declared() =~= seq![HeaderType::Receipt]);
    }

    /// Each place of the frame holds nothing or a header of its type, and
    /// the frame has every header that it cannot be without.
    pub proof fn lemma_places(&self)
        ensures
            spec_typed(Command::Disconnect.spec_declared(), self.spec_places()),
            spec_complete(self.model()),
    {
        reveal(spec_typed);
        reveal(spec_complete);
        DisconnectFrame::lemma_declared();
    }

    /// A frame with the given headers.
    pub fn new(receipt: ReceiptValue) -> (frame: DisconnectFrame)
        ensures
            frame.receipt == receipt,
    {
        DisconnectFrame {
            receipt,
        }
    }

    /// The same frame as a frame of any command.
    pub fn into_raw(self) -> (raw: RawFrame)
        ensures
            raw@ == self.model(),
            raw.wf(),
    {
        let mut slots: Vec<Option<Header>> = Vec::new();
        slots.push(Some(Header::Receipt(self.receipt)));
        let raw = RawFrame {
            command: Command::Disconnect,
            slots,
            custom: Vec::new(),
            raw: None,
            body_offset_length: (0, 0),
        };
        proof {
            self.lemma_places();
            assert(raw.slots@[0] == self.spec_places()[0]);
            assert(raw.slots@ =~= self.spec_places());
            assert(raw@.custom =~= self.model().custom);
        }
        raw
    }

    /// The frame of any command as a `DISCONNECT` frame.
    pub fn from_raw(raw: RawFrame) -> (frame: DisconnectFrame)
        requires
            raw.command == Command::Disconnect,
            raw.wf(),
            spec_complete(raw@),
        ensures
            frame.model() == raw@,
    {
        let ghost model = raw@;
        let ghost places = raw.slots@;
        let mut slots = raw.slots;
        proof {
            let declared = Command::Disconnect.spec_declared();
            DisconnectFrame::lemma_declared();
            lemma_place(declared, places, 0);
            lemma_complete_place(model, 0);
        }
        let receipt = take_header(&mut slots).into_receipt();
        let frame = DisconnectFrame {
            receipt,
        };
        proof {
            assert(places[0] == frame.spec_places()[0]);
            assert(places =~= frame.spec_places());
            assert(frame.model().custom =~= model.custom);
        }
        frame
    }

    /// Writes the head of the frame as bytes: the command line, the lines of
    /// the headers that are set, and a blank line.
    pub fn write_head(&self) -> (head: Vec<u8>)
        ensures
            head@ == spec_serialize_head(self.model()),
    {
        let ghost model = self.model();
        let mut out = write_command(Command::Disconnect);
        proof {
            DisconnectFrame::lemma_declared();
            assert(out@ == spec_head_upto(model, 0));
        }
        write_header(&mut out, &self.receipt);
        assert(out@ == spec_head_upto(model, 1));
        out.push(LF);
        proof {
            lemma_head_upto(model, 1);
            assert(out@ =~= spec_serialize_head(model));
        }
        out
    }

    /// The text of the frame for a reader: the frame as it is written where
    /// that is UTF-8, else the frame as it would be written without its body.
    pub fn to_string(&self) -> (text: String)
        ensures
            encode_utf8(text@) == spec_display(self.model()),
    {
        let head = self.write_head();
        display(head, None)
    }

    /// Writes the frame as bytes: the command line, the lines of the headers
    /// that are set, a blank line and the zero octet.
    pub fn try_into(self) -> (r: Result<Vec<u8>, StompParseError>)
        ensures
            r matches Ok(bytes) && bytes@ == spec_serialize(self.model()),
    {
        proof {
            self.lemma_places();
            lemma_complete_builds(self.model());
        }
        self.into_raw().serialize()
    }
}

/// A `NACK` frame, which says that the client did not process a message.
///
/// Required headers: `id`, `transaction`. Optional headers: `receipt`.
#[derive(Debug)]
pub struct NackFrame {
    /// The value of the `id` header.
    pub id: IdValue,
    /// The value of the `transaction` header.
    pub transaction: TransactionValue,
    /// The value of the `receipt` header, where the frame has one.
    pub receipt: Option<ReceiptValue>,
}

impl NackFrame {
    /// The places of the frame: for each header that the command knows,
    /// required ones first, the header or `None` where the frame has none.
    pub open spec fn spec_places(&self) -> Seq<Option<Header>> {
        seq![
            Some(Header::Id(self.id)),
            Some(Header::Transaction(self.transaction)),
            match self.receipt {
                Some(value) => Some(Header::Receipt(value)),
                None => None,
            },
        ]
    }

    /// The frame as specifications speak of it.
    pub open spec fn model(&self) -> FrameModel {
        FrameModel {
            command: Command::Nack,
            slots: spec_values(self.spec_places()),
            custom: Seq::empty(),
            body: None,
        }
    }

    /// The headers that a `NACK` frame has a place for, in the order of
    /// the places.
    pub proof fn lemma_declared()
        ensures
            Command::Nack.spec_declared() == seq![
                HeaderType::Id, HeaderType::Transaction, HeaderType::Receipt,
            ],
    {
        assert(Command::Nack.spec_declared() =~= seq![
            HeaderType::Id, HeaderType::Transaction, HeaderType::Receipt,
        ]);
    }

    /// Each place of the frame holds nothing or a header of its type, and
    /// the frame has every header that it cannot be without.
    pub proof fn lemma_places(&self)
        ensures
            spec_typed(Command::Nack.spec_declared(), self.spec_places()),
            spec_complete(self.model()),
    {
        reveal(spec_typed);
        reveal(spec_complete);
        NackFrame::lemma_declared();
    }

    /// A frame with the given headers.
    pub fn new(
        id: IdValue,
        transaction: TransactionValue,
        receipt: Option<ReceiptValue>,
    ) -> (frame: NackFrame)
        ensures
            frame.id == id,
            frame.transaction == transaction,
            frame.receipt == receipt,
    {
        NackFrame {
            id,
            transaction,
            receipt,
        }
    }

    /// The same frame as a frame of any command.
    pub fn into_raw(self) -> (raw: RawFrame)
        ensures
            raw@ == self.model(),
            raw.wf(),
    {
        let mut slots: Vec<Option<Header>> = Vec::new();
        slots.push(Some(Header::Id(self.id)));
        slots.push(Some(Header::Transaction(self.transaction)));
        slots.push(
            match self.receipt {
                Some(value) => Some(Header::Receipt(value)),
                None => None,
            },
        );
        let raw = RawFrame {
            command: Command::Nack,
            slots,
            custom: Vec::new(),
            raw: None,
            body_offset_length: (0, 0),
        };
        proof {
            self.lemma_places();
            assert(raw.slots@[0] == self.spec_places()[0]);
            assert(raw.slots@[1] == self.spec_places()[1]);
            assert(raw.slots@[2] == self.spec_places()[2]);
            assert(raw.slots@ =~= self.spec_places());
            assert(raw@.custom =~= self.model().custom);
        }
        raw
    }

    /// The frame of any command as a `NACK` frame.
    pub fn from_raw(raw: RawFrame) -> (frame: NackFrame)
        requires
            raw.command == Command::Nack,
            raw.wf(),
            spec_complete(raw@),
        ensures
            frame.model() == raw@,
    {
        let ghost model = raw@;
        let ghost places = raw.slots@;
        let mut slots = raw.slots;
        proof {
            let declared = Command::Nack.spec_declared();
            NackFrame::lemma_declared();
            lemma_place(declared, places, 0);
            lemma_place(declared, places, 1);
            lemma_place(declared, places, 2);
            lemma_complete_place(model, 0);
            lemma_complete_place(model, 1);
        }
        let receipt = match take_place(&mut slots) {
            Some(header) => Some(header.into_receipt()),
            None => None,
        };
        let transaction = take_header(&mut slots).into_transaction();
        let id = take_header(&mut slots).into_id();
        let frame = NackFrame {
            id,
            transaction,
            receipt,
        };
        proof {
            assert(places[0] == frame.spec_places()[0]);
            assert(places[1] == frame.spec_places()[1]);
            assert(places[2] == frame.spec_places()[2]);
            assert(places =~= frame.spec_places());
            assert(frame.model().custom =~= model.custom);
        }
        frame
    }

    /// Writes the head of the frame as bytes: the command line, the lines of
    /// the headers that are set, and a blank line.
    pub fn write_head(&self) -> (head: Vec<u8>)
        ensures
            head@ == spec_serialize_head(self.model()),
    {
        let ghost model = self.model();
        let mut out = write_command(Command::Nack);
        proof {
            NackFrame::lemma_declared();
            assert(out@ == spec_head_upto(model, 0));
        }
        write_header(&mut out, &self.id);
        assert(out@ == spec_head_upto(model, 1));
        write_header(&mut out, &self.transaction);
        assert(out@ == spec_head_upto(model, 2));
        write_optional(&mut out, &self.receipt);
        assert(out@ == spec_head_upto(model, 3));
        out.push(LF);
        proof {
            lemma_head_upto(model, 3);
            assert(out@ =~= spec_serialize_head(model));
        }
        out
    }

    /// The text of the frame for a reader: the frame as it is written where
    /// that is UTF-8, else the frame as it would be written without its body.
    pub fn to_string(&self) -> (text: String)
        ensures
            encode_utf8(text@) == spec_display(self.model()),
    {
        let head = self.write_head();
        display(head, None)
    }

    /// Writes the frame as bytes: the command line, the lines of the headers
    /// that are set, a blank line and the zero octet.
    pub fn try_into(self) -> (r: Result<Vec<u8>, StompParseError>)
        ensures
            r matches Ok(bytes) && bytes@ == spec_serialize(self.model()),
    {
        proof {
            self.lemma_places();
            lemma_complete_builds(self.model());
        }
        self.into_raw().serialize()
    }
}

/// A `SEND` frame, which sends a message to a destination.
///
/// Required headers: `destination`. Optional headers: `content-type`,
/// `content-length`, `transaction`, `receipt`. It takes custom headers. It has
/// a body.
#[derive(Debug)]
pub struct SendFrame {
    /// The value of the `destination` header.
    pub destination: DestinationValue,
    /// The value of the `content-type` header, where the frame has one.
    pub content_type: Option<ContentTypeValue>,
    /// The value of the `content-length` header, where the frame has one.
    pub content_length: Option<ContentLengthValue>,
    /// The value of the `transaction` header, where the frame has one.
    pub transaction: Option<TransactionValue>,
    /// The value of the `receipt` header, where the frame has one.
    pub receipt: Option<ReceiptValue>,
    /// The custom headers, in the order of the frame.
    pub custom: Vec<CustomValue>,
    /// The buffer that holds the body, once the frame has one.
    pub raw: Option<Vec<u8>>,
    /// Where the body starts in the buffer, and how long it is.
    pub body_offset_length: (usize, usize),
}

impl SendFrame {
    /// Where the body starts in the buffer, and how long it is.
    pub open spec fn spec_offset_length(&self) -> (usize, usize) {
        self.body_offset_length
    }

    /// The buffer that holds the body, once the frame has one.
    pub open spec fn spec_buffer(&self) -> Option<Seq<u8>> {
        match self.raw {
            Some(bytes) => Some(bytes@),
            None => None,
        }
    }

    /// The body of the frame: the part of the buffer that it lies in.
    pub open spec fn spec_body(&self) -> Option<Seq<u8>> {
        spec_select(self.spec_buffer(), self.spec_offset_length())
    }

    /// Whether the body lies within the buffer, where the frame has one.
    pub open spec fn wf(&self) -> bool {
        self.spec_buffer() matches Some(bytes) ==> self.spec_offset_length().0
            + self.spec_offset_length().1 <= bytes.len()
    }

    /// The places of the frame: for each header that the command knows,
    /// required ones first, the header or `None` where the frame has none.
    pub open spec fn spec_places(&self) -> Seq<Option<Header>> {
        seq![
            Some(Header::Destination(self.destination)),
            match self.content_type {
                Some(value) => Some(Header::ContentType(value)),
                None => None,
            },
            match self.content_length {
                Some(value) => Some(Header::ContentLength(value)),
                None => None,
            },
            match self.transaction {
                Some(value) => Some(Header::Transaction(value)),
                None => None,
            },
            match self.receipt {
                Some(value) => Some(Header::Receipt(value)),
                None => None,
            },
        ]
    }

    /// The frame as specifications speak of it.
    pub open spec fn model(&self) -> FrameModel {
        FrameModel {
            command: Command::Send,
            slots: spec_values(self.spec_places()),
            custom: spec_pairs(self.custom@),
            body: self.spec_body(),
        }
    }

    /// The headers that a `SEND` frame has a place for, in the order of
    /// the places.
    pub proof fn lemma_declared()
        ensures
            Command::Send.spec_declared() == seq![
                HeaderType::Destination, HeaderType::ContentType, HeaderType::ContentLength,
                HeaderType::Transaction, HeaderType::Receipt,
            ],
    {
        assert(Command::Send.spec_declared() =~= seq![
            HeaderType::Destination, HeaderType::ContentType, HeaderType::ContentLength,
            HeaderType::Transaction, HeaderType::Receipt,
        ]);
    }

    /// Each place of the frame holds nothing or a header of its type, and
    /// the frame has every header that it cannot be without.
    pub proof fn lemma_places(&self)
        ensures
            spec_typed(Command::Send.spec_declared(), self.spec_places()),
            spec_complete(self.model()),
    {
        reveal(spec_typed);
        reveal(spec_complete);
        SendFrame::lemma_declared();
    }

    /// A frame with the given headers and body.
    pub fn new(
        destination: DestinationValue,
        content_type: Option<ContentTypeValue>,
        content_length: Option<ContentLengthValue>,
        transaction: Option<TransactionValue>,
        receipt: Option<ReceiptValue>,
        custom: Vec<CustomValue>,
        body: Vec<u8>,
    ) -> (frame: SendFrame)
        ensures
            frame.destination == destination,
            frame.content_type == content_type,
            frame.content_length == content_length,
            frame.transaction == transaction,
            frame.receipt == receipt,
            frame.custom == custom,
            frame.spec_buffer() == Some(body@),
            frame.spec_body() == Some(body@),
            frame.wf(),
    {
        let length = body.len();
        let frame = SendFrame {
            destination,
            content_type,
            content_length,
            transaction,
            receipt,
            custom,
            raw: Some(body),
            body_offset_length: (0, length),
        };
        assert(frame.spec_body()->0 =~= body@);
        frame
    }

    /// A frame with the given headers whose body lies at the given offset
    /// and has the given length in a buffer that `set_raw` hands over later.
    pub fn from_parsed(
        destination: DestinationValue,
        content_type: Option<ContentTypeValue>,
        content_length: Option<ContentLengthValue>,
        transaction: Option<TransactionValue>,
        receipt: Option<ReceiptValue>,
        custom: Vec<CustomValue>,
        body_offset_length: (usize, usize),
    ) -> (frame: SendFrame)
        ensures
            frame.destination == destination,
            frame.content_type == content_type,
            frame.content_length == content_length,
            frame.transaction == transaction,
            frame.receipt == receipt,
            frame.custom == custom,
            frame.spec_offset_length() == body_offset_length,
            frame.spec_buffer() is None,
    {
        SendFrame {
            destination,
            content_type,
            content_length,
            transaction,
            receipt,
            custom,
            raw: None,
            body_offset_length,
        }
    }

    /// The body of the frame, once it has a buffer.
    pub fn body(&self) -> (r: Option<&[u8]>)
        requires
            self.wf(),
        ensures
            match r {
                Some(body) => self.spec_body() == Some(body@),
                None => self.spec_buffer() is None,
            },
    {
        super::utils::select_slice(&self.raw, &self.body_offset_length)
    }

    /// The same frame as a frame of any command.
    pub fn into_raw(self) -> (raw: RawFrame)
        requires
            self.wf(),
        ensures
            raw@ == self.model(),
            raw.wf(),
    {
        let mut slots: Vec<Option<Header>> = Vec::new();
        slots.push(Some(Header::Destination(self.destination)));
        slots.push(
            match self.content_type {
                Some(value) => Some(Header::ContentType(value)),
                None => None,
            },
        );
        slots.push(
            match self.content_length {
                Some(value) => Some(Header::ContentLength(value)),
                None => None,
            },
        );
        slots.push(
            match self.transaction {
                Some(value) => Some(Header::Transaction(value)),
                None => None,
            },
        );
        slots.push(
            match self.receipt {
                Some(value) => Some(Header::Receipt(value)),
                None => None,
            },
        );
        let raw = RawFrame {
            command: Command::Send,
            slots,
            custom: self.custom,
            raw: self.raw,
            body_offset_length: self.body_offset_length,
        };
        proof {
            self.lemma_places();
            assert(raw.slots@[0] == self.spec_places()[0]);
            assert(raw.slots@[1] == self.spec_places()[1]);
            assert(raw.slots@[2] == self.spec_places()[2]);
            assert(raw.slots@[3] == self.spec_places()[3]);
            assert(raw.slots@[4] == self.spec_places()[4]);
            assert(raw.slots@ =~= self.spec_places());
            assert(raw@.custom =~= self.model().custom);
        }
        raw
    }

    /// The frame of any command as a `SEND` frame.
    pub fn from_raw(raw: RawFrame) -> (frame: SendFrame)
        requires
            raw.command == Command::Send,
            raw.wf(),
            spec_complete(raw@),
        ensures
            frame.model() == raw@,
            frame.wf(),
            frame.spec_buffer() == raw.spec_raw(),
    {
        let ghost model = raw@;
        let ghost places = raw.slots@;
        let mut slots = raw.slots;
        proof {
            let declared = Command::Send.spec_declared();
            SendFrame::lemma_declared();
            lemma_place(declared, places, 0);
            lemma_place(declared, places, 1);
            lemma_place(declared, places, 2);
            lemma_place(declared, places, 3);
            lemma_place(declared, places, 4);
            lemma_complete_place(model, 0);
        }
        let receipt = match take_place(&mut slots) {
            Some(header) => Some(header.into_receipt()),
            None => None,
        };
        let transaction = match take_place(&mut slots) {
            Some(header) => Some(header.into_transaction()),
            None => None,
        };
        let content_length = match take_place(&mut slots) {
            Some(header) => Some(header.into_content_length()),
            None => None,
        };
        let content_type = match take_place(&mut slots) {
            Some(header) => Some(header.into_content_type()),
            None => None,
        };
        let destination = take_header(&mut slots).into_destination();
        let frame = SendFrame {
            destination,
            content_type,
            content_length,
            transaction,
            receipt,
            custom: raw.custom,
            raw: raw.raw,
            body_offset_length: raw.body_offset_length,
        };
        proof {
            assert(places[0] == frame.spec_places()[0]);
            assert(places[1] == frame.spec_places()[1]);
            assert(places[2] == frame.spec_places()[2]);
            assert(places[3] == frame.spec_places()[3]);
            assert(places[4] == frame.spec_places()[4]);
            assert(places =~= frame.spec_places());
            assert(frame.model().custom =~= model.custom);
        }
        frame
    }

    /// Writes the head of the frame as bytes: the command line, the lines of
    /// the headers that are set, and a blank line.
    pub fn write_head(&self) -> (head: Vec<u8>)
        ensures
            head@ == spec_serialize_head(self.model()),
    {
        let ghost model = self.model();
        let mut out = write_command(Command::Send);
        proof {
            SendFrame::lemma_declared();
            assert(out@ == spec_head_upto(model, 0));
        }
        write_header(&mut out, &self.destination);
        assert(out@ == spec_head_upto(model, 1));
        write_optional(&mut out, &self.content_type);
        assert(out@ == spec_head_upto(model, 2));
        write_optional(&mut out, &self.content_length);
        assert(out@ == spec_head_upto(model, 3));
        write_optional(&mut out, &self.transaction);
        assert(out@ == spec_head_upto(model, 4));
        write_optional(&mut out, &self.receipt);
        assert(out@ == spec_head_upto(model, 5));
        out.push(LF);
        proof {
            lemma_head_upto(model, 5);
            assert(out@ =~= spec_serialize_head(model));
        }
        out
    }

    /// The text of the frame for a reader: the frame as it is written where
    /// that is UTF-8, else the frame as it would be written without its body.
    pub fn to_string(&self) -> (text: String)
        requires
            self.wf(),
        ensures
            encode_utf8(text@) == spec_display(self.model()),
    {
        let head = self.write_head();
        display(head, self.body())
    }

    /// Writes the frame as bytes: the command line, the lines of the headers
    /// that are set, a blank line, the body and the zero octet. A frame that
    /// has no buffer yet, and so no body, is refused.
    pub fn try_into(self) -> (r: Result<Vec<u8>, StompParseError>)
        requires
            self.wf(),
        ensures
            match r {
                Ok(bytes) => self.spec_buffer() is Some && bytes@ == spec_serialize(self.model()),
                Err(e) => self.spec_buffer() is None && e.spec_is(Failure::BuilderBodyUnset),
            },
    {
        proof {
            self.lemma_places();
            lemma_complete_builds(self.model());
        }
        self.into_raw().serialize()
    }
}

impl HasBody for SendFrame {
    open spec fn spec_raw(&self) -> Option<Seq<u8>> {
        self.spec_buffer()
    }

    fn set_raw(&mut self, bytes: Vec<u8>)
        ensures
            final(self).spec_buffer() == Some(bytes@),
            final(self).spec_offset_length() == old(self).spec_offset_length(),
            final(self).destination == old(self).destination,
            final(self).content_type == old(self).content_type,
            final(self).content_length == old(self).content_length,
            final(self).transaction == old(self).transaction,
            final(self).receipt == old(self).receipt,
            final(self).custom == old(self).custom,
    {
        self.raw = Some(bytes);
    }
}

/// A `SUBSCRIBE` frame, which subscribes to a destination.
///
/// Required headers: `destination`, `id`. Optional headers: `ack`, `receipt`.
/// It takes custom headers.
#[derive(Debug)]
pub struct SubscribeFrame {
    /// The value of the `destination` header.
    pub destination: DestinationValue,
    /// The value of the `id` header.
    pub id: IdValue,
    /// The value of the `ack` header: `auto`
    /// where the frame has none.
    pub ack_type: AckValue,
    /// The value of the `receipt` header, where the frame has one.
    pub receipt: Option<ReceiptValue>,
    /// The custom headers, in the order of the frame.
    pub custom: Vec<CustomValue>,
}

impl SubscribeFrame {
    /// The places of the frame: for each header that the command knows,
    /// required ones first, the header or `None` where the frame has none.
    pub open spec fn spec_places(&self) -> Seq<Option<Header>> {
        seq![
            Some(Header::Destination(self.destination)),
            Some(Header::Id(self.id)),
            Some(Header::Ack(self.ack_type)),
            match self.receipt {
                Some(value) => Some(Header::Receipt(value)),
                None => None,
            },
        ]
    }

    /// The frame as specifications speak of it.
    pub open spec fn model(&self) -> FrameModel {
        FrameModel {
            command: Command::Subscribe,
            slots: spec_values(self.spec_places()),
            custom: spec_pairs(self.custom@),
            body: None,
        }
    }

    /// The headers that a `SUBSCRIBE` frame has a place for, in the order of
    /// the places.
    pub proof fn lemma_declared()
        ensures
            Command::Subscribe.spec_declared() == seq![
                HeaderType::Destination, HeaderType::Id, HeaderType::Ack, HeaderType::Receipt,
            ],
    {
        assert(Command::Subscribe.spec_declared() =~= seq![
            HeaderType::Destination, HeaderType::Id, HeaderType::Ack, HeaderType::Receipt,
        ]);
    }

    /// Each place of the frame holds nothing or a header of its type, and
    /// the frame has every header that it cannot be without.
    pub proof fn lemma_places(&self)
        ensures
            spec_typed(Command::Subscribe.spec_declared(), self.spec_places()),
            spec_complete(self.model()),
    {
        reveal(spec_typed);
        reveal(spec_complete);
        SubscribeFrame::lemma_declared();
    }

    /// A frame with the given headers. Without a `ack` header the
    /// frame has the default, `auto`.
    pub fn new(
        destination: DestinationValue,
        id: IdValue,
        ack_type: Option<AckValue>,
        receipt: Option<ReceiptValue>,
        custom: Vec<CustomValue>,
    ) -> (frame: SubscribeFrame)
        ensures
            frame.destination == destination,
            frame.id == id,
            frame.ack_type == match ack_type {
                Some(value) => value,
                None => (AckValue { value: AckType::Auto }),
            },
            frame.receipt == receipt,
            frame.custom == custom,
    {
        SubscribeFrame {
            destination,
            id,
            ack_type: match ack_type {
                Some(value) => value,
                None => AckValue::new(AckType::Auto),
            },
            receipt,
            custom,
        }
    }

    /// The same frame as a frame of any command.
    pub fn into_raw(self) -> (raw: RawFrame)
        ensures
            raw@ == self.model(),
            raw.wf(),
    {
        let mut slots: Vec<Option<Header>> = Vec::new();
        slots.push(Some(Header::Destination(self.destination)));
        slots.push(Some(Header::Id(self.id)));
        slots.push(Some(Header::Ack(self.ack_type)));
        slots.push(
            match self.receipt {
                Some(value) => Some(Header::Receipt(value)),
                None => None,
            },
        );
        let raw = RawFrame {
            command: Command::Subscribe,
            slots,
            custom: self.custom,
            raw: None,
            body_offset_length: (0, 0),
        };
        proof {
            self.lemma_places();
            assert(raw.slots@[0] == self.spec_places()[0]);
            assert(raw.slots@[1] == self.spec_places()[1]);
            assert(raw.slots@[2] == self.spec_places()[2]);
            assert(raw.slots@[3] == self.spec_places()[3]);
            assert(raw.slots@ =~= self.spec_places());
            assert(raw@.custom =~= self.model().custom);
        }
        raw
    }

    /// The frame of any command as a `SUBSCRIBE` frame.
    pub fn from_raw(raw: RawFrame) -> (frame: SubscribeFrame)
        requires
            raw.command == Command::Subscribe,
            raw.wf(),
            spec_complete(raw@),
        ensures
            frame.model() == raw@,
    {
        let ghost model = raw@;
        let ghost places = raw.slots@;
        let mut slots = raw.slots;
        proof {
            let declared = Command::Subscribe.spec_declared();
            SubscribeFrame::lemma_declared();
            lemma_place(declared, places, 0);
            lemma_place(declared, places, 1);
            lemma_place(declared, places, 2);
            lemma_place(declared, places, 3);
            lemma_complete_place(model, 0);
            lemma_complete_place(model, 1);
            lemma_complete_place(model, 2);
        }
        let receipt = match take_place(&mut slots) {
            Some(header) => Some(header.into_receipt()),
            None => None,
        };
        let ack_type = take_header(&mut slots).into_ack();
        let id = take_header(&mut slots).into_id();
        let destination = take_header(&mut slots).into_destination();
        let frame = SubscribeFrame {
            destination,
            id,
            ack_type,
            receipt,
            custom: raw.custom,
        };
        proof {
            assert(places[0] == frame.spec_places()[0]);
            assert(places[1] == frame.spec_places()[1]);
            assert(places[2] == frame.spec_places()[2]);
            assert(places[3] == frame.spec_places()[3]);
            assert(places =~= frame.spec_places());
            assert(frame.model().custom =~= model.custom);
        }
        frame
    }

    /// Writes the head of the frame as bytes: the command line, the lines of
    /// the headers that are set, and a blank line.
    pub fn write_head(&self) -> (head: Vec<u8>)
        ensures
            head@ == spec_serialize_head(self.model()),
    {
        let ghost model = self.model();
        let mut out = write_command(Command::Subscribe);
        proof {
            SubscribeFrame::lemma_declared();
            assert(out@ == spec_head_upto(model, 0));
        }
        write_header(&mut out, &self.destination);
        assert(out@ == spec_head_upto(model, 1));
        write_header(&mut out, &self.id);
        assert(out@ == spec_head_upto(model, 2));
        write_header(&mut out, &self.ack_type);
        assert(out@ == spec_head_upto(model, 3));
        write_optional(&mut out, &self.receipt);
        assert(out@ == spec_head_upto(model, 4));
        out.push(LF);
        proof {
            lemma_head_upto(model, 4);
            assert(out@ =~= spec_serialize_head(model));
        }
        out
    }

    /// The text of the frame for a reader: the frame as it is written where
    /// that is UTF-8, else the frame as it would be written without its body.
    pub fn to_string(&self) -> (text: String)
        ensures
            encode_utf8(text@) == spec_display(self.model()),
    {
        let head = self.write_head();
        display(head, None)
    }

    /// Writes the frame as bytes: the command line, the lines of the headers
    /// that are set, a blank line and the zero octet.
    pub fn try_into(self) -> (r: Result<Vec<u8>, StompParseError>)
        ensures
            r matches Ok(bytes) && bytes@ == spec_serialize(self.model()),
    {
        proof {
            self.lemma_places();
            lemma_complete_builds(self.model());
        }
        self.into_raw().serialize()
    }
}

/// A `UNSUBSCRIBE` frame, which ends a subscription.
///
/// Required headers: `id`. Optional headers: `receipt`.
#[derive(Debug)]
pub struct UnsubscribeFrame {
    /// The value of the `id` header.
    pub id: IdValue,
    /// The value of the `receipt` header, where the frame has one.
    pub receipt: Option<ReceiptValue>,
}

impl UnsubscribeFrame {
    /// The places of the frame: for each header that the command knows,
    /// required ones first, the header or `None` where the frame has none.
    pub open spec fn spec_places(&self) -> Seq<Option<Header>> {
        seq![
            Some(Header::Id(self.id)),
            match self.receipt {
                Some(value) => Some(Header::Receipt(value)),
                None => None,
            },
        ]
    }

    /// The frame as specifications speak of it.
    pub open spec fn model(&self) -> FrameModel {
        FrameModel {
            command: Command::Unsubscribe,
            slots: spec_values(self.spec_places()),
            custom: Seq::empty(),
            body: None,
        }
    }

    /// The headers that a `UNSUBSCRIBE` frame has a place for, in the order of
    /// the places.
    pub proof fn lemma_declared()
        ensures
            Command::Unsubscribe.spec_declared() == seq![HeaderType::Id, HeaderType::Receipt],
    {
        assert(Command::Unsubscribe.spec_declared() =~= seq![HeaderType::Id, HeaderType::Receipt]);
    }

    /// Each place of the frame holds nothing or a header of its type, and
    /// the frame has every header that it cannot be without.
    pub proof fn lemma_places(&self)
        ensures
            spec_typed(Command::Unsubscribe.spec_declared(), self.spec_places()),
            spec_complete(self.model()),
    {
        reveal(spec_typed);
        reveal(spec_complete);
        UnsubscribeFrame::lemma_declared();
    }

    /// A frame with the given headers.
    pub fn new(id: IdValue, receipt: Option<ReceiptValue>) -> (frame: UnsubscribeFrame)
        ensures
            frame.id == id,
            frame.receipt == receipt,
    {
        UnsubscribeFrame {
            id,
            receipt,
        }
    }

    /// The same frame as a frame of any command.
    pub fn into_raw(self) -> (raw: RawFrame)
        ensures
            raw@ == self.model(),
            raw.wf(),
    {
        let mut slots: Vec<Option<Header>> = Vec::new();
        slots.push(Some(Header::Id(self.id)));
        slots.push(
            match self.receipt {
                Some(value) => Some(Header::Receipt(value)),
                None => None,
            },
        );
        let raw = RawFrame {
            command: Command::Unsubscribe,
            slots,
            custom: Vec::new(),
            raw: None,
            body_offset_length: (0, 0),
        };
        proof {
            self.lemma_places();
            assert(raw.slots@[0] == self.spec_places()[0]);
            assert(raw.slots@[1] == self.spec_places()[1]);
            assert(raw.slots@ =~= self.spec_places());
            assert(raw@.custom =~= self.model().custom);
        }
        raw
    }

    /// The frame of any command as a `UNSUBSCRIBE` frame.
    pub fn from_raw(raw: RawFrame) -> (frame: UnsubscribeFrame)
        requires
            raw.command == Command::Unsubscribe,
            raw.wf(),
            spec_complete(raw@),
        ensures
            frame.model() == raw@,
    {
        let ghost model = raw@;
        let ghost places = raw.slots@;
        let mut slots = raw.slots;
        proof {
            let declared = Command::Unsubscribe.spec_declared();
            UnsubscribeFrame::lemma_declared();
            lemma_place(declared, places, 0);
            lemma_place(declared, places, 1);
            lemma_complete_place(model, 0);
        }
        let receipt = match take_place(&mut slots) {
            Some(header) => Some(header.into_receipt()),
            None => None,
        };
        let id = take_header(&mut slots).into_id();
        let frame = UnsubscribeFrame {
            id,
            receipt,
        };
        proof {
            assert(places[0] == frame.spec_places()[0]);
            assert(places[1] == frame.spec_places()[1]);
            assert(places =~= frame.spec_places());
            assert(frame.model().custom =~= model.custom);
        }
        frame
    }

    /// Writes the head of the frame as bytes: the command line, the lines of
    /// the headers that are set, and a blank line.
    pub fn write_head(&self) -> (head: Vec<u8>)
        ensures
            head@ == spec_serialize_head(self.model()),
    {
        let ghost model = self.model();
        let mut out = write_command(Command::Unsubscribe);
        proof {
            UnsubscribeFrame::lemma_declared();
            assert(out@ == spec_head_upto(model, 0));
        }
        write_header(&mut out, &self.id);
        assert(out@ == spec_head_upto(model, 1));
        write_optional(&mut out, &self.receipt);
        assert(out@ == spec_head_upto(model, 2));
        out.push(LF);
        proof {
            lemma_head_upto(model, 2);
            assert(out@ =~= spec_serialize_head(model));
        }
        out
    }

    /// The text of the frame for a reader: the frame as it is written where
    /// that is UTF-8, else the frame as it would be written without its body.
    pub fn to_string(&self) -> (text: String)
        ensures
            encode_utf8(text@) == spec_display(self.model()),
    {
        let head = self.write_head();
        display(head, None)
    }

    /// Writes the frame as bytes: the command line, the lines of the headers
    /// that are set, a blank line and the zero octet.
    pub fn try_into(self) -> (r: Result<Vec<u8>, StompParseError>)
        ensures
            r matches Ok(bytes) && bytes@ == spec_serialize(self.model()),
    {
        proof {
            self.lemma_places();
            lemma_complete_builds(self.model());
        }
        self.into_raw().serialize()
    }
}

/// A frame of any command that a client sends.
#[derive(Debug)]
pub enum ClientFrame {
    /// Aborts a transaction that has begun but is not yet committed.
    Abort(AbortFrame),
    /// Acknowledges a message.
    Ack(AckFrame),
    /// Begins a transaction.
    Begin(BeginFrame),
    /// Commits a transaction.
    Commit(CommitFrame),
    /// Opens a session; `STOMP` is a second keyword for it.
    Connect(ConnectFrame),
    /// Ends a session.
    Disconnect(DisconnectFrame),
    /// Says that the client did not process a message.
    Nack(NackFrame),
    /// Sends a message to a destination.
    Send(SendFrame),
    /// Subscribes to a destination.
    Subscribe(SubscribeFrame),
    /// Ends a subscription.
    Unsubscribe(UnsubscribeFrame),
}

impl ClientFrame {
    /// The frame as specifications speak of it.
    pub open spec fn model(&self) -> FrameModel {
        match *self {
            ClientFrame::Abort(frame) => frame.model(),
            ClientFrame::Ack(frame) => frame.model(),
            ClientFrame::Begin(frame) => frame.model(),
            ClientFrame::Commit(frame) => frame.model(),
            ClientFrame::Connect(frame) => frame.model(),
            ClientFrame::Disconnect(frame) => frame.model(),
            ClientFrame::Nack(frame) => frame.model(),
            ClientFrame::Send(frame) => frame.model(),
            ClientFrame::Subscribe(frame) => frame.model(),
            ClientFrame::Unsubscribe(frame) => frame.model(),
        }
    }

    /// Whether the body of the frame, where it has one, lies within its
    /// buffer.
    pub open spec fn wf(&self) -> bool {
        match *self {
            ClientFrame::Send(frame) => frame.wf(),
            _ => true,
        }
    }

    /// The buffer that holds the body of the frame, where the frame has one.
    pub open spec fn spec_buffer(&self) -> Option<Seq<u8>> {
        match *self {
            ClientFrame::Send(frame) => frame.spec_buffer(),
            _ => None,
        }
    }

    /// Reads a frame from the bytes of one, as a client sent them. A
    /// frame with a body keeps the bytes as its buffer. The error for bytes
    /// that are no frame says what is wrong with them and names the header
    /// or the keyword that is at fault.
    pub fn try_from(bytes: Vec<u8>) -> (r: Result<ClientFrame, StompParseError>)
        ensures
            match r {
                Ok(frame) => {
                    &&& spec_parse(bytes@, Origin::Client) == Ok::<FrameModel, Failure>(
                        frame.model(),
                    )
                    &&& frame.wf()
                    &&& frame.model().command.spec_allows_body() ==> frame.spec_buffer() == Some(
                        bytes@,
                    )
                },
                Err(e) => {
                    &&& spec_parse(bytes@, Origin::Client) == Err::<FrameModel, Failure>(
                        e.spec_kind(),
                    )
                    &&& e.spec_message() == spec_parse_message(bytes@, Origin::Client)
                },
            },
    {
        let raw = match RawFrame::parse(bytes, Origin::Client) {
            Ok(raw) => raw,
            Err(e) => {
                return Err(e);
            },
        };
        proof {
            super::lemma_parse_complete(bytes@, Origin::Client);
        }
        match raw.command {
            Command::Abort => Ok(ClientFrame::Abort(AbortFrame::from_raw(raw))),
            Command::Ack => Ok(ClientFrame::Ack(AckFrame::from_raw(raw))),
            Command::Begin => Ok(ClientFrame::Begin(BeginFrame::from_raw(raw))),
            Command::Commit => Ok(ClientFrame::Commit(CommitFrame::from_raw(raw))),
            Command::Connect => Ok(ClientFrame::Connect(ConnectFrame::from_raw(raw))),
            Command::Disconnect => Ok(ClientFrame::Disconnect(DisconnectFrame::from_raw(raw))),
            Command::Nack => Ok(ClientFrame::Nack(NackFrame::from_raw(raw))),
            Command::Send => Ok(ClientFrame::Send(SendFrame::from_raw(raw))),
            Command::Subscribe => Ok(ClientFrame::Subscribe(SubscribeFrame::from_raw(raw))),
            Command::Unsubscribe => Ok(ClientFrame::Unsubscribe(UnsubscribeFrame::from_raw(raw))),
            _ => unreached(),
        }
    }

    /// Writes the frame as bytes. A frame with a body that has no buffer yet
    /// is refused.
    pub fn try_into(self) -> (r: Result<Vec<u8>, StompParseError>)
        requires
            self.wf(),
        ensures
            match r {
                Ok(bytes) => bytes@ == spec_serialize(self.model()),
                Err(e) => {
                    &&& self.model().command.spec_allows_body()
                    &&& self.spec_buffer() is None
                    &&& e.spec_is(Failure::BuilderBodyUnset)
                },
            },
    {
        match self {
            ClientFrame::Abort(frame) => frame.try_into(),
            ClientFrame::Ack(frame) => frame.try_into(),
            ClientFrame::Begin(frame) => frame.try_into(),
            ClientFrame::Commit(frame) => frame.try_into(),
            ClientFrame::Connect(frame) => frame.try_into(),
            ClientFrame::Disconnect(frame) => frame.try_into(),
            ClientFrame::Nack(frame) => frame.try_into(),
            ClientFrame::Send(frame) => frame.try_into(),
            ClientFrame::Subscribe(frame) => frame.try_into(),
            ClientFrame::Unsubscribe(frame) => frame.try_into(),
        }
    }

    /// The text of the frame for a reader: the frame as it is written where
    /// that is UTF-8, else the frame as it would be written without its body.
    pub fn to_string(&self) -> (text: String)
        requires
            self.wf(),
        ensures
            encode_utf8(text@) == spec_display(self.model()),
    {
        match self {
            ClientFrame::Abort(frame) => frame.to_string(),
            ClientFrame::Ack(frame) => frame.to_string(),
            ClientFrame::Begin(frame) => frame.to_string(),
            ClientFrame::Commit(frame) => frame.to_string(),
            ClientFrame::Connect(frame) => frame.to_string(),
            ClientFrame::Disconnect(frame) => frame.to_string(),
            ClientFrame::Nack(frame) => frame.to_string(),
            ClientFrame::Send(frame) => frame.to_string(),
            ClientFrame::Subscribe(frame) => frame.to_string(),
            ClientFrame::Unsubscribe(frame) => frame.to_string(),
        }
    }
}

} // verus!
