//! The frames that a server sends: one type for each command, and
//! `ServerFrame` for a frame of any of them.
use super::utils::spec_select;
use super::{
    display, lemma_complete_builds, lemma_complete_place, lemma_head_upto, lemma_place,
    spec_complete, spec_display, spec_head_upto, spec_pairs, spec_parse, spec_parse_message,
    spec_serialize, spec_serialize_head, spec_typed, spec_values, take_header, take_place,
    write_command, write_header, write_optional, FrameModel, RawFrame,
};
use crate::error::{Failure, StompParseError};
use crate::model::grammar::{Command, Origin};
use crate::model::headers::{
    ContentLengthValue, ContentTypeValue, CustomValue, DestinationValue, Header, HeaderType,
    HeartBeatValue, MessageIdValue, ReceiptIdValue, ServerValue, SessionValue, SubscriptionValue,
    VersionValue,
};
use crate::parser::HasBody;
use crate::text::LF;
use vstd::prelude::*;
use vstd::utf8::encode_utf8;

verus! {
/// A `CONNECTED` frame, which accepts a session.
///
/// Required headers: `version`. Optional headers: `heart-beat`, `session`, `server`.
#[derive(Debug)]
pub struct ConnectedFrame {
    /// The value of the `version` header.
    pub version: VersionValue,
    /// The value of the `heart-beat` header, where the frame has one.
    pub heartbeat: Option<HeartBeatValue>,
    /// The value of the `session` header, where the frame has one.
    pub session: Option<SessionValue>,
    /// The value of the `server` header, where the frame has one.
    pub server: Option<ServerValue>,
}

impl ConnectedFrame {
    /// The places of the frame: for each header that the command knows,
    /// required ones first, the header or `None` where the frame has none.
    pub open spec fn spec_places(&self) -> Seq<Option<Header>> {
        seq![
            Some(Header::Version(self.version)),
            match self.heartbeat {
                Some(value) => Some(Header::HeartBeat(value)),
                None => None,
            },
            match self.session {
                Some(value) => Some(Header::Session(value)),
                None => None,
            },
            match self.server {
                Some(value) => Some(Header::Server(value)),
                None => None,
            },
        ]
    }

    /// The frame as specifications speak of it.
    pub open spec fn model(&self) -> FrameModel {
        FrameModel {
            command: Command::Connected,
            slots: spec_values(self.spec_places()),
            custom: Seq::empty(),
            body: None,
        }
    }

    /// The headers that a `CONNECTED` frame has a place for, in the order of
    /// the places.
    pub proof fn lemma_declared()
        ensures
            Command::Connected.spec_declared() == seq![
                HeaderType::Version, HeaderType::HeartBeat, HeaderType::Session, HeaderType::Server,
            ],
    {
        assert(Command::Connected.spec_declared() =~= seq![
            HeaderType::Version, HeaderType::HeartBeat, HeaderType::Session, HeaderType::Server,
        ]);
    }

    /// Each place of the frame holds nothing or a header of its type, and
    /// the frame has every header that it cannot be without.
    pub proof fn lemma_places(&self)
        ensures
            spec_typed(Command::Connected.spec_declared(), self.spec_places()),
            spec_complete(self.model()),
    {
        reveal(spec_typed);
        reveal(spec_complete);
        ConnectedFrame::lemma_declared();
    }

    /// A frame with the given headers.
    pub fn new(
        version: VersionValue,
        heartbeat: Option<HeartBeatValue>,
        session: Option<SessionValue>,
        server: Option<ServerValue>,
    ) -> (frame: ConnectedFrame)
        ensures
            frame.version == version,
            frame.heartbeat == heartbeat,
            frame.session == session,
            frame.server == server,
    {
        ConnectedFrame {
            version,
            heartbeat,
            session,
            server,
        }
    }

    /// The same frame as a frame of any command.
    pub fn into_raw(self) -> (raw: RawFrame)
        ensures
            raw@ == self.model(),
            raw.wf(),
    {
        let mut slots: Vec<Option<Header>> = Vec::new();
        slots.push(Some(Header::Version(self.version)));
        slots.push(
            match self.heartbeat {
                Some(value) => Some(Header::HeartBeat(value)),
                None => None,
            },
        );
        slots.push(
            match self.session {
                Some(value) => Some(Header::Session(value)),
                None => None,
            },
        );
        slots.push(
            match self.server {
                Some(value) => Some(Header::Server(value)),
                None => None,
            },
        );
        let raw = RawFrame {
            command: Command::Connected,
            slots,
            custom: Vec::new(),
            raw: None,
            body_offset_length: (0, 0),
        };
        proof {
            self.lemma_places();
            assert(raw.slots@[0] == self.spec_places()[0]);
            assert(raw.slots@[1] == self.spec_places()[1]);
            assert(raw.slots@[2] == self.spec_places()[2]);
            assert(raw.slots@[3] == self.spec_places()[3]);
            assert(raw.slots@ =~= self.spec_places());
            assert(raw@.custom =~= self.model().custom);
        }
        raw
    }

    /// The frame of any command as a `CONNECTED` frame.
    pub fn from_raw(raw: RawFrame) -> (frame: ConnectedFrame)
        requires
            raw.command == Command::Connected,
            raw.wf(),
            spec_complete(raw@),
        ensures
            frame.model() == raw@,
    {
        let ghost model = raw@;
        let ghost places = raw.slots@;
        let mut slots = raw.slots;
        proof {
            let declared = Command::Connected.spec_declared();
            ConnectedFrame::lemma_declared();
            lemma_place(declared, places, 0);
            lemma_place(declared, places, 1);
            lemma_place(declared, places, 2);
            lemma_place(declared, places, 3);
            lemma_complete_place(model, 0);
        }
        let server = match take_place(&mut slots) {
            Some(header) => Some(header.into_server()),
            None => None,
        };
        let session = match take_place(&mut slots) {
            Some(header) => Some(header.into_session()),
            None => None,
        };
        let heartbeat = match take_place(&mut slots) {
            Some(header) => Some(header.into_heart_beat()),
            None => None,
        };
        let version = take_header(&mut slots).into_version();
        let frame = ConnectedFrame {
            version,
            heartbeat,
            session,
            server,
        };
        proof {
            assert(places[0] == frame.spec_places()[0]);
            assert(places[1] == frame.spec_places()[1]);
            assert(places[2] == frame.spec_places()[2]);
            assert(places[3] == frame.spec_places()[3]);
            assert(places =~= frame.spec_places());
            assert(frame.model().custom =~= model.custom);
        }
        frame
    }

    /// Writes the head of the frame as bytes: the command line, the lines of
    /// the headers that are set, and a blank line.
    pub fn write_head(&self) -> (head: Vec<u8>)
        ensures
            head@ == spec_serialize_head(self.model()),
    {
        let ghost model = self.model();
        let mut out = write_command(Command::Connected);
        proof {
            ConnectedFrame::lemma_declared();
            assert(out@ == spec_head_upto(model, 0));
        }
        write_header(&mut out, &self.version);
        assert(out@ == spec_head_upto(model, 1));
        write_optional(&mut out, &self.heartbeat);
        assert(out@ == spec_head_upto(model, 2));
        write_optional(&mut out, &self.session);
        assert(out@ == spec_head_upto(model, 3));
        write_optional(&mut out, &self.server);
        assert(out@ == spec_head_upto(model, 4));
        out.push(LF);
        proof {
            lemma_head_upto(model, 4);
            assert(out@ =~= spec_serialize_head(model));
        }
        out
    }

    /// The text of the frame for a reader: the frame as it is written where
    /// that is UTF-8, else the frame as it would be written without its body.
    pub fn to_string(&self) -> (text: String)
        ensures
            encode_utf8(text@) == spec_display(self.model()),
    {
        let head = self.write_head();
        display(head, None)
    }

    /// Writes the frame as bytes: the command line, the lines of the headers
    /// that are set, a blank line and the zero octet.
    pub fn try_into(self) -> (r: Result<Vec<u8>, StompParseError>)
        ensures
            r matches Ok(bytes) && bytes@ == spec_serialize(self.model()),
    {
        proof {
            self.lemma_places();
            lemma_complete_builds(self.model());
        }
        self.into_raw().serialize()
    }
}

/// A `RECEIPT` frame, which confirms that a frame of the client was processed.
///
/// Required headers: `receipt-id`.
#[derive(Debug)]
pub struct ReceiptFrame {
    /// The value of the `receipt-id` header.
    pub receipt_id: ReceiptIdValue,
}

impl ReceiptFrame {
    /// The places of the frame: for each header that the command knows,
    /// required ones first, the header or `None` where the frame has none.
    pub open spec fn spec_places(&self) -> Seq<Option<Header>> {
        seq![
            Some(Header::ReceiptId(self.receipt_id)),
        ]
    }

    /// The frame as specifications speak of it.
    pub open spec fn model(&self) -> FrameModel {
        FrameModel {
            command: Command::Receipt,
            slots: spec_values(self.spec_places()),
            custom: Seq::empty(),
            body: None,
        }
    }

    /// The headers that a `RECEIPT` frame has a place for, in the order of
    /// the places.
    pub proof fn lemma_declared()
        ensures
            Command::Receipt.spec_declared() == seq![HeaderType::ReceiptId],
    {
        assert(Command::Receipt.spec_declared() =~= seq![HeaderType::ReceiptId]);
    }

    /// Each place of the frame holds nothing or a header of its type, and
    /// the frame has every header that it cannot be without.
    pub proof fn lemma_places(&self)
        ensures
            spec_typed(Command::Receipt.spec_declared(), self.spec_places()),
            spec_complete(self.model()),
    {
        reveal(spec_typed);
        reveal(spec_complete);
        ReceiptFrame::lemma_declared();
    }

    /// A frame with the given headers.
    pub fn new(receipt_id: ReceiptIdValue) -> (frame: ReceiptFrame)
        ensures
            frame.receipt_id == receipt_id,
    {
        ReceiptFrame {
            receipt_id,
        }
    }

    /// The same frame as a frame of any command.
    pub fn into_raw(self) -> (raw: RawFrame)
        ensures
            raw@ == self.model(),
            raw.wf(),
    {
        let mut slots: Vec<Option<Header>> = Vec::new();
        slots.push(Some(Header::ReceiptId(self.receipt_id)));
        let raw = RawFrame {
            command: Command::Receipt,
            slots,
            custom: Vec::new(),
            raw: None,
            body_offset_length: (0, 0),
        };
        proof {
            self.lemma_places();
            assert(raw.slots@[0] == self.spec_places()[0]);
            assert(raw.slots@ =~= self.spec_places());
            assert(raw@.custom =~= self.model().custom);
        }
        raw
    }

    /// The frame of any command as a `RECEIPT` frame.
    pub fn from_raw(raw: RawFrame) -> (frame: ReceiptFrame)
        requires
            raw.command == Command::Receipt,
            raw.wf(),
            spec_complete(raw@),
        ensures
            frame.model() == raw@,
    {
        let ghost model = raw@;
        let ghost places = raw.slots@;
        let mut slots = raw.slots;
        proof {
            let declared = Command::Receipt.spec_declared();
            ReceiptFrame::lemma_declared();
            lemma_place(declared, places, 0);
            lemma_complete_place(model, 0);
        }
        let receipt_id = take_header(&mut slots).into_receipt_id();
        let frame = ReceiptFrame {
            receipt_id,
        };
        proof {
            assert(places[0] == frame.spec_places()[0]);
            assert(places =~= frame.spec_places());
            assert(frame.model().custom =~= model.custom);
        }
        frame
    }

    /// Writes the head of the frame as bytes: the command line, the lines of
    /// the headers that are set, and a blank line.
    pub fn write_head(&self) -> (head: Vec<u8>)
        ensures
            head@ == spec_serialize_head(self.model()),
    {
        let ghost model = self.model();
        let mut out = write_command(Command::Receipt);
        proof {
            ReceiptFrame::lemma_declared();
            assert(out@ == spec_head_upto(model, 0));
        }
        write_header(&mut out, &self.receipt_id);
        assert(out@ == spec_head_upto(model, 1));
        out.push(LF);
        proof {
            lemma_head_upto(model, 1);
            assert(out@ =~= spec_serialize_head(model));
        }
        out
    }

    /// The text of the frame for a reader: the frame as it is written where
    /// that is UTF-8, else the frame as it would be written without its body.
    pub fn to_string(&self) -> (text: String)
        ensures
            encode_utf8(text@) == spec_display(self.model()),
    {
        let head = self.write_head();
        display(head, None)
    }

    /// Writes the frame as bytes: the command line, the lines of the headers
    /// that are set, a blank line and the zero octet.
    pub fn try_into(self) -> (r: Result<Vec<u8>, StompParseError>)
        ensures
            r matches Ok(bytes) && bytes@ == spec_serialize(self.model()),
    {
        proof {
            self.lemma_places();
            lemma_complete_builds(self.model());
        }
        self.into_raw().serialize()
    }
}

/// A `ERROR` frame, which reports that something went wrong.
///
/// Required headers: none.
/// It takes custom headers. It has a body.
#[derive(Debug)]
pub struct ErrorFrame {
    /// The custom headers, in the order of the frame.
    pub custom: Vec<CustomValue>,
    /// The buffer that holds the body, once the frame has one.
    pub raw: Option<Vec<u8>>,
    /// Where the body starts in the buffer, and how long it is.
    pub body_offset_length: (usize, usize),
}

impl ErrorFrame {
    /// Where the body starts in the buffer, and how long it is.
    pub open spec fn spec_offset_length(&self) -> (usize, usize) {
        self.body_offset_length
    }

    /// The buffer that holds the body, once the frame has one.
    pub open spec fn spec_buffer(&self) -> Option<Seq<u8>> {
        match self.raw {
            Some(bytes) => Some(bytes@),
            None => None,
        }
    }

    /// The body of the frame: the part of the buffer that it lies in.
    pub open spec fn spec_body(&self) -> Option<Seq<u8>> {
        spec_select(self.spec_buffer(), self.spec_offset_length())
    }

    /// Whether the body lies within the buffer, where the frame has one.
    pub open spec fn wf(&self) -> bool {
        self.spec_buffer() matches Some(bytes) ==> self.spec_offset_length().0
            + self.spec_offset_length().1 <= bytes.len()
    }

    /// The places of the frame: for each header that the command knows,
    /// required ones first, the header or `None` where the frame has none.
    pub open spec fn spec_places(&self) -> Seq<Option<Header>> {
        Seq::empty()
    }

    /// The frame as specifications speak of it.
    pub open spec fn model(&self) -> FrameModel {
        FrameModel {
            command: Command::Error,
            slots: spec_values(self.spec_places()),
            custom: spec_pairs(self.custom@),
            body: self.spec_body(),
        }
    }

    /// The headers that a `ERROR` frame has a place for, in the order of
    /// the places.
    pub proof fn lemma_declared()
        ensures
            Command::Error.spec_declared() == Seq::<HeaderType>::empty(),
    {
        assert(Command::Error.spec_declared() =~= Seq::<HeaderType>::empty());
    }

    /// Each place of the frame holds nothing or a header of its type, and
    /// the frame has every header that it cannot be without.
    pub proof fn lemma_places(&self)
        ensures
            spec_typed(Command::Error.spec_declared(), self.spec_places()),
            spec_complete(self.model()),
    {
        reveal(spec_typed);
        reveal(spec_complete);
        ErrorFrame::lemma_declared();
    }

    /// A frame with the given headers and body.
    pub fn new(custom: Vec<CustomValue>, body: Vec<u8>) -> (frame: ErrorFrame)
        ensures
            frame.custom == custom,
            frame.spec_buffer() == Some(body@),
            frame.spec_body() == Some(body@),
            frame.wf(),
    {
        let length = body.len();
        let frame = ErrorFrame {
            custom,
            raw: Some(body),
            body_offset_length: (0, length),
        };
        assert(frame.spec_body()->0 =~= body@);
        frame
    }

    /// A frame with the given headers whose body lies at the given offset
    /// and has the given length in a buffer that `set_raw` hands over later.
    pub fn from_parsed(
        custom: Vec<CustomValue>,
        body_offset_length: (usize, usize),
    ) -> (frame: ErrorFrame)
        ensures
            frame.custom == custom,
            frame.spec_offset_length() == body_offset_length,
            frame.spec_buffer() is None,
    {
        ErrorFrame {
            custom,
            raw: None,
            body_offset_length,
        }
    }

    /// The body of the frame, once it has a buffer.
    pub fn body(&self) -> (r: Option<&[u8]>)
        requires
            self.wf(),
        ensures
            match r {
                Some(body) => self.spec_body() == Some(body@),
                None => self.spec_buffer() is None,
            },
    {
        super::utils::select_slice(&self.raw, &self.body_offset_length)
    }

    /// The same frame as a frame of any command.
    pub fn into_raw(self) -> (raw: RawFrame)
        requires
            self.wf(),
        ensures
            raw@ == self.model(),
            raw.wf(),
    {
        let slots: Vec<Option<Header>> = Vec::new();
        let raw = RawFrame {
            command: Command::Error,
            slots,
            custom: self.custom,
            raw: self.raw,
            body_offset_length: self.body_offset_length,
        };
        proof {
            self.lemma_places();
            assert(raw.slots@ =~= self.spec_places());
            assert(raw@.custom =~= self.model().custom);
        }
        raw
    }

    /// The frame of any command as a `ERROR` frame.
    pub fn from_raw(raw: RawFrame) -> (frame: ErrorFrame)
        requires
            raw.command == Command::Error,
            raw.wf(),
            spec_complete(raw@),
        ensures
            frame.model() == raw@,
            frame.wf(),
            frame.spec_buffer() == raw.spec_raw(),
    {
        let ghost model = raw@;
        let ghost places = raw.slots@;
        proof {
            ErrorFrame::lemma_declared();
            super::lemma_places_len(Command::Error.spec_declared(), places);
        }
        let frame = ErrorFrame {
            custom: raw.custom,
            raw: raw.raw,
            body_offset_length: raw.body_offset_length,
        };
        proof {
            assert(places =~= frame.spec_places());
            assert(frame.model().custom =~= model.custom);
        }
        frame
    }

    /// Writes the head of the frame as bytes: the command line, the lines of
    /// the headers that are set, and a blank line.
    pub fn write_head(&self) -> (head: Vec<u8>)
        ensures
            head@ == spec_serialize_head(self.model()),
    {
        let ghost model = self.model();
        let mut out = write_command(Command::Error);
        proof {
            ErrorFrame::lemma_declared();
            assert(out@ == spec_head_upto(model, 0));
        }
        out.push(LF);
        proof {
            lemma_head_upto(model, 0);
            assert(out@ =~= spec_serialize_head(model));
        }
        out
    }

    /// The text of the frame for a reader: the frame as it is written where
    /// that is UTF-8, else the frame as it would be written without its body.
    pub fn to_string(&self) -> (text: String)
        requires
            self.wf(),
        ensures
            encode_utf8(text@) == spec_display(self.model()),
    {
        let head = self.write_head();
        display(head, self.body())
    }

    /// Writes the frame as bytes: the command line, the lines of the headers
    /// that are set, a blank line, the body and the zero octet. A frame that
    /// has no buffer yet, and so no body, is refused.
    pub fn try_into(self) -> (r: Result<Vec<u8>, StompParseError>)
        requires
            self.wf(),
        ensures
            match r {
                Ok(bytes) => self.spec_buffer() is Some && bytes@ == spec_serialize(self.model()),
                Err(e) => self.spec_buffer() is None && e.spec_is(Failure::BuilderBodyUnset),
            },
    {
        proof {
            self.lemma_places();
            lemma_complete_builds(self.model());
        }
        self.into_raw().serialize()
    }
}

impl HasBody for ErrorFrame {
    open spec fn spec_raw(&self) -> Option<Seq<u8>> {
        self.spec_buffer()
    }

    fn set_raw(&mut self, bytes: Vec<u8>)
        ensures
            final(self).spec_buffer() == Some(bytes@),
            final(self).spec_offset_length() == old(self).spec_offset_length(),
            final(self).custom == old(self).custom,
    {
        self.raw = Some(bytes);
    }
}

/// A `MESSAGE` frame, which conveys a message of a subscription.
///
/// Required headers: `message-id`, `destination`, `subscription`. Optional
/// headers: `content-type`, `content-length`. It has a body.
#[derive(Debug)]
pub struct MessageFrame {
    /// The value of the `message-id` header.
    pub message_id: MessageIdValue,
    /// The value of the `destination` header.
    pub destination: DestinationValue,
    /// The value of the `subscription` header.
    pub subscription: SubscriptionValue,
    /// The value of the `content-type` header, where the frame has one.
    pub content_type: Option<ContentTypeValue>,
    /// The value of the `content-length` header, where the frame has one.
    pub content_length: Option<ContentLengthValue>,
    /// The buffer that holds the body, once the frame has one.
    pub raw: Option<Vec<u8>>,
    /// Where the body starts in the buffer, and how long it is.
    pub body_offset_length: (usize, usize),
}

impl MessageFrame {
    /// Where the body starts in the buffer, and how long it is.
    pub open spec fn spec_offset_length(&self) -> (usize, usize) {
        self.body_offset_length
    }

    /// The buffer that holds the body, once the frame has one.
    pub open spec fn spec_buffer(&self) -> Option<Seq<u8>> {
        match self.raw {
            Some(bytes) => Some(bytes@),
            None => None,
        }
    }

    /// The body of the frame: the part of the buffer that it lies in.
    pub open spec fn spec_body(&self) -> Option<Seq<u8>> {
        spec_select(self.spec_buffer(), self.spec_offset_length())
    }

    /// Whether the body lies within the buffer, where the frame has one.
    pub open spec fn wf(&self) -> bool {
        self.spec_buffer() matches Some(bytes) ==> self.spec_offset_length().0
            + self.spec_offset_length().1 <= bytes.len()
    }

    /// The places of the frame: for each header that the command knows,
    /// required ones first, the header or `None` where the frame has none.
    pub open spec fn spec_places(&self) -> Seq<Option<Header>> {
        seq![
            Some(Header::MessageId(self.message_id)),
            Some(Header::Destination(self.destination)),
            Some(Header::Subscription(self.subscription)),
            match self.content_type {
                Some(value) => Some(Header::ContentType(value)),
                None => None,
            },
            match self.content_length {
                Some(value) => Some(Header::ContentLength(value)),
                None => None,
            },
        ]
    }

    /// The frame as specifications speak of it.
    pub open spec fn model(&self) -> FrameModel {
        FrameModel {
            command: Command::Message,
            slots: spec_values(self.spec_places()),
            custom: Seq::empty(),
            body: self.spec_body(),
        }
    }

    /// The headers that a `MESSAGE` frame has a place for, in the order of
    /// the places.
    pub proof fn lemma_declared()
        ensures
            Command::Message.spec_declared() == seq![
                HeaderType::MessageId, HeaderType::Destination, HeaderType::Subscription,
                HeaderType::ContentType, HeaderType::ContentLength,
            ],
    {
        assert(Command::Message.spec_declared() =~= seq![
            HeaderType::MessageId, HeaderType::Destination, HeaderType::Subscription,
            HeaderType::ContentType, HeaderType::ContentLength,
        ]);
    }

    /// Each place of the frame holds nothing or a header of its type, and
    /// the frame has every header that it cannot be without.
    pub proof fn lemma_places(&self)
        ensures
            spec_typed(Command::Message.spec_declared(), self.spec_places()),
            spec_complete(self.model()),
    {
        reveal(spec_typed);
        reveal(spec_complete);
        MessageFrame::lemma_declared();
    }

    /// A frame with the given headers and body.
    pub fn new(
        message_id: MessageIdValue,
        destination: DestinationValue,
        subscription: SubscriptionValue,
        content_type: Option<ContentTypeValue>,
        content_length: Option<ContentLengthValue>,
        body: Vec<u8>,
    ) -> (frame: MessageFrame)
        ensures
            frame.message_id == message_id,
            frame.destination == destination,
            frame.subscription == subscription,
            frame.content_type == content_type,
            frame.content_length == content_length,
            frame.spec_buffer() == Some(body@),
            frame.spec_body() == Some(body@),
            frame.wf(),
    {
        let length = body.len();
        let frame = MessageFrame {
            message_id,
            destination,
            subscription,
            content_type,
            content_length,
            raw: Some(body),
            body_offset_length: (0, length),
        };
        assert(frame.spec_body()->0 =~= body@);
        frame
    }

    /// A frame with the given headers whose body lies at the given offset
    /// and has the given length in a buffer that `set_raw` hands over later.
    pub fn from_parsed(
        message_id: MessageIdValue,
        destination: DestinationValue,
        subscription: SubscriptionValue,
        content_type: Option<ContentTypeValue>,
        content_length: Option<ContentLengthValue>,
        body_offset_length: (usize, usize),
    ) -> (frame: MessageFrame)
        ensures
            frame.message_id == message_id,
            frame.destination == destination,
            frame.subscription == subscription,
            frame.content_type == content_type,
            frame.content_length == content_length,
            frame.spec_offset_length() == body_offset_length,
            frame.spec_buffer() is None,
    {
        MessageFrame {
            message_id,
            destination,
            subscription,
            content_type,
            content_length,
            raw: None,
            body_offset_length,
        }
    }

    /// The body of the frame, once it has a buffer.
    pub fn body(&self) -> (r: Option<&[u8]>)
        requires
            self.wf(),
        ensures
            match r {
                Some(body) => self.spec_body() == Some(body@),
                None => self.spec_buffer() is None,
            },
    {
        super::utils::select_slice(&self.raw, &self.body_offset_length)
    }

    /// The same frame as a frame of any command.
    pub fn into_raw(self) -> (raw: RawFrame)
        requires
            self.wf(),
        ensures
            raw@ == self.model(),
            raw.wf(),
    {
        let mut slots: Vec<Option<Header>> = Vec::new();
        slots.push(Some(Header::MessageId(self.message_id)));
        slots.push(Some(Header::Destination(self.destination)));
        slots.push(Some(Header::Subscription(self.subscription)));
        slots.push(
            match self.content_type {
                Some(value) => Some(Header::ContentType(value)),
                None => None,
            },
        );
        slots.push(
            match self.content_length {
                Some(value) => Some(Header::ContentLength(value)),
                None => None,
            },
        );
        let raw = RawFrame {
            command: Command::Message,
            slots,
            custom: Vec::new(),
            raw: self.raw,
            body_offset_length: self.body_offset_length,
        };
        proof {
            self.lemma_places();
            assert(raw.slots@[0] == self.spec_places()[0]);
            assert(raw.slots@[1] == self.spec_places()[1]);
            assert(raw.slots@[2] == self.spec_places()[2]);
            assert(raw.slots@[3] == self.spec_places()[3]);
            assert(raw.slots@[4] == self.spec_places()[4]);
            assert(raw.slots@ =~= self.spec_places());
            assert(raw@.custom =~= self.model().custom);
        }
        raw
    }

    /// The frame of any command as a `MESSAGE` frame.
    pub fn from_raw(raw: RawFrame) -> (frame: MessageFrame)
        requires
            raw.command == Command::Message,
            raw.wf(),
            spec_complete(raw@),
        ensures
            frame.model() == raw@,
            frame.wf(),
            frame.spec_buffer() == raw.spec_raw(),
    {
        let ghost model = raw@;
        let ghost places = raw.slots@;
        let mut slots = raw.slots;
        proof {
            let declared = Command::Message.spec_declared();
            MessageFrame::lemma_declared();
            lemma_place(declared, places, 0);
            lemma_place(declared, places, 1);
            lemma_place(declared, places, 2);
            lemma_place(declared, places, 3);
            lemma_place(declared, places, 4);
            lemma_complete_place(model, 0);
            lemma_complete_place(model, 1);
            lemma_complete_place(model, 2);
        }
        let content_length = match take_place(&mut slots) {
            Some(header) => Some(header.into_content_length()),
            None => None,
        };
        let content_type = match take_place(&mut slots) {
            Some(header) => Some(header.into_content_type()),
            None => None,
        };
        let subscription = take_header(&mut slots).into_subscription();
        let destination = take_header(&mut slots).into_destination();
        let message_id = take_header(&mut slots).into_message_id();
        let frame = MessageFrame {
            message_id,
            destination,
            subscription,
            content_type,
            content_length,
            raw: raw.raw,
            body_offset_length: raw.body_offset_length,
        };
        proof {
            assert(places[0] == frame.spec_places()[0]);
            assert(places[1] == frame.spec_places()[1]);
            assert(places[2] == frame.spec_places()[2]);
            assert(places[3] == frame.spec_places()[3]);
            assert(places[4] == frame.spec_places()[4]);
            assert(places =~= frame.spec_places());
            assert(frame.model().custom =~= model.custom);
        }
        frame
    }

    /// Writes the head of the frame as bytes: the command line, the lines of
    /// the headers that are set, and a blank line.
    pub fn write_head(&self) -> (head: Vec<u8>)
        ensures
            head@ == spec_serialize_head(self.model()),
    {
        let ghost model = self.model();
        let mut out = write_command(Command::Message);
        proof {
            MessageFrame::lemma_declared();
            assert(out@ == spec_head_upto(model, 0));
        }
        write_header(&mut out, &self.message_id);
        assert(out@ == spec_head_upto(model, 1));
        write_header(&mut out, &self.destination);
        assert(out@ == spec_head_upto(model, 2));
        write_header(&mut out, &self.subscription);
        assert(out@ == spec_head_upto(model, 3));
        write_optional(&mut out, &self.content_type);
        assert(out@ == spec_head_upto(model, 4));
        write_optional(&mut out, &self.content_length);
        assert(out@ == spec_head_upto(model, 5));
        out.push(LF);
        proof {
            lemma_head_upto(model, 5);
            assert(out@ =~= spec_serialize_head(model));
        }
        out
    }

    /// The text of the frame for a reader: the frame as it is written where
    /// that is UTF-8, else the frame as it would be written without its body.
    pub fn to_string(&self) -> (text: String)
        requires
            self.wf(),
        ensures
            encode_utf8(text@) == spec_display(self.model()),
    {
        let head = self.write_head();
        display(head, self.body())
    }

    /// Writes the frame as bytes: the command line, the lines of the headers
    /// that are set, a blank line, the body and the zero octet. A frame that
    /// has no buffer yet, and so no body, is refused.
    pub fn try_into(self) -> (r: Result<Vec<u8>, StompParseError>)
        requires
            self.wf(),
        ensures
            match r {
                Ok(bytes) => self.spec_buffer() is Some && bytes@ == spec_serialize(self.model()),
                Err(e) => self.spec_buffer() is None && e.spec_is(Failure::BuilderBodyUnset),
            },
    {
        proof {
            self.lemma_places();
            lemma_complete_builds(self.model());
        }
        self.into_raw().serialize()
    }
}

impl HasBody for MessageFrame {
    open spec fn spec_raw(&self) -> Option<Seq<u8>> {
        self.spec_buffer()
    }

    fn set_raw(&mut self, bytes: Vec<u8>)
        ensures
            final(self).spec_buffer() == Some(bytes@),
            final(self).spec_offset_length() == old(self).spec_offset_length(),
            final(self).message_id == old(self).message_id,
            final(self).destination == old(self).destination,
            final(self).subscription == old(self).subscription,
            final(self).content_type == old(self).content_type,
            final(self).content_length == old(self).content_length,
    {
        self.raw = Some(bytes);
    }
}

/// A frame of any command that a server sends.
#[derive(Debug)]
pub enum ServerFrame {
    /// Accepts a session.
    Connected(ConnectedFrame),
    /// Confirms that a frame of the client was processed.
    Receipt(ReceiptFrame),
    /// Reports that something went wrong.
    Error(ErrorFrame),
    /// Conveys a message of a subscription.
    Message(MessageFrame),
}

impl ServerFrame {
    /// The frame as specifications speak of it.
    pub open spec fn model(&self) -> FrameModel {
        match *self {
            ServerFrame::Connected(frame) => frame.model(),
            ServerFrame::Receipt(frame) => frame.model(),
            ServerFrame::Error(frame) => frame.model(),
            ServerFrame::Message(frame) => frame.model(),
        }
    }

    /// Whether the body of the frame, where it has one, lies within its
    /// buffer.
    pub open spec fn wf(&self) -> bool {
        match *self {
            ServerFrame::Error(frame) => frame.wf(),
            ServerFrame::Message(frame) => frame.wf(),
            _ => true,
        }
    }

    /// The buffer that holds the body of the frame, where the frame has one.
    pub open spec fn spec_buffer(&self) -> Option<Seq<u8>> {
        match *self {
            ServerFrame::Error(frame) => frame.spec_buffer(),
            ServerFrame::Message(frame) => frame.spec_buffer(),
            _ => None,
        }
    }

    /// Reads a frame from the bytes of one, as a server sent them. A
    /// frame with a body keeps the bytes as its buffer. The error for bytes
    /// that are no frame says what is wrong with them and names the header
    /// or the keyword that is at fault.
    pub fn try_from(bytes: Vec<u8>) -> (r: Result<ServerFrame, StompParseError>)
        ensures
            match r {
                Ok(frame) => {
                    &&& spec_parse(bytes@, Origin::Server) == Ok::<FrameModel, Failure>(
                        frame.model(),
                    )
                    &&& frame.wf()
                    &&& frame.model().command.spec_allows_body() ==> frame.spec_buffer() == Some(
                        bytes@,
                    )
                },
                Err(e) => {
                    &&& spec_parse(bytes@, Origin::Server) == Err::<FrameModel, Failure>(
                        e.spec_kind(),
                    )
                    &&& e.spec_message() == spec_parse_message(bytes@, Origin::Server)
                },
            },
    {
        let raw = match RawFrame::parse(bytes, Origin::Server) {
            Ok(raw) => raw,
            Err(e) => {
                return Err(e);
            },
        };
        proof {
            super::lemma_parse_complete(bytes@, Origin::Server);
        }
        match raw.command {
            Command::Connected => Ok(ServerFrame::Connected(ConnectedFrame::from_raw(raw))),
            Command::Receipt => Ok(ServerFrame::Receipt(ReceiptFrame::from_raw(raw))),
            Command::Error => Ok(ServerFrame::Error(ErrorFrame::from_raw(raw))),
            Command::Message => Ok(ServerFrame::Message(MessageFrame::from_raw(raw))),
            _ => unreached(),
        }
    }

    /// Writes the frame as bytes. A frame with a body that has no buffer yet
    /// is refused.
    pub fn try_into(self) -> (r: Result<Vec<u8>, StompParseError>)
        requires
            self.wf(),
        ensures
            match r {
                Ok(bytes) => bytes@ == spec_serialize(self.model()),
                Err(e) => {
                    &&& self.model().command.spec_allows_body()
                    &&& self.spec_buffer() is None
                    &&& e.spec_is(Failure::BuilderBodyUnset)
                },
            },
    {
        match self {
            ServerFrame::Connected(frame) => frame.try_into(),
            ServerFrame::Receipt(frame) => frame.try_into(),
            ServerFrame::Error(frame) => frame.try_into(),
            ServerFrame::Message(frame) => frame.try_into(),
        }
    }

    /// The text of the frame for a reader: the frame as it is written where
    /// that is UTF-8, else the frame as it would be written without its body.
    pub fn to_string(&self) -> (text: String)
        requires
            self.wf(),
        ensures
            encode_utf8(text@) == spec_display(self.model()),
    {
        match self {
            ServerFrame::Connected(frame) => frame.to_string(),
            ServerFrame::Receipt(frame) => frame.to_string(),
            ServerFrame::Error(frame) => frame.to_string(),
            ServerFrame::Message(frame) => frame.to_string(),
        }
    }
}

impl ErrorFrame {
    /// An `ERROR` frame without headers whose body is the message.
    pub fn from_message(message: &str) -> (frame: ErrorFrame)
        ensures
            frame.custom@ == Seq::<CustomValue>::empty(),
            frame.spec_body() == Some(encode_utf8(message@)),
            frame.wf(),
    {
        ErrorFrame::new(Vec::new(), vstd::slice::slice_to_vec(message.as_bytes()))
    }
}

} // verus!
