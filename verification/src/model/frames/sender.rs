//! Builders: one for the frames of each command. A builder takes the headers
//! one by one, and the body where the command has one, and builds the frame
//! once all that the command requires is set.
use super::client::{
    AbortFrame, AckFrame, BeginFrame, CommitFrame, ConnectFrame, DisconnectFrame, NackFrame,
    SendFrame, SubscribeFrame, UnsubscribeFrame,
};
use super::server::{ConnectedFrame, ErrorFrame, MessageFrame, ReceiptFrame};
use super::{
    lemma_built_complete, lemma_places_len, spec_build, spec_defaults_set, spec_slots, FrameModel,
    RawFrame,
};
use crate::error::{Failure, StompParseError};
use crate::model::grammar::Command;
use crate::model::headers::{
    AcceptVersionValue, AckType, AckValue, ContentLengthValue, ContentTypeValue, CustomValue,
    DestinationValue, Header, HeartBeatIntervalls, HeartBeatValue, HostValue, IdValue, LoginValue,
    MessageIdValue, PasscodeValue, ReceiptIdValue, ReceiptValue, ServerValue, SessionValue,
    StompVersion, StompVersions, SubscriptionValue, TransactionValue, ValueModel, VersionValue,
};
use vstd::prelude::*;
use vstd::utf8::*;

verus! {

/// A builder for `ABORT` frames.
pub struct AbortFrameBuilder {
    frame: RawFrame,
}

impl View for AbortFrameBuilder {
    type V = FrameModel;

    closed spec fn view(&self) -> FrameModel {
        self.frame@
    }
}

impl AbortFrameBuilder {
    #[verifier::type_invariant]
    closed spec fn inv(&self) -> bool {
        &&& self.frame.command == Command::Abort
        &&& self.frame.wf()
        &&& spec_defaults_set(self.frame@)
    }

    /// A builder in which nothing is set.
    pub fn new() -> (builder: AbortFrameBuilder)
        ensures
            builder@ == (FrameModel {
                command: Command::Abort,
                slots: spec_slots(Command::Abort, Seq::empty()),
                custom: Seq::empty(),
                body: None,
            }),
    {
        AbortFrameBuilder { frame: RawFrame::empty(Command::Abort) }
    }

    /// Sets the `transaction` header.
    pub fn transaction(self, value: String) -> (builder: AbortFrameBuilder)
        ensures
            builder@ == (FrameModel {
                slots: self@.slots.update(0, Some(ValueModel::Text(encode_utf8(value@)))),
                ..self@
            }),
    {
        proof {
            use_type_invariant(&self);
            AbortFrame::lemma_declared();
        }
        AbortFrameBuilder {
            frame: self.frame.set(0, Header::Transaction(TransactionValue::new(value))),
        }
    }

    /// Builds the frame: writes it as bytes and hands back the frame. The
    /// builder is refused while a required header is not set.
    pub fn build(self) -> (r: Result<AbortFrame, StompParseError>)
        ensures
            match r {
                Ok(frame) => {
                    &&& spec_build(self@) is Ok
                    &&& frame.model() == self@
                },
                Err(e) => {
                    &&& spec_build(self@) == Err::<Seq<u8>, Failure>(e.spec_kind())
                    &&& e.spec_described()
                },
            },
    {
        proof {
            use_type_invariant(&self);
            lemma_places_len(Command::Abort.spec_declared(), self.frame.slots@);
        }
        match self.frame.build() {
            Ok(built) => {
                proof {
                    lemma_built_complete(built@);
                }
                Ok(AbortFrame::from_raw(built))
            },
            Err(e) => Err(e),
        }
    }
}

/// A builder for `ACK` frames.
pub struct AckFrameBuilder {
    frame: RawFrame,
}

impl View for AckFrameBuilder {
    type V = FrameModel;

    closed spec fn view(&self) -> FrameModel {
        self.frame@
    }
}

impl AckFrameBuilder {
    #[verifier::type_invariant]
    closed spec fn inv(&self) -> bool {
        &&& self.frame.command == Command::Ack
        &&& self.frame.wf()
        &&& spec_defaults_set(self.frame@)
    }

    /// A builder in which nothing is set.
    pub fn new() -> (builder: AckFrameBuilder)
        ensures
            builder@ == (FrameModel {
                command: Command::Ack,
                slots: spec_slots(Command::Ack, Seq::empty()),
                custom: Seq::empty(),
                body: None,
            }),
    {
        AckFrameBuilder { frame: RawFrame::empty(Command::Ack) }
    }

    /// Sets the `id` header.
    pub fn id(self, value: String) -> (builder: AckFrameBuilder)
        ensures
            builder@ == (FrameModel {
                slots: self@.slots.update(0, Some(ValueModel::Text(encode_utf8(value@)))),
                ..self@
            }),
    {
        proof {
            use_type_invariant(&self);
            AckFrame::lemma_declared();
        }
        AckFrameBuilder { frame: self.frame.set(0, Header::Id(IdValue::new(value))) }
    }

    /// Sets the `transaction` header.
    pub fn transaction(self, value: String) -> (builder: AckFrameBuilder)
        ensures
            builder@ == (FrameModel {
                slots: self@.slots.update(1, Some(ValueModel::Text(encode_utf8(value@)))),
                ..self@
            }),
    {
        proof {
            use_type_invariant(&self);
            AckFrame::lemma_declared();
        }
        AckFrameBuilder {
            frame: self.frame.set(1, Header::Transaction(TransactionValue::new(value))),
        }
    }

    /// Sets the `receipt` header.
    pub fn receipt(self, value: String) -> (builder: AckFrameBuilder)
        ensures
            builder@ == (FrameModel {
                slots: self@.slots.update(2, Some(ValueModel::Text(encode_utf8(value@)))),
                ..self@
            }),
    {
        proof {
            use_type_invariant(&self);
            AckFrame::lemma_declared();
        }
        AckFrameBuilder { frame: self.frame.set(2, Header::Receipt(ReceiptValue::new(value))) }
    }

    /// Builds the frame: writes it as bytes and hands back the frame. The
    /// builder is refused while a required header is not set.
    pub fn build(self) -> (r: Result<AckFrame, StompParseError>)
        ensures
            match r {
                Ok(frame) => {
                    &&& spec_build(self@) is Ok
                    &&& frame.model() == self@
                },
                Err(e) => {
                    &&& spec_build(self@) == Err::<Seq<u8>, Failure>(e.spec_kind())
                    &&& e.spec_described()
                },
            },
    {
        proof {
            use_type_invariant(&self);
            lemma_places_len(Command::Ack.spec_declared(), self.frame.slots@);
        }
        match self.frame.build() {
            Ok(built) => {
                proof {
                    lemma_built_complete(built@);
                }
                Ok(AckFrame::from_raw(built))
            },
            Err(e) => Err(e),
        }
    }
}

/// A builder for `BEGIN` frames.
pub struct BeginFrameBuilder {
    frame: RawFrame,
}

impl View for BeginFrameBuilder {
    type V = FrameModel;

    closed spec fn view(&self) -> FrameModel {
        self.frame@
    }
}

impl BeginFrameBuilder {
    #[verifier::type_invariant]
    closed spec fn inv(&self) -> bool {
        &&& self.frame.command == Command::Begin
        &&& self.frame.wf()
        &&& spec_defaults_set(self.frame@)
    }

    /// A builder in which nothing is set.
    pub fn new() -> (builder: BeginFrameBuilder)
        ensures
            builder@ == (FrameModel {
                command: Command::Begin,
                slots: spec_slots(Command::Begin, Seq::empty()),
                custom: Seq::empty(),
                body: None,
            }),
    {
        BeginFrameBuilder { frame: RawFrame::empty(Command::Begin) }
    }

    /// Sets the `transaction` header.
    pub fn transaction(self, value: String) -> (builder: BeginFrameBuilder)
        ensures
            builder@ == (FrameModel {
                slots: self@.slots.update(0, Some(ValueModel::Text(encode_utf8(value@)))),
                ..self@
            }),
    {
        proof {
            use_type_invariant(&self);
            BeginFrame::lemma_declared();
        }
        BeginFrameBuilder {
            frame: self.frame.set(0, Header::Transaction(TransactionValue::new(value))),
        }
    }

    /// Sets the `receipt` header.
    pub fn receipt(self, value: String) -> (builder: BeginFrameBuilder)
        ensures
            builder@ == (FrameModel {
                slots: self@.slots.update(1, Some(ValueModel::Text(encode_utf8(value@)))),
                ..self@
            }),
    {
        proof {
            use_type_invariant(&self);
            BeginFrame::lemma_declared();
        }
        BeginFrameBuilder { frame: self.frame.set(1, Header::Receipt(ReceiptValue::new(value))) }
    }

    /// Builds the frame: writes it as bytes and hands back the frame. The
    /// builder is refused while a required header is not set.
    pub fn build(self) -> (r: Result<BeginFrame, StompParseError>)
        ensures
            match r {
                Ok(frame) => {
                    &&& spec_build(self@) is Ok
                    &&& frame.model() == self@
                },
                Err(e) => {
                    &&& spec_build(self@) == Err::<Seq<u8>, Failure>(e.spec_kind())
                    &&& e.spec_described()
                },
            },
    {
        proof {
            use_type_invariant(&self);
            lemma_places_len(Command::Begin.spec_declared(), self.frame.slots@);
        }
        match self.frame.build() {
            Ok(built) => {
                proof {
                    lemma_built_complete(built@);
                }
                Ok(BeginFrame::from_raw(built))
            },
            Err(e) => Err(e),
        }
    }
}

/// A builder for `COMMIT` frames.
pub struct CommitFrameBuilder {
    frame: RawFrame,
}

impl View for CommitFrameBuilder {
    type V = FrameModel;

    closed spec fn view(&self) -> FrameModel {
        self.frame@
    }
}

impl CommitFrameBuilder {
    #[verifier::type_invariant]
    closed spec fn inv(&self) -> bool {
        &&& self.frame.command == Command::Commit
        &&& self.frame.wf()
        &&& spec_defaults_set(self.frame@)
    }

    /// A builder in which nothing is set.
    pub fn new() -> (builder: CommitFrameBuilder)
        ensures
            builder@ == (FrameModel {
                command: Command::Commit,
                slots: spec_slots(Command::Commit, Seq::empty()),
                custom: Seq::empty(),
                body: None,
            }),
    {
        CommitFrameBuilder { frame: RawFrame::empty(Command::Commit) }
    }

    /// Sets the `transaction` header.
    pub fn transaction(self, value: String) -> (builder: CommitFrameBuilder)
        ensures
            builder@ == (FrameModel {
                slots: self@.slots.update(0, Some(ValueModel::Text(encode_utf8(value@)))),
                ..self@
            }),
    {
        proof {
            use_type_invariant(&self);
            CommitFrame::lemma_declared();
        }
        CommitFrameBuilder {
            frame: self.frame.set(0, Header::Transaction(TransactionValue::new(value))),
        }
    }

    /// Sets the `receipt` header.
    pub fn receipt(self, value: String) -> (builder: CommitFrameBuilder)
        ensures
            builder@ == (FrameModel {
                slots: self@.slots.update(1, Some(ValueModel::Text(encode_utf8(value@)))),
                ..self@
            }),
    {
        proof {
            use_type_invariant(&self);
            CommitFrame::lemma_declared();
        }
        CommitFrameBuilder { frame: self.frame.set(1, Header::Receipt(ReceiptValue::new(value))) }
    }

    /// Builds the frame: writes it as bytes and hands back the frame. The
    /// builder is refused while a required header is not set.
    pub fn build(self) -> (r: Result<CommitFrame, StompParseError>)
        ensures
            match r {
                Ok(frame) => {
                    &&& spec_build(self@) is Ok
                    &&& frame.model() == self@
                },
                Err(e) => {
                    &&& spec_build(self@) == Err::<Seq<u8>, Failure>(e.spec_kind())
                    &&& e.spec_described()
                },
            },
    {
        proof {
            use_type_invariant(&self);
            lemma_places_len(Command::Commit.spec_declared(), self.frame.slots@);
        }
        match self.frame.build() {
            Ok(built) => {
                proof {
                    lemma_built_complete(built@);
                }
                Ok(CommitFrame::from_raw(built))
            },
            Err(e) => Err(e),
        }
    }
}

/// A builder for `CONNECT` frames.
pub struct ConnectFrameBuilder {
    frame: RawFrame,
}

impl View for ConnectFrameBuilder {
    type V = FrameModel;

    closed spec fn view(&self) -> FrameModel {
        self.frame@
    }
}

impl ConnectFrameBuilder {
    #[verifier::type_invariant]
    closed spec fn inv(&self) -> bool {
        &&& self.frame.command == Command::Connect
        &&& self.frame.wf()
        &&& spec_defaults_set(self.frame@)
    }

    /// A builder in which nothing is set but the default of the `heart-beat`
    /// header.
    pub fn new() -> (builder: ConnectFrameBuilder)
        ensures
            builder@ == (FrameModel {
                command: Command::Connect,
                slots: spec_slots(Command::Connect, Seq::empty()),
                custom: Seq::empty(),
                body: None,
            }),
    {
        ConnectFrameBuilder { frame: RawFrame::empty(Command::Connect) }
    }

    /// Sets the `host` header.
    pub fn host(self, value: String) -> (builder: ConnectFrameBuilder)
        ensures
            builder@ == (FrameModel {
                slots: self@.slots.update(0, Some(ValueModel::Text(encode_utf8(value@)))),
                ..self@
            }),
    {
        proof {
            use_type_invariant(&self);
            ConnectFrame::lemma_declared();
        }
        ConnectFrameBuilder { frame: self.frame.set(0, Header::Host(HostValue::new(value))) }
    }

    /// Sets the `accept-version` header.
    pub fn accept_version(self, value: StompVersions) -> (builder: ConnectFrameBuilder)
        ensures
            builder@ == (FrameModel {
                slots: self@.slots.update(1, Some(ValueModel::Versions(value@))),
                ..self@
            }),
    {
        proof {
            use_type_invariant(&self);
            ConnectFrame::lemma_declared();
        }
        ConnectFrameBuilder {
            frame: self.frame.set(1, Header::AcceptVersion(AcceptVersionValue::new(value))),
        }
    }

    /// Sets the `heart-beat` header.
    pub fn heartbeat(self, value: HeartBeatIntervalls) -> (builder: ConnectFrameBuilder)
        ensures
            builder@ == (FrameModel {
                slots: self@.slots.update(2, Some(ValueModel::HeartBeat(value))),
                ..self@
            }),
    {
        proof {
            use_type_invariant(&self);
            ConnectFrame::lemma_declared();
        }
        ConnectFrameBuilder {
            frame: self.frame.set(2, Header::HeartBeat(HeartBeatValue::new(value))),
        }
    }

    /// Sets the `login` header.
    pub fn login(self, value: String) -> (builder: ConnectFrameBuilder)
        ensures
            builder@ == (FrameModel {
                slots: self@.slots.update(3, Some(ValueModel::Text(encode_utf8(value@)))),
                ..self@
            }),
    {
        proof {
            use_type_invariant(&self);
            ConnectFrame::lemma_declared();
        }
        ConnectFrameBuilder { frame: self.frame.set(3, Header::Login(LoginValue::new(value))) }
    }

    /// Sets the `passcode` header.
    pub fn passcode(self, value: String) -> (builder: ConnectFrameBuilder)
        ensures
            builder@ == (FrameModel {
                slots: self@.slots.update(4, Some(ValueModel::Text(encode_utf8(value@)))),
                ..self@
            }),
    {
        proof {
            use_type_invariant(&self);
            ConnectFrame::lemma_declared();
        }
        ConnectFrameBuilder {
            frame: self.frame.set(4, Header::Passcode(PasscodeValue::new(value))),
        }
    }

    /// Builds the frame: writes it as bytes and hands back the frame. The
    /// builder is refused while a required header is not set.
    pub fn build(self) -> (r: Result<ConnectFrame, StompParseError>)
        ensures
            match r {
                Ok(frame) => {
                    &&& spec_build(self@) is Ok
                    &&& frame.model() == self@
                },
                Err(e) => {
                    &&& spec_build(self@) == Err::<Seq<u8>, Failure>(e.spec_kind())
                    &&& e.spec_described()
                },
            },
    {
        proof {
            use_type_invariant(&self);
            lemma_places_len(Command::Connect.spec_declared(), self.frame.slots@);
        }
        match self.frame.build() {
            Ok(built) => {
                proof {
                    lemma_built_complete(built@);
                }
                Ok(ConnectFrame::from_raw(built))
            },
            Err(e) => Err(e),
        }
    }
}

/// A builder for `DISCONNECT` frames.
pub struct DisconnectFrameBuilder {
    frame: RawFrame,
}

impl View for DisconnectFrameBuilder {
    type V = FrameModel;

    closed spec fn view(&self) -> FrameModel {
        self.frame@
    }
}

impl DisconnectFrameBuilder {
    #[verifier::type_invariant]
    closed spec fn inv(&self) -> bool {
        &&& self.frame.command == Command::Disconnect
        &&& self.frame.wf()
        &&& spec_defaults_set(self.frame@)
    }

    /// A builder in which nothing is set.
    pub fn new() -> (builder: DisconnectFrameBuilder)
        ensures
            builder@ == (FrameModel {
                command: Command::Disconnect,
                slots: spec_slots(Command::Disconnect, Seq::empty()),
                custom: Seq::empty(),
                body: None,
            }),
    {
        DisconnectFrameBuilder { frame: RawFrame::empty(Command::Disconnect) }
    }

    /// Sets the `receipt` header.
    pub fn receipt(self, value: String) -> (builder: DisconnectFrameBuilder)
        ensures
            builder@ == (FrameModel {
                slots: self@.slots.update(0, Some(ValueModel::Text(encode_utf8(value@)))),
                ..self@
            }),
    {
        proof {
            use_type_invariant(&self);
            DisconnectFrame::lemma_declared();
        }
        DisconnectFrameBuilder {
            frame: self.frame.set(0, Header::Receipt(ReceiptValue::new(value))),
        }
    }

    /// Builds the frame: writes it as bytes and hands back the frame. The
    /// builder is refused while a required header is not set.
    pub fn build(self) -> (r: Result<DisconnectFrame, StompParseError>)
        ensures
            match r {
                Ok(frame) => {
                    &&& spec_build(self@) is Ok
                    &&& frame.model() == self@
                },
                Err(e) => {
                    &&& spec_build(self@) == Err::<Seq<u8>, Failure>(e.spec_kind())
                    &&& e.spec_described()
                },
            },
    {
        proof {
            use_type_invariant(&self);
            lemma_places_len(Command::Disconnect.spec_declared(), self.frame.slots@);
        }
        match self.frame.build() {
            Ok(built) => {
                proof {
                    lemma_built_complete(built@);
                }
                Ok(DisconnectFrame::from_raw(built))
            },
            Err(e) => Err(e),
        }
    }
}

/// A builder for `NACK` frames.
pub struct NackFrameBuilder {
    frame: RawFrame,
}

impl View for NackFrameBuilder {
    type V = FrameModel;

    closed spec fn view(&self) -> FrameModel {
        self.frame@
    }
}

impl NackFrameBuilder {
    #[verifier::type_invariant]
    closed spec fn inv(&self) -> bool {
        &&& self.frame.command == Command::Nack
        &&& self.frame.wf()
        &&& spec_defaults_set(self.frame@)
    }

    /// A builder in which nothing is set.
    pub fn new() -> (builder: NackFrameBuilder)
        ensures
            builder@ == (FrameModel {
                command: Command::Nack,
                slots: spec_slots(Command::Nack, Seq::empty()),
                custom: Seq::empty(),
                body: None,
            }),
    {
        NackFrameBuilder { frame: RawFrame::empty(Command::Nack) }
    }

    /// Sets the `id` header.
    pub fn id(self, value: String) -> (builder: NackFrameBuilder)
        ensures
            builder@ == (FrameModel {
                slots: self@.slots.update(0, Some(ValueModel::Text(encode_utf8(value@)))),
                ..self@
            }),
    {
        proof {
            use_type_invariant(&self);
            NackFrame::lemma_declared();
        }
        NackFrameBuilder { frame: self.frame.set(0, Header::Id(IdValue::new(value))) }
    }

    /// Sets the `transaction` header.
    pub fn transaction(self, value: String) -> (builder: NackFrameBuilder)
        ensures
            builder@ == (FrameModel {
                slots: self@.slots.update(1, Some(ValueModel::Text(encode_utf8(value@)))),
                ..self@
            }),
    {
        proof {
            use_type_invariant(&self);
            NackFrame::lemma_declared();
        }
        NackFrameBuilder {
            frame: self.frame.set(1, Header::Transaction(TransactionValue::new(value))),
        }
    }

    /// Sets the `receipt` header.
    pub fn receipt(self, value: String) -> (builder: NackFrameBuilder)
        ensures
            builder@ == (FrameModel {
                slots: self@.slots.update(2, Some(ValueModel::Text(encode_utf8(value@)))),
                ..self@
            }),
    {
        proof {
            use_type_invariant(&self);
            NackFrame::lemma_declared();
        }
        NackFrameBuilder { frame: self.frame.set(2, Header::Receipt(ReceiptValue::new(value))) }
    }

    /// Builds the frame: writes it as bytes and hands back the frame. The
    /// builder is refused while a required header is not set.
    pub fn build(self) -> (r: Result<NackFrame, StompParseError>)
        ensures
            match r {
                Ok(frame) => {
                    &&& spec_build(self@) is Ok
                    &&& frame.model() == self@
                },
                Err(e) => {
                    &&& spec_build(self@) == Err::<Seq<u8>, Failure>(e.spec_kind())
                    &&& e.spec_described()
                },
            },
    {
        proof {
            use_type_invariant(&self);
            lemma_places_len(Command::Nack.spec_declared(), self.frame.slots@);
        }
        match self.frame.build() {
            Ok(built) => {
                proof {
                    lemma_built_complete(built@);
                }
                Ok(NackFrame::from_raw(built))
            },
            Err(e) => Err(e),
        }
    }
}

/// A builder for `SEND` frames.
pub struct SendFrameBuilder {
    frame: RawFrame,
}

impl View for SendFrameBuilder {
    type V = FrameModel;

    closed spec fn view(&self) -> FrameModel {
        self.frame@
    }
}

impl SendFrameBuilder {
    #[verifier::type_invariant]
    closed spec fn inv(&self) -> bool {
        &&& self.frame.command == Command::Send
        &&& self.frame.wf()
        &&& spec_defaults_set(self.frame@)
    }

    /// A builder in which nothing is set.
    pub fn new() -> (builder: SendFrameBuilder)
        ensures
            builder@ == (FrameModel {
                command: Command::Send,
                slots: spec_slots(Command::Send, Seq::empty()),
                custom: Seq::empty(),
                body: None,
            }),
    {
        SendFrameBuilder { frame: RawFrame::empty(Command::Send) }
    }

    /// Sets the `destination` header.
    pub fn destination(self, value: String) -> (builder: SendFrameBuilder)
        ensures
            builder@ == (FrameModel {
                slots: self@.slots.update(0, Some(ValueModel::Text(encode_utf8(value@)))),
                ..self@
            }),
    {
        proof {
            use_type_invariant(&self);
            SendFrame::lemma_declared();
        }
        SendFrameBuilder {
            frame: self.frame.set(0, Header::Destination(DestinationValue::new(value))),
        }
    }

    /// Sets the `content-type` header.
    pub fn content_type(self, value: String) -> (builder: SendFrameBuilder)
        ensures
            builder@ == (FrameModel {
                slots: self@.slots.update(1, Some(ValueModel::Text(encode_utf8(value@)))),
                ..self@
            }),
    {
        proof {
            use_type_invariant(&self);
            SendFrame::lemma_declared();
        }
        SendFrameBuilder {
            frame: self.frame.set(1, Header::ContentType(ContentTypeValue::new(value))),
        }
    }

    /// Sets the `content-length` header.
    pub fn content_length(self, value: u32) -> (builder: SendFrameBuilder)
        ensures
            builder@ == (FrameModel {
                slots: self@.slots.update(2, Some(ValueModel::Length(value))),
                ..self@
            }),
    {
        proof {
            use_type_invariant(&self);
            SendFrame::lemma_declared();
        }
        SendFrameBuilder {
            frame: self.frame.set(2, Header::ContentLength(ContentLengthValue::new(value))),
        }
    }

    /// Sets the `transaction` header.
    pub fn transaction(self, value: String) -> (builder: SendFrameBuilder)
        ensures
            builder@ == (FrameModel {
                slots: self@.slots.update(3, Some(ValueModel::Text(encode_utf8(value@)))),
                ..self@
            }),
    {
        proof {
            use_type_invariant(&self);
            SendFrame::lemma_declared();
        }
        SendFrameBuilder {
            frame: self.frame.set(3, Header::Transaction(TransactionValue::new(value))),
        }
    }

    /// Sets the `receipt` header.
    pub fn receipt(self, value: String) -> (builder: SendFrameBuilder)
        ensures
            builder@ == (FrameModel {
                slots: self@.slots.update(4, Some(ValueModel::Text(encode_utf8(value@)))),
                ..self@
            }),
    {
        proof {
            use_type_invariant(&self);
            SendFrame::lemma_declared();
        }
        SendFrameBuilder { frame: self.frame.set(4, Header::Receipt(ReceiptValue::new(value))) }
    }

    /// Adds a custom header after those that the builder has.
    pub fn add_custom_header(self, name: String, value: String) -> (builder: SendFrameBuilder)
        ensures
            builder@ == (FrameModel {
                custom: self@.custom.push((encode_utf8(name@), encode_utf8(value@))),
                ..self@
            }),
    {
        proof {
            use_type_invariant(&self);
        }
        SendFrameBuilder { frame: self.frame.add_custom(CustomValue::new(name, value)) }
    }

    /// Sets the body.
    pub fn body(self, value: Vec<u8>) -> (builder: SendFrameBuilder)
        ensures
            builder@ == (FrameModel { body: Some(value@), ..self@ }),
    {
        proof {
            use_type_invariant(&self);
        }
        SendFrameBuilder { frame: self.frame.with_body(value) }
    }

    /// Builds the frame: writes it as bytes and hands back the frame, which
    /// keeps the bytes as its buffer and has its body in them. The builder is
    /// refused while a required header or the body is not set.
    pub fn build(self) -> (r: Result<SendFrame, StompParseError>)
        ensures
            match r {
                Ok(frame) => {
                    &&& spec_build(self@) is Ok
                    &&& frame.model() == self@
                    &&& frame.spec_buffer() == Some(spec_build(self@)->Ok_0)
                    &&& frame.wf()
                },
                Err(e) => {
                    &&& spec_build(self@) == Err::<Seq<u8>, Failure>(e.spec_kind())
                    &&& e.spec_described()
                },
            },
    {
        proof {
            use_type_invariant(&self);
            lemma_places_len(Command::Send.spec_declared(), self.frame.slots@);
        }
        match self.frame.build() {
            Ok(built) => {
                proof {
                    lemma_built_complete(built@);
                }
                Ok(SendFrame::from_raw(built))
            },
            Err(e) => Err(e),
        }
    }
}

/// A builder for `SUBSCRIBE` frames.
pub struct SubscribeFrameBuilder {
    frame: RawFrame,
}

impl View for SubscribeFrameBuilder {
    type V = FrameModel;

    closed spec fn view(&self) -> FrameModel {
        self.frame@
    }
}

impl SubscribeFrameBuilder {
    #[verifier::type_invariant]
    closed spec fn inv(&self) -> bool {
        &&& self.frame.command == Command::Subscribe
        &&& self.frame.wf()
        &&& spec_defaults_set(self.frame@)
    }

    /// A builder in which nothing is set but the default of the `ack`
    /// header.
    pub fn new() -> (builder: SubscribeFrameBuilder)
        ensures
            builder@ == (FrameModel {
                command: Command::Subscribe,
                slots: spec_slots(Command::Subscribe, Seq::empty()),
                custom: Seq::empty(),
                body: None,
            }),
    {
        SubscribeFrameBuilder { frame: RawFrame::empty(Command::Subscribe) }
    }

    /// Sets the `destination` header.
    pub fn destination(self, value: String) -> (builder: SubscribeFrameBuilder)
        ensures
            builder@ == (FrameModel {
                slots: self@.slots.update(0, Some(ValueModel::Text(encode_utf8(value@)))),
                ..self@
            }),
    {
        proof {
            use_type_invariant(&self);
            SubscribeFrame::lemma_declared();
        }
        SubscribeFrameBuilder {
            frame: self.frame.set(0, Header::Destination(DestinationValue::new(value))),
        }
    }

    /// Sets the `id` header.
    pub fn id(self, value: String) -> (builder: SubscribeFrameBuilder)
        ensures
            builder@ == (FrameModel {
                slots: self@.slots.update(1, Some(ValueModel::Text(encode_utf8(value@)))),
                ..self@
            }),
    {
        proof {
            use_type_invariant(&self);
            SubscribeFrame::lemma_declared();
        }
        SubscribeFrameBuilder { frame: self.frame.set(1, Header::Id(IdValue::new(value))) }
    }

    /// Sets the `ack` header.
    pub fn ack_type(self, value: AckType) -> (builder: SubscribeFrameBuilder)
        ensures
            builder@ == (FrameModel {
                slots: self@.slots.update(2, Some(ValueModel::Ack(value))),
                ..self@
            }),
    {
        proof {
            use_type_invariant(&self);
            SubscribeFrame::lemma_declared();
        }
        SubscribeFrameBuilder { frame: self.frame.set(2, Header::Ack(AckValue::new(value))) }
    }

    /// Sets the `receipt` header.
    pub fn receipt(self, value: String) -> (builder: SubscribeFrameBuilder)
        ensures
            builder@ == (FrameModel {
                slots: self@.slots.update(3, Some(ValueModel::Text(encode_utf8(value@)))),
                ..self@
            }),
    {
        proof {
            use_type_invariant(&self);
            SubscribeFrame::lemma_declared();
        }
        SubscribeFrameBuilder {
            frame: self.frame.set(3, Header::Receipt(ReceiptValue::new(value))),
        }
    }

    /// Adds a custom header after those that the builder has.
    pub fn add_custom_header(self, name: String, value: String) -> (builder: SubscribeFrameBuilder)
        ensures
            builder@ == (FrameModel {
                custom: self@.custom.push((encode_utf8(name@), encode_utf8(value@))),
                ..self@
            }),
    {
        proof {
            use_type_invariant(&self);
        }
        SubscribeFrameBuilder { frame: self.frame.add_custom(CustomValue::new(name, value)) }
    }

    /// Builds the frame: writes it as bytes and hands back the frame. The
    /// builder is refused while a required header is not set.
    pub fn build(self) -> (r: Result<SubscribeFrame, StompParseError>)
        ensures
            match r {
                Ok(frame) => {
                    &&& spec_build(self@) is Ok
                    &&& frame.model() == self@
                },
                Err(e) => {
                    &&& spec_build(self@) == Err::<Seq<u8>, Failure>(e.spec_kind())
                    &&& e.spec_described()
                },
            },
    {
        proof {
            use_type_invariant(&self);
            lemma_places_len(Command::Subscribe.spec_declared(), self.frame.slots@);
        }
        match self.frame.build() {
            Ok(built) => {
                proof {
                    lemma_built_complete(built@);
                }
                Ok(SubscribeFrame::from_raw(built))
            },
            Err(e) => Err(e),
        }
    }
}

/// A builder for `UNSUBSCRIBE` frames.
pub struct UnsubscribeFrameBuilder {
    frame: RawFrame,
}

impl View for UnsubscribeFrameBuilder {
    type V = FrameModel;

    closed spec fn view(&self) -> FrameModel {
        self.frame@
    }
}

impl UnsubscribeFrameBuilder {
    #[verifier::type_invariant]
    closed spec fn inv(&self) -> bool {
        &&& self.frame.command == Command::Unsubscribe
        &&& self.frame.wf()
        &&& spec_defaults_set(self.frame@)
    }

    /// A builder in which nothing is set.
    pub fn new() -> (builder: UnsubscribeFrameBuilder)
        ensures
            builder@ == (FrameModel {
                command: Command::Unsubscribe,
                slots: spec_slots(Command::Unsubscribe, Seq::empty()),
                custom: Seq::empty(),
                body: None,
            }),
    {
        UnsubscribeFrameBuilder { frame: RawFrame::empty(Command::Unsubscribe) }
    }

    /// Sets the `id` header.
    pub fn id(self, value: String) -> (builder: UnsubscribeFrameBuilder)
        ensures
            builder@ == (FrameModel {
                slots: self@.slots.update(0, Some(ValueModel::Text(encode_utf8(value@)))),
                ..self@
            }),
    {
        proof {
            use_type_invariant(&self);
            UnsubscribeFrame::lemma_declared();
        }
        UnsubscribeFrameBuilder { frame: self.frame.set(0, Header::Id(IdValue::new(value))) }
    }

    /// Sets the `receipt` header.
    pub fn receipt(self, value: String) -> (builder: UnsubscribeFrameBuilder)
        ensures
            builder@ == (FrameModel {
                slots: self@.slots.update(1, Some(ValueModel::Text(encode_utf8(value@)))),
                ..self@
            }),
    {
        proof {
            use_type_invariant(&self);
            UnsubscribeFrame::lemma_declared();
        }
        UnsubscribeFrameBuilder {
            frame: self.frame.set(1, Header::Receipt(ReceiptValue::new(value))),
        }
    }

    /// Builds the frame: writes it as bytes and hands back the frame. The
    /// builder is refused while a required header is not set.
    pub fn build(self) -> (r: Result<UnsubscribeFrame, StompParseError>)
        ensures
            match r {
                Ok(frame) => {
                    &&& spec_build(self@) is Ok
                    &&& frame.model() == self@
                },
                Err(e) => {
                    &&& spec_build(self@) == Err::<Seq<u8>, Failure>(e.spec_kind())
                    &&& e.spec_described()
                },
            },
    {
        proof {
            use_type_invariant(&self);
            lemma_places_len(Command::Unsubscribe.spec_declared(), self.frame.slots@);
        }
        match self.frame.build() {
            Ok(built) => {
                proof {
                    lemma_built_complete(built@);
                }
                Ok(UnsubscribeFrame::from_raw(built))
            },
            Err(e) => Err(e),
        }
    }
}

/// A builder for `CONNECTED` frames.
pub struct ConnectedFrameBuilder {
    frame: RawFrame,
}

impl View for ConnectedFrameBuilder {
    type V = FrameModel;

    closed spec fn view(&self) -> FrameModel {
        self.frame@
    }
}

impl ConnectedFrameBuilder {
    #[verifier::type_invariant]
    closed spec fn inv(&self) -> bool {
        &&& self.frame.command == Command::Connected
        &&& self.frame.wf()
        &&& spec_defaults_set(self.frame@)
    }

    /// A builder in which nothing is set.
    pub fn new() -> (builder: ConnectedFrameBuilder)
        ensures
            builder@ == (FrameModel {
                command: Command::Connected,
                slots: spec_slots(Command::Connected, Seq::empty()),
                custom: Seq::empty(),
                body: None,
            }),
    {
        ConnectedFrameBuilder { frame: RawFrame::empty(Command::Connected) }
    }

    /// Sets the `version` header.
    pub fn version(self, value: StompVersion) -> (builder: ConnectedFrameBuilder)
        ensures
            builder@ == (FrameModel {
                slots: self@.slots.update(0, Some(ValueModel::Version(value@))),
                ..self@
            }),
    {
        proof {
            use_type_invariant(&self);
            ConnectedFrame::lemma_declared();
        }
        ConnectedFrameBuilder {
            frame: self.frame.set(0, Header::Version(VersionValue::new(value))),
        }
    }

    /// Sets the `heart-beat` header.
    pub fn heartbeat(self, value: HeartBeatIntervalls) -> (builder: ConnectedFrameBuilder)
        ensures
            builder@ == (FrameModel {
                slots: self@.slots.update(1, Some(ValueModel::HeartBeat(value))),
                ..self@
            }),
    {
        proof {
            use_type_invariant(&self);
            ConnectedFrame::lemma_declared();
        }
        ConnectedFrameBuilder {
            frame: self.frame.set(1, Header::HeartBeat(HeartBeatValue::new(value))),
        }
    }

    /// Sets the `session` header.
    pub fn session(self, value: String) -> (builder: ConnectedFrameBuilder)
        ensures
            builder@ == (FrameModel {
                slots: self@.slots.update(2, Some(ValueModel::Text(encode_utf8(value@)))),
                ..self@
            }),
    {
        proof {
            use_type_invariant(&self);
            ConnectedFrame::lemma_declared();
        }
        ConnectedFrameBuilder {
            frame: self.frame.set(2, Header::Session(SessionValue::new(value))),
        }
    }

    /// Sets the `server` header.
    pub fn server(self, value: String) -> (builder: ConnectedFrameBuilder)
        ensures
            builder@ == (FrameModel {
                slots: self@.slots.update(3, Some(ValueModel::Text(encode_utf8(value@)))),
                ..self@
            }),
    {
        proof {
            use_type_invariant(&self);
            ConnectedFrame::lemma_declared();
        }
        ConnectedFrameBuilder { frame: self.frame.set(3, Header::Server(ServerValue::new(value))) }
    }

    /// Builds the frame: writes it as bytes and hands back the frame. The
    /// builder is refused while a required header is not set.
    pub fn build(self) -> (r: Result<ConnectedFrame, StompParseError>)
        ensures
            match r {
                Ok(frame) => {
                    &&& spec_build(self@) is Ok
                    &&& frame.model() == self@
                },
                Err(e) => {
                    &&& spec_build(self@) == Err::<Seq<u8>, Failure>(e.spec_kind())
                    &&& e.spec_described()
                },
            },
    {
        proof {
            use_type_invariant(&self);
            lemma_places_len(Command::Connected.spec_declared(), self.frame.slots@);
        }
        match self.frame.build() {
            Ok(built) => {
                proof {
                    lemma_built_complete(built@);
                }
                Ok(ConnectedFrame::from_raw(built))
            },
            Err(e) => Err(e),
        }
    }
}

/// A builder for `RECEIPT` frames.
pub struct ReceiptFrameBuilder {
    frame: RawFrame,
}

impl View for ReceiptFrameBuilder {
    type V = FrameModel;

    closed spec fn view(&self) -> FrameModel {
        self.frame@
    }
}

impl ReceiptFrameBuilder {
    #[verifier::type_invariant]
    closed spec fn inv(&self) -> bool {
        &&& self.frame.command == Command::Receipt
        &&& self.frame.wf()
        &&& spec_defaults_set(self.frame@)
    }

    /// A builder in which nothing is set.
    pub fn new() -> (builder: ReceiptFrameBuilder)
        ensures
            builder@ == (FrameModel {
                command: Command::Receipt,
                slots: spec_slots(Command::Receipt, Seq::empty()),
                custom: Seq::empty(),
                body: None,
            }),
    {
        ReceiptFrameBuilder { frame: RawFrame::empty(Command::Receipt) }
    }

    /// Sets the `receipt-id` header.
    pub fn receipt_id(self, value: String) -> (builder: ReceiptFrameBuilder)
        ensures
            builder@ == (FrameModel {
                slots: self@.slots.update(0, Some(ValueModel::Text(encode_utf8(value@)))),
                ..self@
            }),
    {
        proof {
            use_type_invariant(&self);
            ReceiptFrame::lemma_declared();
        }
        ReceiptFrameBuilder {
            frame: self.frame.set(0, Header::ReceiptId(ReceiptIdValue::new(value))),
        }
    }

    /// Builds the frame: writes it as bytes and hands back the frame. The
    /// builder is refused while a required header is not set.
    pub fn build(self) -> (r: Result<ReceiptFrame, StompParseError>)
        ensures
            match r {
                Ok(frame) => {
                    &&& spec_build(self@) is Ok
                    &&& frame.model() == self@
                },
                Err(e) => {
                    &&& spec_build(self@) == Err::<Seq<u8>, Failure>(e.spec_kind())
                    &&& e.spec_described()
                },
            },
    {
        proof {
            use_type_invariant(&self);
            lemma_places_len(Command::Receipt.spec_declared(), self.frame.slots@);
        }
        match self.frame.build() {
            Ok(built) => {
                proof {
                    lemma_built_complete(built@);
                }
                Ok(ReceiptFrame::from_raw(built))
            },
            Err(e) => Err(e),
        }
    }
}

/// A builder for `ERROR` frames.
pub struct ErrorFrameBuilder {
    frame: RawFrame,
}

impl View for ErrorFrameBuilder {
    type V = FrameModel;

    closed spec fn view(&self) -> FrameModel {
        self.frame@
    }
}

impl ErrorFrameBuilder {
    #[verifier::type_invariant]
    closed spec fn inv(&self) -> bool {
        &&& self.frame.command == Command::Error
        &&& self.frame.wf()
        &&& spec_defaults_set(self.frame@)
    }

    /// A builder in which nothing is set.
    pub fn new() -> (builder: ErrorFrameBuilder)
        ensures
            builder@ == (FrameModel {
                command: Command::Error,
                slots: spec_slots(Command::Error, Seq::empty()),
                custom: Seq::empty(),
                body: None,
            }),
    {
        ErrorFrameBuilder { frame: RawFrame::empty(Command::Error) }
    }

    /// Adds a custom header after those that the builder has.
    pub fn add_custom_header(self, name: String, value: String) -> (builder: ErrorFrameBuilder)
        ensures
            builder@ == (FrameModel {
                custom: self@.custom.push((encode_utf8(name@), encode_utf8(value@))),
                ..self@
            }),
    {
        proof {
            use_type_invariant(&self);
        }
        ErrorFrameBuilder { frame: self.frame.add_custom(CustomValue::new(name, value)) }
    }

    /// Sets the body.
    pub fn body(self, value: Vec<u8>) -> (builder: ErrorFrameBuilder)
        ensures
            builder@ == (FrameModel { body: Some(value@), ..self@ }),
    {
        proof {
            use_type_invariant(&self);
        }
        ErrorFrameBuilder { frame: self.frame.with_body(value) }
    }

    /// Builds the frame: writes it as bytes and hands back the frame, which
    /// keeps the bytes as its buffer and has its body in them. The builder is
    /// refused while a required header or the body is not set.
    pub fn build(self) -> (r: Result<ErrorFrame, StompParseError>)
        ensures
            match r {
                Ok(frame) => {
                    &&& spec_build(self@) is Ok
                    &&& frame.model() == self@
                    &&& frame.spec_buffer() == Some(spec_build(self@)->Ok_0)
                    &&& frame.wf()
                },
                Err(e) => {
                    &&& spec_build(self@) == Err::<Seq<u8>, Failure>(e.spec_kind())
                    &&& e.spec_described()
                },
            },
    {
        proof {
            use_type_invariant(&self);
            lemma_places_len(Command::Error.spec_declared(), self.frame.slots@);
        }
        match self.frame.build() {
            Ok(built) => {
                proof {
                    lemma_built_complete(built@);
                }
                Ok(ErrorFrame::from_raw(built))
            },
            Err(e) => Err(e),
        }
    }
}

/// A builder for `MESSAGE` frames.
pub struct MessageFrameBuilder {
    frame: RawFrame,
}

impl View for MessageFrameBuilder {
    type V = FrameModel;

    closed spec fn view(&self) -> FrameModel {
        self.frame@
    }
}

impl MessageFrameBuilder {
    #[verifier::type_invariant]
    closed spec fn inv(&self) -> bool {
        &&& self.frame.command == Command::Message
        &&& self.frame.wf()
        &&& spec_defaults_set(self.frame@)
    }

    /// A builder in which nothing is set.
    pub fn new() -> (builder: MessageFrameBuilder)
        ensures
            builder@ == (FrameModel {
                command: Command::Message,
                slots: spec_slots(Command::Message, Seq::empty()),
                custom: Seq::empty(),
                body: None,
            }),
    {
        MessageFrameBuilder { frame: RawFrame::empty(Command::Message) }
    }

    /// Sets the `message-id` header.
    pub fn message_id(self, value: String) -> (builder: MessageFrameBuilder)
        ensures
            builder@ == (FrameModel {
                slots: self@.slots.update(0, Some(ValueModel::Text(encode_utf8(value@)))),
                ..self@
            }),
    {
        proof {
            use_type_invariant(&self);
            MessageFrame::lemma_declared();
        }
        MessageFrameBuilder {
            frame: self.frame.set(0, Header::MessageId(MessageIdValue::new(value))),
        }
    }

    /// Sets the `destination` header.
    pub fn destination(self, value: String) -> (builder: MessageFrameBuilder)
        ensures
            builder@ == (FrameModel {
                slots: self@.slots.update(1, Some(ValueModel::Text(encode_utf8(value@)))),
                ..self@
            }),
    {
        proof {
            use_type_invariant(&self);
            MessageFrame::lemma_declared();
        }
        MessageFrameBuilder {
            frame: self.frame.set(1, Header::Destination(DestinationValue::new(value))),
        }
    }

    /// Sets the `subscription` header.
    pub fn subscription(self, value: String) -> (builder: MessageFrameBuilder)
        ensures
            builder@ == (FrameModel {
                slots: self@.slots.update(2, Some(ValueModel::Text(encode_utf8(value@)))),
                ..self@
            }),
    {
        proof {
            use_type_invariant(&self);
            MessageFrame::lemma_declared();
        }
        MessageFrameBuilder {
            frame: self.frame.set(2, Header::Subscription(SubscriptionValue::new(value))),
        }
    }

    /// Sets the `content-type` header.
    pub fn content_type(self, value: String) -> (builder: MessageFrameBuilder)
        ensures
            builder@ == (FrameModel {
                slots: self@.slots.update(3, Some(ValueModel::Text(encode_utf8(value@)))),
                ..self@
            }),
    {
        proof {
            use_type_invariant(&self);
            MessageFrame::lemma_declared();
        }
        MessageFrameBuilder {
            frame: self.frame.set(3, Header::ContentType(ContentTypeValue::new(value))),
        }
    }

    /// Sets the `content-length` header.
    pub fn content_length(self, value: u32) -> (builder: MessageFrameBuilder)
        ensures
            builder@ == (FrameModel {
                slots: self@.slots.update(4, Some(ValueModel::Length(value))),
                ..self@
            }),
    {
        proof {
            use_type_invariant(&self);
            MessageFrame::lemma_declared();
        }
        MessageFrameBuilder {
            frame: self.frame.set(4, Header::ContentLength(ContentLengthValue::new(value))),
        }
    }

    /// Sets the body.
    pub fn body(self, value: Vec<u8>) -> (builder: MessageFrameBuilder)
        ensures
            builder@ == (FrameModel { body: Some(value@), ..self@ }),
    {
        proof {
            use_type_invariant(&self);
        }
        MessageFrameBuilder { frame: self.frame.with_body(value) }
    }

    /// Builds the frame: writes it as bytes and hands back the frame, which
    /// keeps the bytes as its buffer and has its body in them. The builder is
    /// refused while a required header or the body is not set.
    pub fn build(self) -> (r: Result<MessageFrame, StompParseError>)
        ensures
            match r {
                Ok(frame) => {
                    &&& spec_build(self@) is Ok
                    &&& frame.model() == self@
                    &&& frame.spec_buffer() == Some(spec_build(self@)->Ok_0)
                    &&& frame.wf()
                },
                Err(e) => {
                    &&& spec_build(self@) == Err::<Seq<u8>, Failure>(e.spec_kind())
                    &&& e.spec_described()
                },
            },
    {
        proof {
            use_type_invariant(&self);
            lemma_places_len(Command::Message.spec_declared(), self.frame.slots@);
        }
        match self.frame.build() {
            Ok(built) => {
                proof {
                    lemma_built_complete(built@);
                }
                Ok(MessageFrame::from_raw(built))
            },
            Err(e) => Err(e),
        }
    }
}

} // verus!
