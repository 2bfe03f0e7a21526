//! The errors of parsing and building frames.
use crate::model::headers::HeaderType;
use vstd::prelude::*;
use vstd::string::StringExecFns;
use vstd::utf8::*;

verus! {

/// What went wrong. `S` is the type of a header's name: a `String` in an
/// error that a function returns, its UTF-8 bytes in a specification.
#[derive(Debug, Clone, PartialEq, Eq)]
pub enum ErrorKind<S> {
    /// The command line is missing, or its keyword is not one of the
    /// commands of the frame's origin.
    UnknownCommand,
    /// The header section ended without this required header.
    MissingRequiredHeader(HeaderType),
    /// The command takes neither a header of this name nor custom headers.
    UnexpectedHeader(S),
    /// A line of the header section is not a name, a colon, a value and a
    /// line ending, each of name and value at least one byte long.
    MalformedHeaderLine,
    /// A backslash is followed by something other than `n`, `r`, `c` or a
    /// backslash.
    InvalidEscapeSequence,
    /// A header's name or value is not UTF-8.
    NonUtf8Text,
    /// The value is not one that a header of this type can have.
    InvalidHeaderValue(HeaderType),
    /// The input ends before the blank line that ends the header section, or
    /// the frame does not end with a zero octet.
    MissingTerminator,
    /// Bytes follow the zero octet of a frame without a body.
    UnexpectedTrailingData,
    /// Bytes stand before the zero octet of a frame without a body.
    BodyNotAllowed,
    /// A builder was asked for its frame before this required header was set.
    BuilderRequiredFieldUnset(HeaderType),
    /// A builder was asked for its frame before the body was set.
    BuilderBodyUnset,
    /// An error that a caller made from a message of its own.
    Other,
}

/// An error kind as specifications speak of it.
pub type Failure = ErrorKind<Seq<u8>>;

impl View for ErrorKind<String> {
    type V = Failure;

    open spec fn view(&self) -> Failure {
        match *self {
            ErrorKind::UnknownCommand => ErrorKind::UnknownCommand,
            ErrorKind::MissingRequiredHeader(h) => ErrorKind::MissingRequiredHeader(h),
            ErrorKind::UnexpectedHeader(name) => ErrorKind::UnexpectedHeader(encode_utf8(name@)),
            ErrorKind::MalformedHeaderLine => ErrorKind::MalformedHeaderLine,
            ErrorKind::InvalidEscapeSequence => ErrorKind::InvalidEscapeSequence,
            ErrorKind::NonUtf8Text => ErrorKind::NonUtf8Text,
            ErrorKind::InvalidHeaderValue(h) => ErrorKind::InvalidHeaderValue(h),
            ErrorKind::MissingTerminator => ErrorKind::MissingTerminator,
            ErrorKind::UnexpectedTrailingData => ErrorKind::UnexpectedTrailingData,
            ErrorKind::BodyNotAllowed => ErrorKind::BodyNotAllowed,
            ErrorKind::BuilderRequiredFieldUnset(h) => ErrorKind::BuilderRequiredFieldUnset(h),
            ErrorKind::BuilderBodyUnset => ErrorKind::BuilderBodyUnset,
            ErrorKind::Other => ErrorKind::Other,
        }
    }
}

/// The message of an error of the given kind.
pub open spec fn spec_describe(kind: Failure) -> Seq<char> {
    match kind {
        ErrorKind::UnknownCommand => "Unknown command"@,
        ErrorKind::MissingRequiredHeader(h) => "Missing required header: "@ + h.spec_name(),
        ErrorKind::UnexpectedHeader(name) => "Unexpected header '"@ + decode_utf8(name)
            + "' encountered"@,
        ErrorKind::MalformedHeaderLine => "Poorly formatted header"@,
        ErrorKind::InvalidEscapeSequence => "Invalid escape sequence"@,
        ErrorKind::NonUtf8Text => "bytes are not utf8"@,
        ErrorKind::InvalidHeaderValue(h) => "Poorly formatted value of header: "@ + h.spec_name(),
        ErrorKind::MissingTerminator => "Frame is incomplete"@,
        ErrorKind::UnexpectedTrailingData => "Unexpected data after frame"@,
        ErrorKind::BodyNotAllowed => "Frame must not have a body"@,
        ErrorKind::BuilderRequiredFieldUnset(h) => "Required header "@ + h.spec_name()
            + " not set."@,
        ErrorKind::BuilderBodyUnset => "Body not set."@,
        ErrorKind::Other => Seq::empty(),
    }
}

/// An error of parsing or building a frame: its kind, and a message for the
/// reader.
#[derive(Debug)]
pub struct StompParseError {
    kind: ErrorKind<String>,
    message: String,
}

impl StompParseError {
    /// The kind of the error.
    pub closed spec fn spec_kind(&self) -> Failure {
        self.kind@
    }

    /// The message of the error.
    pub closed spec fn spec_message(&self) -> Seq<char> {
        self.message@
    }

    /// Whether the message of the error is the one that describes its kind.
    pub open spec fn spec_described(&self) -> bool {
        self.spec_message() == spec_describe(self.spec_kind())
    }

    /// Whether the error is of the given kind and has the message that
    /// describes the kind.
    pub open spec fn spec_is(&self, kind: Failure) -> bool {
        self.spec_kind() == kind && self.spec_described()
    }

    /// An error of kind `Other` with the given message.
    pub fn new(message: &str) -> (e: StompParseError)
        ensures
            e.spec_kind() == Failure::Other,
            e.spec_message() == message@,
    {
        StompParseError { kind: ErrorKind::Other, message: message.to_owned() }
    }

    /// An error of the given kind, with the message that describes it.
    pub fn of(kind: ErrorKind<String>) -> (e: StompParseError)
        ensures
            e.spec_is(kind@),
    {
        let message = describe(&kind);
        StompParseError { kind, message }
    }

    /// An error of the given kind with a message of the caller's own.
    pub fn with_message(kind: ErrorKind<String>, message: String) -> (e: StompParseError)
        ensures
            e.spec_kind() == kind@,
            e.spec_message() == message@,
    {
        StompParseError { kind, message }
    }

    /// The kind of the error.
    pub fn kind(&self) -> (kind: &ErrorKind<String>)
        ensures
            kind@ == self.spec_kind(),
    {
        &self.kind
    }

    /// The message of the error.
    pub fn message(&self) -> (message: &str)
        ensures
            message@ == self.spec_message(),
    {
        self.message.as_str()
    }
}

/// The message that describes an error of the given kind.
pub fn describe(kind: &ErrorKind<String>) -> (message: String)
    ensures
        message@ == spec_describe(kind@),
{
    match kind {
        ErrorKind::UnknownCommand => "Unknown command".to_owned(),
        ErrorKind::MissingRequiredHeader(h) => "Missing required header: ".to_owned().concat(
            h.name(),
        ),
        ErrorKind::UnexpectedHeader(name) => {
            proof {
                encode_utf8_decode_utf8(name@);
            }
            "Unexpected header '".to_owned().concat(name.as_str()).concat("' encountered")
        },
        ErrorKind::MalformedHeaderLine => "Poorly formatted header".to_owned(),
        ErrorKind::InvalidEscapeSequence => "Invalid escape sequence".to_owned(),
        ErrorKind::NonUtf8Text => "bytes are not utf8".to_owned(),
        ErrorKind::InvalidHeaderValue(h) => "Poorly formatted value of header: ".to_owned().concat(
            h.name(),
        ),
        ErrorKind::MissingTerminator => "Frame is incomplete".to_owned(),
        ErrorKind::UnexpectedTrailingData => "Unexpected data after frame".to_owned(),
        ErrorKind::BodyNotAllowed => "Frame must not have a body".to_owned(),
        ErrorKind::BuilderRequiredFieldUnset(h) => {
            "Required header ".to_owned().concat(h.name()).concat(" not set.")
        },
        ErrorKind::BuilderBodyUnset => "Body not set.".to_owned(),
        ErrorKind::Other => String::new(),
    }
}

} // verus!
