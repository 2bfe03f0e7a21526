//! Frames: their mathematical model, what the bytes of a frame mean, the
//! bytes that a frame is written as, and a frame of any command.
//!
//! The frames of the single commands, in `client` and `server`, are built
//! on the frame of any command of this module.
pub mod client;
pub mod laws;
pub mod round_trip;
pub mod sender;
pub mod server;
pub mod utils;

use crate::error::{ErrorKind, Failure, StompParseError};
use crate::model::grammar::{Command, Origin};
use crate::model::headers::{
    AckType, AckValue, CustomValue, Header, HeaderModel, HeaderType, HeaderValue,
    HeartBeatIntervalls, HeartBeatValue, ValueModel,
};
use crate::parser::headers::{into_string, lemma_headers, spec_headers, spec_models};
use crate::parser::{
    command_line, lemma_line_end, null, remaining_without_null, spec_body, spec_command_line,
};
use crate::text::{push_bytes, COLON, LF, NUL};
use utils::{select_slice, spec_select};
use vstd::prelude::*;
use vstd::slice::{slice_subrange, slice_to_vec};
use vstd::string::StringExecFns;
use vstd::utf8::*;

verus! {

/// A frame as specifications speak of it.
pub struct FrameModel {
    /// The command of the frame.
    pub command: Command,
    /// For each header that the command has a place for, required ones
    /// first, the value of the header or `None` where the frame has none.
    pub slots: Seq<Option<ValueModel>>,
    /// The custom headers, name and value, in the order of the frame.
    pub custom: Seq<(Seq<u8>, Seq<u8>)>,
    /// The body, where the command has one.
    pub body: Option<Seq<u8>>,
}

/// The value of the last header of the given type among `headers`.
pub open spec fn spec_last_value(headers: Seq<HeaderModel>, header: HeaderType) -> Option<
    ValueModel,
>
    decreases headers.len(),
{
    if headers.len() == 0 {
        None
    } else {
        match headers.last() {
            HeaderModel::Known(known, value) if known == header => Some(value),
            _ => spec_last_value(headers.drop_last(), header),
        }
    }
}

/// The custom headers among `headers`, in the same order.
pub open spec fn spec_customs(headers: Seq<HeaderModel>) -> Seq<(Seq<u8>, Seq<u8>)>
    decreases headers.len(),
{
    if headers.len() == 0 {
        Seq::empty()
    } else {
        match headers.last() {
            HeaderModel::Custom(name, value) => spec_customs(headers.drop_last()).push(
                (name, value),
            ),
            _ => spec_customs(headers.drop_last()),
        }
    }
}

/// The value that a frame with the given headers has for `header`: that of
/// the last such header or, without one, the default of the command.
pub open spec fn spec_slot(command: Command, headers: Seq<HeaderModel>, header: HeaderType)
    -> Option<ValueModel> {
    match spec_last_value(headers, header) {
        Some(value) => Some(value),
        None => command.spec_default(header),
    }
}

/// The values that a frame with the given headers has for the headers that
/// its command has a place for.
pub open spec fn spec_slots(command: Command, headers: Seq<HeaderModel>) -> Seq<
    Option<ValueModel>,
> {
    Seq::new(
        command.spec_declared().len(),
        |i: int| spec_slot(command, headers, command.spec_declared()[i]),
    )
}

/// The first of the required headers, from position `from` on, that is not
/// among `headers`.
pub open spec fn spec_first_missing(
    required: Seq<HeaderType>,
    headers: Seq<HeaderModel>,
    from: int,
) -> Option<HeaderType>
    decreases required.len() - from,
{
    if from < 0 || from >= required.len() {
        None
    } else if spec_last_value(headers, required[from]) is None {
        Some(required[from])
    } else {
        spec_first_missing(required, headers, from + 1)
    }
}

/// The head of a frame, which is all of it up to the body: the command, the
/// headers in the order of their lines, and the position where the header
/// section ends. The command line gives the command, which must be one of
/// the given origin.
pub open spec fn spec_head(s: Seq<u8>, origin: Origin) -> Result<
    (Command, Seq<HeaderModel>, int),
    Failure,
> {
    match spec_command_line(s) {
        None => Err(ErrorKind::UnknownCommand),
        Some((keyword_end, next)) => match Command::spec_lookup(
            origin,
            s.subrange(0, keyword_end),
        ) {
            None => Err(ErrorKind::UnknownCommand),
            Some(command) => match spec_headers(s, next, command.spec_grammar()) {
                Err(failure) => Err(failure),
                Ok((headers, body_start)) => Ok((command, headers, body_start)),
            },
        },
    }
}

/// What the bytes of a frame mean: the frame, or why they are none.
///
/// The bytes are read front to back: first the head, which is the command
/// line and the header section up to its blank line. Of several headers of
/// one type the last one counts. A required header that is missing is
/// reported before the body is looked at. The rest is the body and the zero
/// octet; a `content-length` header has no say in where the body ends.
pub open spec fn spec_parse(s: Seq<u8>, origin: Origin) -> Result<FrameModel, Failure> {
    match spec_head(s, origin) {
        Err(failure) => Err(failure),
        Ok((command, headers, body_start)) => match spec_first_missing(
            command.spec_required(),
            headers,
            0,
        ) {
            Some(header) => Err(ErrorKind::MissingRequiredHeader(header)),
            None => match spec_body(
                command.spec_allows_body(),
                s.subrange(body_start, s.len() as int),
            ) {
                Err(failure) => Err(failure),
                Ok(body) => Ok(
                    FrameModel {
                        command,
                        slots: spec_slots(command, headers),
                        custom: spec_customs(headers),
                        body,
                    },
                ),
            },
        },
    }
}

/// The message of the error for bytes that are no frame. Where the command
/// line is not one, the message says no more than that parsing failed. A
/// keyword that selects no command is named, where it is UTF-8. Every other
/// error has the message that describes its kind.
pub open spec fn spec_parse_message(s: Seq<u8>, origin: Origin) -> Seq<char> {
    match spec_command_line(s) {
        None => "Error parsing frame"@,
        Some((keyword_end, _)) => match Command::spec_lookup(origin, s.subrange(0, keyword_end)) {
            None => if valid_utf8(s.subrange(0, keyword_end)) {
                "Unknown command "@ + decode_utf8(s.subrange(0, keyword_end))
            } else {
                "badly formed command string, not utf8"@
            },
            Some(_) => match spec_parse(s, origin) {
                Ok(_) => Seq::empty(),
                Err(failure) => crate::error::spec_describe(failure),
            },
        },
    }
}

/// The header lines of the first `upto` places of a frame: for each place
/// with a value, the header's name, a colon, the value's text and a line
/// feed. Nothing is escaped.
pub open spec fn spec_lines(declared: Seq<HeaderType>, slots: Seq<Option<ValueModel>>, upto: int)
    -> Seq<u8>
    decreases upto,
{
    if upto <= 0 || upto > declared.len() || upto > slots.len() {
        Seq::empty()
    } else {
        spec_lines(declared, slots, upto - 1) + match slots[upto - 1] {
            Some(value) => HeaderModel::Known(declared[upto - 1], value).spec_line() + seq![LF],
            None => Seq::empty(),
        }
    }
}

/// The bytes that the head of a frame is written as: the keyword and a line
/// feed, the lines of the headers that the command has a place for, required
/// ones first, and a line feed. Custom headers are not written.
pub open spec fn spec_serialize_head(frame: FrameModel) -> Seq<u8> {
    encode_utf8(frame.command.spec_keyword()) + seq![LF] + spec_lines(
        frame.command.spec_declared(),
        frame.slots,
        frame.command.spec_declared().len() as int,
    ) + seq![LF]
}

/// The bytes that a frame is written as: the head, the body as it is, where
/// the frame has one, and the zero octet.
pub open spec fn spec_serialize(frame: FrameModel) -> Seq<u8> {
    spec_serialize_head(frame) + match frame.body {
        Some(body) => body,
        None => Seq::empty(),
    } + seq![NUL]
}

/// The text of a frame for a reader: the bytes that the frame is written
/// as where they are UTF-8, else those that it would be written as without
/// its body. Where not even those are UTF-8, the text is empty.
pub open spec fn spec_display(frame: FrameModel) -> Seq<u8> {
    if valid_utf8(spec_serialize(frame)) {
        spec_serialize(frame)
    } else if valid_utf8(spec_serialize_head(frame) + seq![NUL]) {
        spec_serialize_head(frame) + seq![NUL]
    } else {
        Seq::empty()
    }
}

/// The first of the required headers, from position `from` on, whose place
/// in `slots` is empty.
pub open spec fn spec_first_unset(
    required: Seq<HeaderType>,
    slots: Seq<Option<ValueModel>>,
    from: int,
) -> Option<HeaderType>
    decreases required.len() - from,
{
    if from < 0 || from >= required.len() || from >= slots.len() {
        None
    } else if slots[from] is None {
        Some(required[from])
    } else {
        spec_first_unset(required, slots, from + 1)
    }
}

/// The bytes that a frame is built as, or why it cannot be built: each
/// required header must be set, which is looked at in the order of the
/// headers, and so must the body where the command has one.
pub open spec fn spec_build(frame: FrameModel) -> Result<Seq<u8>, Failure> {
    match spec_first_unset(frame.command.spec_required(), frame.slots, 0) {
        Some(header) => Err(ErrorKind::BuilderRequiredFieldUnset(header)),
        None => if frame.command.spec_allows_body() && frame.body is None {
            Err(ErrorKind::BuilderBodyUnset)
        } else {
            Ok(spec_serialize(frame))
        },
    }
}

/// Whether a frame has every header that it cannot be without: the required
/// ones, and those optional ones for which the command has a default.
#[verifier::opaque]
pub open spec fn spec_complete(frame: FrameModel) -> bool {
    let declared = frame.command.spec_declared();
    &&& frame.slots.len() == declared.len()
    &&& forall|i: int|
        0 <= i < declared.len() && (i < frame.command.spec_required().len()
            || frame.command.spec_default(declared[i]) is Some)
            ==> #[trigger] frame.slots[i] is Some
}

/// Where no required header is missing, each of them has a value.
pub proof fn lemma_none_missing(required: Seq<HeaderType>, headers: Seq<HeaderModel>, from: int)
    requires
        0 <= from,
        spec_first_missing(required, headers, from) is None,
    ensures
        forall|i: int| from <= i < required.len() ==> spec_last_value(headers, required[i]) is Some,
    decreases required.len() - from,
{
    if from < required.len() {
        lemma_none_missing(required, headers, from + 1);
    }
}

/// A frame that was read is of the origin that was asked for, and has every
/// header that it cannot be without.
pub proof fn lemma_parse_complete(s: Seq<u8>, origin: Origin)
    ensures
        spec_parse(s, origin) matches Ok(frame) ==> frame.command.spec_origin() == origin
            && spec_complete(frame),
{
    reveal(Command::spec_lookup);
    reveal(spec_complete);
    match spec_parse(s, origin) {
        Ok(frame) => {
            let (command, headers, _) = spec_head(s, origin)->Ok_0;
            lemma_none_missing(command.spec_required(), headers, 0);
            let declared = command.spec_declared();
            assert forall|i: int|
                0 <= i < declared.len() && (i < command.spec_required().len()
                    || command.spec_default(declared[i]) is Some)
            implies #[trigger] frame.slots[i] is Some by {
                if i < command.spec_required().len() {
                    assert(declared[i] == command.spec_required()[i]);
                }
            }
        },
        Err(_) => {},
    }
}

/// Headers that are all known by name hold no custom header.
pub proof fn lemma_no_customs(headers: Seq<HeaderModel>)
    requires
        forall|i: int| 0 <= i < headers.len() ==> #[trigger] headers[i] is Known,
    ensures
        spec_customs(headers).len() == 0,
    decreases headers.len(),
{
    if headers.len() > 0 {
        assert(headers.last() is Known);
        let rest = headers.drop_last();
        assert forall|i: int| 0 <= i < rest.len() implies #[trigger] rest[i] is Known by {
            assert(rest[i] == headers[i]);
        }
        lemma_no_customs(rest);
    }
}

/// Whether a frame has every optional header for which its command has a
/// default.
#[verifier::opaque]
pub open spec fn spec_defaults_set(frame: FrameModel) -> bool {
    let declared = frame.command.spec_declared();
    forall|i: int|
        0 <= i < declared.len() && i < frame.slots.len() && frame.command.spec_default(
            declared[i],
        ) is Some ==> #[trigger] frame.slots[i] is Some
}

/// Where no required header is unset, each of them has a value.
pub proof fn lemma_none_unset(required: Seq<HeaderType>, slots: Seq<Option<ValueModel>>, from: int)
    requires
        0 <= from,
        spec_first_unset(required, slots, from) is None,
    ensures
        forall|i: int| from <= i < required.len() && i < slots.len() ==> slots[i] is Some,
    decreases required.len() - from,
{
    if from < required.len() && from < slots.len() {
        lemma_none_unset(required, slots, from + 1);
    }
}

/// A frame that can be built, and has the defaults of its command, has every
/// header that it cannot be without.
pub proof fn lemma_built_complete(frame: FrameModel)
    requires
        spec_build(frame) is Ok,
        spec_defaults_set(frame),
        frame.slots.len() == frame.command.spec_declared().len(),
    ensures
        spec_complete(frame),
{
    reveal(spec_complete);
    reveal(spec_defaults_set);
    lemma_none_unset(frame.command.spec_required(), frame.slots, 0);
}

/// The value of the header in a place of a frame.
pub open spec fn spec_value(slot: Option<Header>) -> Option<ValueModel> {
    match slot {
        Some(header) => match header@ {
            HeaderModel::Known(_, value) => Some(value),
            HeaderModel::Custom(_, _) => None,
        },
        None => None,
    }
}

/// The values of the headers in the places of a frame.
pub open spec fn spec_values(slots: Seq<Option<Header>>) -> Seq<Option<ValueModel>> {
    Seq::new(slots.len(), |i: int| spec_value(slots[i]))
}

/// The names and values of the given custom headers.
pub open spec fn spec_pairs(custom: Seq<CustomValue>) -> Seq<(Seq<u8>, Seq<u8>)> {
    Seq::new(custom.len(), |i: int| (encode_utf8(custom[i].name@), encode_utf8(custom[i].value@)))
}

/// Whether each place holds nothing or a header of the type that the place
/// is for.
#[verifier::opaque]
pub open spec fn spec_typed(declared: Seq<HeaderType>, slots: Seq<Option<Header>>) -> bool {
    &&& slots.len() == declared.len()
    &&& forall|i: int|
        0 <= i < slots.len() ==> (#[trigger] slots[i] matches Some(header) ==> header.spec_is(
            declared[i],
        ))
}

/// A place of a well-typed frame holds nothing or a header of its type.
pub proof fn lemma_place(declared: Seq<HeaderType>, slots: Seq<Option<Header>>, i: int)
    requires
        spec_typed(declared, slots),
        0 <= i < declared.len(),
    ensures
        slots.len() == declared.len(),
        slots[i] matches Some(header) ==> header.spec_is(declared[i]),
{
    reveal(spec_typed);
}

/// A well-typed frame has one place for each header that its command knows.
pub proof fn lemma_places_len(declared: Seq<HeaderType>, slots: Seq<Option<Header>>)
    requires
        spec_typed(declared, slots),
    ensures
        slots.len() == declared.len(),
{
    reveal(spec_typed);
}

/// A complete frame has a value in the place of each header that it cannot
/// be without.
pub proof fn lemma_complete_place(frame: FrameModel, i: int)
    requires
        spec_complete(frame),
        0 <= i < frame.command.spec_declared().len(),
        i < frame.command.spec_required().len() || frame.command.spec_default(
            frame.command.spec_declared()[i],
        ) is Some,
    ensures
        frame.slots[i] is Some,
{
    reveal(spec_complete);
}

/// No header has two places in a frame of any command.
pub proof fn lemma_declared_distinct(command: Command)
    ensures
        command.spec_declared().no_duplicates(),
        command.spec_declared().len() <= 5,
        command.spec_required().len() <= 3,
{
    let declared = command.spec_declared();
    assert forall|i: int, j: int|
        0 <= i < declared.len() && 0 <= j < declared.len() && i != j
    implies declared[i] != declared[j] by {
        match command {
            Command::Abort => {},
            Command::Ack => {},
            Command::Begin => {},
            Command::Commit => {},
            Command::Connect => {},
            Command::Disconnect => {},
            Command::Nack => {},
            Command::Send => {},
            Command::Subscribe => {},
            Command::Unsubscribe => {},
            Command::Connected => {},
            Command::Receipt => {},
            Command::Error => {},
            Command::Message => {},
        }
    }
}

/// The header that a place of a frame holds while the frame has no such
/// header: the default of the command, where it has one.
pub fn default_header(command: Command, header: HeaderType) -> (r: Option<Header>)
    ensures
        spec_value(r) == command.spec_default(header),
        r matches Some(default) ==> default.spec_is(header),
{
    match (command, header) {
        (Command::Connect, HeaderType::HeartBeat) => Some(
            Header::HeartBeat(HeartBeatValue::new(HeartBeatIntervalls::new(0, 0))),
        ),
        (Command::Subscribe, HeaderType::Ack) => Some(Header::Ack(AckValue::new(AckType::Auto))),
        _ => None,
    }
}

/// The bytes `out` with the line of the header and a line feed after them,
/// where the header has a value.
pub open spec fn spec_write_line(out: Seq<u8>, header: HeaderType, value: Option<ValueModel>)
    -> Seq<u8> {
    match value {
        Some(value) => out + (header.spec_name_bytes() + seq![COLON] + value.spec_text()
            + seq![LF]),
        None => out,
    }
}

/// The bytes that a frame is written as up to and with the line of the
/// header in the place before `upto`.
pub open spec fn spec_head_upto(frame: FrameModel, upto: int) -> Seq<u8>
    decreases upto,
{
    if upto <= 0 || upto > frame.command.spec_declared().len() || upto > frame.slots.len() {
        encode_utf8(frame.command.spec_keyword()) + seq![LF]
    } else {
        spec_write_line(
            spec_head_upto(frame, upto - 1),
            frame.command.spec_declared()[upto - 1],
            frame.slots[upto - 1],
        )
    }
}

/// The bytes that a frame is written as up to a place are the command line
/// and the lines of the places before it.
pub proof fn lemma_head_upto(frame: FrameModel, upto: int)
    requires
        0 <= upto <= frame.command.spec_declared().len(),
        upto <= frame.slots.len(),
    ensures
        spec_head_upto(frame, upto) == encode_utf8(frame.command.spec_keyword()) + seq![LF]
            + spec_lines(frame.command.spec_declared(), frame.slots, upto),
    decreases upto,
{
    let start = encode_utf8(frame.command.spec_keyword()) + seq![LF];
    let declared = frame.command.spec_declared();
    if upto == 0 {
        assert(start =~= start + spec_lines(declared, frame.slots, 0));
    } else {
        lemma_head_upto(frame, upto - 1);
        assert(spec_head_upto(frame, upto) =~= start + spec_lines(declared, frame.slots, upto));
    }
}

/// A frame that has every header that it cannot be without is built as the
/// bytes that it is written as, unless it lacks the body that its command
/// has.
pub proof fn lemma_complete_builds(frame: FrameModel)
    requires
        spec_complete(frame),
    ensures
        spec_build(frame) == if frame.command.spec_allows_body() && frame.body is None {
            Err::<Seq<u8>, Failure>(ErrorKind::BuilderBodyUnset)
        } else {
            Ok::<Seq<u8>, Failure>(spec_serialize(frame))
        },
{
    reveal(spec_complete);
    lemma_all_set(frame.command.spec_required(), frame.slots, 0);
}

/// Where each required header from `from` on is set, none is unset.
proof fn lemma_all_set(required: Seq<HeaderType>, slots: Seq<Option<ValueModel>>, from: int)
    requires
        0 <= from,
        forall|i: int| from <= i < required.len() && i < slots.len() ==> slots[i] is Some,
    ensures
        spec_first_unset(required, slots, from) is None,
    decreases required.len() - from,
{
    if from < required.len() && from < slots.len() {
        lemma_all_set(required, slots, from + 1);
    }
}

/// Appends the line of the header and a line feed.
pub fn write_header<T, V: HeaderValue<T>>(out: &mut Vec<u8>, header: &V)
    ensures
        final(out)@ == old(out)@ + (header.spec_header_name() + seq![COLON]
            + header.spec_value_text() + seq![LF]),
{
    let line = header.to_string();
    let _ = crate::model::frames::utils::writeln(out, line.as_str());
    proof {
        assert(out@ =~= old(out)@ + (header.spec_header_name() + seq![COLON]
            + header.spec_value_text() + seq![LF]));
    }
}

/// Starts a frame: the keyword of the command and a line feed.
pub fn write_command(command: Command) -> (out: Vec<u8>)
    ensures
        out@ == encode_utf8(command.spec_keyword()) + seq![LF],
{
    let mut out: Vec<u8> = Vec::new();
    let _ = crate::model::frames::utils::writeln(&mut out, command.keyword());
    proof {
        assert(out@ =~= encode_utf8(command.spec_keyword()) + seq![LF]);
    }
    out
}

/// The bytes `out` with the line of the header and a line feed after them,
/// where there is a header.
pub open spec fn spec_write_optional<T, V: HeaderValue<T>>(out: Seq<u8>, header: Option<V>)
    -> Seq<u8> {
    match header {
        Some(header) => out + (header.spec_header_name() + seq![COLON]
            + header.spec_value_text() + seq![LF]),
        None => out,
    }
}

/// Appends the line of the header and a line feed, where there is a header.
pub fn write_optional<T, V: HeaderValue<T>>(out: &mut Vec<u8>, header: &Option<V>)
    ensures
        final(out)@ == spec_write_optional(old(out)@, *header),
{
    match header {
        Some(header) => write_header(out, header),
        None => {},
    }
}

/// The text of a frame for a reader, from the bytes that its head is written
/// as and its body: all of the frame where that is UTF-8, else the frame
/// without its body.
pub fn display(head: Vec<u8>, body: Option<&[u8]>) -> (text: String)
    ensures
        ({
            let whole = head@ + match body {
                Some(body) => body@,
                None => Seq::empty(),
            } + seq![NUL];
            let bare = head@ + seq![NUL];
            if valid_utf8(whole) {
                encode_utf8(text@) == whole
            } else if valid_utf8(bare) {
                encode_utf8(text@) == bare
            } else {
                encode_utf8(text@) == Seq::<u8>::empty()
            }
        }),
{
    let ghost written = head@ + match body {
        Some(body) => body@,
        None => Seq::empty(),
    } + seq![NUL];
    let mut whole: Vec<u8> = Vec::new();
    push_bytes(&mut whole, head.as_slice());
    match body {
        Some(body) => push_bytes(&mut whole, body),
        None => {},
    }
    whole.push(NUL);
    assert(whole@ =~= written);
    match crate::text::string_from_utf8(whole) {
        Some(text) => text,
        None => {
            let mut bare = head;
            bare.push(NUL);
            assert(bare@ =~= head@ + seq![NUL]);
            match crate::text::string_from_utf8(bare) {
                Some(text) => text,
                None => String::new(),
            }
        },
    }
}

/// Takes the header out of the last place of a frame, which holds one.
pub fn take_header(slots: &mut Vec<Option<Header>>) -> (header: Header)
    requires
        old(slots)@.len() > 0,
        old(slots)@[old(slots)@.len() - 1] is Some,
    ensures
        Some(header) == old(slots)@[old(slots)@.len() - 1],
        final(slots)@.len() == old(slots)@.len() - 1,
        forall|i: int| 0 <= i < final(slots)@.len() ==> final(slots)@[i] == old(slots)@[i],
{
    match slots.pop() {
        Some(Some(header)) => header,
        _ => unreached(),
    }
}

/// Takes what the last place holds out of the places of a frame.
pub fn take_place(slots: &mut Vec<Option<Header>>) -> (place: Option<Header>)
    requires
        old(slots)@.len() > 0,
    ensures
        place == old(slots)@[old(slots)@.len() - 1],
        final(slots)@.len() == old(slots)@.len() - 1,
        forall|i: int| 0 <= i < final(slots)@.len() ==> final(slots)@[i] == old(slots)@[i],
{
    match slots.pop() {
        Some(place) => place,
        None => None,
    }
}

/// The position of `header` in `list`, where it is in the list.
pub fn position(list: &Vec<HeaderType>, header: HeaderType) -> (r: Option<usize>)
    ensures
        match r {
            Some(at) => at < list@.len() && list@[at as int] == header,
            None => !list@.contains(header),
        },
{
    let mut i: usize = 0;
    while i < list.len()
        invariant
            i <= list@.len(),
            forall|k: int| 0 <= k < i ==> list@[k] != header,
        decreases list.len() - i,
    {
        if list[i] == header {
            return Some(i);
        }
        i += 1;
    }
    None
}

/// Whether a header of the given type is among `headers`.
pub fn has_header(headers: &Vec<Header>, header: HeaderType) -> (r: bool)
    ensures
        r == (spec_last_value(spec_models(headers@), header) is Some),
{
    let mut i: usize = 0;
    let ghost models = spec_models(headers@);
    let mut found = false;
    proof {
        assert(models.subrange(0, 0) =~= Seq::<HeaderModel>::empty());
    }
    while i < headers.len()
        invariant
            i <= headers@.len(),
            models == spec_models(headers@),
            found == (spec_last_value(models.subrange(0, i as int), header) is Some),
        decreases headers.len() - i,
    {
        proof {
            assert(models.subrange(0, i + 1).drop_last() =~= models.subrange(0, i as int));
            assert(models.subrange(0, i + 1).last() == headers@[i as int]@);
        }
        match headers[i].header_type() {
            Some(known) => {
                if known == header {
                    found = true;
                }
            },
            None => {},
        }
        i += 1;
    }
    proof {
        assert(models.subrange(0, i as int) =~= models);
    }
    found
}

/// The first of the required headers that is not among `headers`.
pub fn first_missing(required: &Vec<HeaderType>, headers: &Vec<Header>) -> (r: Option<HeaderType>)
    ensures
        r == spec_first_missing(required@, spec_models(headers@), 0),
{
    let mut i: usize = 0;
    while i < required.len()
        invariant
            i <= required@.len(),
            spec_first_missing(required@, spec_models(headers@), 0) == spec_first_missing(
                required@,
                spec_models(headers@),
                i as int,
            ),
        decreases required.len() - i,
    {
        if !has_header(headers, required[i]) {
            return Some(required[i]);
        }
        i += 1;
    }
    None
}

/// A frame of any command: the command, a place for each header that the
/// command knows, the custom headers, and the buffer that holds the body.
#[derive(Debug)]
pub struct RawFrame {
    /// The command of the frame.
    pub command: Command,
    /// One place for each header that the command knows, required ones
    /// first.
    pub slots: Vec<Option<Header>>,
    /// The custom headers, in the order of the frame.
    pub custom: Vec<CustomValue>,
    /// The buffer that holds the body.
    pub raw: Option<Vec<u8>>,
    /// Where the body starts in the buffer, and how long it is.
    pub body_offset_length: (usize, usize),
}

impl View for RawFrame {
    type V = FrameModel;

    open spec fn view(&self) -> FrameModel {
        FrameModel {
            command: self.command,
            slots: spec_values(self.slots@),
            custom: spec_pairs(self.custom@),
            body: if self.command.spec_allows_body() {
                self.spec_body()
            } else {
                None
            },
        }
    }
}

impl RawFrame {
    /// The buffer of the frame, once it has one.
    pub open spec fn spec_raw(&self) -> Option<Seq<u8>> {
        match self.raw {
            Some(bytes) => Some(bytes@),
            None => None,
        }
    }

    /// The part of the buffer that is the body.
    pub open spec fn spec_body(&self) -> Option<Seq<u8>> {
        spec_select(self.spec_raw(), self.body_offset_length)
    }

    /// Whether the frame is well-formed: each place holds nothing or a
    /// header of its type, there are custom headers only where the command
    /// takes them, and the body lies within the buffer.
    pub open spec fn wf(&self) -> bool {
        &&& spec_typed(self.command.spec_declared(), self.slots@)
        &&& (!self.command.spec_allows_custom() ==> self.custom@.len() == 0)
        &&& (self.raw matches Some(bytes) ==> self.body_offset_length.0
            + self.body_offset_length.1 <= bytes@.len())
    }

    /// Sorts the headers of a header section into the places of a frame of
    /// the given command. A place that no header fills holds the command's
    /// default for it.
    pub fn sort(command: Command, headers: Vec<Header>) -> (r: (
        Vec<Option<Header>>,
        Vec<CustomValue>,
    ))
        ensures
            spec_typed(command.spec_declared(), r.0@),
            spec_values(r.0@) == spec_slots(command, spec_models(headers@)),
            spec_pairs(r.1@) == spec_customs(spec_models(headers@)),
    {
        reveal(spec_typed);
        let declared = command.declared();
        let mut slots: Vec<Option<Header>> = Vec::new();
        let mut i: usize = 0;
        let ghost all = spec_models(headers@);
        let ghost none = Seq::<HeaderModel>::empty();
        while i < declared.len()
            invariant
                i <= declared@.len(),
                declared@ == command.spec_declared(),
                slots@.len() == i,
                none.len() == 0,
                forall|k: int|
                    0 <= k < i ==> spec_value(#[trigger] slots@[k]) == spec_slot(
                        command,
                        none,
                        declared@[k],
                    ),
                forall|k: int|
                    0 <= k < i ==> (#[trigger] slots@[k] matches Some(header) ==> header.spec_is(
                        declared@[k],
                    )),
            decreases declared.len() - i,
        {
            slots.push(default_header(command, declared[i]));
            i += 1;
        }
        let mut custom: Vec<CustomValue> = Vec::new();
        let ghost mut seen = none;
        proof {
            lemma_declared_distinct(command);
            assert(spec_pairs(custom@) =~= spec_customs(seen));
        }
        for header in it: headers.into_iter()
            invariant
                declared@ == command.spec_declared(),
                declared@.no_duplicates(),
                it.seq() == headers@,
                all == spec_models(headers@),
                seen == all.subrange(0, it.index() as int),
                slots@.len() == declared@.len(),
                forall|k: int|
                    0 <= k < slots@.len() ==> spec_value(#[trigger] slots@[k]) == spec_slot(
                        command,
                        seen,
                        declared@[k],
                    ),
                forall|k: int|
                    0 <= k < slots@.len() ==> (#[trigger] slots@[k] matches Some(header)
                        ==> header.spec_is(declared@[k])),
                spec_pairs(custom@) == spec_customs(seen),
        {
            let ghost next = seen.push(header@);
            proof {
                assert(next.drop_last() =~= seen);
                assert(next.last() == header@);
                assert(all.subrange(0, it.index() + 1) =~= next);
            }
            match header.header_type() {
                Some(known) => {
                    match position(&declared, known) {
                        Some(at) => {
                            slots[at] = Some(header);
                        },
                        None => {},
                    }
                },
                None => {
                    let ghost before = custom@;
                    match header {
                        Header::Custom(value) => {
                            custom.push(value);
                            proof {
                                assert(spec_pairs(custom@) =~= spec_pairs(before).push(
                                    (encode_utf8(value.name@), encode_utf8(value.value@)),
                                ));
                            }
                        },
                        _ => {},
                    }
                },
            }
            proof {
                seen = next;
            }
        }
        proof {
            assert(seen =~= all);
            assert(spec_values(slots@) =~= spec_slots(command, all));
        }
        (slots, custom)
    }

    /// Reads a frame of the given origin from the bytes, which the frame
    /// keeps as its buffer.
    pub fn parse(bytes: Vec<u8>, origin: Origin) -> (r: Result<RawFrame, StompParseError>)
        ensures
            match r {
                Ok(frame) => {
                    &&& spec_parse(bytes@, origin) == Ok::<FrameModel, Failure>(frame@)
                    &&& frame.wf()
                    &&& frame.raw == Some(bytes)
                },
                Err(e) => {
                    &&& spec_parse(bytes@, origin) == Err::<FrameModel, Failure>(e.spec_kind())
                    &&& e.spec_message() == spec_parse_message(bytes@, origin)
                },
            },
    {
        let input = bytes.as_slice();
        let len = input.len();
        let (rest, keyword) = match command_line(input) {
            Ok(read) => read,
            Err(_) => {
                return Err(
                    StompParseError::with_message(
                        ErrorKind::UnknownCommand,
                        "Error parsing frame".to_owned(),
                    ),
                );
            },
        };
        proof {
            lemma_line_end(input@, 0);
        }
        let next = len - rest.len();
        let command = match Command::lookup(origin, keyword) {
            Some(command) => command,
            None => {
                let message = match into_string(slice_to_vec(keyword)) {
                    Ok(text) => {
                        proof {
                            encode_utf8_decode_utf8(text@);
                        }
                        "Unknown command ".to_owned().concat(text.as_str())
                    },
                    Err(_) => "badly formed command string, not utf8".to_owned(),
                };
                return Err(StompParseError::with_message(ErrorKind::UnknownCommand, message));
            },
        };
        let (headers, body_start) = match command.headers_parser().headers_at(input, next) {
            Ok(read) => read,
            Err(e) => {
                return Err(e);
            },
        };
        match first_missing(&command.required(), &headers) {
            Some(header) => {
                return Err(StompParseError::of(ErrorKind::MissingRequiredHeader(header)));
            },
            None => {},
        }
        let rest = slice_subrange(input, body_start, len);
        let body_length = if command.allows_body() {
            match remaining_without_null(rest) {
                Ok((_, body)) => body.len(),
                Err(e) => {
                    return Err(e);
                },
            }
        } else {
            match null(rest) {
                Ok(_) => 0,
                Err(e) => {
                    return Err(e);
                },
            }
        };
        proof {
            lemma_headers(input@, next as int, command.spec_grammar());
            if !command.spec_allows_custom() {
                lemma_no_customs(spec_models(headers@));
            }
        }
        let (slots, custom) = RawFrame::sort(command, headers);
        let frame = RawFrame {
            command,
            slots,
            custom,
            raw: Some(bytes),
            body_offset_length: (body_start, body_length),
        };
        proof {
            if command.spec_allows_body() {
                assert(rest@.drop_last() =~= bytes@.subrange(
                    body_start as int,
                    body_start + body_length,
                ));
            }
        }
        Ok(frame)
    }

    /// The body of the frame, where it has a buffer.
    pub fn body(&self) -> (r: Option<&[u8]>)
        requires
            self.wf(),
        ensures
            match r {
                Some(body) => self.spec_body() == Some(body@),
                None => self.raw is None,
            },
    {
        select_slice(&self.raw, &self.body_offset_length)
    }

    /// The first of the required headers that is not set.
    pub fn first_unset(&self) -> (r: Option<HeaderType>)
        requires
            self.wf(),
        ensures
            r == spec_first_unset(self.command.spec_required(), self@.slots, 0),
    {
        let required = self.command.required();
        let ghost slots = self@.slots;
        let mut i: usize = 0;
        while i < required.len()
            invariant
                i <= required@.len(),
                required@ == self.command.spec_required(),
                self.wf(),
                slots == self@.slots,
                spec_first_unset(required@, slots, 0) == spec_first_unset(
                    required@,
                    slots,
                    i as int,
                ),
            decreases required.len() - i,
        {
            proof {
                assert(self.command.spec_declared().len() == required@.len()
                    + self.command.spec_optional().len());
                assert(self.command.spec_declared()[i as int] == required@[i as int]);
                lemma_place(self.command.spec_declared(), self.slots@, i as int);
            }
            if self.slots[i].is_none() {
                return Some(required[i]);
            }
            i += 1;
        }
        None
    }

    /// Appends the lines of the headers that are set, in the order of their
    /// places.
    pub fn write_lines(&self, out: &mut Vec<u8>)
        requires
            self.wf(),
        ensures
            final(out)@ == old(out)@ + spec_lines(
                self.command.spec_declared(),
                self@.slots,
                self.command.spec_declared().len() as int,
            ),
    {
        let declared = self.command.declared();
        let ghost slots = self@.slots;
        let ghost head = out@;
        proof {
            lemma_places_len(declared@, self.slots@);
        }
        let mut k: usize = 0;
        proof {
            assert(out@ =~= head + spec_lines(declared@, slots, 0));
        }
        while k < declared.len()
            invariant
                k <= declared@.len(),
                declared@ == self.command.spec_declared(),
                self.wf(),
                slots == self@.slots,
                self.slots@.len() == declared@.len(),
                out@ == head + spec_lines(declared@, slots, k as int),
            decreases declared.len() - k,
        {
            let ghost before = spec_lines(declared@, slots, k as int);
            proof {
                lemma_place(declared@, self.slots@, k as int);
            }
            match &self.slots[k] {
                Some(header) => {
                    let line = header.to_string();
                    let _ = crate::model::frames::utils::writeln(out, line.as_str());
                    proof {
                        let value = spec_value(self.slots@[k as int])->0;
                        assert(header@ == HeaderModel::Known(declared@[k as int], value));
                        assert(spec_lines(declared@, slots, k + 1) == before + (header@.spec_line()
                            + seq![LF]));
                        assert(out@ =~= head + spec_lines(declared@, slots, k + 1));
                    }
                },
                None => {
                    proof {
                        assert(spec_lines(declared@, slots, k + 1) =~= before);
                    }
                },
            }
            k += 1;
        }
    }

    /// A frame of the given command without headers, but for the defaults of
    /// the command, and without a body.
    pub fn empty(command: Command) -> (frame: RawFrame)
        ensures
            frame.wf(),
            frame.command == command,
            frame.raw is None,
            spec_defaults_set(frame@),
            frame@ == (FrameModel {
                command,
                slots: spec_slots(command, Seq::empty()),
                custom: Seq::empty(),
                body: None,
            }),
    {
        let (slots, custom) = RawFrame::sort(command, Vec::new());
        let frame = RawFrame { command, slots, custom, raw: None, body_offset_length: (0, 0) };
        proof {
            reveal(spec_defaults_set);
            assert(spec_models(Seq::<Header>::empty()) =~= Seq::<HeaderModel>::empty());
            assert(frame@.custom =~= Seq::<(Seq<u8>, Seq<u8>)>::empty());
        }
        frame
    }

    /// The frame with the given header in the place of the given index.
    pub fn set(self, index: usize, header: Header) -> (frame: RawFrame)
        requires
            self.wf(),
            index < self.command.spec_declared().len(),
            header.spec_is(self.command.spec_declared()[index as int]),
        ensures
            frame.wf(),
            frame.command == self.command,
            frame.custom == self.custom,
            frame.raw == self.raw,
            frame.body_offset_length == self.body_offset_length,
            frame.slots@ == self.slots@.update(index as int, Some(header)),
            frame@ == (FrameModel {
                slots: self@.slots.update(index as int, spec_value(Some(header))),
                ..self@
            }),
            spec_defaults_set(self@) ==> spec_defaults_set(frame@),
    {
        proof {
            reveal(spec_typed);
            reveal(spec_defaults_set);
        }
        let mut frame = self;
        frame.slots[index] = Some(header);
        proof {
            assert(frame@.slots =~= self@.slots.update(index as int, spec_value(Some(header))));
        }
        frame
    }

    /// The frame with one more custom header, after those that it has.
    pub fn add_custom(self, custom: CustomValue) -> (frame: RawFrame)
        requires
            self.wf(),
            self.command.spec_allows_custom(),
        ensures
            frame.wf(),
            frame.command == self.command,
            frame.slots == self.slots,
            frame.raw == self.raw,
            frame.body_offset_length == self.body_offset_length,
            frame@ == (FrameModel {
                custom: self@.custom.push((encode_utf8(custom.name@), encode_utf8(custom.value@))),
                ..self@
            }),
            spec_defaults_set(self@) ==> spec_defaults_set(frame@),
    {
        let mut frame = self;
        frame.custom.push(custom);
        proof {
            reveal(spec_defaults_set);
            assert(frame@.custom =~= self@.custom.push(
                (encode_utf8(custom.name@), encode_utf8(custom.value@)),
            ));
        }
        frame
    }

    /// The frame with the given bytes, all of them, as its buffer and body.
    pub fn with_body(self, body: Vec<u8>) -> (frame: RawFrame)
        requires
            self.wf(),
            self.command.spec_allows_body(),
        ensures
            frame.wf(),
            frame.command == self.command,
            frame.slots == self.slots,
            frame.custom == self.custom,
            frame.raw == Some(body),
            frame@ == (FrameModel { body: Some(body@), ..self@ }),
            spec_defaults_set(self@) ==> spec_defaults_set(frame@),
    {
        let length = body.len();
        let mut frame = self;
        frame.raw = Some(body);
        frame.body_offset_length = (0, length);
        proof {
            reveal(spec_defaults_set);
            assert(frame.spec_body()->0 =~= body@);
        }
        frame
    }

    /// Writes the frame as bytes and makes the bytes its buffer: the body of
    /// the frame that is handed back is the part of the written bytes that
    /// holds it. A frame in which a required header is not set is refused,
    /// and so is one without a body where the command has one.
    pub fn build(self) -> (r: Result<RawFrame, StompParseError>)
        requires
            self.wf(),
        ensures
            match r {
                Ok(built) => {
                    &&& spec_build(self@) matches Ok(bytes)
                    &&& built.spec_raw() == Some(bytes)
                    &&& built@ == self@
                    &&& built.slots == self.slots
                    &&& built.custom == self.custom
                    &&& built.command == self.command
                    &&& built.wf()
                },
                Err(e) => {
                    &&& spec_build(self@) == Err::<Seq<u8>, Failure>(e.spec_kind())
                    &&& e.spec_described()
                },
            },
    {
        let bytes = match self.serialize() {
            Ok(bytes) => bytes,
            Err(e) => {
                return Err(e);
            },
        };
        let length = if self.command.allows_body() {
            self.body_offset_length.1
        } else {
            0
        };
        let ghost body = match self@.body {
            Some(body) => body,
            None => Seq::empty(),
        };
        proof {
            assert(bytes@.len() >= body.len() + 1);
        }
        let offset = bytes.len() - 1 - length;
        let built = RawFrame {
            command: self.command,
            slots: self.slots,
            custom: self.custom,
            raw: Some(bytes),
            body_offset_length: (offset, length),
        };
        proof {
            if self.command.spec_allows_body() {
                assert(built.spec_body()->0 =~= body);
            }
        }
        Ok(built)
    }

    /// Writes the frame as bytes. A frame in which a required header is not
    /// set is refused, and so is one without a body where the command has
    /// one.
    pub fn serialize(&self) -> (r: Result<Vec<u8>, StompParseError>)
        requires
            self.wf(),
        ensures
            match r {
                Ok(bytes) => spec_build(self@) == Ok::<Seq<u8>, Failure>(bytes@),
                Err(e) => {
                    &&& spec_build(self@) == Err::<Seq<u8>, Failure>(e.spec_kind())
                    &&& e.spec_described()
                },
            },
    {
        match self.first_unset() {
            Some(header) => {
                return Err(StompParseError::of(ErrorKind::BuilderRequiredFieldUnset(header)));
            },
            None => {},
        }
        if self.command.allows_body() && self.raw.is_none() {
            return Err(StompParseError::of(ErrorKind::BuilderBodyUnset));
        }
        let mut out: Vec<u8> = Vec::new();
        let _ = crate::model::frames::utils::writeln(&mut out, self.command.keyword());
        self.write_lines(&mut out);
        out.push(LF);
        if self.command.allows_body() {
            match self.body() {
                Some(body) => push_bytes(&mut out, body),
                None => {},
            }
        }
        out.push(NUL);
        proof {
            assert(out@ =~= spec_serialize(self@));
        }
        Ok(out)
    }
}

} // verus!
