//! What holds of every frame that is read or written.
use super::{
    spec_customs, spec_first_missing, spec_head, spec_last_value, spec_parse, FrameModel,
};
use crate::error::{ErrorKind, Failure};
use crate::model::grammar::{Command, Origin};
use crate::model::headers::{
    AckType, HeaderModel, HeaderType, HeartBeatIntervalls, ValueModel,
};
use crate::parser::headers::{
    lemma_headers, lemma_headers_agree, lemma_section_end, spec_agree, spec_header,
    spec_header_name, spec_header_value, spec_headers, HeadersGrammar,
};
use crate::parser::{
    lemma_line_end, lemma_line_end_agrees, spec_command_line, spec_line_ending, spec_null,
};
use crate::text::NUL;
use vstd::prelude::*;
use vstd::utf8::*;

verus! {

/// A `CONNECT` frame without a `heart-beat` header has the intervals 0 and 0
/// for it, and a `SUBSCRIBE` frame without an `ack` header has the mode
/// `auto`.
pub proof fn lemma_defaults(s: Seq<u8>)
    requires
        spec_parse(s, Origin::Client) is Ok,
    ensures
        ({
            let frame = spec_parse(s, Origin::Client)->Ok_0;
            let headers = spec_head(s, Origin::Client)->Ok_0.1;
            &&& frame.command == Command::Connect && spec_last_value(
                headers,
                HeaderType::HeartBeat,
            ) is None ==> frame.slots[2] == Some(
                ValueModel::HeartBeat(HeartBeatIntervalls { supplied: 0, expected: 0 }),
            )
            &&& frame.command == Command::Subscribe && spec_last_value(headers, HeaderType::Ack)
                is None ==> frame.slots[2] == Some(ValueModel::Ack(AckType::Auto))
        }),
{
}

/// A frame without one of the headers that its command requires is refused
/// for a missing required header, and the header that the error names is one
/// that is required and missing. Where just one is missing, it is named.
pub proof fn lemma_missing_required(s: Seq<u8>, origin: Origin, header: HeaderType)
    requires
        spec_head(s, origin) is Ok,
        spec_head(s, origin)->Ok_0.0.spec_required().contains(header),
        spec_last_value(spec_head(s, origin)->Ok_0.1, header) is None,
    ensures
        ({
            let (command, headers, _) = spec_head(s, origin)->Ok_0;
            &&& spec_parse(s, origin) matches Err(ErrorKind::MissingRequiredHeader(named))
            &&& command.spec_required().contains(named)
            &&& spec_last_value(headers, named) is None
            &&& (forall|other: HeaderType|
                command.spec_required().contains(other) && other != header ==> spec_last_value(
                    headers,
                    other,
                ) is Some) ==> named == header
        }),
{
    let (command, headers, _) = spec_head(s, origin)->Ok_0;
    let required = command.spec_required();
    let at = choose|i: int| 0 <= i < required.len() && required[i] == header;
    lemma_first_missing(required, headers, 0, at);
}

/// Where the header at `at` is missing, the first missing header from `from`
/// on is one at or before `at`, is required and is missing.
proof fn lemma_first_missing(
    required: Seq<HeaderType>,
    headers: Seq<HeaderModel>,
    from: int,
    at: int,
)
    requires
        0 <= from <= at < required.len(),
        spec_last_value(headers, required[at]) is None,
    ensures
        spec_first_missing(required, headers, from) matches Some(named) && required.contains(named)
            && spec_last_value(headers, named) is None,
    decreases at - from,
{
    if spec_last_value(headers, required[from]) is Some {
        lemma_first_missing(required, headers, from + 1, at);
    }
}

/// A keyword selects a command only where it is, byte for byte, the keyword
/// of a command of the given origin, or `STOMP` for a client's `CONNECT`.
/// So a keyword in another case selects nothing.
pub proof fn lemma_lookup_exact(origin: Origin, keyword: Seq<u8>)
    ensures
        match Command::spec_lookup(origin, keyword) {
            Some(command) => {
                &&& command.spec_origin() == origin
                &&& (keyword == encode_utf8(command.spec_keyword()) || (command
                    == Command::Connect && keyword == encode_utf8("STOMP"@)))
            },
            None => {
                &&& forall|command: Command|
                    command.spec_origin() == origin ==> keyword != encode_utf8(
                        #[trigger] command.spec_keyword(),
                    )
                &&& origin == Origin::Client ==> keyword != encode_utf8("STOMP"@)
            },
        },
{
    reveal(Command::spec_lookup);
}

/// A frame whose keyword selects no command of the given origin is refused
/// for an unknown command, whatever follows the command line.
pub proof fn lemma_unknown_command(s: Seq<u8>, origin: Origin)
    requires
        spec_command_line(s) matches Some((keyword_end, _)) ==> Command::spec_lookup(
            origin,
            s.subrange(0, keyword_end),
        ) is None,
    ensures
        spec_parse(s, origin) == Err::<FrameModel, Failure>(ErrorKind::UnknownCommand),
{
}

/// A frame of a command without a body is read only where the zero octet,
/// and nothing else, follows the blank line of its header section: one byte
/// more, before the octet or after it, and the frame is refused.
pub proof fn lemma_no_body(s: Seq<u8>, origin: Origin)
    requires
        spec_head(s, origin) is Ok,
        !spec_head(s, origin)->Ok_0.0.spec_allows_body(),
    ensures
        ({
            let (_, _, body_start) = spec_head(s, origin)->Ok_0;
            &&& spec_parse(s, origin) is Ok ==> s.subrange(body_start, s.len() as int) == seq![NUL]
            &&& spec_parse(s, origin) matches Ok(frame) ==> frame.body is None
        }),
{
    let (_, _, body_start) = spec_head(s, origin)->Ok_0;
    let rest = s.subrange(body_start, s.len() as int);
    if spec_null(rest) is None {
        assert(rest =~= seq![NUL]);
    }
}

/// The value of the last header of a type among two lists of headers is the
/// one in the second list, where there is one there.
pub proof fn lemma_last_value_concat(a: Seq<HeaderModel>, b: Seq<HeaderModel>, header: HeaderType)
    ensures
        spec_last_value(a + b, header) == match spec_last_value(b, header) {
            Some(value) => Some(value),
            None => spec_last_value(a, header),
        },
    decreases b.len(),
{
    if b.len() == 0 {
        assert(a + b =~= a);
    } else {
        assert((a + b).drop_last() =~= a + b.drop_last());
        assert((a + b).last() == b.last());
        lemma_last_value_concat(a, b.drop_last(), header);
    }
}

/// Of several headers of one type the last one counts: a header after which
/// no header of its type follows gives the frame its value, whatever headers
/// of its type stand before it.
pub proof fn lemma_last_wins(
    command: Command,
    before: Seq<HeaderModel>,
    header: HeaderType,
    value: ValueModel,
    after: Seq<HeaderModel>,
)
    requires
        spec_last_value(after, header) is None,
    ensures
        spec_last_value(before + seq![HeaderModel::Known(header, value)] + after, header) == Some(
            value,
        ),
        super::spec_slot(
            command,
            before + seq![HeaderModel::Known(header, value)] + after,
            header,
        ) == Some(value),
{
    let one = seq![HeaderModel::Known(header, value)];
    lemma_last_value_concat(before + one, after, header);
    assert((before + one).drop_last() =~= before);
}

/// Where a command takes no custom headers, a header line whose name is not
/// that of a header that the command knows is refused, and the error names
/// the header. This holds of names that other commands know, too.
pub proof fn lemma_custom_rejected(s: Seq<u8>, pos: int, grammar: HeadersGrammar)
    requires
        !grammar.allows_custom,
        spec_header_name(s, pos) is Ok,
        forall|header: HeaderType|
            grammar.required.contains(header) || grammar.optional.contains(header)
                ==> spec_header_name(s, pos)->Ok_0.0 != #[trigger] header.spec_name_bytes(),
    ensures
        spec_header(s, pos, grammar) == Err::<(HeaderModel, int), Failure>(
            ErrorKind::UnexpectedHeader(spec_header_name(s, pos)->Ok_0.0),
        ),
        0 <= pos < s.len() && spec_line_ending(s, pos) == 0 ==> spec_headers(s, pos, grammar)
            == Err::<(Seq<HeaderModel>, int), Failure>(
            ErrorKind::UnexpectedHeader(spec_header_name(s, pos)->Ok_0.0),
        ),
{
    reveal(spec_header);
    reveal(HeadersGrammar::spec_classify);
    reveal(HeaderType::spec_from_name);
}

/// Whether `name` is the name of none of the headers that the command
/// knows, required or optional.
pub open spec fn spec_unlisted(grammar: HeadersGrammar, name: Seq<u8>) -> bool {
    forall|header: HeaderType|
        grammar.required.contains(header) || grammar.optional.contains(header) ==> name
            != #[trigger] header.spec_name_bytes()
}

/// A header line is read from a position within the input that holds no
/// line ending.
proof fn lemma_header_start(s: Seq<u8>, pos: int, grammar: HeadersGrammar)
    requires
        spec_header(s, pos, grammar) is Ok,
    ensures
        0 <= pos < s.len(),
        spec_line_ending(s, pos) == 0,
{
    reveal(spec_header);
    reveal(spec_header_name);
    if 0 <= pos <= s.len() {
        lemma_section_end(s, pos);
    }
}

/// Where a command takes custom headers, a header line whose name is not
/// that of a header that the command knows is read as a custom header with
/// the name and the value of the line, escapes decoded.
pub proof fn lemma_custom_line(s: Seq<u8>, pos: int, grammar: HeadersGrammar)
    requires
        grammar.allows_custom,
        spec_header(s, pos, grammar) is Ok,
        spec_unlisted(grammar, spec_header_name(s, pos)->Ok_0.0),
    ensures
        ({
            let (name, value_start) = spec_header_name(s, pos)->Ok_0;
            let (value, next) = spec_header_value(s, value_start)->Ok_0;
            spec_header(s, pos, grammar) == Ok::<(HeaderModel, int), Failure>(
                (HeaderModel::Custom(name, value), next),
            )
        }),
{
    reveal(spec_header);
    reveal(HeadersGrammar::spec_classify);
    reveal(HeaderType::spec_from_name);
}

/// A header section of any number of header lines and a blank line is read
/// as one header for each line, in the order of the lines. Where the
/// command takes custom headers, each line whose name is not that of a
/// header that the command knows gives a custom header with the name and
/// the value of the line, so the custom headers of the section are those
/// lines, in their order.
///
/// `starts` holds the position of each line and, last, that of the blank
/// line; `headers` holds what each line is read as.
pub proof fn lemma_header_lines(
    s: Seq<u8>,
    grammar: HeadersGrammar,
    starts: Seq<int>,
    headers: Seq<HeaderModel>,
)
    requires
        starts.len() == headers.len() + 1,
        forall|i: int|
            #![trigger headers[i]]
            0 <= i < headers.len() ==> spec_header(s, starts[i], grammar) == Ok::<
                (HeaderModel, int),
                Failure,
            >((headers[i], starts[i + 1])),
        spec_line_ending(s, starts.last()) > 0,
    ensures
        spec_headers(s, starts[0], grammar) == Ok::<(Seq<HeaderModel>, int), Failure>(
            (headers, starts.last() + spec_line_ending(s, starts.last())),
        ),
        grammar.allows_custom ==> forall|i: int|
            #![trigger headers[i]]
            0 <= i < headers.len() && spec_unlisted(
                grammar,
                spec_header_name(s, starts[i])->Ok_0.0,
            ) ==> headers[i] == HeaderModel::Custom(
                spec_header_name(s, starts[i])->Ok_0.0,
                spec_header_value(s, spec_header_name(s, starts[i])->Ok_0.1)->Ok_0.0,
            ),
    decreases headers.len(),
{
    if grammar.allows_custom {
        assert forall|i: int|
            #![trigger headers[i]]
            0 <= i < headers.len() && spec_unlisted(
                grammar,
                spec_header_name(s, starts[i])->Ok_0.0,
            ) implies headers[i] == HeaderModel::Custom(
            spec_header_name(s, starts[i])->Ok_0.0,
            spec_header_value(s, spec_header_name(s, starts[i])->Ok_0.1)->Ok_0.0,
        ) by {
            lemma_custom_line(s, starts[i], grammar);
        }
    }
    if headers.len() == 0 {
        assert(headers =~= Seq::<HeaderModel>::empty());
    } else {
        let first = headers[0];
        let rest = headers.drop_first();
        let next = starts.drop_first();
        lemma_header_start(s, starts[0], grammar);
        assert forall|i: int|
            #![trigger rest[i]]
            0 <= i < rest.len() implies spec_header(s, next[i], grammar) == Ok::<
            (HeaderModel, int),
            Failure,
        >((rest[i], next[i + 1])) by {
            assert(rest[i] == headers[i + 1]);
        }
        assert(next.last() == starts.last());
        lemma_header_lines(s, grammar, next, rest);
        assert(seq![first] + rest =~= headers);
    }
}

/// The custom headers of a frame are all the custom headers of its header
/// section, each with its name and its value, in the order of their lines.
pub proof fn lemma_customs_in_order(before: Seq<HeaderModel>, after: Seq<HeaderModel>)
    ensures
        spec_customs(before + after) == spec_customs(before) + spec_customs(after),
        forall|name: Seq<u8>, value: Seq<u8>|
            #[trigger] spec_customs(seq![HeaderModel::Custom(name, value)]) == seq![(name, value)],
        forall|header: HeaderType, value: ValueModel|
            #[trigger] spec_customs(seq![HeaderModel::Known(header, value)]) == Seq::<
                (Seq<u8>, Seq<u8>),
            >::empty(),
    decreases after.len(),
{
    assert forall|name: Seq<u8>, value: Seq<u8>|
        #[trigger] spec_customs(seq![HeaderModel::Custom(name, value)]) == seq![(name, value)] by {
        let one = seq![HeaderModel::Custom(name, value)];
        assert(one.drop_last() =~= Seq::<HeaderModel>::empty());
        assert(spec_customs(one.drop_last()) =~= Seq::<(Seq<u8>, Seq<u8>)>::empty());
        assert(spec_customs(one) =~= seq![(name, value)]);
    }
    assert forall|header: HeaderType, value: ValueModel|
        #[trigger] spec_customs(seq![HeaderModel::Known(header, value)]) == Seq::<
            (Seq<u8>, Seq<u8>),
        >::empty() by {
        let one = seq![HeaderModel::Known(header, value)];
        assert(one.drop_last() =~= Seq::<HeaderModel>::empty());
        assert(spec_customs(one.drop_last()) =~= Seq::<(Seq<u8>, Seq<u8>)>::empty());
    }
    if after.len() == 0 {
        assert(before + after =~= before);
        assert(spec_customs(before) + spec_customs(after) =~= spec_customs(before));
    } else {
        assert((before + after).drop_last() =~= before + after.drop_last());
        lemma_customs_in_order(before, after.drop_last());
        assert(spec_customs(before + after) =~= spec_customs(before) + spec_customs(after));
    }
}

/// The head of a frame ends within the frame.
pub proof fn lemma_head_end(s: Seq<u8>, origin: Origin)
    ensures
        spec_head(s, origin) matches Ok((_, _, body_start)) ==> 0 < body_start <= s.len(),
{
    match spec_head(s, origin) {
        Ok((command, _, _)) => {
            let (_, next) = spec_command_line(s)->0;
            lemma_line_end(s, 0);
            lemma_headers(s, next, command.spec_grammar());
        },
        Err(_) => {},
    }
}

/// The head of a frame is read from its own bytes, and from no others.
pub proof fn lemma_head_agrees(a: Seq<u8>, b: Seq<u8>, origin: Origin)
    requires
        spec_head(a, origin) matches Ok((_, _, body_start)) && spec_agree(a, b, body_start),
    ensures
        spec_head(b, origin) == spec_head(a, origin),
{
    let (command, _, body_start) = spec_head(a, origin)->Ok_0;
    let (keyword_end, next) = spec_command_line(a)->0;
    lemma_line_end(a, 0);
    lemma_headers(a, next, command.spec_grammar());
    lemma_line_end_agrees(a, b, 0);
    assert(a.subrange(0, keyword_end) =~= b.subrange(0, keyword_end));
    lemma_headers_agree(a, b, next, command.spec_grammar());
}

/// The body of a frame is, byte for byte, what stands between the blank line
/// of the header section and the last byte of the frame, which is the zero
/// octet. Zero octets before the last byte are part of the body.
pub proof fn lemma_body_exact(s: Seq<u8>, origin: Origin)
    requires
        spec_parse(s, origin) matches Ok(frame) && frame.command.spec_allows_body(),
    ensures
        ({
            let frame = spec_parse(s, origin)->Ok_0;
            let (_, _, body_start) = spec_head(s, origin)->Ok_0;
            &&& frame.body is Some
            &&& 0 < body_start < s.len()
            &&& s == s.subrange(0, body_start) + frame.body->0 + seq![NUL]
        }),
{
    let frame = spec_parse(s, origin)->Ok_0;
    let (_, _, body_start) = spec_head(s, origin)->Ok_0;
    lemma_head_end(s, origin);
    assert(s =~= s.subrange(0, body_start) + frame.body->0 + seq![NUL]);
}

/// Any bytes can be a body: where a frame with a body is read, the same head
/// followed by any bytes at all and the zero octet is read as the same frame
/// with those bytes as its body.
pub proof fn lemma_any_body(s: Seq<u8>, origin: Origin, body: Seq<u8>)
    requires
        spec_parse(s, origin) matches Ok(frame) && frame.command.spec_allows_body(),
    ensures
        ({
            let frame = spec_parse(s, origin)->Ok_0;
            let (_, _, body_start) = spec_head(s, origin)->Ok_0;
            spec_parse(s.subrange(0, body_start) + body + seq![NUL], origin) == Ok::<
                FrameModel,
                Failure,
            >(FrameModel { body: Some(body), ..frame })
        }),
{
    let (_, _, body_start) = spec_head(s, origin)->Ok_0;
    lemma_head_end(s, origin);
    let other = s.subrange(0, body_start) + body + seq![NUL];
    lemma_head_agrees(s, other, origin);
    let rest = other.subrange(body_start, other.len() as int);
    assert(rest =~= body + seq![NUL]);
    assert(rest.drop_last() =~= body);
}

} // verus!
