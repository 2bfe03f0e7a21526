//! The header section of a frame: escaped text, header lines, and the lines
//! of a whole section up to the blank line that ends it.
use super::{line_ending_at, spec_line_ending};
use crate::error::{ErrorKind, Failure, StompParseError};
use crate::model::headers::{
    parse_header, spec_value_from_text, CustomValue, Header, HeaderModel, HeaderType,
};
use crate::text::{string_from_utf8, BACKSLASH, COLON, CR, LF};
use vstd::prelude::*;
use vstd::slice::slice_subrange;
use vstd::utf8::*;

verus! {

/// Whether the byte ends a piece of escaped text: a colon, a carriage return
/// or a line feed.
pub open spec fn is_delimiter(b: u8) -> bool {
    b == COLON || b == CR || b == LF
}

/// The byte that a backslash and `b` stand for, where the two are one of the
/// four escape sequences: `\n` is the line feed, `\r` the carriage return,
/// `\c` the colon and `\\` the backslash.
pub open spec fn spec_unescape(b: u8) -> Option<u8> {
    if b == 0x6e {
        Some(LF)
    } else if b == 0x72 {
        Some(CR)
    } else if b == 0x63 {
        Some(COLON)
    } else if b == BACKSLASH {
        Some(BACKSLASH)
    } else {
        None
    }
}

/// Puts `prefix` before the text of a piece of escaped text that was read.
pub open spec fn spec_prepend(prefix: Seq<u8>, read: Option<(Seq<u8>, int)>) -> Option<
    (Seq<u8>, int),
> {
    match read {
        Some((text, end)) => Some((prefix + text, end)),
        None => None,
    }
}

/// The piece of escaped text that starts at `pos`: its bytes with the escape
/// sequences decoded, and the position where it ends, which is the first
/// colon, carriage return or line feed outside an escape sequence, or the end
/// of `s`. `None` where a backslash is not followed by `n`, `r`, `c` or a
/// backslash.
pub open spec fn spec_section(s: Seq<u8>, pos: int) -> Option<(Seq<u8>, int)>
    decreases s.len() - pos,
{
    if pos < 0 || pos >= s.len() || is_delimiter(s[pos]) {
        Some((Seq::empty(), pos))
    } else if s[pos] == BACKSLASH {
        if pos + 1 < s.len() && spec_unescape(s[pos + 1]) is Some {
            spec_prepend(seq![spec_unescape(s[pos + 1])->0], spec_section(s, pos + 2))
        } else {
            None
        }
    } else {
        spec_prepend(seq![s[pos]], spec_section(s, pos + 1))
    }
}

/// The piece of escaped text at the start of `s`, as `header_section` reads
/// it: an input that starts with a colon, a carriage return or a line feed
/// is refused, an empty input gives an empty text.
pub open spec fn spec_header_section(s: Seq<u8>) -> Result<(Seq<u8>, int), Failure> {
    match spec_section(s, 0) {
        None => Err(ErrorKind::InvalidEscapeSequence),
        Some((text, end)) => if s.len() > 0 && end == 0 {
            Err(ErrorKind::MalformedHeaderLine)
        } else {
            Ok((text, end))
        },
    }
}

/// The name of the header line that starts at `pos`, and the position after
/// the colon that ends it. The name is escaped text of at least one byte,
/// and UTF-8 once decoded. An input that ends before the colon is
/// incomplete; a name that is empty or ends with a line is malformed.
#[verifier::opaque]
pub open spec fn spec_header_name(s: Seq<u8>, pos: int) -> Result<(Seq<u8>, int), Failure> {
    match spec_section(s, pos) {
        None => Err(ErrorKind::InvalidEscapeSequence),
        Some((text, end)) => if end >= s.len() {
            Err(ErrorKind::MissingTerminator)
        } else if text.len() == 0 || s[end] != COLON {
            Err(ErrorKind::MalformedHeaderLine)
        } else if !valid_utf8(text) {
            Err(ErrorKind::NonUtf8Text)
        } else {
            Ok((text, end + 1))
        },
    }
}

/// The value of a header line, which starts at `pos` after the colon, and the
/// position after the line ending that ends it. The value is escaped text of
/// at least one byte, and UTF-8 once decoded. An input that ends before the
/// line ending is incomplete; a value that is empty, or is followed by a
/// colon or by a carriage return without a line feed, is malformed.
#[verifier::opaque]
pub open spec fn spec_header_value(s: Seq<u8>, pos: int) -> Result<(Seq<u8>, int), Failure> {
    match spec_section(s, pos) {
        None => Err(ErrorKind::InvalidEscapeSequence),
        Some((text, end)) => if end >= s.len() {
            Err(ErrorKind::MissingTerminator)
        } else if text.len() == 0 || spec_line_ending(s, end) == 0 {
            Err(ErrorKind::MalformedHeaderLine)
        } else if !valid_utf8(text) {
            Err(ErrorKind::NonUtf8Text)
        } else {
            Ok((text, end + spec_line_ending(s, end)))
        },
    }
}

/// What a header's name means to the command whose frame is being read.
#[derive(Debug, Clone, Copy, PartialEq, Eq, Structural)]
pub enum Classification {
    /// One of the headers that the command requires.
    Required(HeaderType),
    /// One of the headers that the command takes but does not require.
    Optional(HeaderType),
    /// Any other header, where the command takes such headers.
    Custom,
    /// Any other header, where it does not.
    Rejected,
}

/// The headers that a command takes, as specifications speak of them.
pub struct HeadersGrammar {
    pub required: Seq<HeaderType>,
    pub optional: Seq<HeaderType>,
    pub allows_custom: bool,
}

impl HeadersGrammar {
    /// What the name means to the command. The name is held against the
    /// required headers first, then against the optional ones, byte for
    /// byte. A name of neither list is custom where the command takes custom
    /// headers, be it the name of a header that other commands know.
    #[verifier::opaque]
    pub open spec fn spec_classify(self, name: Seq<u8>) -> Classification {
        match HeaderType::spec_from_name(name) {
            Some(header) if self.required.contains(header) => Classification::Required(header),
            Some(header) if self.optional.contains(header) => Classification::Optional(header),
            _ => if self.allows_custom {
                Classification::Custom
            } else {
                Classification::Rejected
            },
        }
    }
}

/// The header line that starts at `pos`, and the position after it.
#[verifier::opaque]
pub open spec fn spec_header(s: Seq<u8>, pos: int, grammar: HeadersGrammar) -> Result<
    (HeaderModel, int),
    Failure,
> {
    match spec_header_name(s, pos) {
        Err(failure) => Err(failure),
        Ok((name, value_start)) => match grammar.spec_classify(name) {
            Classification::Rejected => Err(ErrorKind::UnexpectedHeader(name)),
            Classification::Custom => match spec_header_value(s, value_start) {
                Err(failure) => Err(failure),
                Ok((text, next)) => Ok((HeaderModel::Custom(name, text), next)),
            },
            Classification::Required(header) | Classification::Optional(header) => {
                match spec_header_value(s, value_start) {
                    Err(failure) => Err(failure),
                    Ok((text, next)) => match spec_value_from_text(header, text) {
                        None => Err(ErrorKind::InvalidHeaderValue(header)),
                        Some(value) => Ok((HeaderModel::Known(header, value), next)),
                    },
                }
            },
        },
    }
}

/// Puts `before` in front of the headers of a section that was read.
pub open spec fn spec_prepend_headers(
    before: Seq<HeaderModel>,
    read: Result<(Seq<HeaderModel>, int), Failure>,
) -> Result<(Seq<HeaderModel>, int), Failure> {
    match read {
        Ok((headers, end)) => Ok((before + headers, end)),
        Err(failure) => Err(failure),
    }
}

/// The header section that starts at `pos`: its headers in the order of
/// their lines, and the position after the blank line that ends it. An input
/// that ends before the blank line is incomplete and refused, and so is a
/// section with a line that is no header.
pub open spec fn spec_headers(s: Seq<u8>, pos: int, grammar: HeadersGrammar) -> Result<
    (Seq<HeaderModel>, int),
    Failure,
>
    decreases s.len() - pos,
    via spec_headers_decreases
{
    if pos < 0 || pos >= s.len() {
        Err(ErrorKind::MissingTerminator)
    } else if spec_line_ending(s, pos) > 0 {
        Ok((Seq::empty(), pos + spec_line_ending(s, pos)))
    } else {
        match spec_header(s, pos, grammar) {
            Err(failure) => Err(failure),
            Ok((header, next)) => spec_prepend_headers(
                seq![header],
                spec_headers(s, next, grammar),
            ),
        }
    }
}

#[via_fn]
proof fn spec_headers_decreases(s: Seq<u8>, pos: int, grammar: HeadersGrammar) {
    if 0 <= pos < s.len() && spec_line_ending(s, pos) == 0 {
        lemma_header_advances(s, pos, grammar);
    }
}

/// A piece of escaped text ends at or after the position where it starts,
/// and after it where it is not empty; it ends within `s`.
pub proof fn lemma_section_end(s: Seq<u8>, pos: int)
    requires
        0 <= pos <= s.len(),
    ensures
        spec_section(s, pos) matches Some((text, end)) ==> {
            &&& pos <= end <= s.len()
            &&& (text.len() > 0 ==> pos < end)
            &&& (end == pos ==> text.len() == 0)
            &&& (end < s.len() ==> is_delimiter(s[end]))
        },
    decreases s.len() - pos,
{
    if pos >= s.len() || is_delimiter(s[pos]) {
    } else if s[pos] == BACKSLASH {
        if pos + 1 < s.len() && spec_unescape(s[pos + 1]) is Some {
            lemma_section_end(s, pos + 2);
        }
    } else {
        lemma_section_end(s, pos + 1);
    }
}

/// A header line is at least three bytes long: the position after it lies
/// after the position where it starts, and within `s`.
pub proof fn lemma_header_advances(s: Seq<u8>, pos: int, grammar: HeadersGrammar)
    requires
        0 <= pos <= s.len(),
    ensures
        spec_header(s, pos, grammar) matches Ok((_, next)) ==> pos < next <= s.len(),
{
    reveal(spec_header);
    reveal(spec_header_name);
    reveal(spec_header_value);
    lemma_section_end(s, pos);
    match spec_header_name(s, pos) {
        Ok((_, value_start)) => {
            lemma_section_end(s, value_start);
        },
        Err(_) => {},
    }
}

/// The headers of a section lie within `s`, and the section ends within it.
/// Where the command takes no custom headers, the section has none.
pub proof fn lemma_headers(s: Seq<u8>, pos: int, grammar: HeadersGrammar)
    requires
        0 <= pos <= s.len(),
    ensures
        spec_headers(s, pos, grammar) matches Ok((headers, end)) ==> {
            &&& pos < end <= s.len()
            &&& (!grammar.allows_custom ==> forall|i: int|
                0 <= i < headers.len() ==> #[trigger] headers[i] is Known)
        },
    decreases s.len() - pos,
{
    if pos < s.len() && spec_line_ending(s, pos) == 0 {
        lemma_header_advances(s, pos, grammar);
        reveal(spec_header);
        reveal(HeadersGrammar::spec_classify);
        match spec_header(s, pos, grammar) {
            Ok((header, next)) => {
                lemma_headers(s, next, grammar);
            },
            Err(_) => {},
        }
    }
}

/// Whether the text can stand in a header line as it is: it is not empty,
/// it is UTF-8, and it holds no colon, carriage return, line feed or
/// backslash.
#[verifier::opaque]
pub open spec fn spec_plain(text: Seq<u8>) -> bool {
    &&& text.len() > 0
    &&& valid_utf8(text)
    &&& forall|i: int|
        0 <= i < text.len() ==> !is_delimiter(#[trigger] text[i]) && text[i] != BACKSLASH
}

/// Text without a colon, a carriage return, a line feed or a backslash is
/// read as it is, up to the byte that ends it.
pub proof fn lemma_section_plain(s: Seq<u8>, pos: int, text: Seq<u8>)
    requires
        0 <= pos,
        pos + text.len() <= s.len(),
        s.subrange(pos, pos + text.len()) == text,
        forall|i: int|
            0 <= i < text.len() ==> !is_delimiter(#[trigger] text[i]) && text[i] != BACKSLASH,
        pos + text.len() < s.len() ==> is_delimiter(s[pos + text.len()]),
    ensures
        spec_section(s, pos) == Some((text, pos + text.len())),
    decreases text.len(),
{
    if text.len() == 0 {
        assert(text =~= Seq::<u8>::empty());
    } else {
        assert(s[pos] == text[0]);
        let rest = text.subrange(1, text.len() as int);
        assert(s.subrange(pos + 1, pos + 1 + rest.len()) =~= rest);
        assert forall|i: int| 0 <= i < rest.len() implies !is_delimiter(#[trigger] rest[i])
            && rest[i] != BACKSLASH by {
            assert(rest[i] == text[i + 1]);
        }
        lemma_section_plain(s, pos + 1, rest);
        assert(seq![s[pos]] + rest =~= text);
    }
}

/// A line that is a name, a colon, a value and a line ending, where name and
/// value can stand in a header line as they are, is read as that name and
/// that value.
pub proof fn lemma_plain_line(s: Seq<u8>, pos: int, name: Seq<u8>, value: Seq<u8>)
    requires
        0 <= pos,
        spec_plain(name),
        spec_plain(value),
        pos + name.len() + 1 + value.len() < s.len(),
        s.subrange(pos, pos + name.len()) == name,
        s[pos + name.len()] == COLON,
        s.subrange(pos + name.len() + 1, pos + name.len() + 1 + value.len()) == value,
        spec_line_ending(s, pos + name.len() + 1 + value.len()) > 0,
    ensures
        spec_header_name(s, pos) == Ok::<(Seq<u8>, int), Failure>((name, pos + name.len() + 1)),
        spec_header_value(s, pos + name.len() + 1) == Ok::<(Seq<u8>, int), Failure>(
            (
                value,
                pos + name.len() + 1 + value.len() + spec_line_ending(
                    s,
                    pos + name.len() + 1 + value.len(),
                ),
            ),
        ),
{
    reveal(spec_plain);
    reveal(spec_header_name);
    reveal(spec_header_value);
    lemma_section_plain(s, pos, name);
    lemma_section_plain(s, pos + name.len() + 1, value);
}

/// A backslash that is the last byte, or is followed by a byte other than
/// `n`, `r`, `c` and the backslash, spoils the text that it stands in: text
/// that reaches such a backslash is refused.
pub proof fn lemma_bad_escape(s: Seq<u8>, pos: int, at: int)
    requires
        0 <= pos <= at < s.len(),
        forall|i: int| pos <= i < at ==> !is_delimiter(s[i]) && s[i] != BACKSLASH,
        s[at] == BACKSLASH,
        at + 1 < s.len() ==> spec_unescape(s[at + 1]) is None,
    ensures
        spec_section(s, pos) is None,
    decreases at - pos,
{
    if pos < at {
        lemma_bad_escape(s, pos + 1, at);
    }
}

/// An escape sequence stands for one byte: text that starts with a backslash
/// and `n`, `r`, `c` or a backslash is the byte that the two stand for and
/// the text after them.
pub proof fn lemma_escape(s: Seq<u8>, pos: int)
    requires
        0 <= pos,
        pos + 1 < s.len(),
        s[pos] == BACKSLASH,
        spec_unescape(s[pos + 1]) is Some,
    ensures
        spec_section(s, pos) == spec_prepend(
            seq![spec_unescape(s[pos + 1])->0],
            spec_section(s, pos + 2),
        ),
        spec_unescape(0x6e) == Some(LF),
        spec_unescape(0x72) == Some(CR),
        spec_unescape(0x63) == Some(COLON),
        spec_unescape(BACKSLASH) == Some(BACKSLASH),
{
}

/// Whether `a` and `b` hold the same bytes before position `end`.
pub open spec fn spec_agree(a: Seq<u8>, b: Seq<u8>, end: int) -> bool {
    &&& end <= a.len()
    &&& end <= b.len()
    &&& forall|i: int| 0 <= i < end ==> a[i] == b[i]
}

/// A piece of escaped text that ends before the end of the input is read
/// from the bytes up to and with the one that ends it, and from no others.
pub proof fn lemma_section_agrees(a: Seq<u8>, b: Seq<u8>, pos: int)
    requires
        0 <= pos <= a.len(),
        spec_section(a, pos) matches Some((_, end)) && spec_agree(a, b, end + 1),
    ensures
        spec_section(b, pos) == spec_section(a, pos),
    decreases a.len() - pos,
{
    lemma_section_end(a, pos);
    if pos >= a.len() || is_delimiter(a[pos]) {
    } else if a[pos] == BACKSLASH {
        lemma_section_end(a, pos + 2);
        lemma_section_agrees(a, b, pos + 2);
    } else {
        lemma_section_end(a, pos + 1);
        lemma_section_agrees(a, b, pos + 1);
    }
}

/// A header line is read from its own bytes, and from no others.
pub proof fn lemma_header_agrees(a: Seq<u8>, b: Seq<u8>, pos: int, grammar: HeadersGrammar)
    requires
        0 <= pos <= a.len(),
        spec_header(a, pos, grammar) matches Ok((_, next)) && spec_agree(a, b, next),
    ensures
        spec_header(b, pos, grammar) == spec_header(a, pos, grammar),
{
    reveal(spec_header);
    reveal(spec_header_name);
    reveal(spec_header_value);
    lemma_section_end(a, pos);
    let (_, value_start) = spec_header_name(a, pos)->Ok_0;
    lemma_section_end(a, value_start);
    lemma_section_agrees(a, b, pos);
    lemma_section_agrees(a, b, value_start);
}

/// A header section is read from its own bytes, and from no others.
pub proof fn lemma_headers_agree(a: Seq<u8>, b: Seq<u8>, pos: int, grammar: HeadersGrammar)
    requires
        0 <= pos <= a.len(),
        spec_headers(a, pos, grammar) matches Ok((_, end)) && spec_agree(a, b, end),
    ensures
        spec_headers(b, pos, grammar) == spec_headers(a, pos, grammar),
    decreases a.len() - pos,
{
    lemma_headers(a, pos, grammar);
    if spec_line_ending(a, pos) == 0 {
        lemma_header_advances(a, pos, grammar);
        let (_, next) = spec_header(a, pos, grammar)->Ok_0;
        lemma_headers(a, next, grammar);
        lemma_header_agrees(a, b, pos, grammar);
        lemma_headers_agree(a, b, next, grammar);
    }
}

/// The views of the given headers, in the same order.
pub open spec fn spec_models(headers: Seq<Header>) -> Seq<HeaderModel> {
    Seq::new(headers.len(), |i: int| headers[i]@)
}

/// Reads the piece of escaped text that starts at `from`.
pub fn section_at(bytes: &[u8], from: usize) -> (r: Option<(Vec<u8>, usize)>)
    requires
        from <= bytes@.len(),
    ensures
        match r {
            Some((text, end)) => {
                &&& spec_section(bytes@, from as int) == Some((text@, end as int))
                &&& from <= end <= bytes@.len()
            },
            None => spec_section(bytes@, from as int) is None,
        },
{
    let mut text: Vec<u8> = Vec::new();
    let mut pos: usize = from;
    proof {
        match spec_section(bytes@, from as int) {
            Some((rest, _)) => {
                assert(Seq::<u8>::empty() + rest =~= rest);
            },
            None => {},
        }
    }
    while pos < bytes.len() && bytes[pos] != COLON && bytes[pos] != CR && bytes[pos] != LF
        invariant
            from <= pos <= bytes@.len(),
            spec_section(bytes@, from as int) == spec_prepend(
                text@,
                spec_section(bytes@, pos as int),
            ),
        decreases bytes.len() - pos,
    {
        let ghost before = text@;
        if bytes[pos] == BACKSLASH {
            if bytes.len() - pos < 2 {
                return None;
            }
            let escaped = bytes[pos + 1];
            let decoded = if escaped == 0x6e {
                LF
            } else if escaped == 0x72 {
                CR
            } else if escaped == 0x63 {
                COLON
            } else if escaped == BACKSLASH {
                BACKSLASH
            } else {
                return None;
            };
            text.push(decoded);
            proof {
                match spec_section(bytes@, pos + 2) {
                    Some((rest, _)) => {
                        assert(before + (seq![decoded] + rest) =~= text@ + rest);
                    },
                    None => {},
                }
            }
            pos += 2;
        } else {
            text.push(bytes[pos]);
            proof {
                match spec_section(bytes@, pos + 1) {
                    Some((rest, _)) => {
                        assert(before + (seq![bytes@[pos as int]] + rest) =~= text@ + rest);
                    },
                    None => {},
                }
            }
            pos += 1;
        }
    }
    proof {
        assert(text@ + Seq::<u8>::empty() =~= text@);
    }
    Some((text, pos))
}

/// Reads the piece of escaped text at the start of the input: its bytes with
/// the escape sequences decoded, and what follows it. The text ends before
/// the first colon, carriage return or line feed that is not escaped, which
/// remains in the input.
pub fn header_section<'a>(input: &'a [u8]) -> (r: Result<(&'a [u8], Vec<u8>), StompParseError>)
    ensures
        match r {
            Ok((rest, text)) => {
                &&& spec_header_section(input@) matches Ok((decoded, end))
                &&& text@ == decoded
                &&& rest@ == input@.subrange(end, input@.len() as int)
            },
            Err(e) => spec_header_section(input@) matches Err(failure) && e.spec_is(failure),
        },
{
    match section_at(input, 0) {
        None => Err(StompParseError::of(ErrorKind::InvalidEscapeSequence)),
        Some((text, end)) => {
            if input.len() > 0 && end == 0 {
                Err(StompParseError::of(ErrorKind::MalformedHeaderLine))
            } else {
                Ok((slice_subrange(input, end, input.len()), text))
            }
        },
    }
}

/// The string that the bytes are, where they are UTF-8.
pub fn into_string(input: Vec<u8>) -> (r: Result<String, StompParseError>)
    ensures
        match r {
            Ok(text) => valid_utf8(input@) && encode_utf8(text@) == input@,
            Err(e) => {
                &&& !valid_utf8(input@)
                &&& e.spec_kind() == Failure::NonUtf8Text
                &&& e.spec_message() == "bytes are not utf8"@
            },
        },
{
    match string_from_utf8(input) {
        Some(text) => Ok(text),
        None => Err(StompParseError::of(ErrorKind::NonUtf8Text)),
    }
}

/// Reads the name of the header line that starts at `from`.
pub fn name_at(bytes: &[u8], from: usize) -> (r: Result<(String, usize), StompParseError>)
    requires
        from <= bytes@.len(),
    ensures
        match r {
            Ok((name, next)) => {
                &&& spec_header_name(bytes@, from as int) == Ok::<(Seq<u8>, int), Failure>(
                    (encode_utf8(name@), next as int),
                )
                &&& from < next <= bytes@.len()
            },
            Err(e) => spec_header_name(bytes@, from as int) matches Err(failure)
                && e.spec_is(failure),
        },
{
    reveal(spec_header_name);
    match section_at(bytes, from) {
        None => Err(StompParseError::of(ErrorKind::InvalidEscapeSequence)),
        Some((text, end)) => {
            if end >= bytes.len() {
                return Err(StompParseError::of(ErrorKind::MissingTerminator));
            }
            if text.len() == 0 || bytes[end] != COLON {
                return Err(StompParseError::of(ErrorKind::MalformedHeaderLine));
            }
            match into_string(text) {
                Ok(name) => Ok((name, end + 1)),
                Err(e) => Err(e),
            }
        },
    }
}

/// Reads the value of a header line, which starts at `from`.
pub fn value_at(bytes: &[u8], from: usize) -> (r: Result<(String, usize), StompParseError>)
    requires
        from <= bytes@.len(),
    ensures
        match r {
            Ok((value, next)) => {
                &&& spec_header_value(bytes@, from as int) == Ok::<(Seq<u8>, int), Failure>(
                    (encode_utf8(value@), next as int),
                )
                &&& from < next <= bytes@.len()
            },
            Err(e) => spec_header_value(bytes@, from as int) matches Err(failure)
                && e.spec_is(failure),
        },
{
    reveal(spec_header_value);
    match section_at(bytes, from) {
        None => Err(StompParseError::of(ErrorKind::InvalidEscapeSequence)),
        Some((text, end)) => {
            if end >= bytes.len() {
                return Err(StompParseError::of(ErrorKind::MissingTerminator));
            }
            let ending = line_ending_at(bytes, end);
            if text.len() == 0 || ending == 0 {
                return Err(StompParseError::of(ErrorKind::MalformedHeaderLine));
            }
            match into_string(text) {
                Ok(value) => Ok((value, end + ending)),
                Err(e) => Err(e),
            }
        },
    }
}

/// Reads the name of a header line and the colon after it, and hands back
/// the name and what follows the colon.
pub fn header_name<'a>(input: &'a [u8]) -> (r: Result<(&'a [u8], String), StompParseError>)
    ensures
        match r {
            Ok((rest, name)) => {
                &&& spec_header_name(input@, 0) matches Ok((text, next))
                &&& encode_utf8(name@) == text
                &&& rest@ == input@.subrange(next, input@.len() as int)
            },
            Err(e) => spec_header_name(input@, 0) matches Err(failure) && e.spec_is(failure),
        },
{
    match name_at(input, 0) {
        Ok((name, next)) => Ok((slice_subrange(input, next, input.len()), name)),
        Err(e) => Err(e),
    }
}

/// Reads the value of a header line and the line ending after it, and hands
/// back the value and what follows the line.
pub fn header_value<'a>(input: &'a [u8]) -> (r: Result<(&'a [u8], String), StompParseError>)
    ensures
        match r {
            Ok((rest, value)) => {
                &&& spec_header_value(input@, 0) matches Ok((text, next))
                &&& encode_utf8(value@) == text
                &&& rest@ == input@.subrange(next, input@.len() as int)
            },
            Err(e) => spec_header_value(input@, 0) matches Err(failure) && e.spec_is(failure),
        },
{
    match value_at(input, 0) {
        Ok((value, next)) => Ok((slice_subrange(input, next, input.len()), value)),
        Err(e) => Err(e),
    }
}

/// Whether `header` is one of `list`.
pub fn contains(list: &Vec<HeaderType>, header: HeaderType) -> (r: bool)
    ensures
        r == list@.contains(header),
{
    let mut i: usize = 0;
    while i < list.len()
        invariant
            i <= list@.len(),
            forall|k: int| 0 <= k < i ==> list@[k] != header,
        decreases list.len() - i,
    {
        if list[i] == header {
            return true;
        }
        i += 1;
    }
    false
}

/// A parser for the header section of the frames of one command.
pub struct HeadersParser {
    required: Vec<HeaderType>,
    optional: Vec<HeaderType>,
    allows_custom: bool,
}

impl View for HeadersParser {
    type V = HeadersGrammar;

    closed spec fn view(&self) -> HeadersGrammar {
        HeadersGrammar {
            required: self.required@,
            optional: self.optional@,
            allows_custom: self.allows_custom,
        }
    }
}

/// A parser for header sections that takes the given required and optional
/// headers and, where `allows_custom` is set, any other header as a custom
/// header.
pub fn headers_parser(
    required: Vec<HeaderType>,
    optional: Vec<HeaderType>,
    allows_custom: bool,
) -> (parser: HeadersParser)
    ensures
        parser@ == (HeadersGrammar { required: required@, optional: optional@, allows_custom }),
{
    HeadersParser { required, optional, allows_custom }
}

impl HeadersParser {
    /// What a header of the given name means to the command.
    pub fn classify(&self, name: &[u8]) -> (r: Classification)
        ensures
            r == self@.spec_classify(name@),
    {
        reveal(HeadersGrammar::spec_classify);
        match HeaderType::from_name(name) {
            Some(header) => {
                if contains(&self.required, header) {
                    return Classification::Required(header);
                }
                if contains(&self.optional, header) {
                    return Classification::Optional(header);
                }
            },
            None => {},
        }
        if self.allows_custom {
            Classification::Custom
        } else {
            Classification::Rejected
        }
    }

    /// Reads the header line that starts at `from`.
    pub fn header_at(&self, bytes: &[u8], from: usize) -> (r: Result<
        (Header, usize),
        StompParseError,
    >)
        requires
            from <= bytes@.len(),
        ensures
            match r {
                Ok((header, next)) => {
                    &&& spec_header(bytes@, from as int, self@) == Ok::<
                        (HeaderModel, int),
                        Failure,
                    >((header@, next as int))
                    &&& from < next <= bytes@.len()
                },
                Err(e) => spec_header(bytes@, from as int, self@) matches Err(failure)
                    && e.spec_is(failure),
            },
    {
        reveal(spec_header);
        let (name, value_start) = match name_at(bytes, from) {
            Ok(read) => read,
            Err(e) => {
                return Err(e);
            },
        };
        let class = self.classify(name.as_str().as_bytes());
        if let Classification::Rejected = class {
            return Err(StompParseError::of(ErrorKind::UnexpectedHeader(name)));
        }
        let (value, next) = match value_at(bytes, value_start) {
            Ok(read) => read,
            Err(e) => {
                return Err(e);
            },
        };
        match class {
            Classification::Required(header) | Classification::Optional(header) => {
                match parse_header(header, value) {
                    Ok(parsed) => Ok((parsed, next)),
                    Err(e) => Err(e),
                }
            },
            _ => Ok((Header::Custom(CustomValue::new(name, value)), next)),
        }
    }

    /// Reads the header section that starts at `from`, up to and with the
    /// blank line that ends it.
    pub fn headers_at(&self, bytes: &[u8], from: usize) -> (r: Result<
        (Vec<Header>, usize),
        StompParseError,
    >)
        requires
            from <= bytes@.len(),
        ensures
            match r {
                Ok((headers, end)) => {
                    &&& spec_headers(bytes@, from as int, self@) == Ok::<
                        (Seq<HeaderModel>, int),
                        Failure,
                    >((spec_models(headers@), end as int))
                    &&& from < end <= bytes@.len()
                },
                Err(e) => spec_headers(bytes@, from as int, self@) matches Err(failure)
                    && e.spec_is(failure),
            },
    {
        let mut headers: Vec<Header> = Vec::new();
        let mut pos: usize = from;
        loop
            invariant
                from <= pos <= bytes@.len(),
                spec_headers(bytes@, from as int, self@) == spec_prepend_headers(
                    spec_models(headers@),
                    spec_headers(bytes@, pos as int, self@),
                ),
            decreases bytes@.len() - pos,
        {
            if pos >= bytes.len() {
                return Err(StompParseError::of(ErrorKind::MissingTerminator));
            }
            let ending = line_ending_at(bytes, pos);
            if ending > 0 {
                proof {
                    assert(spec_models(headers@) + Seq::<HeaderModel>::empty() =~= spec_models(
                        headers@,
                    ));
                }
                return Ok((headers, pos + ending));
            }
            let ghost before = spec_models(headers@);
            match self.header_at(bytes, pos) {
                Err(e) => {
                    return Err(e);
                },
                Ok((header, next)) => {
                    headers.push(header);
                    proof {
                        assert(spec_models(headers@) =~= before + seq![header@]);
                        match spec_headers(bytes@, next as int, self@) {
                            Ok((rest, _)) => {
                                assert(before + (seq![header@] + rest) =~= spec_models(headers@)
                                    + rest);
                            },
                            Err(_) => {},
                        }
                    }
                    pos = next;
                },
            }
        }
    }

    /// Reads the header section at the start of the input, and hands back
    /// its headers, in the order of their lines, and what follows the blank
    /// line that ends the section.
    pub fn parse<'a>(&self, input: &'a [u8]) -> (r: Result<
        (&'a [u8], Vec<Header>),
        StompParseError,
    >)
        ensures
            match r {
                Ok((rest, headers)) => {
                    &&& spec_headers(input@, 0, self@) matches Ok((models, end))
                    &&& spec_models(headers@) == models
                    &&& rest@ == input@.subrange(end, input@.len() as int)
                },
                Err(e) => spec_headers(input@, 0, self@) matches Err(failure) && e.spec_is(failure),
            },
    {
        match self.headers_at(input, 0) {
            Ok((headers, end)) => Ok((slice_subrange(input, end, input.len()), headers)),
            Err(e) => Err(e),
        }
    }
}

} // verus!
