//! The grammar of a frame, stated over bytes, and the functions that read
//! its parts: the command line, the header section, the body and the zero
//! octet that ends the frame.
pub mod headers;

use crate::error::{ErrorKind, Failure, StompParseError};
use crate::text::{CR, LF, NUL};
use vstd::prelude::*;
use vstd::slice::slice_subrange;

verus! {

/// A frame that keeps the buffer that its body lies in.
pub trait HasBody {
    /// The buffer of the frame, once it has one.
    spec fn spec_raw(&self) -> Option<Seq<u8>>;

    /// Hands the frame the buffer that its body lies in.
    fn set_raw(&mut self, bytes: Vec<u8>)
        ensures
            final(self).spec_raw() == Some(bytes@),
    ;
}

/// The length of the line ending at `pos`: 1 for a line feed, 2 for a
/// carriage return and a line feed, 0 where there is neither.
pub open spec fn spec_line_ending(s: Seq<u8>, pos: int) -> int {
    if 0 <= pos < s.len() && s[pos] == LF {
        1
    } else if 0 <= pos && pos + 1 < s.len() && s[pos] == CR && s[pos + 1] == LF {
        2
    } else {
        0
    }
}

/// The first position at or after `from` that holds a carriage return or a
/// line feed, or the length of `s` where there is none.
pub open spec fn spec_line_end(s: Seq<u8>, from: int) -> int
    decreases s.len() - from,
{
    if from >= s.len() {
        s.len() as int
    } else if s[from] == CR || s[from] == LF {
        from
    } else {
        spec_line_end(s, from + 1)
    }
}

/// The command line at the start of `s`: where its keyword ends and where
/// the next line starts. The keyword is at least one byte long, holds
/// neither a carriage return nor a line feed, and a line ending follows it.
pub open spec fn spec_command_line(s: Seq<u8>) -> Option<(int, int)> {
    let end = spec_line_end(s, 0);
    if end > 0 && spec_line_ending(s, end) > 0 {
        Some((end, end + spec_line_ending(s, end)))
    } else {
        None
    }
}

/// What is wrong with the rest of a frame that must not have a body, where
/// the rest is anything but a single zero octet.
pub open spec fn spec_null(rest: Seq<u8>) -> Option<Failure> {
    if rest.len() == 1 && rest[0] == NUL {
        None
    } else if rest.len() > 1 && rest[0] == NUL {
        Some(ErrorKind::UnexpectedTrailingData)
    } else if rest.len() > 1 && rest.last() == NUL {
        Some(ErrorKind::BodyNotAllowed)
    } else {
        Some(ErrorKind::MissingTerminator)
    }
}

/// The body of a frame whose rest, after the header section, is `rest`.
/// Where the command takes a body, it is every byte before the last one,
/// which must be the zero octet; zero octets inside the body are part of it.
/// Where the command takes none, the rest must be the zero octet alone.
pub open spec fn spec_body(allows_body: bool, rest: Seq<u8>) -> Result<Option<Seq<u8>>, Failure> {
    if allows_body {
        if rest.len() > 0 && rest.last() == NUL {
            Ok(Some(rest.drop_last()))
        } else {
            Err(ErrorKind::MissingTerminator)
        }
    } else {
        match spec_null(rest) {
            None => Ok(None),
            Some(failure) => Err(failure),
        }
    }
}

/// The end of the line is not before `from`, no byte between the two ends a
/// line, and the byte at the end does, unless it is the end of `s`.
pub proof fn lemma_line_end(s: Seq<u8>, from: int)
    requires
        0 <= from <= s.len(),
    ensures
        from <= spec_line_end(s, from) <= s.len(),
        forall|i: int| from <= i < spec_line_end(s, from) ==> s[i] != CR && s[i] != LF,
        spec_line_end(s, from) < s.len() ==> s[spec_line_end(s, from)] == CR || s[spec_line_end(
            s,
            from,
        )] == LF,
    decreases s.len() - from,
{
    if from < s.len() && s[from] != CR && s[from] != LF {
        lemma_line_end(s, from + 1);
    }
}

/// A position before which no byte ends a line, and which holds a byte that
/// does or is the end of `s`, is the end of the line.
pub proof fn lemma_line_end_unique(s: Seq<u8>, from: int, at: int)
    requires
        0 <= from <= at <= s.len(),
        forall|i: int| from <= i < at ==> s[i] != CR && s[i] != LF,
        at < s.len() ==> s[at] == CR || s[at] == LF,
    ensures
        spec_line_end(s, from) == at,
    decreases at - from,
{
    if from < at {
        lemma_line_end_unique(s, from + 1, at);
    }
}

/// The end of a line is found in the bytes up to and with the one that ends
/// it, and in no others.
pub proof fn lemma_line_end_agrees(a: Seq<u8>, b: Seq<u8>, from: int)
    requires
        0 <= from <= a.len(),
        spec_line_end(a, from) < a.len(),
        spec_line_end(a, from) < b.len(),
        forall|i: int| 0 <= i <= spec_line_end(a, from) ==> a[i] == b[i],
    ensures
        spec_line_end(b, from) == spec_line_end(a, from),
    decreases a.len() - from,
{
    lemma_line_end(a, from);
    if from < a.len() && a[from] != CR && a[from] != LF {
        lemma_line_end(a, from + 1);
        lemma_line_end_agrees(a, b, from + 1);
    }
}

/// The length of the line ending at `pos`, or 0 where there is none.
pub fn line_ending_at(bytes: &[u8], pos: usize) -> (len: usize)
    ensures
        len == spec_line_ending(bytes@, pos as int),
        len <= 2,
        len > 0 ==> pos + len <= bytes@.len(),
        pos + len <= usize::MAX,
{
    if pos < bytes.len() && bytes[pos] == LF {
        1
    } else if pos < bytes.len() && bytes.len() - pos > 1 && bytes[pos] == CR && bytes[pos + 1]
        == LF {
        2
    } else {
        0
    }
}

/// An error: the parser for a keyword that names no command.
pub fn always_fail<'a, O>(input: &'a [u8]) -> (r: Result<(&'a [u8], O), StompParseError>)
    ensures
        r matches Err(e) && e.spec_is(Failure::UnknownCommand),
{
    Err(StompParseError::of(ErrorKind::UnknownCommand))
}

/// Reads the single zero octet that ends a frame without a body. On success
/// nothing remains of the input, and the octet is handed back.
pub fn null<'a>(input: &'a [u8]) -> (r: Result<(&'a [u8], &'a [u8]), StompParseError>)
    ensures
        match r {
            Ok((rest, octet)) => {
                &&& spec_null(input@) is None
                &&& rest@ == Seq::<u8>::empty()
                &&& octet@ == input@
            },
            Err(e) => spec_null(input@) == Some(e.spec_kind()) && e.spec_described(),
        },
{
    let len = input.len();
    if len == 1 && input[0] == NUL {
        let rest = slice_subrange(input, len, len);
        let octet = slice_subrange(input, len - 1, len);
        proof {
            assert(rest@ =~= Seq::<u8>::empty());
            assert(octet@ =~= input@);
        }
        Ok((rest, octet))
    } else if len > 1 && input[0] == NUL {
        Err(StompParseError::of(ErrorKind::UnexpectedTrailingData))
    } else if len > 1 && input[len - 1] == NUL {
        Err(StompParseError::of(ErrorKind::BodyNotAllowed))
    } else {
        Err(StompParseError::of(ErrorKind::MissingTerminator))
    }
}

/// Reads the command line: the keyword, and what follows the line.
pub fn command_line<'a>(input: &'a [u8]) -> (r: Result<(&'a [u8], &'a [u8]), StompParseError>)
    ensures
        match r {
            Ok((rest, keyword)) => {
                &&& spec_command_line(input@) matches Some((end, next))
                &&& keyword@ == input@.subrange(0, end)
                &&& rest@ == input@.subrange(next, input@.len() as int)
            },
            Err(e) => spec_command_line(input@) is None && e.spec_is(Failure::UnknownCommand),
        },
{
    let mut end: usize = 0;
    while end < input.len() && input[end] != CR && input[end] != LF
        invariant
            end <= input@.len(),
            spec_line_end(input@, 0) == spec_line_end(input@, end as int),
        decreases input.len() - end,
    {
        end += 1;
    }
    let ending = line_ending_at(input, end);
    if end > 0 && ending > 0 {
        Ok((slice_subrange(input, end + ending, input.len()), slice_subrange(input, 0, end)))
    } else {
        Err(StompParseError::of(ErrorKind::UnknownCommand))
    }
}

/// Reads the body of a frame: everything before the zero octet that is the
/// last byte of the input. On success nothing remains of the input.
pub fn remaining_without_null<'a>(input: &'a [u8]) -> (r: Result<
    (&'a [u8], &'a [u8]),
    StompParseError,
>)
    ensures
        match r {
            Ok((rest, body)) => {
                &&& spec_body(true, input@) == Ok::<Option<Seq<u8>>, Failure>(Some(body@))
                &&& rest@ == Seq::<u8>::empty()
            },
            Err(e) => {
                &&& spec_body(true, input@) == Err::<Option<Seq<u8>>, Failure>(e.spec_kind())
                &&& e.spec_described()
            },
        },
{
    let len = input.len();
    if len > 0 && input[len - 1] == NUL {
        let rest = slice_subrange(input, 0, 0);
        let body = slice_subrange(input, 0, len - 1);
        proof {
            assert(rest@ =~= Seq::<u8>::empty());
            assert(body@ =~= input@.drop_last());
        }
        Ok((rest, body))
    } else {
        Err(StompParseError::of(ErrorKind::MissingTerminator))
    }
}

} // verus!
