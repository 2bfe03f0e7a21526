//! Writing lines into a buffer, and picking a body out of one.
use crate::error::StompParseError;
use crate::text::{push_bytes, LF};
use vstd::prelude::*;
use vstd::slice::slice_subrange;
use vstd::utf8::*;

verus! {

/// The part of the buffer that starts at the offset and has the length, where
/// there is a buffer and the part lies within it.
pub open spec fn spec_select(raw: Option<Seq<u8>>, offset_length: (usize, usize)) -> Option<
    Seq<u8>,
> {
    match raw {
        Some(bytes) if offset_length.0 + offset_length.1 <= bytes.len() => Some(
            bytes.subrange(offset_length.0 as int, offset_length.0 + offset_length.1),
        ),
        _ => None,
    }
}

/// Appends the item and a line feed to the writer. This cannot fail.
pub fn writeln(writer: &mut Vec<u8>, item: &str) -> (r: Result<(), StompParseError>)
    ensures
        r is Ok,
        final(writer)@ == old(writer)@ + encode_utf8(item@) + seq![LF],
{
    push_bytes(writer, item.as_bytes());
    writer.push(LF);
    Ok(())
}

/// The part of the buffer that starts at the offset and has the length, or
/// nothing where there is no buffer.
pub fn select_slice<'a>(raw: &'a Option<Vec<u8>>, offset_length: &'a (usize, usize)) -> (r: Option<
    &'a [u8],
>)
    requires
        raw matches Some(bytes) ==> offset_length.0 + offset_length.1 <= bytes@.len(),
    ensures
        match r {
            Some(part) => raw matches Some(bytes) && spec_select(Some(bytes@), *offset_length)
                == Some(part@),
            None => raw is None,
        },
{
    match raw {
        Some(bytes) => {
            let buffer = bytes.as_slice();
            let len = buffer.len();
            assert(offset_length.0 + offset_length.1 <= len);
            Some(slice_subrange(buffer, offset_length.0, offset_length.0 + offset_length.1))
        },
        None => None,
    }
}

} // verus!
