//! Byte strings: comparison, concatenation, UTF-8 and decimal numbers.
use vstd::prelude::*;
use vstd::utf8::*;

verus! {

/// The zero octet that ends a frame.
pub const NUL: u8 = 0x00;

/// The line feed.
pub const LF: u8 = 0x0a;

/// The carriage return.
pub const CR: u8 = 0x0d;

/// The byte `+`, the optional sign of a decimal number.
pub const PLUS: u8 = 0x2b;

/// The byte `,`, which separates the items of a list.
pub const COMMA: u8 = 0x2c;

/// The byte `0`, the first of the ten decimal digits.
pub const ZERO: u8 = 0x30;

/// The byte `:`, which separates a header's name from its value.
pub const COLON: u8 = 0x3a;

/// The backslash, which starts an escape sequence.
pub const BACKSLASH: u8 = 0x5c;

/// The position of the first `needle` in `s` at or after `from`, or the
/// length of `s` where there is none.
pub open spec fn spec_find(s: Seq<u8>, needle: u8, from: int) -> int
    decreases s.len() - from,
{
    if from >= s.len() {
        s.len() as int
    } else if s[from] == needle {
        from
    } else {
        spec_find(s, needle, from + 1)
    }
}

/// What `spec_find` returns lies between `from` and the end, no byte before
/// it is the needle, and the byte at it is, unless it is the end.
pub proof fn lemma_find(s: Seq<u8>, needle: u8, from: int)
    requires
        0 <= from <= s.len(),
    ensures
        from <= spec_find(s, needle, from) <= s.len(),
        forall|i: int| from <= i < spec_find(s, needle, from) ==> s[i] != needle,
        spec_find(s, needle, from) < s.len() ==> s[spec_find(s, needle, from)] == needle,
    decreases s.len() - from,
{
    if from < s.len() && s[from] != needle {
        lemma_find(s, needle, from + 1);
    }
}

/// A position with the needle before which there is none is the one that
/// `spec_find` returns.
pub proof fn lemma_find_unique(s: Seq<u8>, needle: u8, from: int, at: int)
    requires
        0 <= from <= at <= s.len(),
        forall|i: int| from <= i < at ==> s[i] != needle,
        at < s.len() ==> s[at] == needle,
    ensures
        spec_find(s, needle, from) == at,
    decreases s.len() - from,
{
    if from < at {
        lemma_find_unique(s, needle, from + 1, at);
    }
}

/// Whether two byte strings hold the same bytes.
pub fn bytes_eq(a: &[u8], b: &[u8]) -> (r: bool)
    ensures
        r == (a@ == b@),
{
    if a.len() != b.len() {
        return false;
    }
    let mut i: usize = 0;
    while i < a.len()
        invariant
            a@.len() == b@.len(),
            i <= a@.len(),
            forall|k: int| 0 <= k < i ==> a@[k] == b@[k],
        decreases a.len() - i,
    {
        if a[i] != b[i] {
            return false;
        }
        i += 1;
    }
    assert(a@ =~= b@);
    true
}

/// Appends the bytes of `src` to `dst`.
pub fn push_bytes(dst: &mut Vec<u8>, src: &[u8])
    ensures
        final(dst)@ == old(dst)@ + src@,
{
    let mut i: usize = 0;
    while i < src.len()
        invariant
            i <= src@.len(),
            dst@ == old(dst)@ + src@.subrange(0, i as int),
        decreases src.len() - i,
    {
        dst.push(src[i]);
        i += 1;
        assert(dst@ =~= old(dst)@ + src@.subrange(0, i as int));
    }
    assert(src@.subrange(0, src@.len() as int) =~= src@);
}

/// The position of the first `needle` in `s` at or after `from`, or the
/// length of `s`.
pub fn find(s: &[u8], needle: u8, from: usize) -> (at: usize)
    requires
        from <= s@.len(),
    ensures
        at == spec_find(s@, needle, from as int),
        from <= at <= s@.len(),
{
    let mut i: usize = from;
    while i < s.len() && s[i] != needle
        invariant
            from <= i <= s@.len(),
            spec_find(s@, needle, from as int) == spec_find(s@, needle, i as int),
        decreases s.len() - i,
    {
        i += 1;
    }
    proof {
        lemma_find(s@, needle, i as int);
    }
    i
}

/// Turns bytes into a `String` where they are well-formed UTF-8.
///
/// Trusted: this is `String::from_utf8` of the standard library, which
/// checks that the bytes are valid UTF-8 and then hands them back as a
/// string without changing them. The contract takes `valid_utf8` of vstd for
/// that check.
#[verifier::external_body]
pub(crate) fn string_from_utf8(bytes: Vec<u8>) -> (r: Option<String>)
    ensures
        r is Some <==> valid_utf8(bytes@),
        r matches Some(s) ==> encode_utf8(s@) == bytes@,
{
    match String::from_utf8(bytes) {
        Ok(s) => Some(s),
        Err(_) => None,
    }
}

/// Encoding a concatenation gives the concatenation of the encodings.
pub proof fn lemma_encode_concat(a: Seq<char>, b: Seq<char>)
    ensures
        encode_utf8(a + b) == encode_utf8(a) + encode_utf8(b),
    decreases a.len(),
{
    if a.len() == 0 {
        assert(a + b =~= b);
        assert(encode_utf8(a) + encode_utf8(b) =~= encode_utf8(b));
    } else {
        assert((a + b).drop_first() =~= a.drop_first() + b);
        lemma_encode_concat(a.drop_first(), b);
        assert(encode_utf8(a + b) =~= encode_utf8(a) + encode_utf8(b));
    }
}

/// Well-formed UTF-8 stays well-formed on both sides of an ASCII byte.
pub proof fn lemma_split_at_ascii(s: Seq<u8>, at: int)
    requires
        valid_utf8(s),
        0 <= at < s.len(),
        s[at] < 0x80,
    ensures
        is_char_boundary(s, at),
        is_char_boundary(s, at + 1),
        valid_utf8(s.subrange(0, at)),
        valid_utf8(s.subrange(at + 1, s.len() as int)),
{
    is_char_boundary_iff_not_is_continuation_byte(s, at);
    valid_utf8_split(s, at);
    let tail = s.subrange(at, s.len() as int);
    assert(tail[0] == s[at]);
    assert(pop_first_scalar(tail) =~= s.subrange(at + 1, s.len() as int));
    if at + 1 < s.len() {
        is_char_boundary_start_end_of_seq(pop_first_scalar(tail));
        is_char_boundary_iff_not_is_continuation_byte(pop_first_scalar(tail), 0);
        assert(pop_first_scalar(tail)[0] == s[at + 1]);
        is_char_boundary_iff_not_is_continuation_byte(s, at + 1);
    } else {
        is_char_boundary_start_end_of_seq(s);
    }
}

/// Bytes below 0x80 are well-formed UTF-8.
pub proof fn lemma_ascii_valid_utf8(s: Seq<u8>)
    requires
        forall|i: int| 0 <= i < s.len() ==> s[i] < 0x80,
    ensures
        valid_utf8(s),
    decreases s.len(),
{
    if s.len() > 0 {
        let b = s[0];
        assert((b & 0x7f) as u32 <= 0x7f) by (bit_vector);
        assert(valid_first_scalar(s));
        let rest = pop_first_scalar(s);
        assert forall|i: int| 0 <= i < rest.len() implies rest[i] < 0x80 by {
            assert(rest[i] == s[i + 1]);
        }
        lemma_ascii_valid_utf8(rest);
    }
}

/// Whether the byte is one of the ten decimal digits.
pub open spec fn is_digit(b: u8) -> bool {
    ZERO <= b <= ZERO + 9
}

/// Whether every byte of `s` is a decimal digit.
pub open spec fn all_digits(s: Seq<u8>) -> bool {
    forall|i: int| 0 <= i < s.len() ==> is_digit(#[trigger] s[i])
}

/// The number that the decimal digits of `s` write, the first digit being
/// the most significant.
pub open spec fn digits_value(s: Seq<u8>) -> nat
    decreases s.len(),
{
    if s.len() == 0 {
        0
    } else {
        (digits_value(s.drop_last()) * 10 + (s.last() - ZERO)) as nat
    }
}

/// The digits of a decimal number: the text without its optional `+`.
pub open spec fn spec_unsigned(s: Seq<u8>) -> Seq<u8> {
    if s.len() > 0 && s[0] == PLUS {
        s.subrange(1, s.len() as int)
    } else {
        s
    }
}

/// The 32-bit number that `s` writes in decimal: an optional `+`, then one or
/// more digits and nothing else, with a value of at most `u32::MAX`.
pub open spec fn spec_parse_u32(s: Seq<u8>) -> Option<u32> {
    let digits = spec_unsigned(s);
    if digits.len() > 0 && all_digits(digits) && digits_value(digits) <= u32::MAX {
        Some(digits_value(digits) as u32)
    } else {
        None
    }
}

/// The decimal digits of `n`, without leading zeros.
pub open spec fn spec_decimal(n: nat) -> Seq<u8>
    decreases n,
{
    if n < 10 {
        seq![(ZERO + n) as u8]
    } else {
        spec_decimal(n / 10).push((ZERO + n % 10) as u8)
    }
}

/// Digits that follow digits only make the number larger.
pub proof fn lemma_digits_value_monotonic(s: Seq<u8>, k: int)
    requires
        all_digits(s),
        0 <= k <= s.len(),
    ensures
        digits_value(s.subrange(0, k)) <= digits_value(s),
    decreases s.len() - k,
{
    if k == s.len() {
        assert(s.subrange(0, k) =~= s);
    } else {
        lemma_digits_value_monotonic(s.drop_last(), k);
        assert(s.drop_last().subrange(0, k) =~= s.subrange(0, k));
        assert(is_digit(s.last()));
    }
}

/// The decimal digits of a number are digits, do not start with a sign, and
/// write that number.
pub proof fn lemma_decimal(n: nat)
    ensures
        spec_decimal(n).len() > 0,
        all_digits(spec_decimal(n)),
        digits_value(spec_decimal(n)) == n,
        spec_unsigned(spec_decimal(n)) == spec_decimal(n),
    decreases n,
{
    let d = spec_decimal(n);
    if n < 10 {
        assert(d.drop_last() =~= Seq::<u8>::empty());
        assert(digits_value(d.drop_last()) == 0);
    } else {
        lemma_decimal(n / 10);
        assert(d.drop_last() =~= spec_decimal(n / 10));
        assert(d[0] == spec_decimal(n / 10)[0]);
    }
}

/// Reading back the decimal digits of a 32-bit number gives the number.
pub proof fn lemma_parse_decimal(n: u32)
    ensures
        spec_parse_u32(spec_decimal(n as nat)) == Some(n),
{
    lemma_decimal(n as nat);
}

/// Reads a 32-bit number written in decimal.
pub fn parse_u32(text: &[u8]) -> (r: Option<u32>)
    ensures
        r == spec_parse_u32(text@),
{
    let start: usize = if text.len() > 0 && text[0] == PLUS {
        1
    } else {
        0
    };
    let ghost digits = spec_unsigned(text@);
    if start >= text.len() {
        return None;
    }
    let mut value: u64 = 0;
    let mut i: usize = start;
    proof {
        assert(digits =~= text@.subrange(start as int, text@.len() as int));
        assert(digits.subrange(0, 0) =~= Seq::<u8>::empty());
    }
    while i < text.len()
        invariant
            start <= i <= text@.len(),
            digits == spec_unsigned(text@),
            digits == text@.subrange(start as int, text@.len() as int),
            all_digits(digits.subrange(0, i - start)),
            value == digits_value(digits.subrange(0, i - start)),
            value <= u32::MAX,
        decreases text.len() - i,
    {
        let b = text[i];
        let ghost before = digits.subrange(0, i - start);
        let ghost after = digits.subrange(0, i + 1 - start);
        proof {
            assert(after.drop_last() =~= before);
            assert(after.last() == b);
        }
        if b < ZERO || b > ZERO + 9 {
            assert(!is_digit(digits[i - start]));
            return None;
        }
        value = value * 10 + (b - ZERO) as u64;
        proof {
            assert forall|k: int| 0 <= k < after.len() implies is_digit(#[trigger] after[k]) by {
                if k < before.len() {
                    assert(after[k] == before[k]);
                }
            }
        }
        if value > u32::MAX as u64 {
            proof {
                if all_digits(digits) {
                    lemma_digits_value_monotonic(digits, i + 1 - start);
                }
            }
            return None;
        }
        i += 1;
    }
    proof {
        assert(digits.subrange(0, i - start) =~= digits);
    }
    Some(value as u32)
}

/// Appends the decimal digits of `n` to `out`.
pub fn push_decimal(out: &mut Vec<u8>, n: u32)
    ensures
        final(out)@ == old(out)@ + spec_decimal(n as nat),
    decreases n,
{
    if n >= 10 {
        push_decimal(out, n / 10);
    }
    out.push(ZERO + (n % 10) as u8);
    assert(out@ =~= old(out)@ + spec_decimal(n as nat));
}

/// The string that well-formed UTF-8 bytes encode.
pub fn text_of(bytes: Vec<u8>) -> (text: String)
    requires
        valid_utf8(bytes@),
    ensures
        encode_utf8(text@) == bytes@,
{
    match string_from_utf8(bytes) {
        Some(text) => text,
        None => unreached(),
    }
}

/// The decimal digits of `n` as a string.
pub fn decimal_string(n: u32) -> (text: String)
    ensures
        encode_utf8(text@) == spec_decimal(n as nat),
{
    let mut digits: Vec<u8> = Vec::new();
    push_decimal(&mut digits, n);
    proof {
        lemma_decimal(n as nat);
        assert(digits@ =~= spec_decimal(n as nat));
        assert forall|i: int| 0 <= i < digits@.len() implies digits@[i] < 0x80 by {
            assert(is_digit(digits@[i]));
        }
        lemma_ascii_valid_utf8(digits@);
    }
    text_of(digits)
}

/// The parts of `s` before and after its byte at `at`, which is an ASCII
/// byte.
pub fn split_around<'a>(s: &'a str, at: usize) -> (parts: (&'a str, &'a str))
    requires
        at < encode_utf8(s@).len(),
        encode_utf8(s@)[at as int] < 0x80,
    ensures
        encode_utf8(parts.0@) == encode_utf8(s@).subrange(0, at as int),
        encode_utf8(parts.1@) == encode_utf8(s@).subrange(
            at + 1,
            encode_utf8(s@).len() as int,
        ),
{
    let ghost bytes = encode_utf8(s@);
    proof {
        encode_utf8_valid_utf8(s@);
        lemma_split_at_ascii(bytes, at as int);
    }
    let (head, tail) = s.split_at(at);
    let ghost rest = encode_utf8(tail@);
    proof {
        encode_utf8_valid_utf8(tail@);
        assert(rest[0] == bytes[at as int]);
        if rest.len() == 1 {
            is_char_boundary_start_end_of_seq(rest);
        } else {
            lemma_split_at_ascii(rest, 0);
        }
    }
    let (_, after) = tail.split_at(1);
    proof {
        assert(encode_utf8(after@) =~= bytes.subrange(at + 1, bytes.len() as int));
    }
    (head, after)
}

} // verus!
