//! Reading back what was written: a frame that is written as bytes and read
//! again is the frame that was written.
use super::laws::lemma_last_value_concat;
use super::server::MessageFrame;
use super::{
    lemma_declared_distinct, lemma_no_customs, spec_complete, spec_customs, spec_first_missing,
    spec_head, spec_last_value, spec_lines, spec_parse, spec_serialize, spec_slots, FrameModel,
};
use crate::error::Failure;
use crate::model::grammar::{lemma_keywords, Command, Origin};
use crate::model::headers::{
    lemma_names, lemma_versions_in_order, spec_join, spec_value_from_text, spec_versions_text,
    AckType, HeaderModel, HeaderType, HeartBeatIntervalls, ValueModel, VersionModel,
};
use crate::parser::headers::{
    is_delimiter, lemma_section_plain, spec_header, spec_header_name, spec_header_value,
    spec_headers, spec_plain, HeadersGrammar,
};
use crate::parser::{lemma_line_end_unique, spec_command_line};
use crate::text::{
    is_digit, lemma_ascii_valid_utf8, lemma_decimal, lemma_find_unique, lemma_parse_decimal,
    spec_decimal, BACKSLASH, COLON, COMMA, LF, NUL,
};
use vstd::prelude::*;
use vstd::utf8::*;

verus! {

/// Whether a value can be written into the line of the given header and read
/// back: its text can stand in a header line as it is, and is read as the
/// value.
pub open spec fn spec_writable(header: HeaderType, value: ValueModel) -> bool {
    &&& spec_plain(value.spec_text())
    &&& spec_value_from_text(header, value.spec_text()) == Some(value)
}

/// Whether a frame can be written and read back: it has every header that it
/// cannot be without, each value that it has can be written and read back, it
/// has no custom headers, which are not written, and it has a body if and
/// only if its command has one.
pub open spec fn spec_writable_frame(frame: FrameModel) -> bool {
    let declared = frame.command.spec_declared();
    &&& spec_complete(frame)
    &&& forall|i: int|
        0 <= i < declared.len() ==> (#[trigger] frame.slots[i] matches Some(value)
            ==> spec_writable(declared[i], value))
    &&& frame.custom.len() == 0
    &&& (frame.body is Some <==> frame.command.spec_allows_body())
}

/// The headers that are written for the places from `from` on.
pub open spec fn spec_written(
    declared: Seq<HeaderType>,
    slots: Seq<Option<ValueModel>>,
    from: int,
) -> Seq<HeaderModel>
    decreases declared.len() - from,
{
    if from < 0 || from >= declared.len() || from >= slots.len() {
        Seq::empty()
    } else {
        (match slots[from] {
            Some(value) => seq![HeaderModel::Known(declared[from], value)],
            None => Seq::empty(),
        }) + spec_written(declared, slots, from + 1)
    }
}

/// The lines that are written for the places from `from` on.
pub open spec fn spec_lines_from(
    declared: Seq<HeaderType>,
    slots: Seq<Option<ValueModel>>,
    from: int,
) -> Seq<u8>
    decreases declared.len() - from,
{
    if from < 0 || from >= declared.len() || from >= slots.len() {
        Seq::empty()
    } else {
        (match slots[from] {
            Some(value) => HeaderModel::Known(declared[from], value).spec_line() + seq![LF],
            None => Seq::empty(),
        }) + spec_lines_from(declared, slots, from + 1)
    }
}

/// The lines of all places are those of the first places, then those of the
/// rest.
proof fn lemma_lines_split(declared: Seq<HeaderType>, slots: Seq<Option<ValueModel>>, from: int)
    requires
        slots.len() == declared.len(),
        0 <= from <= declared.len(),
    ensures
        spec_lines(declared, slots, declared.len() as int) == spec_lines(declared, slots, from)
            + spec_lines_from(declared, slots, from),
    decreases declared.len() - from,
{
    let all = spec_lines(declared, slots, declared.len() as int);
    if from == declared.len() {
        assert(all =~= all + spec_lines_from(declared, slots, from));
    } else {
        lemma_lines_split(declared, slots, from + 1);
        assert(all =~= spec_lines(declared, slots, from) + spec_lines_from(declared, slots, from));
    }
}

/// Among the headers that are written for the places from `from` on, the
/// header of a place has the value of that place, and the headers of earlier
/// places are not found.
proof fn lemma_written_value(
    declared: Seq<HeaderType>,
    slots: Seq<Option<ValueModel>>,
    from: int,
    i: int,
)
    requires
        declared.no_duplicates(),
        slots.len() == declared.len(),
        0 <= from <= declared.len(),
        0 <= i < declared.len(),
    ensures
        spec_last_value(spec_written(declared, slots, from), declared[i]) == if i >= from {
            slots[i]
        } else {
            None
        },
    decreases declared.len() - from,
{
    if from < declared.len() {
        let front = match slots[from] {
            Some(value) => seq![HeaderModel::Known(declared[from], value)],
            None => Seq::empty(),
        };
        lemma_written_value(declared, slots, from + 1, i);
        lemma_last_value_concat(front, spec_written(declared, slots, from + 1), declared[i]);
        if front.len() > 0 {
            assert(front.drop_last() =~= Seq::<HeaderModel>::empty());
            assert(spec_last_value(front.drop_last(), declared[i]) is None);
        }
    }
}

/// The headers that are written are all known by name.
proof fn lemma_written_known(
    declared: Seq<HeaderType>,
    slots: Seq<Option<ValueModel>>,
    from: int,
)
    ensures
        forall|k: int|
            0 <= k < spec_written(declared, slots, from).len() ==> #[trigger] spec_written(
                declared,
                slots,
                from,
            )[k] is Known,
    decreases declared.len() - from,
{
    if 0 <= from < declared.len() && from < slots.len() {
        lemma_written_known(declared, slots, from + 1);
    }
}

/// Where each required header from `from` on is among the headers, none is
/// missing.
proof fn lemma_all_present(required: Seq<HeaderType>, headers: Seq<HeaderModel>, from: int)
    requires
        0 <= from,
        forall|i: int| from <= i < required.len() ==> spec_last_value(headers, required[i]) is Some,
    ensures
        spec_first_missing(required, headers, from) is None,
    decreases required.len() - from,
{
    if from < required.len() {
        lemma_all_present(required, headers, from + 1);
    }
}

/// The lines that are written for the places from `from` on, followed by a
/// blank line, are read as the headers that were written.
proof fn lemma_read_lines(
    w: Seq<u8>,
    pos: int,
    command: Command,
    slots: Seq<Option<ValueModel>>,
    from: int,
)
    requires
        slots.len() == command.spec_declared().len(),
        0 <= from <= slots.len(),
        forall|i: int|
            0 <= i < slots.len() ==> (#[trigger] slots[i] matches Some(value) ==> spec_writable(
                command.spec_declared()[i],
                value,
            )),
        0 <= pos,
        pos + spec_lines_from(command.spec_declared(), slots, from).len() < w.len(),
        w.subrange(pos, pos + spec_lines_from(command.spec_declared(), slots, from).len())
            == spec_lines_from(command.spec_declared(), slots, from),
        w[pos + spec_lines_from(command.spec_declared(), slots, from).len()] == LF,
    ensures
        spec_headers(w, pos, command.spec_grammar()) == Ok::<(Seq<HeaderModel>, int), Failure>(
            (
                spec_written(command.spec_declared(), slots, from),
                pos + spec_lines_from(command.spec_declared(), slots, from).len() + 1,
            ),
        ),
    decreases slots.len() - from,
{
    reveal(spec_plain);
    let declared = command.spec_declared();
    let grammar = command.spec_grammar();
    let lines = spec_lines_from(declared, slots, from);
    if from == slots.len() {
        assert(spec_written(declared, slots, from) =~= Seq::<HeaderModel>::empty());
    } else {
        let rest = spec_lines_from(declared, slots, from + 1);
        match slots[from] {
            None => {
                assert(lines =~= rest);
                assert(spec_written(declared, slots, from) =~= spec_written(
                    declared,
                    slots,
                    from + 1,
                ));
                lemma_read_lines(w, pos, command, slots, from + 1);
            },
            Some(value) => {
                let header = declared[from];
                let name = header.spec_name_bytes();
                let text = value.spec_text();
                let line = name + seq![COLON] + text + seq![LF];
                let value_start: int = pos + name.len() as int + 1;
                let next: int = value_start + text.len() as int + 1;
                assert(lines =~= line + rest);
                lemma_names(header);
                assert(!is_delimiter(name[0]));
                assert(spec_writable(header, value));
                assert(w.subrange(pos, pos + name.len()) =~= name) by {
                    assert forall|k: int| 0 <= k < name.len() implies w[pos + k] == name[k] by {
                        assert(w[pos + k] == lines[k]);
                    }
                }
                assert(w[pos + name.len()] == COLON) by {
                    assert(w[pos + name.len()] == lines[name.len() as int]);
                }
                assert(w.subrange(value_start, value_start + text.len()) =~= text) by {
                    assert forall|k: int| 0 <= k < text.len() implies w[value_start + k]
                        == text[k] by {
                        assert(w[value_start + k] == lines[name.len() as int + 1 + k]);
                    }
                }
                assert(w[value_start + text.len()] == LF) by {
                    let at: int = name.len() as int + 1 + text.len();
                    assert(w[value_start + text.len()] == lines[at]);
                }
                assert(w[pos] == name[0]) by {
                    assert(w[pos] == lines[0]);
                }
                lemma_section_plain(w, pos, name);
                lemma_section_plain(w, value_start, text);
                assert(spec_header(w, pos, grammar) == Ok::<(HeaderModel, int), Failure>(
                    (HeaderModel::Known(header, value), next),
                )) by {
                    reveal(spec_header);
                    reveal(spec_header_name);
                    reveal(spec_header_value);
                    reveal(HeadersGrammar::spec_classify);
                    let required = command.spec_required();
                    let optional = command.spec_optional();
                    if from < required.len() {
                        assert(required[from] == header);
                    } else {
                        assert(optional[from - required.len()] == header);
                    }
                }
                assert(w.subrange(next, next + rest.len()) =~= rest) by {
                    assert forall|k: int| 0 <= k < rest.len() implies w[next + k] == rest[k] by {
                        assert(w[next + k] == lines[line.len() as int + k]);
                    }
                }
                lemma_read_lines(w, next, command, slots, from + 1);
                assert(spec_written(declared, slots, from) =~= seq![
                    HeaderModel::Known(header, value),
                ] + spec_written(declared, slots, from + 1));
            },
        }
    }
}

/// A frame that is written and read again is the frame that was written:
/// the bytes of a frame that can be written and read back are read as that
/// frame, header for header and byte for byte of the body.
pub proof fn lemma_round_trip(frame: FrameModel)
    requires
        spec_writable_frame(frame),
    ensures
        spec_parse(spec_serialize(frame), frame.command.spec_origin()) == Ok::<
            FrameModel,
            Failure,
        >(frame),
{
    reveal(spec_complete);
    let command = frame.command;
    let origin = command.spec_origin();
    let declared = command.spec_declared();
    let slots = frame.slots;
    let keyword = encode_utf8(command.spec_keyword());
    let lines = spec_lines(declared, slots, declared.len() as int);
    let body = match frame.body {
        Some(body) => body,
        None => Seq::empty(),
    };
    let w = spec_serialize(frame);
    let lines_start: int = keyword.len() as int + 1;
    let body_start: int = lines_start + lines.len() as int + 1;
    let written = spec_written(declared, slots, 0);
    assert(w =~= keyword + seq![LF] + lines + seq![LF] + body + seq![NUL]);
    assert(w.len() == keyword.len() + lines.len() + body.len() + 3);
    assert(w.len() == body_start + body.len() + 1);

    lemma_keywords(command);
    assert forall|i: int| 0 <= i < keyword.len() implies w[i] == keyword[i] by {}
    lemma_line_end_unique(w, 0, keyword.len() as int);
    assert(spec_command_line(w) == Some((keyword.len() as int, lines_start)));
    assert(w.subrange(0, keyword.len() as int) =~= keyword);

    lemma_lines_split(declared, slots, 0);
    assert(spec_lines_from(declared, slots, 0) =~= lines);
    assert(w.subrange(lines_start, lines_start + lines.len()) =~= lines);
    lemma_read_lines(w, lines_start, command, slots, 0);
    assert(spec_head(w, origin) == Ok::<(Command, Seq<HeaderModel>, int), Failure>(
        (command, written, body_start),
    ));

    lemma_declared_distinct(command);
    assert forall|i: int| 0 <= i < declared.len() implies spec_last_value(written, declared[i])
        == slots[i] by {
        lemma_written_value(declared, slots, 0, i);
    }
    let required = command.spec_required();
    assert forall|i: int| 0 <= i < required.len() implies spec_last_value(written, required[i])
        is Some by {
        assert(declared[i] == required[i]);
        assert(slots[i] is Some);
    }
    lemma_all_present(required, written, 0);

    let rest = w.subrange(body_start, w.len() as int);
    assert(rest =~= body + seq![NUL]);
    assert(rest.drop_last() =~= body);

    assert(spec_slots(command, written) =~= slots) by {
        assert forall|i: int| 0 <= i < declared.len() implies spec_slots(command, written)[i]
            == slots[i] by {
            if slots[i] is None {
                assert(command.spec_default(declared[i]) is None);
            }
        }
    }
    lemma_written_known(declared, slots, 0);
    lemma_no_customs(written);
    assert(spec_customs(written) =~= frame.custom);
}

/// Whether the header's value is a text, and not a number, a mode, a version
/// or a pair of intervals.
pub open spec fn spec_is_text(header: HeaderType) -> bool {
    header != HeaderType::Ack && header != HeaderType::AcceptVersion && header
        != HeaderType::ContentLength && header != HeaderType::HeartBeat && header
        != HeaderType::Version
}

/// A text without structural bytes can be written and read back as the
/// value of any header whose value is a text.
pub proof fn lemma_text_writable(header: HeaderType, text: Seq<u8>)
    requires
        spec_is_text(header),
        spec_plain(text),
    ensures
        spec_writable(header, ValueModel::Text(text)),
{
    reveal(spec_plain);
    reveal(spec_value_from_text);
}

/// The decimal digits of a number can stand in a header line as they are,
/// and hold no comma.
proof fn lemma_decimal_plain(n: u32)
    ensures
        spec_plain(spec_decimal(n as nat)),
        forall|i: int|
            0 <= i < spec_decimal(n as nat).len() ==> #[trigger] spec_decimal(n as nat)[i] != COMMA,
{
    reveal(spec_plain);
    let digits = spec_decimal(n as nat);
    lemma_decimal(n as nat);
    assert forall|i: int| 0 <= i < digits.len() implies digits[i] < 0x80 && !is_delimiter(
        #[trigger] digits[i],
    ) && digits[i] != BACKSLASH && digits[i] != COMMA by {
        assert(is_digit(digits[i]));
    }
    lemma_ascii_valid_utf8(digits);
}

/// Every length can be written and read back as the value of a
/// `content-length` header.
pub proof fn lemma_length_writable(n: u32)
    ensures
        spec_writable(HeaderType::ContentLength, ValueModel::Length(n)),
{
    reveal(spec_plain);
    reveal(spec_value_from_text);
    lemma_decimal_plain(n);
    lemma_parse_decimal(n);
}

/// Every pair of intervals can be written and read back as the value of a
/// `heart-beat` header.
pub proof fn lemma_heart_beat_writable(intervalls: HeartBeatIntervalls)
    ensures
        spec_writable(HeaderType::HeartBeat, ValueModel::HeartBeat(intervalls)),
{
    reveal(spec_plain);
    reveal(spec_value_from_text);
    let supplied = spec_decimal(intervalls.supplied as nat);
    let expected = spec_decimal(intervalls.expected as nat);
    let text = intervalls.spec_text();
    lemma_decimal_plain(intervalls.supplied);
    lemma_decimal_plain(intervalls.expected);
    lemma_parse_decimal(intervalls.supplied);
    lemma_parse_decimal(intervalls.expected);
    assert(text =~= supplied + seq![COMMA] + expected);
    assert forall|i: int| 0 <= i < text.len() implies text[i] < 0x80 && !is_delimiter(
        #[trigger] text[i],
    ) && text[i] != BACKSLASH by {
        lemma_decimal(intervalls.supplied as nat);
        lemma_decimal(intervalls.expected as nat);
        if i < supplied.len() {
            assert(is_digit(supplied[i]));
        } else if i > supplied.len() {
            assert(is_digit(expected[i - supplied.len() - 1]));
        }
    }
    lemma_ascii_valid_utf8(text);
    assert forall|i: int| 0 <= i < supplied.len() implies text[i] != COMMA by {
        assert(text[i] == supplied[i]);
    }
    lemma_find_unique(text, COMMA, 0, supplied.len() as int);
    assert(text.subrange(0, supplied.len() as int) =~= supplied);
    assert(text.subrange(supplied.len() as int + 1, text.len() as int) =~= expected);
}

/// Every mode can be written and read back as the value of an `ack` header.
pub proof fn lemma_ack_writable(ack: AckType)
    ensures
        spec_writable(HeaderType::Ack, ValueModel::Ack(ack)),
{
    reveal(spec_plain);
    reveal(spec_value_from_text);
    reveal_strlit("auto");
    reveal_strlit("client");
    reveal_strlit("client-individual");
    let text = ack.spec_text();
    assert(is_ascii_chars(AckType::Auto.spec_str()));
    assert(is_ascii_chars(AckType::Client.spec_str()));
    assert(is_ascii_chars(AckType::ClientIndividual.spec_str()));
    is_ascii_chars_encode_utf8(AckType::Auto.spec_str());
    is_ascii_chars_encode_utf8(AckType::Client.spec_str());
    is_ascii_chars_encode_utf8(AckType::ClientIndividual.spec_str());
    encode_utf8_valid_utf8(ack.spec_str());
    assert forall|i: int| 0 <= i < text.len() implies !is_delimiter(#[trigger] text[i]) && text[i]
        != BACKSLASH by {
        assert(ack.spec_str()[i] as u8 == text[i]);
    }
}

/// Whether a version is the one that its own text is read as: each of the
/// known versions is, and an unknown one is unless its text names a known
/// version.
pub open spec fn spec_canonical(version: VersionModel) -> bool {
    VersionModel::spec_from_text(version.spec_text()) == version
}

/// The texts of the known versions can stand in a header line as they are,
/// hold no comma, and are read as those versions.
proof fn lemma_known_versions()
    ensures
        spec_plain(VersionModel::V1_0.spec_text()),
        spec_plain(VersionModel::V1_1.spec_text()),
        spec_plain(VersionModel::V1_2.spec_text()),
        spec_canonical(VersionModel::V1_0),
        spec_canonical(VersionModel::V1_1),
        spec_canonical(VersionModel::V1_2),
        forall|i: int| 0 <= i < 3 ==> #[trigger] VersionModel::V1_0.spec_text()[i] != COMMA,
        forall|i: int| 0 <= i < 3 ==> #[trigger] VersionModel::V1_1.spec_text()[i] != COMMA,
        forall|i: int| 0 <= i < 3 ==> #[trigger] VersionModel::V1_2.spec_text()[i] != COMMA,
        VersionModel::V1_0.spec_text().len() == 3,
        VersionModel::V1_1.spec_text().len() == 3,
        VersionModel::V1_2.spec_text().len() == 3,
{
    reveal(spec_plain);
    reveal_strlit("1.0");
    reveal_strlit("1.1");
    reveal_strlit("1.2");
    assert(is_ascii_chars("1.0"@));
    assert(is_ascii_chars("1.1"@));
    assert(is_ascii_chars("1.2"@));
    is_ascii_chars_encode_utf8("1.0"@);
    is_ascii_chars_encode_utf8("1.1"@);
    is_ascii_chars_encode_utf8("1.2"@);
    encode_utf8_valid_utf8("1.0"@);
    encode_utf8_valid_utf8("1.1"@);
    encode_utf8_valid_utf8("1.2"@);
    let a = VersionModel::V1_0.spec_text();
    let b = VersionModel::V1_1.spec_text();
    let c = VersionModel::V1_2.spec_text();
    assert(a[2] == 0x30 && b[2] == 0x31 && c[2] == 0x32) by {
        assert("1.0"@[2] as u8 == a[2]);
        assert("1.1"@[2] as u8 == b[2]);
        assert("1.2"@[2] as u8 == c[2]);
    }
    assert forall|i: int| 0 <= i < 3 implies !is_delimiter(#[trigger] a[i]) && a[i]
        != BACKSLASH && a[i] != COMMA by {
        assert("1.0"@[i] as u8 == a[i]);
    }
    assert forall|i: int| 0 <= i < 3 implies !is_delimiter(#[trigger] b[i]) && b[i]
        != BACKSLASH && b[i] != COMMA by {
        assert("1.1"@[i] as u8 == b[i]);
    }
    assert forall|i: int| 0 <= i < 3 implies !is_delimiter(#[trigger] c[i]) && c[i]
        != BACKSLASH && c[i] != COMMA by {
        assert("1.2"@[i] as u8 == c[i]);
    }
}

/// A version can be written and read back as the value of a `version`
/// header where its text can stand in a header line as it is and it is the
/// version that its text is read as. Each of the known versions is such a
/// version.
pub proof fn lemma_version_writable(version: VersionModel)
    requires
        version is Unknown ==> spec_plain(version.spec_text()) && spec_canonical(version),
    ensures
        spec_writable(HeaderType::Version, ValueModel::Version(version)),
{
    reveal(spec_plain);
    reveal(spec_value_from_text);
    lemma_known_versions();
}

/// The list of the texts of the given versions is their comma-separated
/// list.
proof fn lemma_versions_text(versions: Seq<VersionModel>)
    ensures
        spec_versions_text(versions) == spec_join(
            Seq::new(versions.len(), |i: int| versions[i].spec_text()),
        ),
    decreases versions.len(),
{
    let texts = Seq::new(versions.len(), |i: int| versions[i].spec_text());
    if versions.len() >= 2 {
        let rest = versions.drop_first();
        lemma_versions_text(rest);
        assert(texts.drop_first() =~= Seq::new(rest.len(), |i: int| rest[i].spec_text()));
    }
}

/// A comma-separated list of texts that can stand in a header line as they
/// are can do so, too.
proof fn lemma_join_plain(items: Seq<Seq<u8>>)
    requires
        items.len() > 0,
        forall|i: int| 0 <= i < items.len() ==> spec_plain(#[trigger] items[i]),
    ensures
        spec_plain(spec_join(items)),
    decreases items.len(),
{
    reveal(spec_plain);
    if items.len() >= 2 {
        let rest = items.drop_first();
        assert forall|i: int| 0 <= i < rest.len() implies spec_plain(#[trigger] rest[i]) by {
            assert(rest[i] == items[i + 1]);
        }
        lemma_join_plain(rest);
        let comma = seq![COMMA];
        assert(valid_utf8(comma)) by {
            lemma_ascii_valid_utf8(comma);
        }
        assert(spec_plain(items[0]));
        valid_utf8_concat(items[0], comma);
        valid_utf8_concat(items[0] + comma, spec_join(rest));
        let joined = spec_join(items);
        assert forall|i: int| 0 <= i < joined.len() implies !is_delimiter(#[trigger] joined[i])
            && joined[i] != BACKSLASH by {
            if i < items[0].len() {
                assert(joined[i] == items[0][i]);
            } else if i > items[0].len() {
                assert(joined[i] == spec_join(rest)[i - items[0].len() - 1]);
            }
        }
    } else {
        assert(spec_plain(items[0]));
    }
}

/// A list of one or more versions can be written and read back as the value
/// of an `accept-version` header where each of its versions could be the
/// value of a `version` header and has no comma in its text.
pub proof fn lemma_versions_writable(versions: Seq<VersionModel>)
    requires
        versions.len() > 0,
        forall|i: int|
            0 <= i < versions.len() ==> spec_writable(
                HeaderType::Version,
                ValueModel::Version(#[trigger] versions[i]),
            ),
        forall|i: int, k: int|
            0 <= i < versions.len() && 0 <= k < versions[i].spec_text().len()
                ==> versions[i].spec_text()[k] != COMMA,
    ensures
        spec_writable(HeaderType::AcceptVersion, ValueModel::Versions(versions)),
{
    reveal(spec_plain);
    reveal(spec_value_from_text);
    let texts = Seq::new(versions.len(), |i: int| versions[i].spec_text());
    lemma_versions_text(versions);
    assert forall|i: int| 0 <= i < texts.len() implies spec_plain(#[trigger] texts[i]) by {
        assert(spec_writable(HeaderType::Version, ValueModel::Version(versions[i])));
    }
    lemma_join_plain(texts);
    lemma_versions_in_order(texts);
    assert(Seq::new(texts.len(), |i: int| VersionModel::spec_from_text(texts[i])) =~= versions)
        by {
        assert forall|i: int| 0 <= i < versions.len() implies VersionModel::spec_from_text(
            texts[i],
        ) == versions[i] by {
            assert(spec_writable(HeaderType::Version, ValueModel::Version(versions[i])));
        }
    }
}

/// Whether what the place at `i` holds, where it holds a value, can be
/// written and read back.
#[verifier::opaque]
pub open spec fn spec_writable_place(frame: FrameModel, i: int) -> bool {
    frame.slots[i] matches Some(value) ==> spec_writable(frame.command.spec_declared()[i], value)
}

/// A frame of five places can be written and read back where each of its
/// places can.
proof fn lemma_five_places(frame: FrameModel)
    requires
        frame.command.spec_declared().len() == 5,
        spec_complete(frame),
        frame.custom.len() == 0,
        frame.body is Some <==> frame.command.spec_allows_body(),
        spec_writable_place(frame, 0),
        spec_writable_place(frame, 1),
        spec_writable_place(frame, 2),
        spec_writable_place(frame, 3),
        spec_writable_place(frame, 4),
    ensures
        spec_writable_frame(frame),
{
    reveal(spec_writable_place);
    assert forall|i: int| 0 <= i < 5 implies (#[trigger] frame.slots[i] matches Some(value)
        ==> spec_writable(frame.command.spec_declared()[i], value)) by {
        assert(i == 0 || i == 1 || i == 2 || i == 3 || i == 4);
    }
}

/// The text of a `MESSAGE` frame's header whose value is a text can be
/// written and read back where it can stand in a header line as it is.
proof fn lemma_message_text(frame: MessageFrame, i: int)
    requires
        0 <= i < 4,
        i == 0 ==> spec_plain(encode_utf8(frame.message_id.value@)),
        i == 1 ==> spec_plain(encode_utf8(frame.destination.value@)),
        i == 2 ==> spec_plain(encode_utf8(frame.subscription.value@)),
        i == 3 ==> (frame.content_type matches Some(value) ==> spec_plain(
            encode_utf8(value.value@),
        )),
    ensures
        spec_writable_place(frame.model(), i),
{
    reveal(spec_writable_place);
    MessageFrame::lemma_declared();
    match frame.model().slots[i] {
        Some(ValueModel::Text(text)) => lemma_text_writable(
            Command::Message.spec_declared()[i],
            text,
        ),
        _ => {},
    }
}

/// The length of a `MESSAGE` frame can be written and read back.
proof fn lemma_message_length(frame: MessageFrame)
    ensures
        spec_writable_place(frame.model(), 4),
        Command::Message.spec_declared().len() == 5,
{
    reveal(spec_writable_place);
    MessageFrame::lemma_declared();
    match frame.content_length {
        Some(value) => lemma_length_writable(value.value),
        None => {},
    }
}

/// A `MESSAGE` frame that is written and read again is the same frame, where
/// the texts of its headers are not empty and hold no colon, carriage
/// return, line feed or backslash, and where it has a body, whatever bytes
/// the body holds.
pub proof fn lemma_message_round_trip(frame: MessageFrame)
    requires
        frame.spec_body() is Some,
        spec_plain(encode_utf8(frame.message_id.value@)),
        spec_plain(encode_utf8(frame.destination.value@)),
        spec_plain(encode_utf8(frame.subscription.value@)),
        frame.content_type matches Some(value) ==> spec_plain(encode_utf8(value.value@)),
    ensures
        spec_parse(spec_serialize(frame.model()), Origin::Server) == Ok::<FrameModel, Failure>(
            frame.model(),
        ),
{
    let model = frame.model();
    frame.lemma_places();
    lemma_message_text(frame, 0);
    lemma_message_text(frame, 1);
    lemma_message_text(frame, 2);
    lemma_message_text(frame, 3);
    lemma_message_length(frame);
    lemma_five_places(model);
    lemma_round_trip(model);
}

} // verus!
