//! What is read back of a raw HTTP response that was written with `\r\n` as its line endings.

use crate::headers::all_lowered;
use crate::http_response::{
    crlf_length, first_blank, header_field, header_fields, raw_body, raw_fields, raw_headers,
    raw_lines, raw_status, status_of,
};
use crate::numbers::{decimal, is_digit, law_decimal_writes_value, law_printed_number_is_read_back};
use crate::string_map::{to_map, wire_length, Pair};
use crate::text::{
    law_line_feeds_end_lines, leading_space, lemma_first_index_unique, lemma_leading_space,
    lemma_leading_word_unique, lines, second_word, trim_start, trimmed, white_space, without_carriage_return,
};
use vstd::prelude::*;
use vstd::utf8::{
    encode_utf8, encode_utf8_decode_utf8, encode_utf8_valid_utf8, is_ascii_chars,
    is_ascii_chars_encode_utf8, valid_utf8,
};

verus! {

/// The line ending of HTTP.
pub open spec fn crlf() -> Seq<char> {
    seq!['\r', '\n']
}

/// Whether a text stays on one line.
pub open spec fn on_one_line(text: Seq<char>) -> bool {
    forall|i: int| 0 <= i < text.len() ==> text[i] != '\n'
}

/// Lines, with a line ending behind each.
pub open spec fn with_line_endings(lines: Seq<Seq<char>>) -> Seq<char>
    decreases lines.len(),
{
    if lines.len() == 0 {
        seq![]
    } else {
        with_line_endings(lines.drop_last()) + lines.last() + crlf()
    }
}

/// A head of lines, an empty line, and a body.
pub open spec fn framed(head: Seq<Seq<char>>, body: Seq<char>) -> Seq<char> {
    with_line_endings(head) + crlf() + body
}

/// A status line, such as `HTTP/1.1 200 OK`.
pub open spec fn status_line(version: Seq<char>, status: u16, reason: Seq<char>) -> Seq<char> {
    version + seq![' '] + decimal(status as nat) + seq![' '] + reason
}

/// A header line, such as `Content-Type: application/json`.
pub open spec fn header_line(field: Pair) -> Seq<char> {
    field.0 + seq![':', ' '] + field.1
}

/// The header lines of fields.
pub open spec fn header_lines(fields: Seq<Pair>) -> Seq<Seq<char>> {
    Seq::new(fields.len(), |i: int| header_line(fields[i]))
}

/// Whether a header field can be written on a line: neither part is broken or has white space at
/// an end, and the name has no colon.
pub open spec fn writable(field: Pair) -> bool {
    &&& on_one_line(field.0)
    &&& on_one_line(field.1)
    &&& trimmed(field.0) == field.0
    &&& trimmed(field.1) == field.1
    &&& forall|i: int| 0 <= i < field.0.len() ==> field.0[i] != ':'
}

/// The UTF-8 of two texts behind one another is that of the first and that of the second.
pub proof fn lemma_encode_concat(left: Seq<char>, right: Seq<char>)
    ensures
        encode_utf8(left + right) == encode_utf8(left) + encode_utf8(right),
    decreases left.len(),
{
    if left.len() == 0 {
        assert(left + right == right);
        assert(encode_utf8(left) + encode_utf8(right) == encode_utf8(right));
    } else {
        assert((left + right).drop_first() == left.drop_first() + right);
        lemma_encode_concat(left.drop_first(), right);
    }
}

/// The UTF-8 of a line ending takes two bytes.
proof fn lemma_crlf_takes_two_bytes()
    ensures
        encode_utf8(crlf()).len() == 2,
{
    assert(is_ascii_chars(crlf()));
    is_ascii_chars_encode_utf8(crlf());
}

/// The first line of a text that starts with a line and its ending.
proof fn lemma_first_line(line: Seq<char>, rest: Seq<char>)
    requires
        on_one_line(line),
    ensures
        lines(line + crlf() + rest) == seq![line] + lines(rest),
{
    let s = line + crlf() + rest;
    let end = line.len() + 1;
    assert forall|i: int| 0 <= i < end implies s[i] != '\n' by {
        if i < line.len() {
            assert(s[i] == line[i]);
        }
    }
    lemma_first_index_unique(s, '\n', end);
    assert(s.take(end as int) == line.push('\r'));
    assert(without_carriage_return(s.take(end as int)) == line);
    assert(s.skip(end as int + 1) == rest);
}

/// The lines of a text that starts with lines and their endings.
proof fn lemma_lines_of_head(head: Seq<Seq<char>>, rest: Seq<char>)
    requires
        forall|i: int| 0 <= i < head.len() ==> on_one_line(#[trigger] head[i]),
    ensures
        lines(with_line_endings(head) + rest) == head + lines(rest),
    decreases head.len(),
{
    if head.len() == 0 {
        assert(with_line_endings(head) + rest == rest);
        assert(head + lines(rest) == lines(rest));
    } else {
        let shorter = head.drop_last();
        let last = head.last();
        assert(on_one_line(head[head.len() - 1]));
        assert(with_line_endings(head) + rest == with_line_endings(shorter) + (last + crlf()
            + rest));
        assert forall|i: int| 0 <= i < shorter.len() implies on_one_line(
            #[trigger] shorter[i],
        ) by {
            assert(on_one_line(head[i]));
        }
        lemma_lines_of_head(shorter, last + crlf() + rest);
        lemma_first_line(last, rest);
        assert(shorter + (seq![last] + lines(rest)) == head + lines(rest));
    }
}

/// The bytes that lines take with their endings.
proof fn lemma_crlf_length(head: Seq<Seq<char>>)
    ensures
        encode_utf8(with_line_endings(head)).len() == crlf_length(head),
    decreases head.len(),
{
    if head.len() > 0 {
        let shorter = with_line_endings(head.drop_last());
        lemma_crlf_length(head.drop_last());
        lemma_encode_concat(shorter + head.last(), crlf());
        lemma_encode_concat(shorter, head.last());
        lemma_crlf_takes_two_bytes();
    }
}

/// The first empty line is where no line before it is empty.
proof fn lemma_first_blank_unique(lines: Seq<Seq<char>>, from: nat, at: nat)
    requires
        from <= at < lines.len(),
        lines[at as int].len() == 0,
        forall|i: int| from <= i < at ==> (#[trigger] lines[i]).len() > 0,
    ensures
        first_blank(lines, from) == at,
    decreases at - from,
{
    if from < at {
        assert(lines[from as int].len() > 0);
        lemma_first_blank_unique(lines, from + 1, at);
    }
}

/// A raw response is taken apart where it was put together: its status is that of the first line of
/// its head, its headers are those of the other lines, and its body is what stands behind the
/// empty line, byte for byte.
pub proof fn law_framed_response_is_taken_apart(head: Seq<Seq<char>>, body: Seq<char>)
    requires
        head.len() > 0,
        forall|i: int| 0 <= i < head.len() ==> on_one_line(#[trigger] head[i]),
        forall|i: int| 0 < i < head.len() ==> (#[trigger] head[i]).len() > 0,
    ensures
        ({
            let payload = encode_utf8(framed(head, body));
            &&& valid_utf8(payload)
            &&& payload.len() > 0
            &&& raw_status(payload) == status_of(head[0])
            &&& raw_fields(payload) == header_fields(head.skip(1))
            &&& raw_body(payload) == encode_utf8(body)
        }),
{
    let text = framed(head, body);
    let payload = encode_utf8(text);
    let front = with_line_endings(head);
    encode_utf8_valid_utf8(text);
    encode_utf8_decode_utf8(text);
    assert(text == front + (crlf() + body));
    lemma_lines_of_head(head, crlf() + body);
    let empty = Seq::<char>::empty();
    assert(empty + crlf() + body == crlf() + body);
    lemma_first_line(empty, body);
    let all = raw_lines(payload);
    assert(all == head + (seq![empty] + lines(body)));
    assert(all[0] == head[0]);
    assert forall|i: int| 1 <= i < head.len() implies (#[trigger] all[i]).len() > 0 by {
        assert(all[i] == head[i]);
        assert(head[i].len() > 0);
    }
    assert(all[head.len() as int] == empty);
    lemma_first_blank_unique(all, 1, head.len());
    assert(all.subrange(1, head.len() as int) == head.skip(1));
    assert(all.take(head.len() as int) == head);
    lemma_crlf_length(head);
    lemma_crlf_takes_two_bytes();
    lemma_encode_concat(front + crlf(), body);
    lemma_encode_concat(front, crlf());
    let start = crlf_length(head) + 2;
    assert(payload == encode_utf8(front) + encode_utf8(crlf()) + encode_utf8(body));
    if start < payload.len() {
        assert(payload.skip(start as int) == encode_utf8(body));
    } else {
        assert(encode_utf8(body).len() == 0);
        assert(encode_utf8(body) == Seq::<u8>::empty());
    }
}

/// Lines, with a bare line feed behind each.
pub open spec fn with_line_feeds(lines: Seq<Seq<char>>) -> Seq<char>
    decreases lines.len(),
{
    if lines.len() == 0 {
        seq![]
    } else {
        with_line_feeds(lines.drop_last()) + lines.last() + seq!['\n']
    }
}

/// Whether a text is a line that no carriage return ends.
pub open spec fn bare_line(text: Seq<char>) -> bool {
    on_one_line(text) && (text.len() > 0 ==> text.last() != '\r')
}

/// The lines of a text that starts with lines and bare line feeds.
proof fn lemma_lines_of_bare_head(head: Seq<Seq<char>>, rest: Seq<char>)
    requires
        forall|i: int| 0 <= i < head.len() ==> bare_line(#[trigger] head[i]),
    ensures
        lines(with_line_feeds(head) + rest) == head + lines(rest),
        encode_utf8(with_line_feeds(head)).len() + head.len() == crlf_length(head),
    decreases head.len(),
{
    if head.len() == 0 {
        assert(with_line_feeds(head) + rest == rest);
        assert(head + lines(rest) == lines(rest));
    } else {
        let shorter = head.drop_last();
        let last = head.last();
        let feed = seq!['\n'];
        assert(bare_line(head[head.len() - 1]));
        assert(with_line_feeds(head) + rest == with_line_feeds(shorter) + (last + feed + rest));
        assert forall|i: int| 0 <= i < shorter.len() implies bare_line(#[trigger] shorter[i]) by {
            assert(bare_line(head[i]));
        }
        lemma_lines_of_bare_head(shorter, last + feed + rest);
        law_line_feeds_end_lines(last, rest);
        assert(shorter + (seq![last] + lines(rest)) == head + lines(rest));
        lemma_encode_concat(with_line_feeds(shorter) + last, feed);
        lemma_encode_concat(with_line_feeds(shorter), last);
        assert(is_ascii_chars(feed));
        is_ascii_chars_encode_utf8(feed);
    }
}

/// The lines of a raw response with bare line feeds, and where the first empty one of them stands.
#[verifier::spinoff_prover]
proof fn lemma_lines_of_bare_response(head: Seq<Seq<char>>, body: Seq<char>)
    requires
        head.len() > 0,
        forall|i: int| 0 <= i < head.len() ==> bare_line(#[trigger] head[i]),
        forall|i: int| 0 < i < head.len() ==> (#[trigger] head[i]).len() > 0,
    ensures
        ({
            let all = lines(with_line_feeds(head) + seq!['\n'] + body);
            &&& all.len() > head.len()
            &&& all.take(head.len() as int) == head
            &&& first_blank(all, 1) == head.len()
        }),
{
    let feed = seq!['\n'];
    let empty = Seq::<char>::empty();
    assert(with_line_feeds(head) + feed + body == with_line_feeds(head) + (feed + body));
    lemma_lines_of_bare_head(head, feed + body);
    assert(empty + feed + body == feed + body);
    law_line_feeds_end_lines(empty, body);
    let all = head + (seq![empty] + lines(body));
    assert forall|i: int| 1 <= i < head.len() implies (#[trigger] all[i]).len() > 0 by {
        assert(all[i] == head[i]);
        assert(head[i].len() > 0);
    }
    assert(all[head.len() as int] == empty);
    lemma_first_blank_unique(all, 1, head.len());
    assert(all.take(head.len() as int) == head);
}

/// In a raw response with bare line feeds the status and the headers are found as well, but two
/// bytes are counted for each line ending all the same: the body lacks a byte at its beginning for
/// each line of the head and for the empty line.
#[verifier::spinoff_prover]
#[verifier::rlimit(30)]
pub proof fn law_bare_line_feeds_count_for_two_bytes(head: Seq<Seq<char>>, body: Seq<char>)
    requires
        head.len() > 0,
        forall|i: int| 0 <= i < head.len() ==> bare_line(#[trigger] head[i]),
        forall|i: int| 0 < i < head.len() ==> (#[trigger] head[i]).len() > 0,
    ensures
        ({
            let payload = encode_utf8(with_line_feeds(head) + seq!['\n'] + body);
            let bytes = encode_utf8(body);
            &&& raw_status(payload) == status_of(head[0])
            &&& raw_fields(payload) == header_fields(head.skip(1))
            &&& raw_body(payload) == if bytes.len() > head.len() + 1 {
                bytes.skip(head.len() as int + 1)
            } else {
                seq![]
            }
        }),
{
    let front = with_line_feeds(head);
    let feed = seq!['\n'];
    let text = front + feed + body;
    let payload = encode_utf8(text);
    encode_utf8_decode_utf8(text);
    lemma_lines_of_bare_response(head, body);
    let all = raw_lines(payload);
    assert(all[0] == all.take(head.len() as int)[0]);
    assert(all.subrange(1, head.len() as int) == all.take(head.len() as int).skip(1));
    lemma_lines_of_bare_head(head, body);
    lemma_encode_concat(front + feed, body);
    lemma_encode_concat(front, feed);
    assert(is_ascii_chars(feed));
    is_ascii_chars_encode_utf8(feed);
    let start = crlf_length(head) + 2;
    let bytes = encode_utf8(body);
    assert(payload == encode_utf8(front) + encode_utf8(feed) + bytes);
    assert(start == encode_utf8(front).len() + 1 + head.len() + 1);
    if start < payload.len() {
        assert(payload.skip(start as int) == bytes.skip(head.len() as int + 1));
    }
}

/// The bytes that header fields count for are those of their header lines as they are written, with
/// their line endings.
pub proof fn law_fields_count_as_written(fields: Seq<Pair>)
    ensures
        wire_length(fields) == encode_utf8(with_line_endings(header_lines(fields))).len(),
    decreases fields.len(),
{
    lemma_crlf_length(header_lines(fields));
    if fields.len() > 0 {
        let shorter = fields.drop_last();
        let (name, value) = fields.last();
        law_fields_count_as_written(shorter);
        lemma_crlf_length(header_lines(shorter));
        assert(header_lines(fields).drop_last() == header_lines(shorter));
        assert(header_lines(fields).last() == header_line(fields.last()));
        lemma_encode_concat(name + seq![':', ' '], value);
        lemma_encode_concat(name, seq![':', ' ']);
        assert(is_ascii_chars(seq![':', ' ']));
        is_ascii_chars_encode_utf8(seq![':', ' ']);
    }
}

/// The status code of a written status line.
pub proof fn lemma_status_of_status_line(version: Seq<char>, status: u16, reason: Seq<char>)
    requires
        version.len() > 0,
        forall|i: int| 0 <= i < version.len() ==> !white_space(version[i]),
    ensures
        status_of(status_line(version, status, reason)) == Some(status),
{
    let line = status_line(version, status, reason);
    let number = decimal(status as nat);
    law_decimal_writes_value(status as nat);
    assert(line[0] == version[0]);
    assert(leading_space(line) == 0);
    assert(trim_start(line) == line);
    assert forall|i: int| 0 <= i < version.len() implies !white_space(line[i]) by {
        assert(line[i] == version[i]);
    }
    assert(line[version.len() as int] == ' ');
    lemma_leading_word_unique(line, version.len());
    let rest = line.skip(version.len() as int);
    let tail = number + seq![' '] + reason;
    assert(rest == seq![' '] + tail);
    assert(rest.drop_first() == tail);
    assert forall|i: int| 0 <= i < number.len() implies !white_space(tail[i]) by {
        assert(is_digit(number[i]));
        assert(tail[i] == number[i]);
    }
    assert(leading_space(tail) == 0);
    assert(leading_space(rest) == 1);
    assert(trim_start(rest) == tail);
    assert(tail[number.len() as int] == ' ');
    lemma_leading_word_unique(tail, number.len());
    assert(tail.take(number.len() as int) == number);
    assert(second_word(line) == Some(number));
    law_printed_number_is_read_back(status);
}

/// The header field of a written header line.
proof fn lemma_header_field_of_header_line(field: Pair)
    requires
        writable(field),
    ensures
        header_field(header_line(field)) == Some(field),
        on_one_line(header_line(field)),
        header_line(field).len() > 0,
{
    let line = header_line(field);
    let (name, value) = field;
    assert forall|i: int| 0 <= i < name.len() implies line[i] != ':' by {
        assert(line[i] == name[i]);
    }
    lemma_first_index_unique(line, ':', name.len());
    assert(line.take(name.len() as int) == name);
    let behind = seq![' '] + value;
    assert(line.skip(name.len() as int + 1) == behind);
    assert(behind.drop_first() == value);
    assert(leading_space(behind) == 1 + leading_space(value));
    lemma_leading_space(value);
    assert(trim_start(behind) == trim_start(value));
    assert forall|i: int| 0 <= i < line.len() implies line[i] != '\n' by {
        if i < name.len() {
            assert(line[i] == name[i]);
        } else if i >= name.len() + 2 {
            assert(line[i] == value[i - name.len() - 2]);
        }
    }
}

/// The header fields of written header lines.
proof fn lemma_header_fields_of_header_lines(fields: Seq<Pair>)
    requires
        forall|i: int| 0 <= i < fields.len() ==> writable(#[trigger] fields[i]),
    ensures
        header_fields(header_lines(fields)) == fields,
    decreases fields.len(),
{
    if fields.len() > 0 {
        let shorter = fields.drop_last();
        assert forall|i: int| 0 <= i < shorter.len() implies writable(#[trigger] shorter[i]) by {
            assert(writable(fields[i]));
        }
        lemma_header_fields_of_header_lines(shorter);
        assert(writable(fields[fields.len() - 1]));
        lemma_header_field_of_header_line(fields.last());
        assert(header_lines(fields).drop_last() == header_lines(shorter));
        assert(fields == shorter.push(fields.last()));
    } else {
        assert(fields == Seq::<Pair>::empty());
    }
}

/// What was written as a raw response is read back: the status code, the header fields with their
/// names in lower case, and the body. Of header fields with one name the last is read.
pub proof fn law_written_response_is_read_back(
    version: Seq<char>,
    status: u16,
    reason: Seq<char>,
    fields: Seq<Pair>,
    body: Seq<char>,
)
    requires
        version.len() > 0,
        forall|i: int| 0 <= i < version.len() ==> !white_space(version[i]),
        on_one_line(reason),
        forall|i: int| 0 <= i < fields.len() ==> writable(#[trigger] fields[i]),
    ensures
        ({
            let head = seq![status_line(version, status, reason)] + header_lines(fields);
            let payload = encode_utf8(framed(head, body));
            &&& valid_utf8(payload)
            &&& payload.len() > 0
            &&& raw_status(payload) == Some(status)
            &&& raw_fields(payload) == fields
            &&& raw_headers(payload) == to_map(all_lowered(fields))
            &&& raw_body(payload) == encode_utf8(body)
        }),
{
    let line = status_line(version, status, reason);
    let head = seq![line] + header_lines(fields);
    lemma_status_of_status_line(version, status, reason);
    law_decimal_writes_value(status as nat);
    assert forall|i: int| 0 <= i < line.len() implies line[i] != '\n' by {
        let digits = decimal(status as nat);
        let at = i - version.len() - 1;
        if i < version.len() {
            assert(line[i] == version[i]);
            assert(white_space('\n'));
        } else if 0 <= at < digits.len() {
            assert(is_digit(digits[at]));
            assert(line[i] == digits[at]);
        } else if at > digits.len() {
            assert(line[i] == reason[at - digits.len() - 1]);
        }
    }
    assert forall|i: int| 0 <= i < head.len() implies on_one_line(#[trigger] head[i]) && (i > 0
        ==> head[i].len() > 0) by {
        if i > 0 {
            assert(writable(fields[i - 1]));
            lemma_header_field_of_header_line(fields[i - 1]);
            assert(head[i] == header_line(fields[i - 1]));
        }
    }
    law_framed_response_is_taken_apart(head, body);
    assert(head.skip(1) == header_lines(fields));
    lemma_header_fields_of_header_lines(fields);
}

} // verus!
