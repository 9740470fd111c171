//! Reading the HTTP response out of what a Lambda function returned.
//!
//! A function answers either in JSON, with the fields of [`LambdaHttpResponse`], or with a raw HTTP
//! response such as (with `\r\n` as line endings):
//!
//! ```text
//! HTTP/1.1 200 OK
//! Content-Type: application/json
//! Content-Length: 27
//!
//! {"message":"Hello, world!"}
//! ```

use crate::base64_format::{base64_decoded, law_base64_is_read_back, Decoded};
use crate::headers::{all_ascii_lowered, all_lowered, ascii_named, lower_names};
use crate::numbers::{parse_u16, parsed_u16};
use crate::outside::{
    base64_decode, option_view, str_from_utf8, utf8_error_text,
};
use crate::string_map::{pair_views, to_map, Pair, StringMap};
use crate::text::{
    chars_of, find_from, find_second_word, first_index, is_empty, lines, part, second_word,
    split_lines, trim, trimmed, views,
};
use vstd::prelude::*;
use vstd::slice::{slice_subrange, slice_to_vec};
use vstd::utf8::{decode_utf8, encode_utf8, valid_utf8};

verus! {

/// Why no HTTP response could be read out of a payload.
pub enum ResponseError {
    /// A raw response is not UTF-8; with the wording of what is wrong
    InvalidUtf8(String),
    /// A raw response is empty
    EmptyHttpResponse,
    /// The first line of a raw response holds no status code; with that line
    InvalidStatusLine(String),
    /// A JSON response could not be read; with the wording of what is wrong
    Json(String),
    /// The body of a JSON response is not Base64; with the wording of what is wrong
    Base64(String),
}

impl ResponseError {
    /// The message of the error.
    pub open spec fn text(&self) -> Seq<char> {
        match self {
            ResponseError::InvalidUtf8(error) => "Invalid UTF-8 in raw HTTP response: "@ + error@,
            ResponseError::EmptyHttpResponse => "Empty HTTP response"@,
            ResponseError::InvalidStatusLine(line) => "Invalid HTTP status line: "@ + line@,
            ResponseError::Json(error) => "Failed to parse Lambda JSON response: "@ + error@,
            ResponseError::Base64(error) => "Failed to decode base64 body: "@ + error@,
        }
    }

    /// The message of the error.
    pub fn message(&self) -> (message: String)
        ensures
            message@ == self.text(),
    {
        match self {
            ResponseError::InvalidUtf8(error) => "Invalid UTF-8 in raw HTTP response: ".to_owned().concat(
                error.as_str(),
            ),
            ResponseError::EmptyHttpResponse => "Empty HTTP response".to_owned(),
            ResponseError::InvalidStatusLine(line) => "Invalid HTTP status line: ".to_owned().concat(
                line.as_str(),
            ),
            ResponseError::Json(error) => "Failed to parse Lambda JSON response: ".to_owned().concat(
                error.as_str(),
            ),
            ResponseError::Base64(error) => "Failed to decode base64 body: ".to_owned().concat(
                error.as_str(),
            ),
        }
    }
}

/// The status code that a status line gives: its second word, if that is a 16-bit number.
pub open spec fn status_of(line: Seq<char>) -> Option<u16> {
    match second_word(line) {
        Some(word) => parsed_u16(word),
        None => None,
    }
}

/// The header field that a line gives: what stands before its first colon and what stands behind
/// it, both trimmed. A line without a colon gives none.
pub open spec fn header_field(line: Seq<char>) -> Option<Pair> {
    let colon = first_index(line, ':') as int;
    if colon < line.len() {
        Some((trimmed(line.take(colon)), trimmed(line.skip(colon + 1))))
    } else {
        None
    }
}

/// The header fields that lines give, in their order.
pub open spec fn header_fields(lines: Seq<Seq<char>>) -> Seq<Pair>
    decreases lines.len(),
{
    if lines.len() == 0 {
        seq![]
    } else {
        match header_field(lines.last()) {
            Some(field) => header_fields(lines.drop_last()).push(field),
            None => header_fields(lines.drop_last()),
        }
    }
}

/// The first empty line from `from` on, or the number of lines where there is none.
pub open spec fn first_blank(lines: Seq<Seq<char>>, from: nat) -> nat
    decreases lines.len() - from,
{
    if from >= lines.len() {
        lines.len()
    } else if lines[from as int].len() == 0 {
        from
    } else {
        first_blank(lines, from + 1)
    }
}

/// The bytes that lines take, with a `\r\n` behind each.
pub open spec fn crlf_length(lines: Seq<Seq<char>>) -> nat
    decreases lines.len(),
{
    if lines.len() == 0 {
        0
    } else {
        crlf_length(lines.drop_last()) + encode_utf8(lines.last()).len() + 2
    }
}

/// The lines of a raw response.
pub open spec fn raw_lines(payload: Seq<u8>) -> Seq<Seq<char>> {
    lines(decode_utf8(payload))
}

/// The status code of a raw response.
pub open spec fn raw_status(payload: Seq<u8>) -> Option<u16> {
    status_of(raw_lines(payload)[0])
}

/// The header fields of a raw response: those between the status line and the first empty line.
pub open spec fn raw_fields(payload: Seq<u8>) -> Seq<Pair> {
    let all = raw_lines(payload);
    header_fields(all.subrange(1, first_blank(all, 1) as int))
}

/// The headers of a raw response, by their names in lower case. Of fields with one name the last
/// stays.
pub open spec fn raw_headers(payload: Seq<u8>) -> Map<Seq<char>, Seq<char>> {
    to_map(all_lowered(raw_fields(payload)))
}

/// Where the body of a raw response starts: behind the first empty line, with two bytes counted for
/// each line ending; at the beginning, where there is no empty line.
pub open spec fn raw_body_start(payload: Seq<u8>) -> nat {
    let all = raw_lines(payload);
    let blank = first_blank(all, 1);
    if blank < all.len() {
        crlf_length(all.take(blank as int)) + 2
    } else {
        0
    }
}

/// The body of a raw response.
pub open spec fn raw_body(payload: Seq<u8>) -> Seq<u8> {
    if raw_body_start(payload) < payload.len() {
        payload.skip(raw_body_start(payload) as int)
    } else {
        seq![]
    }
}

/// Whether `headers` are the headers of a raw response. Where the names are in ASCII, it is clear
/// what they are in lower case.
pub open spec fn are_raw_headers(payload: Seq<u8>, headers: Map<Seq<char>, Seq<char>>) -> bool {
    &&& headers == raw_headers(payload)
    &&& ascii_named(raw_fields(payload)) ==> headers == to_map(
        all_ascii_lowered(raw_fields(payload)),
    )
}

/// Whether a payload is no raw response for the reason that `error` gives.
pub open spec fn is_raw_error(payload: Seq<u8>, error: ResponseError) -> bool {
    match error {
        ResponseError::InvalidUtf8(wording) => {
            &&& !valid_utf8(payload)
            &&& wording@ == utf8_error_text(payload)
        },
        ResponseError::EmptyHttpResponse => payload.len() == 0,
        ResponseError::InvalidStatusLine(line) => {
            &&& valid_utf8(payload)
            &&& payload.len() > 0
            &&& raw_status(payload) is None
            &&& line@ == raw_lines(payload)[0]
        },
        _ => false,
    }
}

/// Where the first empty line stands.
proof fn lemma_first_blank(lines: Seq<Seq<char>>, from: nat)
    requires
        from <= lines.len(),
    ensures
        from <= first_blank(lines, from) <= lines.len(),
    decreases lines.len() - from,
{
    if from < lines.len() && lines[from as int].len() != 0 {
        lemma_first_blank(lines, from + 1);
    }
}

/// Reads the status code out of a status line.
fn parse_status(line: &str) -> (status: Option<u16>)
    ensures
        status == status_of(line@),
{
    match find_second_word(&chars_of(line)) {
        Some(word) => parse_u16(&word),
        None => None,
    }
}

/// Reads a header field out of a line.
fn parse_field(line: &str) -> (field: Option<(String, String)>)
    ensures
        match field {
            Some((name, value)) => header_field(line@) == Some((name@, value@)),
            None => header_field(line@) is None,
        },
{
    let chars = chars_of(line);
    let colon = find_from(&chars, 0, ':');
    assert(chars@.skip(0) == chars@);
    if colon < chars.len() {
        let name = trim(&part(&chars, 0, colon));
        let value = trim(&part(&chars, colon + 1, chars.len()));
        assert(chars@.subrange(0, colon as int) == line@.take(colon as int));
        assert(chars@.subrange(colon + 1, chars@.len() as int) == line@.skip(colon + 1));
        Some((name, value))
    } else {
        None
    }
}

/// Parse raw HTTP response from Lambda
pub fn parse_raw_http_response(payload: &[u8]) -> (result: Result<
    (u16, StringMap, Vec<u8>),
    ResponseError,
>)
    ensures
        match result {
            Ok((status, headers, body)) => {
                &&& valid_utf8(payload@)
                &&& payload@.len() > 0
                &&& raw_status(payload@) == Some(status)
                &&& headers.wf()
                &&& are_raw_headers(payload@, headers@)
                &&& body@ == raw_body(payload@)
            },
            Err(error) => is_raw_error(payload@, error),
        },
{
    let response = match str_from_utf8(payload) {
        Ok(text) => text,
        Err(error) => return Err(ResponseError::InvalidUtf8(error)),
    };
    let all = split_lines(response);
    let ghost every = raw_lines(payload@);
    assert(views(all@) == every);
    assert(payload@.len() > 0 ==> decode_utf8(payload@).len() > 0);
    assert(payload@.len() == 0 ==> decode_utf8(payload@).len() == 0);

    // Parse status line: "HTTP/1.1 200 OK"
    if all.len() == 0 {
        assert(every.len() == 0);
        return Err(ResponseError::EmptyHttpResponse);
    }
    assert(every[0] == all@[0]@);
    let status = match parse_status(all[0].as_str()) {
        Some(status) => status,
        None => return Err(ResponseError::InvalidStatusLine(all[0].clone())),
    };

    // Parse headers, up to the empty line that marks their end
    let mut fields: Vec<(String, String)> = Vec::new();
    let mut head: usize = all[0].as_str().as_bytes().len();
    head = head.saturating_add(2);
    let mut i: usize = 1;
    proof {
        assert(every.take(1).drop_last() == Seq::<Seq<char>>::empty());
        assert(every.take(1).last() == every[0]);
        reveal_with_fuel(crlf_length, 2);
        assert(every.subrange(1, 1) == Seq::<Seq<char>>::empty());
        lemma_first_blank(every, 1);
    }
    while i < all.len() && !is_empty(all[i].as_str())
        invariant
            1 <= i <= all@.len(),
            every == raw_lines(payload@),
            views(all@) == every,
            first_blank(every, 1) == first_blank(every, i as nat),
            pair_views(fields@) == header_fields(every.subrange(1, i as int)),
            head as nat == crlf_length(every.take(i as int)) || (head == usize::MAX && crlf_length(
                every.take(i as int),
            ) >= usize::MAX),
        decreases all@.len() - i,
    {
        assert(every[i as int] == all@[i as int]@);
        let ghost done = every.subrange(1, i as int);
        proof {
            assert(every.subrange(1, i + 1).drop_last() == done);
            assert(every.subrange(1, i + 1).last() == every[i as int]);
            assert(every.take(i + 1).drop_last() == every.take(i as int));
            assert(every.take(i + 1).last() == every[i as int]);
        }
        match parse_field(all[i].as_str()) {
            Some((name, value)) => {
                let ghost before = pair_views(fields@);
                fields.push((name, value));
                assert(pair_views(fields@) == before.push((name@, value@)));
            },
            None => {},
        }
        let line_bytes: usize = all[i].as_str().as_bytes().len();
        head = head.saturating_add(line_bytes).saturating_add(2);
        i = i + 1;
    }
    let body_start: usize = if i < all.len() {
        head.saturating_add(2)
    } else {
        0
    };

    // Extract body
    let body: Vec<u8> = if body_start < payload.len() {
        slice_to_vec(slice_subrange(payload, body_start, payload.len()))
    } else {
        Vec::new()
    };
    Ok((status, lower_names(&fields), body))
}

/// Lambda HTTP response payload (JSON mode)
pub struct LambdaHttpResponse {
    pub is_base64_encoded: bool,
    pub status_code: u16,
    pub status_description: Option<String>,
    pub headers: StringMap,
    pub body: Option<String>,
}

/// The bytes of a body that a JSON response carries, or the wording of what is wrong with it: what
/// the Base64 text stands for, the UTF-8 of a plain text, or nothing.
pub open spec fn json_body(body: Option<Seq<char>>, is_base64_encoded: bool) -> Decoded {
    match body {
        Some(text) => if is_base64_encoded {
            base64_decoded(encode_utf8(text))
        } else {
            Decoded::Ok(encode_utf8(text))
        },
        None => Decoded::Ok(seq![]),
    }
}

/// Parse JSON response from Lambda
///
/// `response` is what the payload holds, or the wording of why it could not be read.
pub fn parse_json_response(response: Result<LambdaHttpResponse, String>) -> (result: Result<
    (u16, StringMap, Vec<u8>),
    ResponseError,
>)
    ensures
        match (response, result) {
            (Ok(response), Ok((status, headers, body))) => {
                &&& status == response.status_code
                &&& headers == response.headers
                &&& json_body(option_view(response.body), response.is_base64_encoded)
                    == Decoded::Ok(body@)
            },
            (Ok(response), Err(ResponseError::Base64(error))) => json_body(
                option_view(response.body),
                response.is_base64_encoded,
            ) == Decoded::Err(error@),
            (Err(error), Err(ResponseError::Json(returned))) => returned == error,
            _ => false,
        },
{
    let response = match response {
        Ok(response) => response,
        Err(error) => return Err(ResponseError::Json(error)),
    };
    let body_bytes = match response.body {
        Some(body) => if response.is_base64_encoded {
            match base64_decode(body.as_str().as_bytes()) {
                Ok(bytes) => {
                    proof {
                        law_base64_is_read_back(encode_utf8(body@), bytes@);
                    }
                    bytes
                },
                Err(error) => return Err(ResponseError::Base64(error)),
            }
        } else {
            slice_to_vec(body.as_str().as_bytes())
        },
        None => Vec::new(),
    };
    Ok((response.status_code, response.headers, body_bytes))
}

} // verus!
