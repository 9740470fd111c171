//! Turning a backend request into the request that a Lambda function is invoked with.

use crate::base64_format::{
    base64_fits, base64_text, law_base64_is_read_back, lemma_base64_text_is_ascii, Decoded,
};
use crate::headers::{all_ascii_lowered, all_lowered, ascii_lowers, ascii_named, lower_names};
use crate::http_response::json_body;
use crate::outside::{
    ascii_lowercase, base64_encode, literal_host, literal_pairs, literal_path, lossy_text, lowercase,
    parse_url, plain_path, string_from_utf8_lossy, url_parts, written_target, written_url,
};
use crate::string_map::{
    pair_views, to_map, wire_bytes_of, wire_length, wrapped, Pair, StringMap,
};
use crate::text::starts_with;
use vstd::prelude::*;
use vstd::utf8::{
    decode_utf8, decode_utf8_encode_utf8, encode_utf8, is_ascii_chars, is_ascii_chars_encode_utf8,
    valid_utf8,
};

verus! {

/// Lambda HTTP request payload
pub struct LambdaHttpRequest {
    pub http_method: String,
    pub path: String,
    pub query_string_parameters: StringMap,
    pub headers: StringMap,
    pub body: String,
    pub is_base64_encoded: bool,
}

/// Whether a content type in lower case is one of text.
pub open spec fn text_type(lower: Seq<char>) -> bool {
    ||| "text/"@.is_prefix_of(lower)
    ||| "application/json"@.is_prefix_of(lower)
    ||| "application/javascript"@.is_prefix_of(lower)
    ||| "application/xml"@.is_prefix_of(lower)
    ||| "application/x-www-form-urlencoded"@.is_prefix_of(lower)
}

/// Whether what a text begins with in ASCII is put in lower case by its letters `A` to `Z` alone.
pub open spec fn lowers_beginnings(text: Seq<char>) -> bool {
    forall|n: int|
        0 <= n <= text.len() && is_ascii_chars(#[trigger] text.take(n)) ==> ascii_lowercase(
            text.take(n),
        ).is_prefix_of(lowercase(text))
}

/// Whether one of two texts begins with the other.
pub open spec fn one_begins_other(one: Seq<char>, other: Seq<char>) -> bool {
    one.is_prefix_of(other) || other.is_prefix_of(one)
}

/// Whether a content type in lower case that begins like this can be one of text.
pub open spec fn may_be_text_type(start: Seq<char>) -> bool {
    ||| one_begins_other(start, "text/"@)
    ||| one_begins_other(start, "application/json"@)
    ||| one_begins_other(start, "application/javascript"@)
    ||| one_begins_other(start, "application/xml"@)
    ||| one_begins_other(start, "application/x-www-form-urlencoded"@)
}

/// Of two texts that a third begins with, one begins with the other.
proof fn lemma_beginnings(one: Seq<char>, other: Seq<char>, text: Seq<char>)
    requires
        one.is_prefix_of(text),
    ensures
        other.is_prefix_of(text) ==> one_begins_other(one, other),
        other.is_prefix_of(one) ==> other.is_prefix_of(text),
{
    if other.is_prefix_of(text) && one.len() <= other.len() {
        assert(one =~= other.subrange(0, one.len() as int));
    } else if other.is_prefix_of(text) {
        assert(other =~= one.subrange(0, other.len() as int));
    }
    if other.is_prefix_of(one) {
        assert(other =~= text.subrange(0, other.len() as int));
    }
}

/// What a content type in lower case begins with decides whether it is one of text.
proof fn lemma_beginning_decides(start: Seq<char>, lower: Seq<char>)
    requires
        start.is_prefix_of(lower),
    ensures
        text_type(start) ==> text_type(lower),
        text_type(lower) ==> may_be_text_type(start),
{
    lemma_beginnings(start, "text/"@, lower);
    lemma_beginnings(start, "application/json"@, lower);
    lemma_beginnings(start, "application/javascript"@, lower);
    lemma_beginnings(start, "application/xml"@, lower);
    lemma_beginnings(start, "application/x-www-form-urlencoded"@, lower);
}

/// Check if a content-type indicates text content
///
/// What the content type begins with in ASCII mostly decides, whatever stands behind it.
pub fn is_text_content_type(content_type: &str) -> (text: bool)
    ensures
        text == text_type(lowercase(content_type@)),
        is_ascii_chars(content_type@) ==> text == text_type(ascii_lowercase(content_type@)),
        is_ascii_chars(content_type@) ==> lowercase(content_type@) == ascii_lowercase(content_type@),
        forall|n: int|
            0 <= n <= content_type@.len() && is_ascii_chars(#[trigger] content_type@.take(n)) ==> {
                &&& text_type(ascii_lowercase(content_type@.take(n))) ==> text
                &&& text ==> may_be_text_type(ascii_lowercase(content_type@.take(n)))
            },
        lowers_beginnings(content_type@),
{
    let ct_lower = content_type.to_lowercase();
    proof {
        assert forall|n: int|
            0 <= n <= content_type@.len() && is_ascii_chars(
                #[trigger] content_type@.take(n),
            ) implies (text_type(ascii_lowercase(content_type@.take(n))) ==> text_type(ct_lower@))
            && (text_type(ct_lower@) ==> may_be_text_type(
            ascii_lowercase(content_type@.take(n)),
        )) by {
            lemma_beginning_decides(ascii_lowercase(content_type@.take(n)), ct_lower@);
        }
    }
    starts_with(ct_lower.as_str(), "text/")
        || starts_with(ct_lower.as_str(), "application/json")
        || starts_with(ct_lower.as_str(), "application/javascript")
        || starts_with(ct_lower.as_str(), "application/xml")
        || starts_with(ct_lower.as_str(), "application/x-www-form-urlencoded")
}

/// The path and the query parameters of a request target, given what a URL parser makes of it.
/// Where it makes nothing of it, the target is the path.
pub open spec fn target_parts(
    target: Seq<char>,
    parts: Option<(Seq<char>, Seq<Pair>)>,
) -> (Seq<char>, Map<Seq<char>, Seq<char>>) {
    match parts {
        Some((path, query)) => (path, to_map(query)),
        None => (target, Map::empty()),
    }
}

/// The text of an optional pair of a path and query parameters.
pub open spec fn parts_view(parts: Option<(String, Vec<(String, String)>)>) -> Option<
    (Seq<char>, Seq<Pair>),
> {
    match parts {
        Some((path, query)) => Some((path@, pair_views(query@))),
        None => None,
    }
}

/// A request target as a URL: with a scheme and a host before it.
pub open spec fn full_url(target: Seq<char>) -> Seq<char> {
    "http://dummy"@ + target
}

/// How long a request target can be for its URL to be parsed for sure: URLs are measured in 32 bits.
pub const MAX_TARGET_LENGTH: usize = 4_000_000_000;

/// Parse path into path and query string parameters
///
/// Of parameters with one name the last stays.
pub fn parse_path(path_str: &str) -> (result: (String, StringMap))
    ensures
        result.1.wf(),
        (result.0@, result.1@) == target_parts(path_str@, url_parts(full_url(path_str@))),
        url_parts(full_url(path_str@)) is Some ==> plain_path(result.0@),
        forall|path: Seq<char>, pairs: Seq<Pair>|
            path_str@ == #[trigger] written_target(path, pairs) && literal_path(path)
                && literal_pairs(pairs) && path_str@.len() <= MAX_TARGET_LENGTH ==> {
                &&& result.0@ == path
                &&& result.1@ == to_map(pairs)
            },
{
    proof {
        reveal_strlit("http://");
        reveal_strlit("http://dummy");
        assert("http://"@ =~= full_url(path_str@).subrange(0, 7));
    }
    // Varnish provides just the path, so we need a base URL for parsing
    let full = "http://dummy".to_owned().concat(path_str);
    let parts = parse_url(full.as_str());
    proof {
        let host = seq!['d', 'u', 'm', 'm', 'y'];
        assert forall|path: Seq<char>, pairs: Seq<Pair>|
            path_str@ == #[trigger] written_target(path, pairs) && literal_path(path)
                && literal_pairs(pairs) && path_str@.len() <= MAX_TARGET_LENGTH implies parts_view(
            parts,
        ) == Some((path, pairs)) by {
            assert(full@ == written_url(host, path, pairs));
            assert(literal_host(host));
        }
    }
    path_and_query(path_str, parts)
}

/// The path and the query parameters of a request target, given what a URL parser made of it.
pub fn path_and_query(
    path_str: &str,
    parts: Option<(String, Vec<(String, String)>)>,
) -> (result: (String, StringMap))
    ensures
        result.1.wf(),
        (result.0@, result.1@) == target_parts(path_str@, parts_view(parts)),
{
    match parts {
        Some((path, query)) => (path, map_of(&query)),
        None => (path_str.to_owned(), StringMap::new()),
    }
}

/// Fills a map from pairs in their order.
fn map_of(pairs: &Vec<(String, String)>) -> (map: StringMap)
    ensures
        map.wf(),
        map@ == to_map(pair_views(pairs@)),
{
    let ghost all = pair_views(pairs@);
    let mut map = StringMap::new();
    let mut i: usize = 0;
    assert(all.take(0) == Seq::<Pair>::empty());
    while i < pairs.len()
        invariant
            i <= pairs@.len(),
            all == pair_views(pairs@),
            map.wf(),
            map@ == to_map(all.take(i as int)),
        decreases pairs@.len() - i,
    {
        assert(all.take(i + 1).drop_last() == all.take(i as int));
        assert(all.take(i + 1).last() == (pairs@[i as int].0@, pairs@[i as int].1@));
        map.insert(pairs[i].0.clone(), pairs[i].1.clone());
        i = i + 1;
    }
    assert(all.take(i as int) == all);
    map
}

/// Where the body of a backend request is taken from.
#[derive(Clone, Copy, Debug, PartialEq, Eq, Structural)]
pub enum BodySource {
    /// The body that was kept with the backend request
    Cached,
    /// The body that the client is sending
    Client,
    /// There is no body
    Absent,
}

/// Chooses where the body of a backend request is taken from: a kept body comes before the
/// client's, and the client's request counts only where it has a body.
pub fn body_source(has_cached_body: bool, client_has_body: Option<bool>) -> (source: BodySource)
    ensures
        source == (if has_cached_body {
            BodySource::Cached
        } else if client_has_body == Some(true) {
            BodySource::Client
        } else {
            BodySource::Absent
        }),
{
    if has_cached_body {
        BodySource::Cached
    } else {
        match client_has_body {
            Some(true) => BodySource::Client,
            _ => BodySource::Absent,
        }
    }
}

/// A request body as it goes into a payload, and whether it is in Base64: text as it is, anything
/// else in Base64. A body that could not be collected counts as an empty one.
pub open spec fn encoded_body(result: int, body: Seq<u8>, is_text: bool) -> (Seq<char>, bool) {
    if result < 0 || body.len() == 0 {
        (seq![], false)
    } else if is_text {
        (lossy_text(body), false)
    } else {
        (base64_text(body), true)
    }
}

/// Encode the request body
///
/// `result` is what collecting the body returned, with a negative number for a failure. Returns a
/// tuple of (body_string, is_base64_encoded):
/// - For text content types: returns the body as UTF-8 string, not base64 encoded
/// - For binary content types: returns base64-encoded body
/// - If no body is available: returns empty string, not base64 encoded
pub fn encode_body(result: isize, body: &[u8], is_text: bool) -> (encoded: (String, bool))
    requires
        base64_fits(body@.len()),
    ensures
        (encoded.0@, encoded.1) == encoded_body(result as int, body@, is_text),
        result >= 0 && is_text && valid_utf8(body@) ==> encoded.0@ == decode_utf8(body@),
        result >= 0 && (is_text ==> valid_utf8(body@)) ==> json_body(Some(encoded.0@), encoded.1)
            == Decoded::Ok(body@),
        encoded.1 ==> encode_utf8(encoded.0@).len() == (body@.len() + 2) / 3 * 4,
{
    proof {
        if valid_utf8(body@) {
            decode_utf8_encode_utf8(body@);
        }
    }
    if result < 0 || body.len() == 0 {
        (String::new(), false)
    } else if is_text {
        // Text content - use as-is
        (string_from_utf8_lossy(body), false)
    } else {
        // Binary content - base64 encode
        let text = base64_encode(body);
        proof {
            law_base64_is_read_back(encode_utf8(text@), body@);
            lemma_base64_text_is_ascii(body@);
            is_ascii_chars_encode_utf8(text@);
        }
        (text, true)
    }
}

/// Encode the request body by its content type
///
/// What is sent for a body that was collected is the body itself to whoever reads it as the flag
/// says, unless the body is text that is not UTF-8.
pub fn extract_request_body(result: isize, body: &[u8], content_type: &str) -> (encoded: (
    String,
    bool,
))
    requires
        base64_fits(body@.len()),
    ensures
        (encoded.0@, encoded.1) == encoded_body(
            result as int,
            body@,
            text_type(lowercase(content_type@)),
        ),
        result >= 0 && (text_type(lowercase(content_type@)) ==> valid_utf8(body@)) ==> json_body(
            Some(encoded.0@),
            encoded.1,
        ) == Decoded::Ok(body@),
        result >= 0 && is_ascii_chars(content_type@) && !text_type(ascii_lowercase(content_type@))
            ==> json_body(Some(encoded.0@), encoded.1) == Decoded::Ok(body@),
        encoded.1 ==> encode_utf8(encoded.0@).len() == (body@.len() + 2) / 3 * 4,
        is_ascii_chars(content_type@) ==> lowercase(content_type@) == ascii_lowercase(content_type@),
        lowers_beginnings(content_type@),
{
    encode_body(result, body, is_text_content_type(content_type))
}

/// The text of bytes that may be missing.
pub open spec fn text_or(bytes: Option<Seq<u8>>, default: Seq<char>) -> Seq<char> {
    match bytes {
        Some(bytes) => lossy_text(bytes),
        None => default,
    }
}

/// The bytes of an optional slice.
pub open spec fn slice_view(bytes: Option<&[u8]>) -> Option<Seq<u8>> {
    match bytes {
        Some(bytes) => Some(bytes@),
        None => None,
    }
}

/// The text of bytes, or a default where there are none.
fn text_or_default(bytes: Option<&[u8]>, default: &str) -> (text: String)
    ensures
        text@ == text_or(slice_view(bytes), default@),
        bytes is Some && valid_utf8(bytes->0@) ==> text@ == decode_utf8(bytes->0@),
{
    match bytes {
        Some(bytes) => string_from_utf8_lossy(bytes),
        None => default.to_owned(),
    }
}

/// The content type that headers give, or nothing.
pub open spec fn content_type_of(headers: Map<Seq<char>, Seq<char>>) -> Seq<char> {
    if headers.contains_key("content-type"@) {
        headers["content-type"@]
    } else {
        ""@
    }
}

/// Whether the body of a request stands for the body that was collected, to whoever reads it as the
/// flag says. It does, unless collecting failed or the body is text that is not UTF-8.
pub open spec fn stands_for(request: LambdaHttpRequest, body_result: int, body: Seq<u8>) -> bool {
    body_result >= 0 && (text_type(lowercase(content_type_of(request.headers@))) ==> valid_utf8(
        body,
    )) ==> json_body(Some(request.body@), request.is_base64_encoded) == Decoded::Ok(body)
}

/// What a Lambda function is invoked with, and the bytes that count as sent.
pub struct PreparedRequest {
    pub request: LambdaHttpRequest,
    pub header_bytes: u64,
    pub body_bytes: u64,
}

/// Header fields as texts.
pub open spec fn field_texts(fields: Seq<(String, Vec<u8>)>) -> Seq<Pair> {
    Seq::new(fields.len(), |i: int| (fields[i].0@, lossy_text(fields[i].1@)))
}

/// Whether the values of all header fields are UTF-8.
pub open spec fn utf8_valued(fields: Seq<(String, Vec<u8>)>) -> bool {
    forall|i: int| 0 <= i < fields.len() ==> valid_utf8((#[trigger] fields[i]).1@)
}

/// Whether each value that is UTF-8 is read as the text that it encodes.
pub open spec fn utf8_values_decode(fields: Seq<(String, Vec<u8>)>) -> bool {
    forall|i: int|
        0 <= i < fields.len() && valid_utf8((#[trigger] fields[i]).1@) ==> lossy_text(fields[i].1@)
            == decode_utf8(fields[i].1@)
}

/// Header fields as the texts that their values encode.
pub open spec fn decoded_fields(fields: Seq<(String, Vec<u8>)>) -> Seq<Pair> {
    Seq::new(fields.len(), |i: int| (fields[i].0@, decode_utf8(fields[i].1@)))
}

/// Reads header fields as texts.
fn read_fields(fields: &Vec<(String, Vec<u8>)>) -> (texts: Vec<(String, String)>)
    ensures
        pair_views(texts@) == field_texts(fields@),
        utf8_valued(fields@) ==> pair_views(texts@) == decoded_fields(fields@),
        utf8_values_decode(fields@),
{
    let mut texts: Vec<(String, String)> = Vec::new();
    let mut i: usize = 0;
    while i < fields.len()
        invariant
            i <= fields@.len(),
            pair_views(texts@) == field_texts(fields@).take(i as int),
            forall|j: int|
                0 <= j < i && valid_utf8((#[trigger] fields@[j]).1@) ==> lossy_text(fields@[j].1@)
                    == decode_utf8(fields@[j].1@),
        decreases fields@.len() - i,
    {
        let ghost before = pair_views(texts@);
        let value = string_from_utf8_lossy(fields[i].1.as_slice());
        texts.push((fields[i].0.clone(), value));
        proof {
            let field = field_texts(fields@)[i as int];
            assert(pair_views(texts@) == before.push(field));
            assert(field_texts(fields@).take(i + 1) == before.push(field));
        }
        i = i + 1;
    }
    assert(field_texts(fields@).take(i as int) == field_texts(fields@));
    proof {
        if utf8_valued(fields@) {
            assert forall|j: int| 0 <= j < fields@.len() implies field_texts(fields@)[j]
                == decoded_fields(fields@)[j] by {
                assert(valid_utf8(fields@[j].1@));
            }
            assert(field_texts(fields@) == decoded_fields(fields@));
        }
    }
    texts
}

/// Whether an invocation is prepared as it should be for a backend request: with its method and URL
/// or their defaults, its header fields by their names in lower case, and its body encoded by its
/// content type; and with the bytes of its fields and of its encoded body counted.
pub open spec fn is_prepared(
    prepared: PreparedRequest,
    method: Option<Seq<u8>>,
    url: Option<Seq<u8>>,
    fields: Seq<(String, Vec<u8>)>,
    body_result: int,
    body: Seq<u8>,
) -> bool {
    let request = prepared.request;
    let target = text_or(url, "/"@);
    &&& request.http_method@ == text_or(method, "GET"@)
    &&& method is Some && valid_utf8(method->0) ==> request.http_method@ == decode_utf8(method->0)
    &&& url is Some && valid_utf8(url->0) ==> target == decode_utf8(url->0)
    &&& url_parts(full_url(target)) is Some ==> plain_path(request.path@)
    &&& request.query_string_parameters.wf()
    &&& (request.path@, request.query_string_parameters@) == target_parts(
        target,
        url_parts(full_url(target)),
    )
    &&& forall|path: Seq<char>, pairs: Seq<Pair>|
        target == #[trigger] written_target(path, pairs) && literal_path(path) && literal_pairs(pairs)
            && target.len() <= MAX_TARGET_LENGTH ==> {
            &&& request.path@ == path
            &&& request.query_string_parameters@ == to_map(pairs)
        }
    &&& request.headers.wf()
    &&& request.headers@ == to_map(all_lowered(field_texts(fields)))
    &&& utf8_valued(fields) ==> field_texts(fields) == decoded_fields(fields)
    &&& utf8_values_decode(fields)
    &&& ascii_named(field_texts(fields)) ==> request.headers@ == to_map(
        all_ascii_lowered(field_texts(fields)),
    )
    &&& (request.body@, request.is_base64_encoded) == encoded_body(
        body_result,
        body,
        text_type(lowercase(content_type_of(request.headers@))),
    )
    &&& stands_for(request, body_result, body)
    &&& ascii_lowers(field_texts(fields))
    &&& is_ascii_chars(content_type_of(request.headers@)) ==> lowercase(
        content_type_of(request.headers@),
    ) == ascii_lowercase(content_type_of(request.headers@))
    &&& lowers_beginnings(content_type_of(request.headers@))
    &&& prepared.header_bytes == wrapped(wire_length(field_texts(fields)))
    &&& prepared.body_bytes == encode_utf8(request.body@).len()
    &&& request.is_base64_encoded ==> prepared.body_bytes == (body.len() + 2) / 3 * 4
}

/// Prepares the invocation for a backend request: its method and URL, where it has them, its header
/// fields, and what collecting its body returned and gave.
pub fn build_request(
    method: Option<&[u8]>,
    url: Option<&[u8]>,
    fields: &Vec<(String, Vec<u8>)>,
    body_result: isize,
    body: &[u8],
) -> (prepared: PreparedRequest)
    requires
        base64_fits(body@.len()),
    ensures
        is_prepared(
            prepared,
            slice_view(method),
            slice_view(url),
            fields@,
            body_result as int,
            body@,
        ),
{
    let texts = read_fields(fields);
    assemble_request(
        text_or_default(method, "GET"),
        parse_path(text_or_default(url, "/").as_str()),
        &texts,
        body_result,
        body,
    )
}

/// Prepares the invocation for a request whose method, target and header fields are at hand as
/// texts.
pub fn assemble_request(
    http_method: String,
    target: (String, StringMap),
    fields: &Vec<(String, String)>,
    body_result: isize,
    body: &[u8],
) -> (prepared: PreparedRequest)
    requires
        base64_fits(body@.len()),
    ensures
        ({
            let request = prepared.request;
            &&& request.http_method == http_method
            &&& request.path == target.0
            &&& request.query_string_parameters == target.1
            &&& request.headers.wf()
            &&& request.headers@ == to_map(all_lowered(pair_views(fields@)))
            &&& ascii_named(pair_views(fields@)) ==> request.headers@ == to_map(
                all_ascii_lowered(pair_views(fields@)),
            )
            &&& (request.body@, request.is_base64_encoded) == encoded_body(
                body_result as int,
                body@,
                text_type(lowercase(content_type_of(request.headers@))),
            )
            &&& stands_for(request, body_result as int, body@)
            &&& ascii_lowers(pair_views(fields@))
            &&& is_ascii_chars(content_type_of(request.headers@)) ==> lowercase(
                content_type_of(request.headers@),
            ) == ascii_lowercase(content_type_of(request.headers@))
            &&& lowers_beginnings(content_type_of(request.headers@))
            &&& prepared.header_bytes == wrapped(wire_length(pair_views(fields@)))
            &&& prepared.body_bytes == encode_utf8(request.body@).len()
            &&& request.is_base64_encoded ==> prepared.body_bytes == (body@.len() + 2) / 3 * 4
        }),
{
    let headers = lower_names(fields);
    let header_bytes: u64 = wire_bytes_of(fields);
    let content_type = match headers.get("content-type") {
        Some(content_type) => content_type,
        None => "",
    };
    let (body, is_base64_encoded) = extract_request_body(body_result, body, content_type);
    let body_bytes: u64 = body.as_str().as_bytes().len() as u64;
    let (path, query_string_parameters) = target;
    PreparedRequest {
        request: LambdaHttpRequest {
            http_method,
            path,
            query_string_parameters,
            headers,
            body,
            is_base64_encoded,
        },
        header_bytes,
        body_bytes,
    }
}

} // verus!
