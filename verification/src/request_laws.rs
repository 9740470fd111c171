//! What of a backend request reaches the function that it is served by.

use crate::base64_format::base64_text;
use crate::framing::{header_lines, law_fields_count_as_written, with_line_endings};
use crate::headers::{all_lowered, lowered};
use crate::outside::{
    ascii_lowercase, dot_segment, literal_pairs, literal_path, lossy_text, lowercase, path_char,
    unreserved, url_path, url_query, written_pairs, written_target,
};
use crate::request::{
    content_type_of, field_texts, is_prepared, text_or, PreparedRequest, MAX_TARGET_LENGTH,
};
use crate::string_map::{law_last_pair_stays, lemma_to_map, to_map, Pair};
use vstd::prelude::*;
use vstd::utf8::{
    decode_utf8, encode_utf8, encode_utf8_decode_utf8, is_ascii_chars, valid_utf8,
};

verus! {

/// Whether a character is a letter, a digit, or one of `-`, `_`, `.`.
pub open spec fn plain_char(c: char) -> bool {
    'a' <= c <= 'z' || 'A' <= c <= 'Z' || '0' <= c <= '9' || c == '-' || c == '_' || c == '.'
}

/// The path of a request target reaches the function as it was written, and so do the names and
/// values of its query parameters, with the case of letters kept; of parameters with one name the
/// last does.
pub proof fn law_target_is_kept(
    prepared: PreparedRequest,
    method: Option<Seq<u8>>,
    url: Seq<u8>,
    fields: Seq<(String, Vec<u8>)>,
    body_result: int,
    body: Seq<u8>,
    path: Seq<char>,
    pairs: Seq<Pair>,
)
    requires
        is_prepared(prepared, method, Some(url), fields, body_result, body),
        valid_utf8(url),
        decode_utf8(url) == (if pairs.len() == 0 {
            path
        } else {
            path + seq!['?'] + written_pairs(pairs)
        }),
        decode_utf8(url).len() <= MAX_TARGET_LENGTH,
        path.len() > 0,
        path[0] == '/',
        forall|i: int| 0 <= i < path.len() ==> plain_char(#[trigger] path[i]) || path[i] == '/',
        forall|i: int| 0 <= i < path.len() && #[trigger] path[i] == '/' ==> !dot_segment(path, i),
        forall|i: int, j: int|
            0 <= i < pairs.len() && 0 <= j < pairs[i].0.len() ==> plain_char(
                #[trigger] pairs[i].0[j],
            ),
        forall|i: int, j: int|
            0 <= i < pairs.len() && 0 <= j < pairs[i].1.len() ==> plain_char(
                #[trigger] pairs[i].1[j],
            ),
    ensures
        prepared.request.path@ == path,
        prepared.request.query_string_parameters@ == to_map(pairs),
        forall|i: int|
            0 <= i < pairs.len() && (forall|k: int|
                i < k < pairs.len() ==> (#[trigger] pairs[k]).0 != pairs[i].0) ==> {
                let found = prepared.request.query_string_parameters@;
                &&& found.contains_key((#[trigger] pairs[i]).0)
                &&& found[pairs[i].0] == pairs[i].1
            },
        pairs.len() == 0 ==> prepared.request.query_string_parameters@.is_empty(),
{
    let target = text_or(Some(url), "/"@);
    assert(target == written_target(path, pairs));
    assert forall|i: int| 0 <= i < path.len() implies path_char(#[trigger] path[i]) by {
        assert(plain_char(path[i]) || path[i] == '/');
    }
    assert forall|i: int| 0 <= i < pairs.len() implies (forall|j: int|
        0 <= j < (#[trigger] pairs[i]).0.len() ==> unreserved(#[trigger] pairs[i].0[j])) && (forall|
        j: int,
    |
        0 <= j < pairs[i].1.len() ==> unreserved(#[trigger] pairs[i].1[j])) by {
        assert forall|j: int| 0 <= j < pairs[i].0.len() implies unreserved(
            #[trigger] pairs[i].0[j],
        ) by {
            assert(plain_char(pairs[i].0[j]));
        }
        assert forall|j: int| 0 <= j < pairs[i].1.len() implies unreserved(
            #[trigger] pairs[i].1[j],
        ) by {
            assert(plain_char(pairs[i].1[j]));
        }
    }
    assert(literal_path(path));
    assert(literal_pairs(pairs));
    assert forall|i: int|
        0 <= i < pairs.len() && (forall|k: int|
            i < k < pairs.len() ==> (#[trigger] pairs[k]).0 != pairs[i].0) implies to_map(
        pairs,
    ).contains_key((#[trigger] pairs[i]).0) && to_map(pairs)[pairs[i].0] == pairs[i].1 by {
        law_last_pair_stays(pairs, i);
    }
}

/// Any request target is read as the rest of an `http` URL: its path and its query parameters are
/// what a URL parser finds there. A target that is no such rest is itself the path, and it has no
/// query parameters.
pub proof fn law_target_is_read_as_url(
    prepared: PreparedRequest,
    method: Option<Seq<u8>>,
    url: Seq<u8>,
    fields: Seq<(String, Vec<u8>)>,
    body_result: int,
    body: Seq<u8>,
)
    requires
        is_prepared(prepared, method, Some(url), fields, body_result, body),
    ensures
        ({
            let whole = "http://dummy"@ + lossy_text(url);
            let found = prepared.request.query_string_parameters@;
            match url_path(whole) {
                Some(path) => prepared.request.path@ == path && found == to_map(url_query(whole)),
                None => prepared.request.path@ == lossy_text(url) && found.is_empty(),
            }
        }),
{
}

/// A request without a URL asks for `/`, and one without a method is a `GET`. A method in UTF-8
/// reaches the function as it is, and of any other the text that is found in it.
pub proof fn law_method_is_kept(
    prepared: PreparedRequest,
    method: Option<Seq<u8>>,
    url: Option<Seq<u8>>,
    fields: Seq<(String, Vec<u8>)>,
    body_result: int,
    body: Seq<u8>,
)
    requires
        is_prepared(prepared, method, url, fields, body_result, body),
    ensures
        method is None ==> prepared.request.http_method@ == "GET"@,
        method is Some ==> prepared.request.http_method@ == lossy_text(method->0),
        method is Some && valid_utf8(method->0) ==> prepared.request.http_method@ == decode_utf8(
            method->0,
        ),
        url is None ==> prepared.request.path@ == "/"@
            && prepared.request.query_string_parameters@.is_empty(),
{
    if url is None {
        reveal_strlit("/");
        let path = "/"@;
        let none = Seq::<Pair>::empty();
        assert(text_or(url, "/"@) == written_target(path, none));
        assert(literal_path(path));
        assert(literal_pairs(none));
    }
}

/// Whether a header field is called `name`, a name in small ASCII letters, whatever the case.
pub open spec fn is_called(field: Seq<char>, name: Seq<char>) -> bool {
    if is_ascii_chars(field) {
        ascii_lowercase(field) == name
    } else {
        lowercase(field) == name
    }
}

/// The header field that a name leads to is the last that is called so.
proof fn lemma_field_reaches_function(
    prepared: PreparedRequest,
    method: Option<Seq<u8>>,
    url: Option<Seq<u8>>,
    fields: Seq<(String, Vec<u8>)>,
    body_result: int,
    body: Seq<u8>,
    at: int,
    name: Seq<char>,
)
    requires
        is_prepared(prepared, method, url, fields, body_result, body),
        0 <= at < fields.len(),
        is_called(fields[at].0@, name),
        forall|i: int| at < i < fields.len() ==> !is_called((#[trigger] fields[i]).0@, name),
    ensures
        prepared.request.headers@.contains_key(name),
        prepared.request.headers@[name] == lossy_text(fields[at].1@),
        valid_utf8(fields[at].1@) ==> lossy_text(fields[at].1@) == decode_utf8(fields[at].1@),
{
    let texts = field_texts(fields);
    let pairs = all_lowered(texts);
    assert forall|i: int| 0 <= i < fields.len() implies (#[trigger] pairs[i]).0 == name
        <==> is_called(fields[i].0@, name) by {
        assert(pairs[i] == lowered(texts[i]));
        assert(texts[i].0 == fields[i].0@);
    }
    assert(pairs[at].0 == name);
    assert forall|i: int| at < i < pairs.len() implies (#[trigger] pairs[i]).0 != pairs[at].0 by {
        assert(!is_called(fields[i].0@, name));
    }
    law_last_pair_stays(pairs, at);
    assert(pairs[at].1 == texts[at].1);
    assert(fields[at].1@ == fields[at].1@);
}

/// A header field reaches the function under its name in lower case with its value as it is, if its
/// value is UTF-8 and no later field is called so.
pub proof fn law_header_field_is_kept(
    prepared: PreparedRequest,
    method: Option<Seq<u8>>,
    url: Option<Seq<u8>>,
    fields: Seq<(String, Vec<u8>)>,
    body_result: int,
    body: Seq<u8>,
    at: int,
)
    requires
        is_prepared(prepared, method, url, fields, body_result, body),
        0 <= at < fields.len(),
        is_ascii_chars(fields[at].0@),
        valid_utf8(fields[at].1@),
        forall|i: int|
            at < i < fields.len() ==> !is_called(
                (#[trigger] fields[i]).0@,
                ascii_lowercase(fields[at].0@),
            ),
    ensures
        prepared.request.headers@.contains_key(ascii_lowercase(fields[at].0@)),
        prepared.request.headers@[ascii_lowercase(fields[at].0@)] == decode_utf8(fields[at].1@),
{
    lemma_field_reaches_function(
        prepared,
        method,
        url,
        fields,
        body_result,
        body,
        at,
        ascii_lowercase(fields[at].0@),
    );
}

/// A header field of any value reaches the function as the text that is found in it, and under no
/// other name than one that a field of the request is called by.
pub proof fn law_header_fields_are_those_given(
    prepared: PreparedRequest,
    method: Option<Seq<u8>>,
    url: Option<Seq<u8>>,
    fields: Seq<(String, Vec<u8>)>,
    body_result: int,
    body: Seq<u8>,
    name: Seq<char>,
)
    requires
        is_prepared(prepared, method, url, fields, body_result, body),
    ensures
        prepared.request.headers@.contains_key(name) <==> exists|at: int|
            0 <= at < fields.len() && is_called((#[trigger] fields[at]).0@, name),
        forall|at: int|
            0 <= at < fields.len() && is_called((#[trigger] fields[at]).0@, name) && (forall|i: int|
                at < i < fields.len() ==> !is_called((#[trigger] fields[i]).0@, name))
                ==> prepared.request.headers@[name] == lossy_text(fields[at].1@),
{
    let texts = field_texts(fields);
    let pairs = all_lowered(texts);
    lemma_to_map(pairs);
    assert forall|i: int| 0 <= i < fields.len() implies (#[trigger] pairs[i]).0 == name
        <==> is_called(fields[i].0@, name) by {
        assert(pairs[i] == lowered(texts[i]));
        assert(texts[i].0 == fields[i].0@);
    }
    if prepared.request.headers@.contains_key(name) {
        let at = choose|at: int| 0 <= at < pairs.len() && #[trigger] pairs[at].0 == name;
        assert(is_called(fields[at].0@, name));
    }
    if exists|at: int| 0 <= at < fields.len() && is_called((#[trigger] fields[at]).0@, name) {
        let at = choose|at: int|
            0 <= at < fields.len() && is_called((#[trigger] fields[at]).0@, name);
        assert(pairs[at].0 == name);
    }
    assert forall|at: int|
        0 <= at < fields.len() && is_called((#[trigger] fields[at]).0@, name) && (forall|i: int|
            at < i < fields.len() ==> !is_called((#[trigger] fields[i]).0@, name)) implies
        prepared.request.headers@[name] == lossy_text(fields[at].1@) by {
        lemma_field_reaches_function(prepared, method, url, fields, body_result, body, at, name);
    }
}

/// Whether a content type begins like one of text, whatever the case of its ASCII letters.
pub open spec fn begins_like_text(content_type: Seq<char>) -> bool {
    let lower = ascii_lowercase(content_type);
    ||| "text/"@.is_prefix_of(lower)
    ||| "application/json"@.is_prefix_of(lower)
    ||| "application/javascript"@.is_prefix_of(lower)
    ||| "application/xml"@.is_prefix_of(lower)
    ||| "application/x-www-form-urlencoded"@.is_prefix_of(lower)
}

/// The last `Content-Type` field decides how a body is sent, whatever the other header fields are: as
/// text where it begins like a type of text and the body is UTF-8, and in Base64 where it does not
/// begin so.
pub proof fn law_content_type_decides_encoding(
    prepared: PreparedRequest,
    method: Option<Seq<u8>>,
    url: Option<Seq<u8>>,
    fields: Seq<(String, Vec<u8>)>,
    body_result: int,
    body: Seq<u8>,
    at: int,
)
    requires
        is_prepared(prepared, method, url, fields, body_result, body),
        body_result >= 0,
        body.len() > 0,
        0 <= at < fields.len(),
        is_called(fields[at].0@, "content-type"@),
        forall|i: int|
            at < i < fields.len() ==> !is_called((#[trigger] fields[i]).0@, "content-type"@),
        valid_utf8(fields[at].1@),
        is_ascii_chars(decode_utf8(fields[at].1@)),
    ensures
        begins_like_text(decode_utf8(fields[at].1@)) && valid_utf8(body) ==> {
            &&& !prepared.request.is_base64_encoded
            &&& prepared.request.body@ == decode_utf8(body)
        },
        !begins_like_text(decode_utf8(fields[at].1@)) ==> {
            &&& prepared.request.is_base64_encoded
            &&& prepared.request.body@ == base64_text(body)
        },
{
    let name = "content-type"@;
    lemma_field_reaches_function(prepared, method, url, fields, body_result, body, at, name);
    assert(content_type_of(prepared.request.headers@) == decode_utf8(fields[at].1@));
    if valid_utf8(body) {
        encode_utf8_decode_utf8(prepared.request.body@);
    }
}

/// A text that begins like a longer one begins with what the longer one begins with.
proof fn lemma_beginning_of_beginning(start: Seq<char>, front: Seq<char>, text: Seq<char>)
    requires
        front.is_prefix_of(text),
    ensures
        start.is_prefix_of(front) ==> start.is_prefix_of(text),
        start.is_prefix_of(text) && start.len() <= front.len() ==> start.is_prefix_of(front),
{
    if start.is_prefix_of(front) {
        assert(start =~= text.subrange(0, start.len() as int));
    }
    if start.is_prefix_of(text) && start.len() <= front.len() {
        assert(start =~= front.subrange(0, start.len() as int));
    }
}

/// How a content type begins decides how a body is sent, in whatever bytes the rest is written: as
/// the text that is found in the body where the type begins like one of text, and in Base64 where
/// the first 33 characters, which are as many as the longest beginning has, do not.
pub proof fn law_beginning_of_content_type_decides_encoding(
    prepared: PreparedRequest,
    method: Option<Seq<u8>>,
    url: Option<Seq<u8>>,
    fields: Seq<(String, Vec<u8>)>,
    body_result: int,
    body: Seq<u8>,
    at: int,
    n: int,
)
    requires
        is_prepared(prepared, method, url, fields, body_result, body),
        body_result >= 0,
        body.len() > 0,
        0 <= at < fields.len(),
        is_called(fields[at].0@, "content-type"@),
        forall|i: int|
            at < i < fields.len() ==> !is_called((#[trigger] fields[i]).0@, "content-type"@),
        0 <= n <= lossy_text(fields[at].1@).len(),
        is_ascii_chars(lossy_text(fields[at].1@).take(n)),
    ensures
        begins_like_text(lossy_text(fields[at].1@).take(n)) ==> {
            &&& !prepared.request.is_base64_encoded
            &&& prepared.request.body@ == lossy_text(body)
        },
        !begins_like_text(lossy_text(fields[at].1@).take(n)) && n >= 33 ==> {
            &&& prepared.request.is_base64_encoded
            &&& prepared.request.body@ == base64_text(body)
        },
{
    let name = "content-type"@;
    lemma_field_reaches_function(prepared, method, url, fields, body_result, body, at, name);
    let value = lossy_text(fields[at].1@);
    assert(content_type_of(prepared.request.headers@) == value);
    let front = ascii_lowercase(value.take(n));
    let whole = lowercase(value);
    assert(front.is_prefix_of(whole));
    reveal_strlit("text/");
    reveal_strlit("application/json");
    reveal_strlit("application/javascript");
    reveal_strlit("application/xml");
    reveal_strlit("application/x-www-form-urlencoded");
    lemma_beginning_of_beginning("text/"@, front, whole);
    lemma_beginning_of_beginning("application/json"@, front, whole);
    lemma_beginning_of_beginning("application/javascript"@, front, whole);
    lemma_beginning_of_beginning("application/xml"@, front, whole);
    lemma_beginning_of_beginning("application/x-www-form-urlencoded"@, front, whole);
}

/// Without a `Content-Type` field, a body is sent in Base64.
pub proof fn law_untyped_body_is_sent_in_base64(
    prepared: PreparedRequest,
    method: Option<Seq<u8>>,
    url: Option<Seq<u8>>,
    fields: Seq<(String, Vec<u8>)>,
    body_result: int,
    body: Seq<u8>,
)
    requires
        is_prepared(prepared, method, url, fields, body_result, body),
        body_result >= 0,
        body.len() > 0,
        forall|i: int|
            0 <= i < fields.len() ==> !is_called((#[trigger] fields[i]).0@, "content-type"@),
    ensures
        prepared.request.is_base64_encoded,
        prepared.request.body@ == base64_text(body),
{
    let name = "content-type"@;
    let texts = field_texts(fields);
    let pairs = all_lowered(texts);
    lemma_to_map(pairs);
    if prepared.request.headers@.contains_key(name) {
        let i = choose|i: int| 0 <= i < pairs.len() && #[trigger] pairs[i].0 == name;
        assert(pairs[i] == lowered(texts[i]));
        assert(texts[i].0 == fields[i].0@);
        assert(!is_called(fields[i].0@, name));
    }
    reveal_strlit("");
    reveal_strlit("text/");
    reveal_strlit("application/json");
    reveal_strlit("application/javascript");
    reveal_strlit("application/xml");
    reveal_strlit("application/x-www-form-urlencoded");
    assert(content_type_of(prepared.request.headers@) == ""@);
    assert(is_ascii_chars(""@));
    assert(ascii_lowercase(""@).len() == 0);
}

/// A body that is empty or could not be collected is sent as an empty text.
pub proof fn law_missing_body_is_sent_as_empty_text(
    prepared: PreparedRequest,
    method: Option<Seq<u8>>,
    url: Option<Seq<u8>>,
    fields: Seq<(String, Vec<u8>)>,
    body_result: int,
    body: Seq<u8>,
)
    requires
        is_prepared(prepared, method, url, fields, body_result, body),
        body_result < 0 || body.len() == 0,
    ensures
        !prepared.request.is_base64_encoded,
        prepared.request.body@.len() == 0,
        prepared.body_bytes == 0,
{
}

/// The bytes that count as sent are those of the header fields as they would be written, with their
/// line endings, and those of the body as it is sent.
pub proof fn law_sent_bytes_are_those_written(
    prepared: PreparedRequest,
    method: Option<Seq<u8>>,
    url: Option<Seq<u8>>,
    fields: Seq<(String, Vec<u8>)>,
    body_result: int,
    body: Seq<u8>,
)
    requires
        is_prepared(prepared, method, url, fields, body_result, body),
    ensures
        prepared.header_bytes as int == encode_utf8(
            with_line_endings(header_lines(field_texts(fields))),
        ).len() as int % 0x1_0000_0000_0000_0000,
        prepared.body_bytes == encode_utf8(prepared.request.body@).len(),
{
    law_fields_count_as_written(field_texts(fields));
}

} // verus!
