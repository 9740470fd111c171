//! What the library takes from elsewhere: text functions of the standard library, Base64, shared
//! byte buffers and URL parsing. The contracts of this file are taken for granted.

use crate::base64_format::{base64_fits, base64_text, is_base64, is_base64_of};
use crate::string_map::{pair_views, Pair};
use base64::engine::general_purpose::STANDARD;
use base64::Engine;
use bytes::Bytes;
use url::Url;
use vstd::prelude::*;
use vstd::utf8::{decode_utf8, is_ascii_chars, valid_utf8};

verus! {

/// The lowercase equivalent of a text.
pub uninterp spec fn lowercase(text: Seq<char>) -> Seq<char>;

/// An ASCII letter in lower case; any other character as it is.
pub open spec fn ascii_lower(c: char) -> char {
    if 'A' <= c <= 'Z' {
        ((c as u8) + 32) as u8 as char
    } else {
        c
    }
}

/// A text with its ASCII letters in lower case.
pub open spec fn ascii_lowercase(text: Seq<char>) -> Seq<char> {
    Seq::new(text.len(), |i: int| ascii_lower(text[i]))
}

/// `str::to_lowercase`: the lowercase equivalent of the text, a function of the text alone. In ASCII
/// it changes the letters `A` to `Z` and nothing else: of a whole text, and of what a text begins
/// with.
pub assume_specification[ str::to_lowercase ](text: &str) -> (lower: String)
    ensures
        lower@ == lowercase(text@),
        is_ascii_chars(text@) ==> lower@ == ascii_lowercase(text@),
        forall|n: int|
            0 <= n <= text@.len() && is_ascii_chars(#[trigger] text@.take(n)) ==> ascii_lowercase(
                text@.take(n),
            ).is_prefix_of(lower@),
;

/// How the standard library words what is wrong with bytes that are not UTF-8.
pub uninterp spec fn utf8_error_text(bytes: Seq<u8>) -> Seq<char>;

/// `std::str::from_utf8`: the text that the bytes encode, if they are UTF-8; else the wording of
/// the `Utf8Error`, which depends on the bytes alone.
#[verifier::external_body]
pub(crate) fn str_from_utf8(bytes: &[u8]) -> (result: Result<&str, String>)
    ensures
        match result {
            Ok(text) => valid_utf8(bytes@) && text@ == decode_utf8(bytes@),
            Err(error) => !valid_utf8(bytes@) && error@ == utf8_error_text(bytes@),
        },
{
    std::str::from_utf8(bytes).map_err(|error| error.to_string())
}

/// How the standard library words that a vector of bytes makes no string.
pub uninterp spec fn string_error_text(bytes: Seq<u8>) -> Seq<char>;

/// `String::from_utf8`: the string that the bytes encode, if they are UTF-8; else the wording of
/// the `FromUtf8Error`, which depends on the bytes alone.
#[verifier::external_body]
pub(crate) fn string_from_utf8(bytes: Vec<u8>) -> (result: Result<String, String>)
    ensures
        match result {
            Ok(text) => valid_utf8(bytes@) && text@ == decode_utf8(bytes@),
            Err(error) => !valid_utf8(bytes@) && error@ == string_error_text(bytes@),
        },
{
    String::from_utf8(bytes).map_err(|error| error.to_string())
}

/// The text of bytes that need not be UTF-8.
pub uninterp spec fn lossy_text(bytes: Seq<u8>) -> Seq<char>;

/// `String::from_utf8_lossy`: the text of the bytes, with U+FFFD in the place of what is not
/// UTF-8. It depends on the bytes alone, and on UTF-8 it is the text that they encode.
#[verifier::external_body]
pub(crate) fn string_from_utf8_lossy(bytes: &[u8]) -> (text: String)
    ensures
        text@ == lossy_text(bytes@),
        valid_utf8(bytes@) ==> text@ == decode_utf8(bytes@),
{
    String::from_utf8_lossy(bytes).into_owned()
}

/// How an optional string looks when it is printed for debugging.
pub uninterp spec fn debug_text(value: Option<Seq<char>>) -> Seq<char>;

/// The text of an optional string.
pub open spec fn option_view(value: Option<String>) -> Option<Seq<char>> {
    match value {
        Some(text) => Some(text@),
        None => None,
    }
}

/// `Debug` of `Option<String>`: a function of the value alone; `None` is printed as its name.
#[verifier::external_body]
pub(crate) fn debug_option(value: &Option<String>) -> (text: String)
    ensures
        text@ == debug_text(option_view(*value)),
        value is None ==> text@ == "None"@,
{
    format!("{:?}", value)
}

/// How the `base64` crate words what is wrong with a text that is not Base64.
pub uninterp spec fn base64_error_text(text: Seq<u8>) -> Seq<char>;

/// `base64::Engine::encode` of the engine `STANDARD`: the Base64 text of the bytes, as RFC 4648 has
/// it. The engine panics where the text would be longer than memory can hold.
#[verifier::external_body]
pub(crate) fn base64_encode(bytes: &[u8]) -> (text: String)
    requires
        base64_fits(bytes@.len()),
    ensures
        text@ == base64_text(bytes@),
{
    STANDARD.encode(bytes)
}

/// `base64::Engine::decode` of the engine `STANDARD`: the bytes whose Base64 text this is. It takes
/// such texts only, with their padding and without stray bits; for any other text there is the
/// wording of the `DecodeError`, which depends on the text alone.
#[verifier::external_body]
pub(crate) fn base64_decode(text: &[u8]) -> (result: Result<Vec<u8>, String>)
    ensures
        match result {
            Ok(bytes) => is_base64_of(text@, bytes@),
            Err(error) => {
                &&& !is_base64(text@)
                &&& error@ == base64_error_text(text@)
            },
        },
{
    STANDARD.decode(text).map_err(|error| error.to_string())
}

/// `bytes::Bytes`, a shared buffer of bytes that do not change.
#[verifier::external_type_specification]
#[verifier::external_body]
pub struct ExBytes(Bytes);

/// The bytes that a buffer holds.
pub uninterp spec fn content(buffer: Bytes) -> Seq<u8>;

/// `Bytes::len`: how many bytes the buffer holds.
pub assume_specification[ Bytes::len ](buffer: &Bytes) -> (len: usize)
    ensures
        len == content(*buffer).len(),
;

/// `Bytes::copy_from_slice`: a buffer with a copy of the bytes.
pub assume_specification[ Bytes::copy_from_slice ](data: &[u8]) -> (buffer: Bytes)
    ensures
        content(buffer) == data@,
;

/// `From<Vec<u8>>` of `Bytes`: a buffer with the bytes of the vector.
#[verifier::external_body]
pub(crate) fn bytes_from_vec(data: Vec<u8>) -> (buffer: Bytes)
    ensures
        content(buffer) == data@,
{
    Bytes::from(data)
}

/// `AsRef<[u8]>` of `Bytes`: the bytes that the buffer holds.
#[verifier::external_body]
pub(crate) fn bytes_as_slice(buffer: &Bytes) -> (data: &[u8])
    ensures
        data@ == content(*buffer),
{
    buffer.as_ref()
}

/// The path of a URL, if the text is one.
pub uninterp spec fn url_path(text: Seq<char>) -> Option<Seq<char>>;

/// The decoded query parameters of a URL, in their order.
pub uninterp spec fn url_query(text: Seq<char>) -> Seq<Pair>;

/// The path and the query parameters of a URL, if the text is one.
pub open spec fn url_parts(text: Seq<char>) -> Option<(Seq<char>, Seq<Pair>)> {
    match url_path(text) {
        Some(path) => Some((path, url_query(text))),
        None => None,
    }
}

/// Whether a path begins with a slash and holds nothing of a query or a fragment.
pub open spec fn plain_path(path: Seq<char>) -> bool {
    &&& path.len() > 0
    &&& path[0] == '/'
    &&& forall|i: int| 0 <= i < path.len() ==> path[i] != '?' && path[i] != '#'
}

/// Whether a character stands for itself in the name or the value of a query parameter.
pub open spec fn unreserved(c: char) -> bool {
    ||| 'a' <= c <= 'z'
    ||| 'A' <= c <= 'Z'
    ||| '0' <= c <= '9'
    ||| c == '-' || c == '.' || c == '_' || c == '~'
}

/// Whether a character stands for itself in a path.
pub open spec fn path_char(c: char) -> bool {
    ||| unreserved(c)
    ||| c == '/' || c == ':' || c == '@'
    ||| c == '!' || c == '$' || c == '&' || c == '\'' || c == '(' || c == ')'
    ||| c == '*' || c == '+' || c == ',' || c == ';' || c == '='
}

/// Whether a segment of a path ends at a position.
pub open spec fn segment_ends(path: Seq<char>, at: int) -> bool {
    at == path.len() || path[at] == '/'
}

/// Whether `.` or `..` is the segment of a path behind the slash at a position.
pub open spec fn dot_segment(path: Seq<char>, slash: int) -> bool {
    &&& slash + 1 < path.len()
    &&& path[slash + 1] == '.'
    &&& segment_ends(path, slash + 2) || (path[slash + 2] == '.' && segment_ends(path, slash + 3))
}

/// Whether a path stands for itself: it begins with a slash, its characters stand for themselves, and
/// none of its segments is `.` or `..`.
pub open spec fn literal_path(path: Seq<char>) -> bool {
    &&& path.len() > 0
    &&& path[0] == '/'
    &&& forall|i: int| 0 <= i < path.len() ==> path_char(#[trigger] path[i])
    &&& forall|i: int|
        0 <= i < path.len() && #[trigger] path[i] == '/' ==> !dot_segment(path, i)
}

/// Whether the names and values of query parameters stand for themselves.
pub open spec fn literal_pairs(pairs: Seq<Pair>) -> bool {
    forall|i: int|
        0 <= i < pairs.len() ==> (forall|j: int|
            0 <= j < (#[trigger] pairs[i]).0.len() ==> unreserved(#[trigger] pairs[i].0[j])) && (
        forall|j: int| 0 <= j < pairs[i].1.len() ==> unreserved(#[trigger] pairs[i].1[j]))
}

/// Query parameters as they are written: `name=value`, with `&` between them.
pub open spec fn written_pairs(pairs: Seq<Pair>) -> Seq<char>
    decreases pairs.len(),
{
    if pairs.len() == 0 {
        seq![]
    } else {
        let before = written_pairs(pairs.drop_last());
        (if pairs.len() == 1 {
            before
        } else {
            before + seq!['&']
        }) + pairs.last().0 + seq!['='] + pairs.last().1
    }
}

/// A path, and query parameters behind a `?` where there are any.
pub open spec fn written_target(path: Seq<char>, pairs: Seq<Pair>) -> Seq<char> {
    if pairs.len() == 0 {
        path
    } else {
        path + seq!['?'] + written_pairs(pairs)
    }
}

/// Whether a host is a label of small letters.
pub open spec fn literal_host(host: Seq<char>) -> bool {
    &&& 0 < host.len() <= 63
    &&& forall|i: int| 0 <= i < host.len() ==> 'a' <= #[trigger] host[i] <= 'z'
}

/// An `http` URL as it is written.
pub open spec fn written_url(host: Seq<char>, path: Seq<char>, pairs: Seq<Pair>) -> Seq<char> {
    "http://"@ + host + written_target(path, pairs)
}

/// Whether a path and query parameters come out of an `http` URL as they were written, where their
/// characters stand for themselves and the URL is not too long.
pub open spec fn comes_out_as_written(
    text: Seq<char>,
    parts: Option<(String, Vec<(String, String)>)>,
) -> bool {
    forall|host: Seq<char>, path: Seq<char>, pairs: Seq<Pair>|
        text == #[trigger] written_url(host, path, pairs) && text.len() <= u32::MAX && literal_host(
            host,
        ) && literal_path(path) && literal_pairs(pairs) ==> match parts {
            Some((found_path, found_pairs)) => {
                &&& found_path@ == path
                &&& pair_views(found_pairs@) == pairs
            },
            None => false,
        }
}

/// `Url::parse`, and of the URL `Url::path` and `Url::query_pairs`: the path and the decoded query
/// parameters in their order, or nothing where the text is no absolute URL. All of it depends on
/// the text alone. The path of an `http` URL begins with a slash, and holds neither `?` nor `#`. A
/// path and query parameters whose characters stand for themselves come out as they were written;
/// the crate refuses URLs whose length does not fit into 32 bits.
#[verifier::external_body]
pub(crate) fn parse_url(text: &str) -> (parts: Option<(String, Vec<(String, String)>)>)
    ensures
        match parts {
            Some((path, query)) => {
                &&& url_path(text@) == Some(path@)
                &&& url_query(text@) == pair_views(query@)
                &&& "http://"@.is_prefix_of(text@) ==> plain_path(path@)
            },
            None => url_path(text@) is None,
        },
        comes_out_as_written(text@, parts),
{
    match Url::parse(text) {
        Ok(url) => Some((url.path().to_string(), url.query_pairs().into_owned().collect())),
        Err(_) => None,
    }
}

} // verus!
