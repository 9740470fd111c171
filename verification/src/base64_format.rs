//! Base64 texts: what they look like, and what they stand for.

use crate::outside::base64_error_text;
use vstd::arithmetic::div_mod::{lemma_div_denominator, lemma_fundamental_div_mod};
use vstd::prelude::*;
use vstd::utf8::{encode_utf8, encode_utf8_decode_utf8, is_ascii_chars};

verus! {

/// The character for six bits in the standard alphabet of Base64.
pub open spec fn base64_char(bits: int) -> char {
    if bits < 26 {
        (65 + bits) as u8 as char
    } else if bits < 52 {
        (97 + bits - 26) as u8 as char
    } else if bits < 62 {
        (48 + bits - 52) as u8 as char
    } else if bits == 62 {
        '+'
    } else {
        '/'
    }
}

/// The byte at a position, or zero behind the end.
pub open spec fn byte_or_zero(bytes: Seq<u8>, at: int) -> int {
    if at < bytes.len() {
        bytes[at] as int
    } else {
        0
    }
}

/// The six bits that the character at a position of a Base64 text stands for: a quarter of the three
/// bytes that its group of four characters stands for.
pub open spec fn base64_bits(bytes: Seq<u8>, at: int) -> int {
    let first = at / 4 * 3;
    let group = 65536 * byte_or_zero(bytes, first) + 256 * byte_or_zero(bytes, first + 1)
        + byte_or_zero(bytes, first + 2);
    if at % 4 == 0 {
        group / 262144
    } else if at % 4 == 1 {
        group / 4096 % 64
    } else if at % 4 == 2 {
        group / 64 % 64
    } else {
        group % 64
    }
}

/// Whether the character at a position of the Base64 text of so many bytes is padding: no bit of a
/// byte is left for it.
pub open spec fn is_padding(len: nat, at: int) -> bool {
    8 * len <= 6 * at
}

/// The Base64 text of bytes, in the standard alphabet and with padding: four characters for every
/// three bytes that are begun, and `=` where no bit of a byte is left.
pub open spec fn base64_text(bytes: Seq<u8>) -> Seq<char> {
    Seq::new(
        (bytes.len() + 2) / 3 * 4,
        |at: int|
            if is_padding(bytes.len(), at) {
                '='
            } else {
                base64_char(base64_bits(bytes, at))
            },
    )
}

/// Whether so many bytes have a Base64 text that fits into memory.
pub open spec fn base64_fits(len: nat) -> bool {
    (len + 2) / 3 * 4 <= isize::MAX
}

/// Whether a text, in UTF-8, is the Base64 text of bytes.
pub open spec fn is_base64_of(text: Seq<u8>, bytes: Seq<u8>) -> bool {
    text == encode_utf8(base64_text(bytes))
}

/// Whether a text, in UTF-8, is a Base64 text.
pub open spec fn is_base64(text: Seq<u8>) -> bool {
    exists|bytes: Seq<u8>| #[trigger] is_base64_of(text, bytes)
}

/// The bytes that a text stands for, or the wording of what is wrong with it.
pub type Decoded = Result<Seq<u8>, Seq<char>>;

/// What a text decodes to: the bytes whose Base64 text it is, or the wording of what is wrong.
pub open spec fn base64_decoded(text: Seq<u8>) -> Decoded {
    if is_base64(text) {
        Decoded::Ok(choose|bytes: Seq<u8>| #[trigger] is_base64_of(text, bytes))
    } else {
        Decoded::Err(base64_error_text(text))
    }
}

/// Six bits are below 64.
proof fn lemma_base64_bits(bytes: Seq<u8>, at: int)
    requires
        0 <= at,
    ensures
        0 <= base64_bits(bytes, at) < 64,
{
}

/// A Base64 text is in ASCII.
pub proof fn lemma_base64_text_is_ascii(bytes: Seq<u8>)
    ensures
        is_ascii_chars(base64_text(bytes)),
{
    assert forall|i: int| 0 <= i < base64_text(bytes).len() implies '\0'
        <= #[trigger] base64_text(bytes)[i] <= '\u{7f}' by {
        lemma_base64_bits(bytes, i);
    }
}

/// The characters of the alphabet differ from each other and from the padding.
proof fn lemma_base64_char(one: int, other: int)
    requires
        0 <= one < 64,
        0 <= other < 64,
    ensures
        base64_char(one) == base64_char(other) ==> one == other,
        base64_char(one) != '=',
{
}

/// A number is put together from its quarters of six bits.
proof fn lemma_quarters(group: int)
    requires
        0 <= group,
    ensures
        group == 262144 * (group / 262144) + 4096 * (group / 4096 % 64) + 64 * (group / 64 % 64)
            + group % 64,
{
    lemma_div_denominator(group, 64, 64);
    lemma_div_denominator(group, 4096, 64);
    lemma_fundamental_div_mod(group, 64);
    lemma_fundamental_div_mod(group / 64, 64);
    lemma_fundamental_div_mod(group / 4096, 64);
}

/// A number that is put together from three bytes tells the bytes.
proof fn lemma_thirds(a0: int, a1: int, a2: int, b0: int, b1: int, b2: int)
    requires
        0 <= a0 < 256,
        0 <= a1 < 256,
        0 <= a2 < 256,
        0 <= b0 < 256,
        0 <= b1 < 256,
        0 <= b2 < 256,
        65536 * a0 + 256 * a1 + a2 == 65536 * b0 + 256 * b1 + b2,
    ensures
        a0 == b0,
        a1 == b1,
        a2 == b2,
{
}

/// The four characters of a group tell its three bytes.
#[verifier::spinoff_prover]
proof fn lemma_base64_group(one: Seq<u8>, other: Seq<u8>, group: int)
    requires
        0 <= group,
        forall|k: int|
            0 <= k < 4 ==> #[trigger] base64_bits(one, 4 * group + k) == base64_bits(
                other,
                4 * group + k,
            ),
    ensures
        forall|k: int|
            0 <= k < 3 ==> #[trigger] byte_or_zero(one, 3 * group + k) == byte_or_zero(
                other,
                3 * group + k,
            ),
{
    assert(base64_bits(one, 4 * group + 0) == base64_bits(other, 4 * group + 0));
    assert(base64_bits(one, 4 * group + 1) == base64_bits(other, 4 * group + 1));
    assert(base64_bits(one, 4 * group + 2) == base64_bits(other, 4 * group + 2));
    assert(base64_bits(one, 4 * group + 3) == base64_bits(other, 4 * group + 3));
    let a0 = byte_or_zero(one, 3 * group);
    let a1 = byte_or_zero(one, 3 * group + 1);
    let a2 = byte_or_zero(one, 3 * group + 2);
    let b0 = byte_or_zero(other, 3 * group);
    let b1 = byte_or_zero(other, 3 * group + 1);
    let b2 = byte_or_zero(other, 3 * group + 2);
    lemma_quarters(65536 * a0 + 256 * a1 + a2);
    lemma_quarters(65536 * b0 + 256 * b1 + b2);
    lemma_thirds(a0, a1, a2, b0, b1, b2);
}

/// Behind the last character there are no bits.
proof fn lemma_no_bits_behind(bytes: Seq<u8>, at: int)
    requires
        is_padding(bytes.len(), at),
    ensures
        base64_bits(bytes, at) == 0,
{
    let first = at / 4 * 3;
    assert(byte_or_zero(bytes, first + 2) == 0);
}

/// A Base64 text is the text of one sequence of bytes only.
#[verifier::spinoff_prover]
pub proof fn law_base64_text_tells_bytes(one: Seq<u8>, other: Seq<u8>)
    requires
        base64_text(one) == base64_text(other),
    ensures
        one == other,
{
    let text = base64_text(one);
    assert(base64_text(other).len() == text.len());
    assert forall|at: int| 0 <= at < text.len() implies #[trigger] is_padding(one.len(), at)
        == is_padding(other.len(), at) && base64_bits(one, at) == base64_bits(other, at) by {
        lemma_base64_bits(one, at);
        lemma_base64_bits(other, at);
        lemma_base64_char(base64_bits(one, at), base64_bits(other, at));
        lemma_base64_char(base64_bits(other, at), base64_bits(one, at));
        assert(base64_text(one)[at] == base64_text(other)[at]);
        if is_padding(one.len(), at) {
            lemma_no_bits_behind(one, at);
        }
        if is_padding(other.len(), at) {
            lemma_no_bits_behind(other, at);
        }
    }
    lemma_same_length(one, other);
    assert forall|i: int| 0 <= i < one.len() implies one[i] == other[i] by {
        let group = i / 3;
        assert forall|k: int| 0 <= k < 4 implies #[trigger] base64_bits(one, 4 * group + k)
            == base64_bits(other, 4 * group + k) by {
            assert(4 * group + k < text.len());
            assert(is_padding(one.len(), 4 * group + k) == is_padding(other.len(), 4 * group + k));
        }
        lemma_base64_group(one, other, group);
        assert(byte_or_zero(one, 3 * group + i % 3) == byte_or_zero(other, 3 * group + i % 3));
    }
}

/// Where as many groups are begun and as many characters are no padding, there are as many bytes.
proof fn lemma_same_length(one: Seq<u8>, other: Seq<u8>)
    requires
        (one.len() + 2) / 3 == (other.len() + 2) / 3,
        forall|at: int|
            0 <= at < (one.len() + 2) / 3 * 4 ==> #[trigger] is_padding(one.len(), at)
                == is_padding(other.len(), at),
    ensures
        one.len() == other.len(),
{
    let end = (one.len() + 2) / 3 * 4;
    if end > 0 {
        assert(is_padding(one.len(), end - 1) == is_padding(other.len(), end - 1));
        assert(is_padding(one.len(), end - 2) == is_padding(other.len(), end - 2));
    }
}

/// What is written in Base64 is read back: the Base64 text of bytes decodes to the bytes.
pub proof fn law_base64_is_read_back(text: Seq<u8>, bytes: Seq<u8>)
    requires
        is_base64_of(text, bytes),
    ensures
        base64_decoded(text) == Decoded::Ok(bytes),
{
    let found = choose|found: Seq<u8>| #[trigger] is_base64_of(text, found);
    encode_utf8_decode_utf8(base64_text(bytes));
    encode_utf8_decode_utf8(base64_text(found));
    law_base64_text_tells_bytes(found, bytes);
}

/// The alphabet is the standard one, in its order, and `=` fills up the last group of four.
pub proof fn law_alphabet_is_standard(bytes: Seq<u8>, bits: int)
    requires
        0 <= bits < 64,
    ensures
        base64_char(bits) == "ABCDEFGHIJKLMNOPQRSTUVWXYZabcdefghijklmnopqrstuvwxyz0123456789+/"@[bits],
        bytes.len() % 3 == 1 ==> base64_text(bytes).last() == '=' && base64_text(
            bytes,
        )[base64_text(bytes).len() - 2] == '=',
        bytes.len() % 3 == 2 ==> base64_text(bytes).last() == '=',
{
    reveal_strlit("ABCDEFGHIJKLMNOPQRSTUVWXYZabcdefghijklmnopqrstuvwxyz0123456789+/");
}

} // verus!
