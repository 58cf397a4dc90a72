//! The two texts in which a digest is written: lowercase hexadecimal and
//! unpadded base64 over the standard alphabet.

use base64::engine::general_purpose::STANDARD_NO_PAD;
use base64::Engine;
use vstd::prelude::*;

verus! {

/// The sixteen lowercase hexadecimal digits, in order of value.
pub open spec fn hex_digits() -> Seq<char> {
    "0123456789abcdef"@
}

/// The sixty-four characters of the standard base64 alphabet, in order of
/// value.
pub open spec fn base64_alphabet() -> Seq<char> {
    "ABCDEFGHIJKLMNOPQRSTUVWXYZabcdefghijklmnopqrstuvwxyz0123456789+/"@
}

/// Whether `c` is one of `0`-`9`, `a`-`f`.
pub open spec fn is_lower_hex(c: char) -> bool {
    ('0' <= c && c <= '9') || ('a' <= c && c <= 'f')
}

/// Whether `c` is one of `A`-`Z`, `a`-`z`, `0`-`9`, `+`, `/`.
pub open spec fn is_base64_char(c: char) -> bool {
    ('A' <= c && c <= 'Z') || ('a' <= c && c <= 'z') || ('0' <= c && c <= '9') || c == '+' || c
        == '/'
}

/// The four-bit value that the character at `index` of the hexadecimal text
/// of `data` stands for: the high half of a byte at even positions, the low
/// half at odd ones.
pub open spec fn nibble(data: Seq<u8>, index: int) -> u8
    recommends
        0 <= index < 2 * data.len(),
{
    if index % 2 == 0 {
        data[index / 2] >> 4
    } else {
        data[index / 2] & 0x0f
    }
}

/// Lowercase hexadecimal text of `data`: two digits for each byte, the high
/// half first.
pub open spec fn hex_of(data: Seq<u8>) -> Seq<char> {
    Seq::new(2 * data.len(), |index: int| hex_digits()[nibble(data, index) as int])
}

/// The byte at `index` of `data`, and zero beyond its end.
pub open spec fn byte_or_zero(data: Seq<u8>, index: int) -> u8 {
    if 0 <= index < data.len() {
        data[index]
    } else {
        0
    }
}

/// The six-bit value that the character at `index` of the base64 text of
/// `data` stands for. Every three bytes give four such values, taken from
/// their twenty-four bits from the most significant end; bits beyond the end
/// of `data` count as zero.
pub open spec fn sextet(data: Seq<u8>, index: int) -> u8 {
    let first = byte_or_zero(data, 3 * (index / 4));
    let second = byte_or_zero(data, 3 * (index / 4) + 1);
    let third = byte_or_zero(data, 3 * (index / 4) + 2);
    if index % 4 == 0 {
        first >> 2
    } else if index % 4 == 1 {
        ((first & 0x03) << 4) | (second >> 4)
    } else if index % 4 == 2 {
        ((second & 0x0f) << 2) | (third >> 6)
    } else {
        third & 0x3f
    }
}

/// Number of characters in the unpadded base64 text of `len` bytes: four for
/// every three bytes, then two for one byte left over or three for two.
pub open spec fn base64_no_pad_len(len: nat) -> nat {
    4 * (len / 3) + if len % 3 == 0 {
        0nat
    } else {
        len % 3 + 1
    }
}

/// Unpadded base64 text of `data` over the standard alphabet.
pub open spec fn base64_no_pad_of(data: Seq<u8>) -> Seq<char> {
    Seq::new(
        base64_no_pad_len(data.len()),
        |index: int| base64_alphabet()[sextet(data, index) as int],
    )
}

/// Calls `hex::encode`.
///
/// Trusted: the text holds two characters for each byte of `data`, in order,
/// the first taken from the table `0123456789abcdef` at the byte's high four
/// bits and the second at its low four bits.
#[verifier::external_body]
fn hex_text(data: &[u8; 20]) -> (result: String)
    ensures
        result@ == hex_of(data@),
{
    hex::encode(data)
}

/// Calls `Engine::encode` of the `base64` crate on its engine
/// `STANDARD_NO_PAD`.
///
/// Trusted: the text holds four characters for every full group of three
/// bytes and two or three for a last group of one or two bytes, each taken
/// from the standard alphabet at the six bits it stands for, with no padding
/// character after them. Twenty bytes are far below the length at which the
/// outside function gives up.
#[verifier::external_body]
fn base64_no_pad_text(data: &[u8; 20]) -> (result: String)
    ensures
        result@ == base64_no_pad_of(data@),
{
    STANDARD_NO_PAD.encode(data)
}

/// Every hexadecimal digit of the table is one of `0`-`9`, `a`-`f`.
pub proof fn lemma_hex_digits_lower(value: u8)
    requires
        value < 16,
    ensures
        is_lower_hex(hex_digits()[value as int]),
{
    reveal_strlit("0123456789abcdef");
}

/// The hexadecimal text of any bytes has two characters for each byte, and
/// each of its characters is one of `0`-`9`, `a`-`f`.
pub proof fn lemma_hex_shape(data: Seq<u8>)
    ensures
        hex_of(data).len() == 2 * data.len(),
        forall|index: int|
            0 <= index < hex_of(data).len() ==> is_lower_hex(#[trigger] hex_of(data)[index]),
{
    assert forall|index: int| 0 <= index < hex_of(data).len() implies is_lower_hex(
        #[trigger] hex_of(data)[index],
    ) by {
        let byte = data[index / 2];
        assert(byte >> 4 < 16) by (bit_vector);
        assert(byte & 0x0f < 16) by (bit_vector);
        lemma_hex_digits_lower(nibble(data, index));
    }
}

/// Lowercase hexadecimal text of a digest: forty characters, each one of
/// `0`-`9`, `a`-`f`, two for each byte with the high half first.
pub fn hex_encode(digest: &[u8; 20]) -> (result: String)
    ensures
        result@ == hex_of(digest@),
        result@.len() == 40,
        forall|index: int| 0 <= index < 40 ==> is_lower_hex(#[trigger] result@[index]),
{
    proof {
        lemma_hex_shape(digest@);
    }
    hex_text(digest)
}

/// Every character of the standard alphabet is one of `A`-`Z`, `a`-`z`,
/// `0`-`9`, `+`, `/`.
pub proof fn lemma_base64_alphabet_chars(value: u8)
    requires
        value < 64,
    ensures
        is_base64_char(base64_alphabet()[value as int]),
{
    reveal_strlit("ABCDEFGHIJKLMNOPQRSTUVWXYZabcdefghijklmnopqrstuvwxyz0123456789+/");
}

/// Every six-bit value of a base64 text is below sixty-four.
pub proof fn lemma_sextet_bound(data: Seq<u8>, index: int)
    ensures
        sextet(data, index) < 64,
{
    let first = byte_or_zero(data, 3 * (index / 4));
    let second = byte_or_zero(data, 3 * (index / 4) + 1);
    let third = byte_or_zero(data, 3 * (index / 4) + 2);
    assert(first >> 2 < 64) by (bit_vector);
    assert(((first & 0x03) << 4) | (second >> 4) < 64) by (bit_vector);
    assert(((second & 0x0f) << 2) | (third >> 6) < 64) by (bit_vector);
    assert(third & 0x3f < 64) by (bit_vector);
}

/// The unpadded base64 text of any bytes has the length that
/// `base64_no_pad_len` gives, which is never one more than a multiple of
/// four; each of its characters belongs to the standard alphabet, so none is
/// the padding character `=`.
pub proof fn lemma_base64_no_pad_shape(data: Seq<u8>)
    ensures
        base64_no_pad_of(data).len() == base64_no_pad_len(data.len()),
        base64_no_pad_len(data.len()) % 4 != 1,
        forall|index: int|
            0 <= index < base64_no_pad_of(data).len() ==> is_base64_char(
                #[trigger] base64_no_pad_of(data)[index],
            ),
        forall|index: int|
            0 <= index < base64_no_pad_of(data).len() ==> #[trigger] base64_no_pad_of(data)[index]
                != '=',
{
    assert forall|index: int| 0 <= index < base64_no_pad_of(data).len() implies is_base64_char(
        #[trigger] base64_no_pad_of(data)[index],
    ) by {
        lemma_sextet_bound(data, index);
        lemma_base64_alphabet_chars(sextet(data, index));
    }
}

/// Unpadded base64 text of a digest over the standard alphabet: twenty-seven
/// characters, none of them `=`. The last character carries the four low bits
/// of the last byte, followed by two zero bits.
pub fn base64_no_pad_encode(digest: &[u8; 20]) -> (result: String)
    ensures
        result@ == base64_no_pad_of(digest@),
        result@.len() == 27,
        forall|index: int| 0 <= index < 27 ==> is_base64_char(#[trigger] result@[index]),
        forall|index: int| 0 <= index < 27 ==> #[trigger] result@[index] != '=',
{
    proof {
        lemma_base64_no_pad_shape(digest@);
    }
    base64_no_pad_text(digest)
}

/// The digest as an array of its own, byte for byte.
pub fn byte_array(digest: &[u8; 20]) -> (result: [u8; 20])
    ensures
        result@ == digest@,
{
    *digest
}

/// The value that a lowercase hexadecimal digit stands for.
pub open spec fn hex_value(c: char) -> int {
    if '0' <= c && c <= '9' {
        c as int - '0' as int
    } else {
        c as int - 'a' as int + 10
    }
}

/// The value that a character of the standard base64 alphabet stands for.
pub open spec fn base64_value(c: char) -> int {
    if 'A' <= c && c <= 'Z' {
        c as int - 'A' as int
    } else if 'a' <= c && c <= 'z' {
        c as int - 'a' as int + 26
    } else if '0' <= c && c <= '9' {
        c as int - '0' as int + 52
    } else if c == '+' {
        62
    } else {
        63
    }
}

/// Each digit of the hexadecimal table stands for its own position.
pub proof fn lemma_hex_value_of_digit(value: u8)
    requires
        value < 16,
    ensures
        hex_value(hex_digits()[value as int]) == value,
{
    reveal_strlit("0123456789abcdef");
}

/// Each character of the standard alphabet stands for its own position.
pub proof fn lemma_base64_value_of_char(value: u8)
    requires
        value < 64,
    ensures
        base64_value(base64_alphabet()[value as int]) == value,
{
    reveal_strlit("ABCDEFGHIJKLMNOPQRSTUVWXYZabcdefghijklmnopqrstuvwxyz0123456789+/");
}

/// The hexadecimal text gives the bytes back: the byte at `index` is sixteen
/// times the value of its first digit plus the value of its second.
pub proof fn lemma_hex_decodes(data: Seq<u8>, index: int)
    requires
        0 <= index < data.len(),
    ensures
        data[index] == 16 * hex_value(hex_of(data)[2 * index]) + hex_value(
            hex_of(data)[2 * index + 1],
        ),
{
    let byte = data[index];
    assert(byte >> 4 < 16 && byte & 0x0f < 16 && byte == 16 * (byte >> 4) + (byte & 0x0f))
        by (bit_vector);
    assert(nibble(data, 2 * index) == byte >> 4);
    assert(nibble(data, 2 * index + 1) == byte & 0x0f);
    lemma_hex_value_of_digit(byte >> 4);
    lemma_hex_value_of_digit(byte & 0x0f);
}

/// Different bytes never have the same hexadecimal text.
pub proof fn lemma_hex_injective(first: Seq<u8>, second: Seq<u8>)
    requires
        hex_of(first) == hex_of(second),
    ensures
        first == second,
{
    assert(hex_of(first).len() == 2 * first.len());
    assert(hex_of(second).len() == 2 * second.len());
    assert forall|index: int| 0 <= index < first.len() implies first[index] == second[index] by {
        lemma_hex_decodes(first, index);
        lemma_hex_decodes(second, index);
    }
    assert(first =~= second);
}

/// The byte at `index` that a base64 text stands for. Within its group of
/// four characters, the first byte takes the first character's six bits and
/// the next one's high two, the second byte the low four of the second and
/// the high four of the third, the third byte the low two of the third and
/// the six of the fourth.
pub open spec fn base64_decoded_byte(text: Seq<char>, index: int) -> int {
    let start = 4 * (index / 3);
    if index % 3 == 0 {
        4 * base64_value(text[start]) + base64_value(text[start + 1]) / 16
    } else if index % 3 == 1 {
        16 * (base64_value(text[start + 1]) % 16) + base64_value(text[start + 2]) / 4
    } else {
        64 * (base64_value(text[start + 2]) % 4) + base64_value(text[start + 3])
    }
}

/// Three bytes are given back by the four six-bit values made of them.
proof fn lemma_sextets_give_bytes(first: u8, second: u8, third: u8)
    ensures
        first == 4 * (first >> 2) + (((first & 0x03) << 4) | (second >> 4)) / 16,
        second == 16 * ((((first & 0x03) << 4) | (second >> 4)) % 16) + (((second & 0x0f) << 2) | (
        third >> 6)) / 4,
        third == 64 * ((((second & 0x0f) << 2) | (third >> 6)) % 4) + (third & 0x3f),
{
    assert(first == 4 * (first >> 2) + (((first & 0x03) << 4) | (second >> 4)) / 16)
        by (bit_vector);
    assert(second == 16 * ((((first & 0x03) << 4) | (second >> 4)) % 16) + (((second & 0x0f) << 2)
        | (third >> 6)) / 4) by (bit_vector);
    assert(third == 64 * ((((second & 0x0f) << 2) | (third >> 6)) % 4) + (third & 0x3f))
        by (bit_vector);
}

/// The unpadded base64 text gives the bytes back.
pub proof fn lemma_base64_decodes(data: Seq<u8>, index: int)
    requires
        0 <= index < data.len(),
    ensures
        data[index] == base64_decoded_byte(base64_no_pad_of(data), index),
{
    let text = base64_no_pad_of(data);
    let group = index / 3;
    let start = 4 * group;
    let first = byte_or_zero(data, 3 * group);
    let second = byte_or_zero(data, 3 * group + 1);
    let third = byte_or_zero(data, 3 * group + 2);
    lemma_sextets_give_bytes(first, second, third);
    assert(base64_no_pad_len(data.len()) == text.len());
    assert forall|offset: int| 0 <= offset < 4 && start + offset < text.len() implies base64_value(
        #[trigger] text[start + offset],
    ) == sextet(data, start + offset) by {
        lemma_sextet_bound(data, start + offset);
        lemma_base64_value_of_char(sextet(data, start + offset));
    }
    assert((start + 0) / 4 == group && (start + 1) / 4 == group && (start + 2) / 4 == group && (
    start + 3) / 4 == group);
    if index % 3 == 0 {
        assert(start + 1 < text.len());
        assert(base64_value(text[start + 0]) == sextet(data, start + 0));
        assert(base64_value(text[start + 1]) == sextet(data, start + 1));
    } else if index % 3 == 1 {
        assert(start + 2 < text.len());
        assert(base64_value(text[start + 1]) == sextet(data, start + 1));
        assert(base64_value(text[start + 2]) == sextet(data, start + 2));
    } else {
        assert(start + 3 < text.len());
        assert(base64_value(text[start + 2]) == sextet(data, start + 2));
        assert(base64_value(text[start + 3]) == sextet(data, start + 3));
    }
}

/// Different bytes never have the same unpadded base64 text.
pub proof fn lemma_base64_injective(first: Seq<u8>, second: Seq<u8>)
    requires
        base64_no_pad_of(first) == base64_no_pad_of(second),
    ensures
        first == second,
{
    assert(base64_no_pad_of(first).len() == base64_no_pad_len(first.len()));
    assert(base64_no_pad_of(second).len() == base64_no_pad_len(second.len()));
    assert(first.len() == second.len());
    assert forall|index: int| 0 <= index < first.len() implies first[index] == second[index] by {
        lemma_base64_decodes(first, index);
        lemma_base64_decodes(second, index);
    }
    assert(first =~= second);
}

} // verus!
