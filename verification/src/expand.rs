//! From a token to the digest of the message it denotes, in each of the three
//! forms in which the digest is handed out.

use crate::digest::{digest, sha1_of};
use crate::encoding::{
    base64_no_pad_encode, base64_no_pad_of, byte_array, hex_encode, hex_of, is_base64_char,
    is_lower_hex,
};
use crate::input::{Input, ParseError, Token, TokenView};
use vstd::prelude::*;
use vstd::utf8::encode_utf8;

verus! {

/// Digests the message that `token` denotes and hands the digest to `render`.
///
/// A token that is neither a string literal nor a byte-string literal is
/// turned down, and `render` is then not called on any digest. A message too
/// long to have a digest is left out: [`Token::digestible`] tells.
pub fn sha1_impl<T, F: FnOnce(&[u8; 20]) -> T>(token: Token, render: F) -> (result: Result<
    T,
    ParseError,
>)
    requires
        token@.digestible(),
        forall|bytes: &[u8; 20]| render.requires((bytes,)),
    ensures
        match token@.message() {
            Some(message) => result is Ok && exists|bytes: &[u8; 20]|
                bytes@ == sha1_of(message) && #[trigger] render.ensures((bytes,), result->Ok_0),
            None => result is Err && result->Err_0 == ParseError::ExpectedLiteral,
        },
{
    match Input::parse(token) {
        Ok(input) => {
            let message = input.to_bytes();
            let hash = digest(message.as_slice());
            let rendered = render(&hash);
            let result = Ok(rendered);
            proof {
                assert(render.ensures((&hash,), result->Ok_0));
            }
            result
        },
        Err(error) => Err(error),
    }
}

/// The SHA-1 digest of the message that `token` denotes, as forty lowercase
/// hexadecimal digits.
pub fn sha1_hex(token: Token) -> (result: Result<String, ParseError>)
    requires
        token@.digestible(),
    ensures
        match token@.message() {
            Some(message) => result is Ok && result->Ok_0@ == hex_of(sha1_of(message))
                && result->Ok_0@.len() == 40 && forall|index: int|
                0 <= index < 40 ==> is_lower_hex(#[trigger] result->Ok_0@[index]),
            None => result is Err && result->Err_0 == ParseError::ExpectedLiteral,
        },
{
    sha1_impl(token, hex_encode)
}

/// The SHA-1 digest of the message that `token` denotes, as twenty-seven
/// characters of unpadded base64 over the standard alphabet.
pub fn sha1_base64(token: Token) -> (result: Result<String, ParseError>)
    requires
        token@.digestible(),
    ensures
        match token@.message() {
            Some(message) => result is Ok && result->Ok_0@ == base64_no_pad_of(sha1_of(message))
                && result->Ok_0@.len() == 27 && forall|index: int|
                0 <= index < 27 ==> is_base64_char(#[trigger] result->Ok_0@[index])
                    && result->Ok_0@[index] != '=',
            None => result is Err && result->Err_0 == ParseError::ExpectedLiteral,
        },
{
    sha1_impl(token, base64_no_pad_encode)
}

/// The SHA-1 digest of the message that `token` denotes, as its twenty bytes.
pub fn sha1_bytes(token: Token) -> (result: Result<[u8; 20], ParseError>)
    requires
        token@.digestible(),
    ensures
        match token@.message() {
            Some(message) => result is Ok && result->Ok_0@ == sha1_of(message),
            None => result is Err && result->Err_0 == ParseError::ExpectedLiteral,
        },
{
    sha1_impl(token, byte_array)
}

/// Tokens that denote the same message have the same digest, and so the same
/// hexadecimal and base64 texts, whichever of the two forms each was written
/// in.
pub proof fn lemma_same_message_same_digest(first: TokenView, second: TokenView)
    requires
        first.message() is Some,
        first.message() == second.message(),
    ensures
        sha1_of(first.message()->Some_0) == sha1_of(second.message()->Some_0),
        hex_of(sha1_of(first.message()->Some_0)) == hex_of(sha1_of(second.message()->Some_0)),
        base64_no_pad_of(sha1_of(first.message()->Some_0)) == base64_no_pad_of(
            sha1_of(second.message()->Some_0),
        ),
{
}

/// A string literal and the byte-string literal that spells out its UTF-8
/// encoding denote the same message.
pub proof fn lemma_text_and_utf8_bytes_agree(text: Seq<char>)
    ensures
        TokenView::Str(text).message() == TokenView::ByteStr(encode_utf8(text)).message(),
        TokenView::Str(text).message() == Some(encode_utf8(text)),
{
}

} // verus!
