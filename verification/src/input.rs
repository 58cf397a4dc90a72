//! What is accepted as a message: a string literal or a byte-string literal.

use crate::digest::{has_digest, MAX_MESSAGE_LEN};
use vstd::prelude::*;
use vstd::string::StrSliceExecFns;
use vstd::utf8::encode_utf8;

verus! {

/// The token that stands where a message is expected, with the value it
/// denotes where it is a literal of one of the two accepted forms.
#[derive(Debug, PartialEq, Eq)]
pub enum Token {
    /// A string literal and the text it denotes.
    Str(String),
    /// A byte-string literal and the bytes it denotes.
    ByteStr(Vec<u8>),
    /// Anything else, or nothing at all.
    Other,
}

/// A message as it was written: as text or as bytes.
#[derive(Debug, PartialEq, Eq)]
pub enum Input {
    /// The text of a string literal.
    String(String),
    /// The bytes of a byte-string literal.
    Bytes(Vec<u8>),
}

/// Why a token was turned down.
#[derive(Debug, Clone, Copy, PartialEq, Eq, Structural)]
pub enum ParseError {
    /// The token is neither a string literal nor a byte-string literal.
    ExpectedLiteral,
}

/// Mathematical value of a [`Token`].
pub ghost enum TokenView {
    Str(Seq<char>),
    ByteStr(Seq<u8>),
    Other,
}

/// Mathematical value of an [`Input`].
pub ghost enum InputView {
    String(Seq<char>),
    Bytes(Seq<u8>),
}

impl View for Token {
    type V = TokenView;

    open spec fn view(&self) -> TokenView {
        match self {
            Token::Str(text) => TokenView::Str(text@),
            Token::ByteStr(bytes) => TokenView::ByteStr(bytes@),
            Token::Other => TokenView::Other,
        }
    }
}

impl View for Input {
    type V = InputView;

    open spec fn view(&self) -> InputView {
        match self {
            Input::String(text) => InputView::String(text@),
            Input::Bytes(bytes) => InputView::Bytes(bytes@),
        }
    }
}

impl TokenView {
    /// The input that the token denotes, if it is of an accepted form.
    pub open spec fn accepted(self) -> Option<InputView> {
        match self {
            TokenView::Str(text) => Some(InputView::String(text)),
            TokenView::ByteStr(bytes) => Some(InputView::Bytes(bytes)),
            TokenView::Other => None,
        }
    }

    /// The message that the token denotes, if it is of an accepted form.
    pub open spec fn message(self) -> Option<Seq<u8>> {
        match self.accepted() {
            Some(input) => Some(input.bytes()),
            None => None,
        }
    }

    /// Whether the message that the token denotes, if it denotes one, is
    /// short enough to have a SHA-1 digest.
    pub open spec fn digestible(self) -> bool {
        match self.message() {
            Some(message) => has_digest(message),
            None => true,
        }
    }
}

impl Token {
    /// Whether the message that the token denotes, if it denotes one, is
    /// short enough to have a SHA-1 digest.
    pub fn digestible(&self) -> (result: bool)
        ensures
            result == self@.digestible(),
    {
        match self {
            Token::Str(text) => text.as_str().as_bytes().len() as u64 <= MAX_MESSAGE_LEN,
            Token::ByteStr(bytes) => bytes.len() as u64 <= MAX_MESSAGE_LEN,
            Token::Other => true,
        }
    }
}

impl InputView {
    /// The bytes of the message: those of a byte string as they stand, and
    /// the UTF-8 encoding of a text.
    pub open spec fn bytes(self) -> Seq<u8> {
        match self {
            InputView::String(text) => encode_utf8(text),
            InputView::Bytes(bytes) => bytes,
        }
    }
}

/// The text of the error for [`ParseError::ExpectedLiteral`].
pub open spec fn expected_literal_message() -> Seq<char> {
    "expected a string or byte literal"@
}

impl ParseError {
    /// Describes the error; the text names the two accepted forms.
    pub fn message(&self) -> (result: String)
        ensures
            result@ == expected_literal_message(),
    {
        "expected a string or byte literal".to_owned()
    }
}

impl Input {
    /// The bytes of the message. A text is encoded as UTF-8; a byte string is
    /// taken as it stands.
    pub fn to_bytes(&self) -> (result: Vec<u8>)
        ensures
            result@ == self@.bytes(),
    {
        match self {
            Input::String(text) => text.as_str().as_bytes_vec(),
            Input::Bytes(bytes) => bytes.clone(),
        }
    }

    /// Accepts a string literal or a byte-string literal, with the value it
    /// denotes, and turns down every other token.
    pub fn parse(token: Token) -> (result: Result<Input, ParseError>)
        ensures
            match token@.accepted() {
                Some(input) => result is Ok && result->Ok_0@ == input,
                None => result == Err::<Input, ParseError>(ParseError::ExpectedLiteral),
            },
    {
        match token {
            Token::Str(text) => Ok(Input::String(text)),
            Token::ByteStr(bytes) => Ok(Input::Bytes(bytes)),
            Token::Other => Err(ParseError::ExpectedLiteral),
        }
    }
}

} // verus!
