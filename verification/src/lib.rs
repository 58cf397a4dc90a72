//! SHA-1 digests of string and byte-string literals, rendered as lowercase
//! hexadecimal text, as unpadded base64 text, or as the twenty raw bytes.
//!
//! The digest itself is computed by the `sha1` crate and the two texts by the
//! `hex` and `base64` crates; what each of them returns is stated in the module
//! that calls it.

pub mod digest;
pub mod encoding;
pub mod expand;
pub mod input;

pub use crate::digest::digest;
pub use crate::encoding::{base64_no_pad_encode, byte_array, hex_encode};
pub use crate::expand::{sha1_base64, sha1_bytes, sha1_hex, sha1_impl};
pub use crate::input::{Input, ParseError, Token};
