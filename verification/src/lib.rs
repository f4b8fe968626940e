//! Encoding and decoding of zbase32, the human-oriented base-32 encoding.
//!
//! Bytes are read as a stream of bits, most significant bit first, and every
//! 5 bits are written as one of 32 symbols. Lengths are counted in bits, so
//! that data need not end on a byte boundary.
//!
//! The codec is strict: whitespace is no symbol of the alphabet, and a space,
//! a tab or a newline among the symbols is an invalid digit like any other
//! byte outside the alphabet.

pub mod alphabet;
pub mod bits;
pub mod decode;
pub mod encode;
pub mod laws;
pub mod model;
pub mod text;
pub mod validate;
pub mod window;

pub use alphabet::{value_of_digit, ALPHABET};
pub use decode::{decode, decode_full_bytes, decode_full_bytes_str, decode_str};
pub use encode::{encode, encode_full_bytes};
pub use validate::{validate, validate_str};
