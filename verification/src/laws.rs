//! What holds of encoding, decoding and validation together.

use vstd::prelude::*;
use crate::alphabet::{all_digits, is_digit, lemma_value_of_symbol};
use crate::bits::{
    bits_of_bytes, byte_count, digit_count, digits_of_bits, lemma_bit_of_packed_digit,
    lemma_bits_of_digits_of_bits, lemma_bytes_of_bits_of_bytes,
};
use crate::model::{
    decoded, decoded_full, decodes, digit_values, encoded, encoded_full, first_bits, full_bits,
    lemma_full_bits, lemma_full_bits_of_encoded,
};

verus! {

/// Encoding writes a symbol for every 5 bits, and every one of them is a
/// symbol of the alphabet, standing for the digit that it was written for.
pub proof fn lemma_encoded_digits(data: Seq<u8>, n: nat)
    requires
        n <= 8 * data.len(),
    ensures
        encoded(data, n).len() == digit_count(n),
        all_digits(encoded(data, n)),
        digit_values(encoded(data, n)) == digits_of_bits(bits_of_bytes(data).take(n as int)),
{
    let wanted = bits_of_bytes(data).take(n as int);
    let digits = digits_of_bits(wanted);
    let symbols = encoded(data, n);
    assert forall|j: int| 0 <= j < symbols.len() implies is_digit(#[trigger] symbols[j])
        && digit_values(symbols)[j] == digits[j] by {
        lemma_bit_of_packed_digit(wanted, j, 0);
        lemma_value_of_symbol(digits[j]);
    }
    assert(digit_values(symbols) =~= digits);
}

/// Decoding gives a byte for every 8 bits.
pub proof fn lemma_decoded_len(symbols: Seq<u8>, n: nat)
    requires
        n <= 5 * symbols.len(),
    ensures
        decoded(symbols, n).len() == byte_count(n),
{
}

/// Round trip with bit precision: decoding the `n` bits that were encoded
/// succeeds and gives the first `n` bits of the data, filled up with zero
/// bits to whole bytes.
pub proof fn lemma_decode_encode(data: Seq<u8>, n: nat)
    requires
        n <= 8 * data.len(),
    ensures
        n <= 5 * encoded(data, n).len(),
        decodes(encoded(data, n), n),
        decoded(encoded(data, n), n) == first_bits(data, n),
{
    let wanted = bits_of_bytes(data).take(n as int);
    lemma_encoded_digits(data, n);
    lemma_bits_of_digits_of_bits(wanted);
}

/// Round trip of whole bytes: decoding the whole bytes of what encoding made
/// of `data` succeeds and gives `data` back.
pub proof fn lemma_decode_encode_full(data: Seq<u8>)
    ensures
        all_digits(encoded_full(data)),
        decodes(encoded_full(data), full_bits(encoded_full(data).len())),
        decoded_full(encoded_full(data)) == data,
{
    let n = 8 * data.len();
    lemma_decode_encode(data, n);
    lemma_encoded_digits(data, n);
    lemma_full_bits_of_encoded(data.len());
    assert(bits_of_bytes(data).take(n as int) =~= bits_of_bytes(data));
    lemma_bytes_of_bits_of_bytes(data);
}

/// Validation accepts exactly the symbols whose whole bytes can be decoded.
pub proof fn lemma_valid_iff_decodes_full(symbols: Seq<u8>)
    ensures
        all_digits(symbols) <==> decodes(symbols, full_bits(symbols.len())),
{
    lemma_full_bits(symbols.len());
    assert(symbols.take(symbols.len() as int) =~= symbols);
}

} // verus!
