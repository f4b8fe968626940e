//! What encoding and decoding compute, stated over the bit-stream model.

use vstd::prelude::*;
use crate::alphabet::{all_digits, digit_value_or_zero, symbol_of};
use crate::bits::{bits_of_bytes, bits_of_digits, bytes_of_bits, digit_count, digits_of_bits};

verus! {

/// The symbols that encode the first `n` bits of `data`: the bits are cut into
/// 5-bit digits, the last digit filled up with zero bits, and each digit is
/// replaced by its symbol.
pub open spec fn encoded(data: Seq<u8>, n: nat) -> Seq<u8>
    recommends
        n <= 8 * data.len(),
{
    digits_of_bits(bits_of_bytes(data).take(n as int)).map_values(|v: u8| symbol_of(v))
}

/// The symbols that encode all of `data`.
pub open spec fn encoded_full(data: Seq<u8>) -> Seq<u8> {
    encoded(data, 8 * data.len())
}

/// The 5-bit values of `symbols`, with 0 for a byte that is no digit.
pub open spec fn digit_values(symbols: Seq<u8>) -> Seq<u8> {
    symbols.map_values(|c: u8| digit_value_or_zero(c))
}

/// The bytes that the first `n` bits of `symbols` decode to: the bits of the
/// digits are cut into bytes, the last byte filled up with zero bits.
pub open spec fn decoded(symbols: Seq<u8>, n: nat) -> Seq<u8>
    recommends
        n <= 5 * symbols.len(),
{
    bytes_of_bits(bits_of_digits(digit_values(symbols)).take(n as int))
}

/// The number of bits in the whole bytes that `len` symbols hold.
pub open spec fn full_bits(len: nat) -> nat {
    (5 * len / 8 * 8) as nat
}

/// The whole bytes that `symbols` decode to: bits past the last byte boundary
/// are dropped.
pub open spec fn decoded_full(symbols: Seq<u8>) -> Seq<u8> {
    decoded(symbols, full_bits(symbols.len()))
}

/// How many symbols decoding `n` bits reads, where that many are there: it
/// reads on while the symbols read hold fewer than `n` bits, or fewer than 5
/// bits past the last byte boundary that `n` reaches.
pub open spec fn symbols_wanted(n: nat) -> nat {
    if n % 8 <= 5 {
        digit_count((n - n % 8 + 5) as nat)
    } else {
        digit_count(n)
    }
}

/// How many of `len` symbols decoding `n` bits reads. The symbols after
/// these are ignored, whatever they are.
pub open spec fn symbols_read(len: nat, n: nat) -> nat {
    if symbols_wanted(n) <= len {
        symbols_wanted(n)
    } else {
        len
    }
}

/// Whether decoding `n` bits of `symbols` succeeds: whether every byte that
/// it reads is a symbol of the alphabet.
pub open spec fn decodes(symbols: Seq<u8>, n: nat) -> bool {
    all_digits(symbols.take(symbols_read(symbols.len(), n) as int))
}

/// The first `n` bits of `data`, filled up with zero bits to whole bytes.
pub open spec fn first_bits(data: Seq<u8>, n: nat) -> Seq<u8>
    recommends
        n <= 8 * data.len(),
{
    bytes_of_bits(bits_of_bytes(data).take(n as int))
}

/// Where decoding stops: `symbols_wanted` is the first symbol with which the
/// bits read reach `n`, and before which they reach the last byte boundary
/// that `n` reaches.
pub proof fn lemma_symbols_wanted(n: nat, k: nat)
    ensures
        k >= symbols_wanted(n) <==> (k >= 1 && 5 * k >= n && 5 * (k - 1) >= n - n % 8),
{
}

/// Decoding whole bytes reads every symbol, and the symbols hold the bits.
pub proof fn lemma_full_bits(len: nat)
    ensures
        full_bits(len) <= 5 * len,
        full_bits(len) % 8 == 0,
        symbols_read(len, full_bits(len)) == len,
{
}

/// The bits of `data` fill as many symbols as hold exactly the bytes of
/// `data` as whole bytes.
pub proof fn lemma_full_bits_of_encoded(len: nat)
    ensures
        full_bits(digit_count(8 * len)) == 8 * len,
{
}

} // verus!
