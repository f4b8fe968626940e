//! Decoding of zbase32 symbols into bytes.

use vstd::prelude::*;
use vstd::string::StringSliceAdditionalSpecFns;
use crate::alphabet::{all_digits, is_digit, value_of_digit, INVALID_DIGIT};
use crate::bits::{bits_of_digits, byte_count, pack_byte};
use crate::model::{
    decoded, decoded_full, decodes, digit_values, lemma_full_bits, lemma_symbols_wanted,
    symbols_read, symbols_wanted,
};
use crate::window::{
    holds_tail, lemma_byte_from_tail, lemma_last_byte_from_tail, lemma_tail_after_digit,
};

verus! {

/// One step of decoding: with symbol `i` read and `done` bytes written, the
/// bits at hand are enough exactly when `i` has reached `symbols_wanted`; and
/// while it has not, a whole byte at hand is one that is still wanted.
proof fn lemma_decode_step(n: nat, i: nat, done: nat)
    requires
        1 <= i <= symbols_wanted(n),
        8 * done <= n,
        8 * done <= 5 * (i - 1) < 8 * done + 8,
    ensures
        (n - 8 * done < 8 && 5 * i >= n) <==> i == symbols_wanted(n),
        i < symbols_wanted(n) && 5 * i - 8 * done >= 8 ==> n - 8 * done >= 8,
{
    lemma_symbols_wanted(n, i);
}

/// Decode the first `bits` bits of the zbase32 symbols in `zbase32`.
///
/// The symbols must hold at least `bits` bits. The result has as many bytes
/// as `bits` bits need; where `bits` is no multiple of 8, the last byte is
/// filled up with zero bits. Decoding reads the first `symbols_read` symbols
/// and fails if one of them is no symbol of the alphabet, whitespace
/// included; what follows them is ignored.
pub fn decode(zbase32: &[u8], bits: u64) -> (res: Result<Vec<u8>, &'static str>)
    requires
        bits <= 5 * zbase32@.len(),
    ensures
        res is Ok <==> decodes(zbase32@, bits as nat),
        res matches Ok(data) ==> data@ == decoded(zbase32@, bits as nat),
        res matches Ok(data) ==> data@.len() == byte_count(bits as nat),
        res matches Err(msg) ==> msg@ == INVALID_DIGIT@,
{
    assert(byte_count(bits as nat) <= zbase32.len());
    let capacity = (if bits % 8 == 0 {
        bits / 8
    } else {
        bits / 8 + 1
    }) as usize;
    assert(capacity == byte_count(bits as nat));
    let mut result: Vec<u8> = Vec::with_capacity(capacity);

    let ghost stream = bits_of_digits(digit_values(zbase32@));
    let ghost wanted = stream.take(bits as int);
    let ghost read = symbols_read(zbase32@.len(), bits as nat);

    let mut bits_remaining = bits;
    let mut buffer_size: u8 = 0;
    let mut buffer: u16 = !0;
    let mut i: usize = 0;
    while i < zbase32.len()
        invariant_except_break
            buffer_size < 8,
            i < symbols_wanted(bits as nat),
        invariant
            i <= zbase32@.len(),
            bits <= 5 * zbase32@.len(),
            stream == bits_of_digits(digit_values(zbase32@)),
            wanted == stream.take(bits as int),
            read == symbols_read(zbase32@.len(), bits as nat),
            8 * result@.len() + bits_remaining == bits,
            buffer_size + 8 * result@.len() == 5 * i,
            buffer_size <= 12,
            forall|j: int| 0 <= j < i ==> is_digit(#[trigger] zbase32@[j]),
            holds_tail(buffer, buffer_size as int, stream, 5 * i),
            forall|j: int|
                0 <= j < result@.len() ==> #[trigger] result@[j] == pack_byte(wanted, j),
        ensures
            bits_remaining < 8,
            bits_remaining <= buffer_size,
            i == read,
        decreases zbase32@.len() - i,
    {
        let value = match value_of_digit(zbase32[i]) {
            Ok(value) => value,
            Err(msg) => {
                proof {
                    let prefix = zbase32@.take(read as int);
                    assert(prefix[i as int] == zbase32@[i as int]);
                }
                return Err(msg);
            },
        };
        proof {
            assert(digit_values(zbase32@)[i as int] == value);
            lemma_tail_after_digit(buffer, buffer_size as int, digit_values(zbase32@), i as int);
            lemma_decode_step(bits as nat, (i + 1) as nat, result@.len());
        }
        buffer = (buffer << 5) | (value as u16);
        buffer_size += 5;
        i += 1;
        if bits_remaining < 8 && buffer_size as u64 >= bits_remaining {
            break;
        }
        if buffer_size >= 8 {
            let byte = #[verifier::truncate]
            ((buffer >> (buffer_size - 8)) as u8);
            proof {
                lemma_byte_from_tail(
                    buffer,
                    buffer_size as int,
                    stream,
                    5 * i,
                    result@.len() as int,
                    bits as int,
                );
            }
            result.push(byte);
            bits_remaining -= 8;
            buffer_size -= 8;
        }
    }
    if bits_remaining > 0 {
        let trim_right = buffer_size - bits_remaining as u8;
        proof {
            lemma_last_byte_from_tail(
                buffer,
                buffer_size as int,
                stream,
                5 * i,
                result@.len() as int,
                bits_remaining as int,
            );
        }
        buffer >>= trim_right;
        buffer_size -= trim_right;
        let byte = #[verifier::truncate]
        ((buffer << (8_u8 - buffer_size)) as u8);
        result.push(byte);
    }
    proof {
        assert(result@ =~= decoded(zbase32@, bits as nat));
        let prefix = zbase32@.take(read as int);
        assert forall|j: int| 0 <= j < prefix.len() implies is_digit(#[trigger] prefix[j]) by {
            assert(prefix[j] == zbase32@[j]);
        }
    }
    Ok(result)
}

/// Decode the whole bytes that the zbase32 symbols in `zbase` hold.
///
/// Just like `decode`, but without bit precision: `zbase` holds 5 bits for
/// each symbol, and the bits past the last byte boundary are dropped, so that
/// `b"yy"`, which holds 10 bits, gives one byte. Every symbol is read, and
/// decoding fails if any of them is no symbol of the alphabet.
#[inline]
pub fn decode_full_bytes(zbase: &[u8]) -> (res: Result<Vec<u8>, &'static str>)
    requires
        5 * zbase@.len() <= u64::MAX,
    ensures
        res is Ok <==> all_digits(zbase@),
        res matches Ok(data) ==> data@ == decoded_full(zbase@),
        res matches Ok(data) ==> data@.len() == 5 * zbase@.len() / 8,
        res matches Err(msg) ==> msg@ == INVALID_DIGIT@,
{
    proof {
        lemma_full_bits(zbase@.len());
        assert(zbase@.take(zbase@.len() as int) =~= zbase@);
    }
    let size = zbase.len() as u64 * 5;
    decode(zbase, size / 8 * 8)
}

/// Decode the first `bits` bits of the zbase32 string `zbase32`.
///
/// Just like `decode`, on the bytes of the string.
#[inline]
pub fn decode_str(zbase32: &str, bits: u64) -> (res: Result<Vec<u8>, &'static str>)
    requires
        bits <= 5 * zbase32.spec_bytes().len(),
    ensures
        res is Ok <==> decodes(zbase32.spec_bytes(), bits as nat),
        res matches Ok(data) ==> data@ == decoded(zbase32.spec_bytes(), bits as nat),
        res matches Ok(data) ==> data@.len() == byte_count(bits as nat),
        res matches Err(msg) ==> msg@ == INVALID_DIGIT@,
{
    decode(zbase32.as_bytes(), bits)
}

/// Decode the whole bytes that the zbase32 string `zbase32` holds.
///
/// Just like `decode_full_bytes`, on the bytes of the string.
#[inline]
pub fn decode_full_bytes_str(zbase32: &str) -> (res: Result<Vec<u8>, &'static str>)
    requires
        5 * zbase32.spec_bytes().len() <= u64::MAX,
    ensures
        res is Ok <==> all_digits(zbase32.spec_bytes()),
        res matches Ok(data) ==> data@ == decoded_full(zbase32.spec_bytes()),
        res matches Ok(data) ==> data@.len() == 5 * zbase32.spec_bytes().len() / 8,
        res matches Err(msg) ==> msg@ == INVALID_DIGIT@,
{
    decode_full_bytes(zbase32.as_bytes())
}

} // verus!
