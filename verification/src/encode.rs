//! Encoding of bytes into zbase32 symbols.

use vstd::prelude::*;
use vstd::pervasive::unreached;
use vstd::utf8::encode_utf8;
use crate::alphabet::{lemma_alphabet_ascii, symbol_of, ALPHABET};
use crate::bits::{bits_of_bytes, digit_count, pack_digit};
use crate::model::{encoded, encoded_full};
use crate::text::{lemma_ascii_text, text_of};
use crate::window::{holds_tail, lemma_digit_from_tail, lemma_tail_after_byte};

verus! {

/// Encode the first `bits` bits of `data` with zbase32.
///
/// `data` must hold at least `bits` bits. The result has a symbol for every
/// 5 bits; where `bits` is no multiple of 5, the last symbol's digit is
/// filled up with zero bits, whatever `data` holds past `bits`.
pub fn encode(data: &[u8], bits: u64) -> (res: String)
    requires
        bits <= 8 * data@.len(),
    ensures
        res@ == text_of(encoded(data@, bits as nat)),
        encode_utf8(res@) == encoded(data@, bits as nat),
        res@.len() == digit_count(bits as nat),
{
    // Where the count of symbols does not fit a `usize`, the capacity is
    // short of it, and the vector grows.
    let capacity = #[verifier::truncate]
    ((if bits % 5 == 0 {
        bits / 5
    } else {
        bits / 5 + 1
    }) as usize);
    let mut result: Vec<u8> = Vec::with_capacity(capacity);

    let ghost stream = bits_of_bytes(data@);
    let ghost wanted = stream.take(bits as int);

    let mut bits_remaining = bits;
    let mut bit_offset: u8 = 16;
    let mut next: usize = 0;
    let mut buffer: u16 = !0;

    while bits_remaining > 0
        invariant
            next <= data@.len(),
            bits_remaining <= bits <= 8 * data@.len(),
            stream == bits_of_bytes(data@),
            wanted == stream.take(bits as int),
            result@.len() == digit_count((bits - bits_remaining) as nat),
            bits_remaining > 0 ==> bits - bits_remaining == 5 * result@.len(),
            bits_remaining > 0 ==> bit_offset + 8 * next == bits - bits_remaining + 16,
            bits_remaining > 0 ==> bit_offset <= 16,
            holds_tail(
                buffer,
                if next >= 2 {
                    16
                } else {
                    8 * next
                },
                stream,
                8 * next,
            ),
            forall|j: int|
                0 <= j < result@.len() ==> #[trigger] result@[j] == symbol_of(
                    pack_digit(wanted, j) as u8,
                ),
        decreases bits_remaining,
    {
        if bit_offset >= 8 {
            if next < data.len() {
                proof {
                    lemma_tail_after_byte(
                        buffer,
                        if next >= 2 {
                            16
                        } else {
                            8 * next
                        },
                        data@,
                        next as int,
                    );
                }
                buffer = buffer << 8 | (data[next] as u16);
                next += 1;
                bit_offset -= 8;
            }
        }
        let unused_bits = 5_u64.saturating_sub(bits_remaining);
        proof {
            lemma_digit_from_tail(
                buffer,
                if next >= 2 {
                    16
                } else {
                    8 * next
                },
                stream,
                8 * next,
                result@.len() as int,
                bits as int,
                unused_bits as int,
            );
        }
        let index = (buffer >> (unused_bits as u8 + 16 - 5 - bit_offset) << unused_bits) & 0x1f;
        result.push(ALPHABET[index as usize]);

        bit_offset += 5;
        bits_remaining -= 5 - unused_bits;
    }

    proof {
        assert(result@ =~= encoded(data@, bits as nat));
        assert forall|j: int| 0 <= j < result@.len() implies #[trigger] result@[j] < 128 by {
            lemma_alphabet_ascii(pack_digit(wanted, j) as u8);
        }
        lemma_ascii_text(result@);
    }
    match String::from_utf8(result) {
        Ok(text) => text,
        Err(_) => unreached(),
    }
}

/// Encode full bytes using zbase32.
///
/// Just like `encode`, but without bit precision: every bit of `data` is
/// encoded.
#[inline]
pub fn encode_full_bytes(data: &[u8]) -> (res: String)
    requires
        8 * data@.len() <= u64::MAX,
    ensures
        res@ == text_of(encoded_full(data@)),
        encode_utf8(res@) == encoded_full(data@),
        res@.len() == digit_count(8 * data@.len()),
{
    encode(data, data.len() as u64 * 8)
}

} // verus!
