//! The 16-bit window through which the codec moves bits: what it holds of a
//! bit stream, and what the shifts that fill and empty it do to that.

use vstd::prelude::*;
use crate::bits::{
    bit, bits_of_bytes, bits_of_digits, byte_bit, digit_bit, lemma_byte_is_sum_of_bits,
    lemma_cut_byte, lemma_cut_digit, lemma_cut_last_byte, lemma_digit_is_sum_of_bits,
    lemma_shift_in_byte, lemma_shift_in_digit, pack_byte, pack_digit, padded,
};

verus! {

/// Whether the lowest `size` bits of `window` are the `size` bits of `stream`
/// that end before position `end`, the latest bit lowest.
pub open spec fn holds_tail(window: u16, size: int, stream: Seq<bool>, end: int) -> bool {
    &&& 0 <= size <= 16
    &&& size <= end <= stream.len()
    &&& forall|p: int|
        end - size <= p < end ==> #[trigger] stream[p] == bit(window, (end - 1 - p) as u16)
}

/// Shifting the next digit into the window extends what it holds by the
/// digit's 5 bits.
pub proof fn lemma_tail_after_digit(window: u16, size: int, digits: Seq<u8>, i: int)
    requires
        holds_tail(window, size, bits_of_digits(digits), 5 * i),
        0 <= i < digits.len(),
        digits[i] < 32,
        size + 5 <= 16,
    ensures
        holds_tail((window << 5) | (digits[i] as u16), size + 5, bits_of_digits(digits), 5 * i + 5),
{
    let stream = bits_of_digits(digits);
    let next = (window << 5) | (digits[i] as u16);
    let end = 5 * i + 5;
    assert forall|p: int| end - (size + 5) <= p < end implies #[trigger] stream[p] == bit(
        next,
        (end - 1 - p) as u16,
    ) by {
        let n = (end - 1 - p) as u16;
        lemma_shift_in_digit(window, digits[i] as u16, n);
        if n < 5 {
            assert(p / 5 == i && p % 5 == 4 - n);
            assert(stream[p] == digit_bit(digits[i], 4 - n));
        } else {
            assert(stream[p] == bit(window, (5 * i - 1 - p) as u16));
        }
    }
}

/// Shifting the next byte into the window extends what it holds by the
/// byte's 8 bits, as far as 16 bits go.
pub proof fn lemma_tail_after_byte(window: u16, size: int, data: Seq<u8>, i: int)
    requires
        holds_tail(window, size, bits_of_bytes(data), 8 * i),
        0 <= i < data.len(),
    ensures
        holds_tail(
            (window << 8) | (data[i] as u16),
            if size >= 8 {
                16
            } else {
                size + 8
            },
            bits_of_bytes(data),
            8 * i + 8,
        ),
{
    let stream = bits_of_bytes(data);
    let next = (window << 8) | (data[i] as u16);
    let end = 8 * i + 8;
    let grown = if size >= 8 {
        16
    } else {
        size + 8
    };
    assert forall|p: int| end - grown <= p < end implies #[trigger] stream[p] == bit(
        next,
        (end - 1 - p) as u16,
    ) by {
        let n = (end - 1 - p) as u16;
        lemma_shift_in_byte(window, data[i] as u16, n);
        if n < 8 {
            assert(p / 8 == i && p % 8 == 7 - n);
            assert(stream[p] == byte_bit(data[i], 7 - n));
        } else {
            assert(stream[p] == bit(window, (8 * i - 1 - p) as u16));
        }
    }
}

/// The byte cut from the top of what the window holds is byte `j` of the
/// stream, where the window holds the stream from bit `8 * j` on.
pub proof fn lemma_byte_from_tail(window: u16, size: int, stream: Seq<bool>, end: int, j: int, m: int)
    requires
        holds_tail(window, size, stream, end),
        8 <= size,
        end - size == 8 * j,
        8 * j + 8 <= m <= stream.len(),
    ensures
        ((window >> ((size - 8) as u16)) as u8) == pack_byte(stream.take(m), j),
{
    let byte = (window >> ((size - 8) as u16)) as u8;
    let wanted = stream.take(m);
    assert forall|k: int| 0 <= k < 8 implies #[trigger] byte_bit(byte, k) == padded(
        wanted,
        8 * j + k,
    ) by {
        let n = (7 - k) as u16;
        lemma_cut_byte(window, (size - 8) as u16, n);
        assert(stream[8 * j + k] == bit(window, (end - 1 - (8 * j + k)) as u16));
    }
    lemma_byte_is_sum_of_bits(byte);
}

/// The last byte, cut from the `keep` topmost bits that the window holds and
/// filled up with zero bits, is byte `j` of the first `8 * j + keep` bits of
/// the stream.
pub proof fn lemma_last_byte_from_tail(
    window: u16,
    size: int,
    stream: Seq<bool>,
    end: int,
    j: int,
    keep: int,
)
    requires
        holds_tail(window, size, stream, end),
        1 <= keep < 8,
        keep <= size,
        end - size == 8 * j,
    ensures
        (((window >> ((size - keep) as u16)) << ((8 - keep) as u16)) as u8) == pack_byte(
            stream.take(8 * j + keep),
            j,
        ),
{
    let byte = ((window >> ((size - keep) as u16)) << ((8 - keep) as u16)) as u8;
    let wanted = stream.take(8 * j + keep);
    assert forall|k: int| 0 <= k < 8 implies #[trigger] byte_bit(byte, k) == padded(
        wanted,
        8 * j + k,
    ) by {
        let n = (7 - k) as u16;
        lemma_cut_last_byte(window, (size - keep) as u16, keep as u16, n);
        if k < keep {
            assert(stream[8 * j + k] == bit(window, (end - 1 - (8 * j + k)) as u16));
        }
    }
    lemma_byte_is_sum_of_bits(byte);
}

/// The digit cut from the window at stream position `5 * j` is digit `j` of
/// the first `m` bits of the stream: `unused` counts the bits that the digit
/// has past position `m`, which are zero.
pub proof fn lemma_digit_from_tail(
    window: u16,
    size: int,
    stream: Seq<bool>,
    end: int,
    j: int,
    m: int,
    unused: int,
)
    requires
        holds_tail(window, size, stream, end),
        end - size <= 5 * j,
        5 * j < m <= stream.len(),
        0 <= unused < 5,
        unused == 0 ==> 5 * j + 5 <= m,
        unused > 0 ==> 5 * j + 5 - unused == m,
        5 * j + 5 - unused <= end,
    ensures
        0 <= end - 5 * j - 5 + unused <= 11 + unused,
        (((window >> ((end - 5 * j - 5 + unused) as u16)) << (unused as u16)) & 0x1f) == pack_digit(
            stream.take(m),
            j,
        ),
{
    let shift = (end - 5 * j - 5 + unused) as u16;
    let digit = ((window >> shift) << (unused as u16)) & 0x1f;
    let wanted = stream.take(m);
    lemma_cut_digit(window, shift, unused as u16, 0);
    assert forall|k: int| 0 <= k < 5 implies #[trigger] digit_bit(digit as u8, k) == padded(
        wanted,
        5 * j + k,
    ) by {
        let n = (4 - k) as u16;
        lemma_cut_digit(window, shift, unused as u16, n);
        if k < 5 - unused {
            assert(stream[5 * j + k] == bit(window, (end - 1 - (5 * j + k)) as u16));
        }
    }
    lemma_digit_is_sum_of_bits(digit as u8);
}

} // verus!
