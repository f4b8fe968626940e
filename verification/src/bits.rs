//! The bit-stream model: bytes and 5-bit digits as sequences of bits, most
//! significant bit first, and the packing of bits back into bytes and digits.

use vstd::prelude::*;

verus! {

/// Whether bit `n` of `x` is set, bit 0 being the least significant.
pub open spec fn bit(x: u16, n: u16) -> bool {
    (x >> n) & 1 == 1
}

/// Bit `k` of the byte `b`, bit 0 being the most significant.
pub open spec fn byte_bit(b: u8, k: int) -> bool
    recommends
        0 <= k < 8,
{
    bit(b as u16, (7 - k) as u16)
}

/// Bit `k` of the 5-bit digit `v`, bit 0 being the most significant.
pub open spec fn digit_bit(v: u8, k: int) -> bool
    recommends
        0 <= k < 5,
{
    bit(v as u16, (4 - k) as u16)
}

/// The bits of `data`, 8 for each byte.
pub open spec fn bits_of_bytes(data: Seq<u8>) -> Seq<bool> {
    Seq::new(8 * data.len(), |i: int| byte_bit(data[i / 8], i % 8))
}

/// The bits of `digits`, 5 for each digit.
pub open spec fn bits_of_digits(digits: Seq<u8>) -> Seq<bool> {
    Seq::new(5 * digits.len(), |i: int| digit_bit(digits[i / 5], i % 5))
}

/// Bit `i` of `bits`, and zero past its end.
pub open spec fn padded(bits: Seq<bool>, i: int) -> bool {
    0 <= i < bits.len() && bits[i]
}

/// `w` for a set bit, 0 for a clear one.
pub open spec fn weight(b: bool, w: int) -> int {
    if b {
        w
    } else {
        0
    }
}

/// The number with the 8 bits of `bits` from `8 * j` on as its binary digits.
pub open spec fn pack_byte(bits: Seq<bool>, j: int) -> int {
    weight(padded(bits, 8 * j), 128) + weight(padded(bits, 8 * j + 1), 64) + weight(
        padded(bits, 8 * j + 2),
        32,
    ) + weight(padded(bits, 8 * j + 3), 16) + weight(padded(bits, 8 * j + 4), 8) + weight(
        padded(bits, 8 * j + 5),
        4,
    ) + weight(padded(bits, 8 * j + 6), 2) + weight(padded(bits, 8 * j + 7), 1)
}

/// The number with the 5 bits of `bits` from `5 * j` on as its binary digits.
pub open spec fn pack_digit(bits: Seq<bool>, j: int) -> int {
    weight(padded(bits, 5 * j), 16) + weight(padded(bits, 5 * j + 1), 8) + weight(
        padded(bits, 5 * j + 2),
        4,
    ) + weight(padded(bits, 5 * j + 3), 2) + weight(padded(bits, 5 * j + 4), 1)
}

/// How many bytes hold `n` bits.
pub open spec fn byte_count(n: nat) -> nat {
    (n + 7) / 8
}

/// How many 5-bit digits hold `n` bits.
pub open spec fn digit_count(n: nat) -> nat {
    (n + 4) / 5
}

/// `bits` cut into bytes, the last one filled up with zero bits.
pub open spec fn bytes_of_bits(bits: Seq<bool>) -> Seq<u8> {
    Seq::new(byte_count(bits.len()), |j: int| pack_byte(bits, j) as u8)
}

/// `bits` cut into 5-bit digits, the last one filled up with zero bits.
pub open spec fn digits_of_bits(bits: Seq<bool>) -> Seq<u8> {
    Seq::new(digit_count(bits.len()), |j: int| pack_digit(bits, j) as u8)
}

/// A byte is the sum of the weights of its bits.
pub proof fn lemma_byte_is_sum_of_bits(x: u8)
    ensures
        x == weight(byte_bit(x, 0), 128) + weight(byte_bit(x, 1), 64) + weight(byte_bit(x, 2), 32)
            + weight(byte_bit(x, 3), 16) + weight(byte_bit(x, 4), 8) + weight(byte_bit(x, 5), 4)
            + weight(byte_bit(x, 6), 2) + weight(byte_bit(x, 7), 1),
{
    let y = x as u16;
    assert(y < 256 ==> y == (if (y >> 7) & 1 == 1 { 128int } else { 0 }) + (if (y >> 6) & 1 == 1 { 64int } else { 0 })
        + (if (y >> 5) & 1 == 1 { 32int } else { 0 }) + (if (y >> 4) & 1 == 1 { 16int } else { 0 })
        + (if (y >> 3) & 1 == 1 { 8int } else { 0 }) + (if (y >> 2) & 1 == 1 { 4int } else { 0 })
        + (if (y >> 1) & 1 == 1 { 2int } else { 0 }) + (if (y >> 0) & 1 == 1 { 1int } else { 0 })) by (bit_vector);
}

/// A 5-bit digit is the sum of the weights of its bits.
pub proof fn lemma_digit_is_sum_of_bits(v: u8)
    requires
        v < 32,
    ensures
        v == weight(digit_bit(v, 0), 16) + weight(digit_bit(v, 1), 8) + weight(digit_bit(v, 2), 4)
            + weight(digit_bit(v, 3), 2) + weight(digit_bit(v, 4), 1),
{
    let y = v as u16;
    assert(y < 32 ==> y == (if (y >> 4) & 1 == 1 { 16int } else { 0 })
        + (if (y >> 3) & 1 == 1 { 8int } else { 0 }) + (if (y >> 2) & 1 == 1 { 4int } else { 0 })
        + (if (y >> 1) & 1 == 1 { 2int } else { 0 }) + (if (y >> 0) & 1 == 1 { 1int } else { 0 })) by (bit_vector);
}

/// The bits of a sum of weights are the bits that were weighed.
pub proof fn lemma_bits_of_weights(x: u16, b4: bool, b3: bool, b2: bool, b1: bool, b0: bool)
    requires
        x == weight(b4, 16) + weight(b3, 8) + weight(b2, 4) + weight(b1, 2) + weight(b0, 1),
    ensures
        x < 32,
        bit(x, 4) == b4,
        bit(x, 3) == b3,
        bit(x, 2) == b2,
        bit(x, 1) == b1,
        bit(x, 0) == b0,
{
    assert(x == (if b4 { 16int } else { 0 }) + (if b3 { 8int } else { 0 }) + (if b2 { 4int } else { 0 })
        + (if b1 { 2int } else { 0 }) + (if b0 { 1int } else { 0 }) ==> ((x >> 4) & 1 == 1) == b4 && ((x
        >> 3) & 1 == 1) == b3 && ((x >> 2) & 1 == 1) == b2 && ((x >> 1) & 1 == 1) == b1 && ((x >> 0) & 1
        == 1) == b0) by (bit_vector);
}

/// Bit `k` of the digit packed from `bits` at `j` is bit `5 * j + k` of `bits`.
pub proof fn lemma_bit_of_packed_digit(bits: Seq<bool>, j: int, k: int)
    requires
        0 <= k < 5,
    ensures
        0 <= pack_digit(bits, j) < 32,
        digit_bit(pack_digit(bits, j) as u8, k) == padded(bits, 5 * j + k),
{
    lemma_bits_of_weights(
        pack_digit(bits, j) as u16,
        padded(bits, 5 * j),
        padded(bits, 5 * j + 1),
        padded(bits, 5 * j + 2),
        padded(bits, 5 * j + 3),
        padded(bits, 5 * j + 4),
    );
}

/// Packing the bits of bytes gives the bytes back.
pub proof fn lemma_bytes_of_bits_of_bytes(data: Seq<u8>)
    ensures
        bytes_of_bits(bits_of_bytes(data)) == data,
{
    let bits = bits_of_bytes(data);
    assert forall|j: int| 0 <= j < data.len() implies pack_byte(bits, j) as u8 == data[j] by {
        lemma_byte_is_sum_of_bits(data[j]);
    }
    assert(bytes_of_bits(bits) =~= data);
}

/// Unpacking the digits packed from `bits` gives `bits` back, followed by the
/// zero bits that filled up the last digit.
pub proof fn lemma_bits_of_digits_of_bits(bits: Seq<bool>)
    ensures
        bits_of_digits(digits_of_bits(bits)).len() == 5 * digit_count(bits.len()),
        bits.len() <= 5 * digit_count(bits.len()) < bits.len() + 5,
        forall|i: int|
            0 <= i < 5 * digit_count(bits.len()) ==> #[trigger] bits_of_digits(
                digits_of_bits(bits),
            )[i] == padded(bits, i),
        bits_of_digits(digits_of_bits(bits)).take(bits.len() as int) == bits,
{
    let digits = digits_of_bits(bits);
    let unpacked = bits_of_digits(digits);
    assert forall|i: int| 0 <= i < 5 * digit_count(bits.len()) implies #[trigger] unpacked[i]
        == padded(bits, i) by {
        lemma_bit_of_packed_digit(bits, i / 5, i % 5);
    }
    assert(unpacked.take(bits.len() as int) =~= bits);
}

/// Shifting a digit into a window moves the window's bits up by 5 and puts
/// the digit's bits below them.
pub proof fn lemma_shift_in_digit(window: u16, v: u16, n: u16)
    by (bit_vector)
    requires
        v < 32,
        n < 16,
    ensures
        bit((window << 5) | v, n) == (if n < 5 {
            bit(v, n)
        } else {
            bit(window, (n - 5) as u16)
        }),
{
}

/// Shifting a byte into a window moves the window's bits up by 8 and puts the
/// byte's bits below them.
pub proof fn lemma_shift_in_byte(window: u16, b: u16, n: u16)
    by (bit_vector)
    requires
        b < 256,
        n < 16,
    ensures
        bit((window << 8) | b, n) == (if n < 8 {
            bit(b, n)
        } else {
            bit(window, (n - 8) as u16)
        }),
{
}

/// The byte cut out of a window above its lowest `skip` bits holds the
/// window's bits from `skip` on.
pub proof fn lemma_cut_byte(window: u16, skip: u16, n: u16)
    by (bit_vector)
    requires
        skip <= 8,
        n < 8,
    ensures
        bit(((window >> skip) as u8) as u16, n) == bit(window, (n + skip) as u16),
{
}

/// The last byte: the `keep` bits of a window above its lowest `trim` bits,
/// moved to the top of the byte, above zero bits.
pub proof fn lemma_cut_last_byte(window: u16, trim: u16, keep: u16, n: u16)
    by (bit_vector)
    requires
        1 <= keep < 8,
        trim + keep <= 16,
        n < 8,
    ensures
        bit((((window >> trim) << ((8 - keep) as u16)) as u8) as u16, n) == (n + keep >= 8 && bit(
            window,
            (n + keep - 8 + trim) as u16,
        )),
{
}

/// The digit cut out of a window above its lowest `shift` bits and moved up
/// by `unused` bits, above zero bits.
pub proof fn lemma_cut_digit(window: u16, shift: u16, unused: u16, n: u16)
    by (bit_vector)
    requires
        unused < 5,
        shift + 5 - unused <= 16,
        n < 5,
    ensures
        (((window >> shift) << unused) & 0x1f) < 32,
        bit(((window >> shift) << unused) & 0x1f, n) == (n >= unused && bit(
            window,
            (n + shift - unused) as u16,
        )),
{
}

} // verus!
