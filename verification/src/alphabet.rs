//! The zbase32 alphabet and its inverse, the digit-value table.

use vstd::prelude::*;

verus! {

/// Alphabet used by zbase32, `ybndrfg8ejkmcpqxot1uwisza345h769` in ASCII:
/// the symbol at index `v` stands for the 5-bit value `v`.
pub const ALPHABET: &'static [u8; 32] = &[
    0x79, 0x62, 0x6e, 0x64, 0x72, 0x66, 0x67, 0x38,  // y b n d r f g 8
    0x65, 0x6a, 0x6b, 0x6d, 0x63, 0x70, 0x71, 0x78,  // e j k m c p q x
    0x6f, 0x74, 0x31, 0x75, 0x77, 0x69, 0x73, 0x7a,  // o t 1 u w i s z
    0x61, 0x33, 0x34, 0x35, 0x68, 0x37, 0x36, 0x39,  // a 3 4 5 h 7 6 9
];

/// Entry of the digit table for a byte that is no zbase32 digit.
pub const NO_DIGIT: u8 = 0xff;

/// Message of the error that a byte outside the alphabet gives.
pub const INVALID_DIGIT: &'static str = "not a zbase32 digit";

/// Inverse of the alphabet, indexed by the raw byte: the 5-bit value of a
/// digit, `NO_DIGIT` for every other byte.
pub const DIGIT_VALUES: [u8; 256] = [
    0xff, 0xff, 0xff, 0xff, 0xff, 0xff, 0xff, 0xff,  // 0
    0xff, 0xff, 0xff, 0xff, 0xff, 0xff, 0xff, 0xff,  // 8
    0xff, 0xff, 0xff, 0xff, 0xff, 0xff, 0xff, 0xff,  // 16
    0xff, 0xff, 0xff, 0xff, 0xff, 0xff, 0xff, 0xff,  // 24
    0xff, 0xff, 0xff, 0xff, 0xff, 0xff, 0xff, 0xff,  // 32
    0xff, 0xff, 0xff, 0xff, 0xff, 0xff, 0xff, 0xff,  // 40
    0xff, 0x12, 0xff, 0x19, 0x1a, 0x1b, 0x1e, 0x1d,  // 48
    0x07, 0x1f, 0xff, 0xff, 0xff, 0xff, 0xff, 0xff,  // 56
    0xff, 0xff, 0xff, 0xff, 0xff, 0xff, 0xff, 0xff,  // 64
    0xff, 0xff, 0xff, 0xff, 0xff, 0xff, 0xff, 0xff,  // 72
    0xff, 0xff, 0xff, 0xff, 0xff, 0xff, 0xff, 0xff,  // 80
    0xff, 0xff, 0xff, 0xff, 0xff, 0xff, 0xff, 0xff,  // 88
    0xff, 0x18, 0x01, 0x0c, 0x03, 0x08, 0x05, 0x06,  // 96
    0x1c, 0x15, 0x09, 0x0a, 0xff, 0x0b, 0x02, 0x10,  // 104
    0x0d, 0x0e, 0x04, 0x16, 0x11, 0x13, 0xff, 0x14,  // 112
    0x0f, 0x00, 0x17, 0xff, 0xff, 0xff, 0xff, 0xff,  // 120
    0xff, 0xff, 0xff, 0xff, 0xff, 0xff, 0xff, 0xff,  // 128
    0xff, 0xff, 0xff, 0xff, 0xff, 0xff, 0xff, 0xff,  // 136
    0xff, 0xff, 0xff, 0xff, 0xff, 0xff, 0xff, 0xff,  // 144
    0xff, 0xff, 0xff, 0xff, 0xff, 0xff, 0xff, 0xff,  // 152
    0xff, 0xff, 0xff, 0xff, 0xff, 0xff, 0xff, 0xff,  // 160
    0xff, 0xff, 0xff, 0xff, 0xff, 0xff, 0xff, 0xff,  // 168
    0xff, 0xff, 0xff, 0xff, 0xff, 0xff, 0xff, 0xff,  // 176
    0xff, 0xff, 0xff, 0xff, 0xff, 0xff, 0xff, 0xff,  // 184
    0xff, 0xff, 0xff, 0xff, 0xff, 0xff, 0xff, 0xff,  // 192
    0xff, 0xff, 0xff, 0xff, 0xff, 0xff, 0xff, 0xff,  // 200
    0xff, 0xff, 0xff, 0xff, 0xff, 0xff, 0xff, 0xff,  // 208
    0xff, 0xff, 0xff, 0xff, 0xff, 0xff, 0xff, 0xff,  // 216
    0xff, 0xff, 0xff, 0xff, 0xff, 0xff, 0xff, 0xff,  // 224
    0xff, 0xff, 0xff, 0xff, 0xff, 0xff, 0xff, 0xff,  // 232
    0xff, 0xff, 0xff, 0xff, 0xff, 0xff, 0xff, 0xff,  // 240
    0xff, 0xff, 0xff, 0xff, 0xff, 0xff, 0xff, 0xff,  // 248
];

/// Whether `v` is a 5-bit value whose symbol is `c`.
pub open spec fn is_value_of(v: u8, c: u8) -> bool {
    v < 32 && ALPHABET@[v as int] == c
}

/// Whether the byte `c` is a symbol of the alphabet.
pub open spec fn is_digit(c: u8) -> bool {
    exists|v: u8| is_value_of(v, c)
}

/// The 5-bit value that the symbol `c` stands for, if it is one.
pub open spec fn digit_value(c: u8) -> Option<u8> {
    if is_digit(c) {
        Some(choose|v: u8| is_value_of(v, c))
    } else {
        None
    }
}

/// The 5-bit value of `c`, with 0 for a byte that is no digit.
pub open spec fn digit_value_or_zero(c: u8) -> u8 {
    match digit_value(c) {
        Some(v) => v,
        None => 0,
    }
}

/// The symbol that stands for the 5-bit value `v`.
pub open spec fn symbol_of(v: u8) -> u8
    recommends
        v < 32,
{
    ALPHABET@[v as int]
}

/// Whether every byte of `symbols` is a symbol of the alphabet.
pub open spec fn all_digits(symbols: Seq<u8>) -> bool {
    forall|i: int| 0 <= i < symbols.len() ==> is_digit(#[trigger] symbols[i])
}

/// No symbol occurs twice in the alphabet.
pub proof fn lemma_alphabet_distinct(v: u8, w: u8)
    requires
        v < 32,
        w < 32,
        ALPHABET@[v as int] == ALPHABET@[w as int],
    ensures
        v == w,
{
}

/// Every symbol of the alphabet is 7-bit ASCII.
pub proof fn lemma_alphabet_ascii(v: u8)
    requires
        v < 32,
    ensures
        symbol_of(v) < 128,
{
}

/// The alphabet and the digit values are inverse to each other: the value of
/// the symbol of `v` is `v`.
pub proof fn lemma_value_of_symbol(v: u8)
    requires
        v < 32,
    ensures
        is_digit(symbol_of(v)),
        digit_value(symbol_of(v)) == Some(v),
        digit_value_or_zero(symbol_of(v)) == v,
{
    let c = symbol_of(v);
    assert(is_value_of(v, c));
    let w = choose|w: u8| is_value_of(w, c);
    lemma_alphabet_distinct(v, w);
}

/// The alphabet and the digit values are inverse to each other: a byte with a
/// value is the symbol of that value, and a byte outside the alphabet has none.
pub proof fn lemma_symbol_of_value(c: u8)
    ensures
        match digit_value(c) {
            Some(v) => v < 32 && symbol_of(v) == c,
            None => forall|v: u8| v < 32 ==> symbol_of(v) != c,
        },
{
    if !is_digit(c) {
        assert forall|v: u8| v < 32 implies symbol_of(v) != c by {
            assert(!is_value_of(v, c));
        }
    }
}

/// The table holds, at each byte, the byte's value where it is a digit and
/// `NO_DIGIT` where it is none.
pub proof fn lemma_digit_table(c: u8)
    ensures
        DIGIT_VALUES@[c as int] == match digit_value(c) {
            Some(v) => v,
            None => NO_DIGIT,
        },
{
    let t = DIGIT_VALUES@[c as int];
    assert(t < 32 ==> is_value_of(t, c));
    assert(t < 32 || t == NO_DIGIT);
    if t < 32 {
        let w = choose|w: u8| is_value_of(w, c);
        lemma_alphabet_distinct(t, w);
    } else {
        assert forall|v: u8| !is_value_of(v, c) by {
            if v < 32 {
                assert(DIGIT_VALUES@[ALPHABET@[v as int] as int] == v);
            }
        }
    }
}

/// Looks up the 5-bit value of a digit in the table.
pub fn value_of_digit(digit: u8) -> (res: Result<u8, &'static str>)
    ensures
        res is Ok <==> is_digit(digit),
        res matches Ok(v) ==> digit_value(digit) == Some(v) && v < 32,
        res matches Err(msg) ==> msg@ == INVALID_DIGIT@,
{
    proof {
        lemma_digit_table(digit);
        lemma_symbol_of_value(digit);
    }
    let value = DIGIT_VALUES[digit as usize];
    if value == NO_DIGIT {
        Err(INVALID_DIGIT)
    } else {
        Ok(value)
    }
}

} // verus!
