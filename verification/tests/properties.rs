use zbase32::{
    decode, decode_full_bytes, decode_full_bytes_str, decode_str, encode, encode_full_bytes,
    validate, validate_str, value_of_digit, ALPHABET,
};

/// A fixed sequence of bytes that looks random.
fn sample(len: usize, seed: u32) -> Vec<u8> {
    let mut state = seed;
    let mut data = Vec::with_capacity(len);
    for _ in 0..len {
        state = state.wrapping_mul(1664525).wrapping_add(1013904223);
        data.push((state >> 24) as u8);
    }
    data
}

/// The first `bits` bits of `data`, filled up with zero bits to whole bytes.
fn first_bits(data: &[u8], bits: u64) -> Vec<u8> {
    let len = ((bits + 7) / 8) as usize;
    let mut out = data[..len].to_vec();
    if bits % 8 != 0 {
        out[len - 1] &= 0xff_u8 << (8 - bits % 8);
    }
    out
}

#[test]
fn alphabet_is_the_zbase32_alphabet() {
    assert_eq!(&ALPHABET[..], &b"ybndrfg8ejkmcpqxot1uwisza345h769"[..]);
}

#[test]
fn alphabet_and_digit_values_are_inverse() {
    for value in 0..32_u8 {
        assert_eq!(value_of_digit(ALPHABET[value as usize]), Ok(value));
    }
    let mut digits = 0;
    for byte in 0..=255_u8 {
        match value_of_digit(byte) {
            Ok(value) => {
                assert!(value < 32);
                assert_eq!(ALPHABET[value as usize], byte);
                digits += 1;
            }
            Err(msg) => {
                assert!(!ALPHABET.contains(&byte));
                assert_eq!(msg, "not a zbase32 digit");
            }
        }
    }
    assert_eq!(digits, 32);
}

#[test]
fn digit_values_of_some_symbols() {
    assert_eq!(value_of_digit(b'y'), Ok(0));
    assert_eq!(value_of_digit(b'b'), Ok(1));
    assert_eq!(value_of_digit(b'o'), Ok(16));
    assert_eq!(value_of_digit(b'9'), Ok(31));
    assert_eq!(value_of_digit(b'l'), Err("not a zbase32 digit"));
    assert_eq!(value_of_digit(b'Y'), Err("not a zbase32 digit"));
    assert_eq!(value_of_digit(b' '), Err("not a zbase32 digit"));
    assert_eq!(value_of_digit(0), Err("not a zbase32 digit"));
    assert_eq!(value_of_digit(255), Err("not a zbase32 digit"));
}

#[test]
fn boundary_examples() {
    assert_eq!(encode(&[], 0), "");
    assert_eq!(encode(&[0x00], 1), "y");
    assert_eq!(encode(&[0x80], 1), "o");
    assert_eq!(decode(b"y", 1), Ok(vec![0x00]));
    assert_eq!(decode(b"o", 1), Ok(vec![0x80]));
    assert_eq!(encode(b"testdata", 64), "qt1zg7drcf4gn");
    assert_eq!(decode(b"qb1ze3m1", 40), Ok(b"peter".to_vec()));
    assert_eq!(decode(b"", 0), Ok(vec![]));
    assert_eq!(decode_full_bytes(b""), Ok(vec![]));
    assert_eq!(decode_full_bytes(b"yy"), Ok(vec![0x00]));
    assert_eq!(decode_full_bytes(b"99"), Ok(vec![0xff]));
    assert_eq!(decode_full_bytes(b"9"), Ok(vec![]));
    assert_eq!(encode_full_bytes(&[]), "");
}

#[test]
fn encode_full_bytes_of_a_sentence() {
    let data = "Just an arbitrary sentence.";
    assert_eq!(
        encode_full_bytes(data.as_bytes()),
        "jj4zg7bycfznyam1cjwzehubqjh1yh5fp34gk5udcwzy"
    );
    assert_eq!(
        decode_full_bytes_str("jj4zg7bycfznyam1cjwzehubqjh1yh5fp34gk5udcwzy"),
        Ok(data.as_bytes().to_vec())
    );
}

#[test]
fn string_forms_agree_with_byte_forms() {
    assert_eq!(decode_str("o", 1), Ok(vec![0x80]));
    assert_eq!(decode_str("qb1ze3m1", 40), Ok(b"peter".to_vec()));
    assert_eq!(decode_full_bytes_str("qb1ze3m1"), Ok(b"peter".to_vec()));
    assert_eq!(decode_full_bytes(b"qb1ze3m1"), Ok(b"peter".to_vec()));
    assert!(validate_str("y1"));
    assert!(!validate_str("A"));
    assert!(validate(b"y1"));
    assert!(!validate(b"A"));
    assert_eq!(decode_str("bn\u{2115}e", 30), Err("not a zbase32 digit"));
    assert_eq!(decode_full_bytes_str("A"), Err("not a zbase32 digit"));
}

#[test]
fn round_trip_of_full_bytes() {
    for len in 0..64 {
        let data = sample(len, 7 + len as u32);
        let text = encode_full_bytes(&data);
        assert_eq!(decode_full_bytes(text.as_bytes()), Ok(data.clone()));
        assert_eq!(decode_full_bytes_str(&text), Ok(data));
    }
}

#[test]
fn round_trip_with_bit_precision() {
    for len in 0..12 {
        let data = sample(len, 99 + len as u32);
        for bits in 0..=(len as u64 * 8) {
            let text = encode(&data, bits);
            assert_eq!(decode(text.as_bytes(), bits), Ok(first_bits(&data, bits)));
            assert_eq!(decode_str(&text, bits), Ok(first_bits(&data, bits)));
        }
    }
}

#[test]
fn round_trip_of_all_ones() {
    let data = [0xff_u8; 5];
    assert_eq!(encode(&data, 40), "99999999");
    assert_eq!(encode(&data, 39), "99999996");
    assert_eq!(encode(&data, 36), "9999999o");
    assert_eq!(encode(&data, 3), "h");
    assert_eq!(decode(b"99999999", 40), Ok(vec![0xff; 5]));
    assert_eq!(decode(b"99999999", 39), Ok(vec![0xff, 0xff, 0xff, 0xff, 0xfe]));
    assert_eq!(decode(b"99999999", 33), Ok(vec![0xff, 0xff, 0xff, 0xff, 0x80]));
    assert_eq!(decode(b"99999999", 3), Ok(vec![0xe0]));
}

#[test]
fn lengths_of_results() {
    let data = sample(20, 3);
    for bits in 0..=160_u64 {
        let text = encode(&data, bits);
        assert_eq!(text.len() as u64, (bits + 4) / 5);
        assert!(validate_str(&text));
    }
    let symbols = b"ybndrfg8ejkmcpqxot1uwisza345h769";
    for bits in 0..=160_u64 {
        let bytes = decode(symbols, bits).unwrap();
        assert_eq!(bytes.len() as u64, (bits + 7) / 8);
    }
    for len in 0..=32 {
        let bytes = decode_full_bytes(&symbols[..len]).unwrap();
        assert_eq!(bytes.len(), len * 5 / 8);
    }
}

#[test]
fn validate_agrees_with_decode_full_bytes() {
    for first in 0..=255_u8 {
        assert_eq!(validate(&[first]), decode_full_bytes(&[first]).is_ok());
        for &second in &[b'y', b'9', b'A', b' ', 0xff] {
            let pair = [first, second];
            assert_eq!(validate(&pair), decode_full_bytes(&pair).is_ok());
            let triple = [second, b'y', first];
            assert_eq!(validate(&triple), decode_full_bytes(&triple).is_ok());
        }
    }
    assert!(validate(b""));
    assert!(decode_full_bytes(b"").is_ok());
}

#[test]
fn invalid_digit_is_an_error() {
    assert!(!validate(b"A"));
    assert_eq!(decode_full_bytes(b"A"), Err("not a zbase32 digit"));
    assert_eq!(decode(b"A", 5), Err("not a zbase32 digit"));
    assert_eq!(decode(b"A", 0), Err("not a zbase32 digit"));
    assert_eq!(decode(b"y y", 15), Err("not a zbase32 digit"));
    assert_eq!(decode(b"y\ny", 15), Err("not a zbase32 digit"));
    assert!(!validate(b"y y"));
    assert!(!validate(b"y\ty"));
}

#[test]
fn decode_reads_no_further_than_it_needs() {
    // One bit is in the first symbol: the rest is not read.
    assert_eq!(decode(b"oAA", 1), Ok(vec![0x80]));
    assert_eq!(decode(b"yA", 5), Ok(vec![0x00]));
    // 14 bits end in the third symbol.
    assert_eq!(decode(b"yyyA", 14), Ok(vec![0x00, 0x00]));
    // After a whole byte one more symbol is read.
    assert_eq!(decode(b"yy", 8), Ok(vec![0x00]));
    assert_eq!(decode(b"yyy", 8), Ok(vec![0x00]));
    assert_eq!(decode(b"yyA", 8), Err("not a zbase32 digit"));
    assert_eq!(decode(b"yyA", 10), Err("not a zbase32 digit"));
    assert_eq!(decode(b"yyyA", 8), Ok(vec![0x00]));
    assert_eq!(decode(b"yA", 0), Ok(vec![]));
    assert_eq!(decode(b"Ay", 0), Err("not a zbase32 digit"));
}

#[test]
fn encode_ignores_bits_past_the_bit_length() {
    assert_eq!(encode(&[0xff], 0), "");
    assert_eq!(encode(&[0xff], 4), "6");
    assert_eq!(encode(&[0xf0], 4), "6");
    assert_eq!(encode(&[0xff, 0xff], 8), "9h");
    assert_eq!(encode(&[0xff, 0x00], 8), "9h");
    assert_eq!(encode(&[0x00, 0xff, 0xff], 9), "yn");
    assert_eq!(encode(&[0x00, 0x80, 0x00], 9), "yn");
    assert_eq!(encode(&[0x00, 0x7f, 0xff], 9), "yy");
}
