use zbase32::{
    decode, decode_full_bytes, encode, encode_full_bytes, validate, validate_str, value_of_digit,
    ALPHABET,
};

const TEST_DATA: &[(u64, &str, &[u8])] = &[
    (0, "", &[]),
    (1, "y", &[0x00]),
    (1, "o", &[0x80]),
    (2, "e", &[0x40]),
    (2, "a", &[0xc0]),
    (8, "yy", &[0x00]),
    (10, "yy", &[0x00, 0x00]),
    (10, "on", &[0x80, 0x80]),
    (20, "tqre", &[0x8b, 0x88, 0x80]),
    (24, "6n9hq", &[0xf0, 0xbf, 0xc7]),
    (24, "4t7ye", &[0xd4, 0x7a, 0x04]),
    (30, "6im5sd", &[0xf5, 0x57, 0xbb, 0x0c]),
    (
        160,
        "ybndrfg8ejkmcpqxot1uwisza345h769",
        &[
            0x00, 0x44, 0x32, 0x14, 0xc7, 0x42, 0x54, 0xb6, 0x35, 0xcf, 0x84, 0x65, 0x3a, 0x56,
            0xd7, 0xc6, 0x75, 0xbe, 0x77, 0xdf,
        ],
    ),
];

const INVALID_TEST_DATA: &[&str] =
    &["ybndrfg8ejkmcpqxot1uwisza345H769", "bn\u{2115}e", "uv", "l"];

#[test]
fn test_decode() {
    for &(bits, zbase32, data) in TEST_DATA {
        assert_eq!(decode(zbase32.as_bytes(), bits).unwrap(), data);
    }
}

#[test]
fn test_decode_full_bytes() {
    let test_data: &[(&[u8], &[u8])] = &[
        (b"9", &[]),
        (b"y9", &[0x07]),
        (b"6n9hq", &[0xf0, 0xbf, 0xc7]),
        (b"4t7ye", &[0xd4, 0x7a, 0x04]),
        (
            b"ybndrfg8ejkmcpqxot1uwisza345h769",
            &[
                0x00, 0x44, 0x32, 0x14, 0xc7, 0x42, 0x54, 0xb6, 0x35, 0xcf, 0x84, 0x65, 0x3a,
                0x56, 0xd7, 0xc6, 0x75, 0xbe, 0x77, 0xdf,
            ],
        ),
    ];

    for &(zbase32, data) in test_data {
        assert_eq!(decode_full_bytes(zbase32).unwrap(), data);
    }
}

#[test]
fn test_decode_invalid_digits() {
    for string in INVALID_TEST_DATA.iter() {
        assert!(decode(string.as_bytes(), string.as_bytes().len() as u64 * 5).is_err());
        assert!(decode_full_bytes(string.as_bytes()).is_err());
    }
}

#[test]
fn test_decode_superfluous_bits() {
    assert_eq!(decode(b"999", 1).unwrap(), &[0x80]);
    assert_eq!(decode(b"4t7yj", 24).unwrap(), &[0xd4, 0x7a, 0x04]);
    assert_eq!(decode(b"4t7ye9", 25).unwrap(), &[0xd4, 0x7a, 0x04, 0x00]);
    assert_eq!(decode(b"gyh3", 18).unwrap(), &[0x30, 0x39, 0x80]);
}

#[test]
fn test_encode() {
    for &(bits, zbase32, data) in TEST_DATA {
        assert_eq!(encode(data, bits), zbase32);
    }
}

#[test]
fn test_encode_superfluous_bits() {
    assert_eq!(encode(&[0xff, 0xff], 1), "o");
    assert_eq!(encode(&[0xd4, 0x7a, 0x04, 0xff], 24), "4t7ye");
}

#[test]
fn test_encode_full_bytes() {
    for &(_, zbase32, data) in TEST_DATA.iter().filter(|&&(i, _, _)| i % 8 == 0) {
        assert_eq!(encode_full_bytes(data), zbase32);
    }
}

#[test]
fn test_validate() {
    for &(_, zbase32, _) in TEST_DATA {
        assert!(validate(zbase32.as_bytes()));
        assert!(validate_str(zbase32));
    }
}

#[test]
fn test_validate_invalid() {
    for string in INVALID_TEST_DATA.iter() {
        assert!(!validate(string.as_bytes()));
        assert!(!validate_str(string));
    }
}

#[test]
fn test_valid_and_invalid_chars() {
    for char in (0_u16..256).map(|i| i as u8) {
        let bytes = &[char];
        if ALPHABET.contains(&char) {
            assert_eq!(ALPHABET[value_of_digit(char).unwrap() as usize], char);
            assert_eq!(encode(&decode(bytes, 5).unwrap(), 5).as_bytes(), bytes);
            assert!(validate(bytes));
        } else {
            assert!(value_of_digit(char).is_err());
            assert!(decode_full_bytes(bytes).is_err());
            assert!(!validate(bytes));
        }
    }
}
