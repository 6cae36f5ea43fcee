use l1_proxy::hex::{decode, encode, hex_decode, quantity, quantity_of};

#[test]
fn bytes_are_written_as_lower_case_pairs() {
    assert_eq!(encode(&[]), "");
    assert_eq!(encode(&[0x00, 0x0f, 0xa0, 0xff]), "000fa0ff");
}

#[test]
fn pairs_are_read_in_either_case() {
    assert_eq!(hex_decode("00aBfF"), Some(vec![0x00, 0xab, 0xff]));
    assert_eq!(decode("00aBfF"), Ok(vec![0x00, 0xab, 0xff]));
    assert_eq!(hex_decode(""), Some(vec![]));
    assert_eq!(decode(""), Ok(vec![]));
}

#[test]
fn signs_are_no_digits() {
    for text in ["+f", "+f1a", "1a+f", "++", "f+", "-0", "+-"] {
        assert_eq!(hex_decode(text), None);
    }
}

#[test]
fn numbers_in_base_sixteen_may_begin_with_a_plus_sign() {
    assert_eq!(decode("+f1a"), Ok(vec![0x0f, 0x1a]));
    for text in ["++", "f+", "-0", "+-"] {
        assert_eq!(decode(text), Err(()));
    }
}

#[test]
fn odd_lengths_and_other_characters_are_refused() {
    assert_eq!(hex_decode("abc"), None);
    assert_eq!(decode("abc"), Err(()));
    assert_eq!(hex_decode("0g"), None);
    assert_eq!(decode("0x12"), Err(()));
    assert_eq!(hex_decode(" 1"), None);
}

#[test]
fn characters_outside_ascii_are_refused() {
    for text in ["é", "ffé", "aé", "aé1", "ffaé1", "zzaé1", "😀", "€a", "a€", "00€a"] {
        assert_eq!(hex_decode(text), None);
        assert_eq!(decode(text), Err(()));
    }
}

#[test]
fn decoding_undoes_encoding() {
    let bytes: Vec<u8> = (0..=255).collect();
    assert_eq!(hex_decode(&encode(&bytes)), Some(bytes.clone()));
    assert_eq!(decode(&encode(&bytes)), Ok(bytes));
}

#[test]
fn encoding_undoes_decoding_up_to_case() {
    let bytes = hex_decode("DEADbeef").unwrap();
    assert_eq!(encode(&bytes), "deadbeef");
}

#[test]
fn quantities_have_no_leading_zeros() {
    assert_eq!(quantity(&[]), "0x0");
    assert_eq!(quantity(&[0, 0]), "0x0");
    assert_eq!(quantity(&[0, 1]), "0x1");
    assert_eq!(quantity(&[0x0d, 0xe0, 0xb6, 0xb3, 0xa7, 0x64, 0, 0]), "0xde0b6b3a7640000");
    assert_eq!(quantity(&[0xff; 32]), format!("0x{}", "f".repeat(64)));
}

#[test]
fn small_quantities_are_written_alike() {
    for n in [0u64, 1, 15, 16, 21_000, 50_000_000, u64::MAX] {
        assert_eq!(quantity_of(n), format!("{n:#x}"));
        assert_eq!(quantity(&n.to_be_bytes()), format!("{n:#x}"));
    }
}

#[test]
fn every_ascii_pair_is_read_as_a_number_in_base_sixteen() {
    for first in 0u8..128 {
        for second in 0u8..128 {
            let pair = String::from_utf8(vec![first, second]).unwrap();
            let number = u8::from_str_radix(&pair, 16).ok().map(|byte| vec![byte]);
            assert_eq!(decode(&pair).ok(), number);
            let digits = first.is_ascii_hexdigit() && second.is_ascii_hexdigit();
            assert_eq!(hex_decode(&pair), if digits { number } else { None });
        }
    }
}
