use create2_predict::base58::{
    base58check_decode, base58check_encode, hex_to_tron_address, tron_address_to_hex,
};
use create2_predict::codec::{
    checksum_address, fast_hex_decode, fast_hex_encode, is_address_body, to_checksum_address,
};
use create2_predict::error::Create2Error;

#[test]
fn test_fast_hex_decode() {
    let hex = "a84c57e9966df7df79bff42f35c68aae71796f64";
    let result = fast_hex_decode(hex);
    assert!(result.is_ok());
}

#[test]
fn hex_decode_gives_the_bytes() {
    assert_eq!(fast_hex_decode("00ff10aB").unwrap(), vec![0x00, 0xff, 0x10, 0xab]);
    assert_eq!(fast_hex_decode("").unwrap(), Vec::<u8>::new());
}

#[test]
fn hex_encode_gives_lower_case_digits() {
    assert_eq!(fast_hex_encode(&[0x00, 0xff, 0x10, 0xab]), "00ff10ab");
    assert_eq!(fast_hex_encode(&[]), "");
}

#[test]
fn hex_decode_refuses_odd_length() {
    assert!(matches!(fast_hex_decode("abc"), Err(Create2Error::MalformedHex)));
}

#[test]
fn hex_decode_refuses_other_characters() {
    assert!(matches!(fast_hex_decode("zz"), Err(Create2Error::MalformedHex)));
    assert!(matches!(fast_hex_decode("0x12"), Err(Create2Error::MalformedHex)));
    assert!(matches!(fast_hex_decode("é1"), Err(Create2Error::MalformedHex)));
}

#[test]
fn hex_round_trip_on_every_byte() {
    let mut bytes = Vec::new();
    for b in 0..=255u8 {
        bytes.push(b);
    }
    let text = fast_hex_encode(&bytes);
    assert_eq!(text.len(), 512);
    assert_eq!(fast_hex_decode(&text).unwrap(), bytes);
}

#[test]
fn checksum_case_of_known_addresses() {
    assert_eq!(
        to_checksum_address("5aaeb6053f3e94c9b9a09f33669435e7ef1beaed"),
        "0x5aAeb6053F3E94C9b9A09f33669435E7Ef1BeAed"
    );
    assert_eq!(
        to_checksum_address("fb6916095ca1df60bb79ce92ce3ea74c37c5d359"),
        "0xfB6916095ca1df60bB79Ce92cE3Ea74c37c5d359"
    );
}

#[test]
fn checksum_case_ignores_the_case_given() {
    assert_eq!(
        to_checksum_address("5AAEB6053F3E94C9B9A09F33669435E7EF1BEAED"),
        "0x5aAeb6053F3E94C9b9A09f33669435E7Ef1BeAed"
    );
}

#[test]
fn checksum_case_is_idempotent_through_lower_case() {
    let once = to_checksum_address("22fbfb2264b9cd1ade8ce5013012c817878d783c");
    assert_eq!(once, "0x22FBFB2264B9Cd1ADe8ce5013012c817878D783C");
    let lower = once[2..].to_lowercase();
    assert_eq!(to_checksum_address(&lower), once);
}

#[test]
fn base58check_round_trip() {
    let payload: Vec<u8> = (1..=20u8).collect();
    let text = base58check_encode(0x41, &payload);
    assert!(text.starts_with('T'));
    assert_eq!(text.len(), 34);
    let (version, decoded) = base58check_decode(&text).unwrap();
    assert_eq!(version, 0x41);
    assert_eq!(decoded, payload);
}

#[test]
fn base58check_encodes_a_known_address() {
    let payload = tron_address_to_hex("TL2ScqgY9ckK5h1VQExuMNrweyVSSdAtHa").unwrap();
    assert_eq!(payload.len(), 20);
    assert_eq!(base58check_encode(0x41, &payload), "TL2ScqgY9ckK5h1VQExuMNrweyVSSdAtHa");
    assert_eq!(hex_to_tron_address(&payload).unwrap(), "TL2ScqgY9ckK5h1VQExuMNrweyVSSdAtHa");
}

#[test]
fn base58check_decode_refuses_a_changed_character() {
    let text = "TL2ScqgY9ckK5h1VQExuMNrweyVSSdAtHa";
    assert!(base58check_decode(text).is_ok());
    let changed = "TL2ScqgY9ckK5h1VQExuMNrweyVSSdAtHb";
    assert!(matches!(base58check_decode(changed), Err(Create2Error::InvalidChecksum)));
    let changed = "TL2ScqgY9ckK5h1VQFxuMNrweyVSSdAtHa";
    assert!(matches!(base58check_decode(changed), Err(Create2Error::InvalidChecksum)));
}

#[test]
fn base58check_decode_refuses_other_lengths() {
    let short = base58check_encode(0x41, &[1, 2, 3]);
    assert!(matches!(base58check_decode(&short), Err(Create2Error::InvalidLength)));
    assert!(matches!(base58check_decode(""), Err(Create2Error::InvalidLength)));
}

#[test]
fn base58check_decode_refuses_what_is_no_base58() {
    match base58check_decode("TL2ScqgY9ckK5h1VQExuMNrweyVSSdAt0O") {
        Err(Create2Error::InvalidAddress(text)) => assert_eq!(text, "Invalid Base58 address"),
        _ => panic!("a text with 0 and O is no Base58"),
    }
}

#[test]
fn tron_address_needs_25_bytes() {
    let short = base58check_encode(0x41, &[1, 2, 3]);
    assert!(matches!(tron_address_to_hex(&short), Err(Create2Error::InvalidLength)));
    let long = bs58::encode([0x41u8; 26]).into_string();
    assert!(matches!(tron_address_to_hex(&long), Err(Create2Error::InvalidLength)));
    let twenty_one = bs58::encode([0x41u8; 21]).into_string();
    assert!(matches!(tron_address_to_hex(&twenty_one), Err(Create2Error::InvalidLength)));
    assert!(matches!(tron_address_to_hex(""), Err(Create2Error::InvalidLength)));
}

#[test]
fn tron_address_needs_its_checksum() {
    let mut frame = vec![0x41u8];
    frame.extend_from_slice(&[7u8; 20]);
    frame.extend_from_slice(&[0, 0, 0, 0]);
    let unchecked = bs58::encode(&frame).into_string();
    assert!(matches!(tron_address_to_hex(&unchecked), Err(Create2Error::InvalidChecksum)));
    let text = hex_to_tron_address(&[7u8; 20]).unwrap();
    assert_eq!(tron_address_to_hex(&text).unwrap(), vec![7u8; 20]);
    let alphabet = "123456789ABCDEFGHJKLMNPQRSTUVWXYZabcdefghijkmnopqrstuvwxyz";
    for position in 1..text.len() {
        for other in alphabet.chars().take(5) {
            let mut changed: Vec<char> = text.chars().collect();
            if changed[position] == other {
                continue;
            }
            changed[position] = other;
            let changed: String = changed.into_iter().collect();
            match tron_address_to_hex(&changed) {
                Err(Create2Error::InvalidChecksum) | Err(Create2Error::InvalidLength) => {}
                _ => panic!("a changed address was read: {}", changed),
            }
        }
    }
}

#[test]
fn tron_address_needs_base58() {
    for text in ["0OIl", "not base58!", "TL2ScqgY9ckK5h1VQExuMNrweyVSSdAt0O"] {
        match tron_address_to_hex(text) {
            Err(Create2Error::InvalidAddress(message)) => {
                assert_eq!(message, "Invalid Base58 address")
            }
            _ => panic!("no Base58: {}", text),
        }
    }
}

#[test]
fn tron_address_text_reads_back() {
    let payload: Vec<u8> = (100..120u8).collect();
    let text = hex_to_tron_address(&payload).unwrap();
    assert_eq!(text.len(), 34);
    assert!(text.starts_with('T'));
    let (version, decoded) = base58check_decode(&text).unwrap();
    assert_eq!(version, 0x41);
    assert_eq!(decoded, payload);
    assert_eq!(tron_address_to_hex(&text).unwrap(), payload);
    let frame = bs58::decode(&text).into_vec().unwrap();
    assert_eq!(frame.len(), 25);
    assert_eq!(frame[0], 0x41);
    assert_eq!(&frame[1..21], &payload[..]);
}

#[test]
fn tron_address_text_needs_20_bytes() {
    match hex_to_tron_address(&[0u8; 19]) {
        Err(Create2Error::InvalidAddress(text)) => assert_eq!(text, "Invalid address length"),
        _ => panic!("19 bytes are no address"),
    }
}

#[test]
fn hex_codec_agrees_with_the_hex_crate() {
    let bytes: Vec<u8> = (0..=255u8).rev().collect();
    assert_eq!(fast_hex_encode(&bytes), hex::encode(&bytes));
    let text = "00FFa84c57E9966dF7";
    assert_eq!(fast_hex_decode(text).unwrap(), hex::decode(text).unwrap());
    assert!(hex::decode("abc").is_err());
    assert!(hex::decode("zz").is_err());
}

#[test]
fn checksum_address_takes_40_digits_only() {
    assert_eq!(
        checksum_address("5aaeb6053f3e94c9b9a09f33669435e7ef1beaed").unwrap(),
        "0x5aAeb6053F3E94C9b9A09f33669435E7Ef1BeAed"
    );
    for case in [
        "",
        "0x5aaeb6053f3e94c9b9a09f33669435e7ef1beaed",
        "5aaeb6053f3e94c9b9a09f33669435e7ef1beae",
        "5aaeb6053f3e94c9b9a09f33669435e7ef1beaeg",
    ] {
        match checksum_address(case) {
            Err(Create2Error::InvalidAddress(text)) => {
                assert_eq!(text, "Address must be 40 hexadecimal digits")
            }
            _ => panic!("not 40 digits: {}", case),
        }
        assert!(!is_address_body(case.as_bytes()));
    }
    assert!(is_address_body(b"5AAEB6053f3e94c9b9a09f33669435e7ef1beaed"));
}
