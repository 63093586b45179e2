use pqc_staking::staking_key::{encode_decoded_key, parse_key_string, KeyAlgorithm, KeyError};

fn parsed(algorithm: &str, key: &[u8]) -> Result<Vec<u8>, KeyError> {
    parse_key_string(&format!("{}:{}", algorithm, bs58::encode(key).into_string()))
}

#[test]
fn keys_are_encoded_with_tag_and_length() {
    let mldsa: Vec<u8> = (0..1952).map(|i| (i % 251) as u8).collect();
    let encoding = parsed("mldsa", &mldsa).unwrap();
    assert_eq!(encoding.len(), 1957);
    assert_eq!(encoding[..5], [2, 0xA0, 7, 0, 0]);
    assert_eq!(encoding[5..], mldsa[..]);

    let fndsa: Vec<u8> = (0..897).map(|i| (i % 241) as u8).collect();
    let encoding = parsed("fndsa", &fndsa).unwrap();
    assert_eq!(encoding.len(), 902);
    assert_eq!(encoding[..5], [3, 0x81, 3, 0, 0]);
    assert_eq!(encoding[5..], fndsa[..]);

    let slhdsa: Vec<u8> = (10..42).collect();
    let encoding = parsed("slhdsa", &slhdsa).unwrap();
    assert_eq!(encoding.len(), 37);
    assert_eq!(encoding[..5], [4, 0x20, 0, 0, 0]);
    assert_eq!(encoding[5..], slhdsa[..]);
}

#[test]
fn a_key_needs_a_colon() {
    let result = parse_key_string("mldsa");
    assert!(matches!(result, Err(KeyError::MissingSeparator)));
    assert!(matches!(parse_key_string(""), Err(KeyError::MissingSeparator)));
}

#[test]
fn a_key_needs_a_known_algorithm() {
    for (text, algorithm) in [("ed25519:1", "ed25519"), (":1", ""), ("MLDSA:1", "MLDSA")] {
        match parse_key_string(text) {
            Err(KeyError::UnknownAlgorithm(name)) => assert_eq!(name, algorithm),
            _ => panic!("an unknown algorithm was taken"),
        }
    }
}

#[test]
fn the_algorithm_is_reported_before_the_base58() {
    assert!(matches!(parse_key_string("rsa:0OIl"), Err(KeyError::UnknownAlgorithm(_))));
}

#[test]
fn a_key_is_written_in_base58() {
    assert!(matches!(parse_key_string("slhdsa:0OIl"), Err(KeyError::InvalidBase58)));
    // only the first colon separates
    assert!(matches!(parse_key_string("slhdsa:1:1"), Err(KeyError::InvalidBase58)));
    assert!(matches!(parse_key_string("slhdsa:\u{e9}"), Err(KeyError::InvalidBase58)));
}

#[test]
fn a_key_has_the_length_of_its_algorithm() {
    match parsed("slhdsa", &[1u8; 31]) {
        Err(KeyError::WrongLength { algorithm, actual }) => {
            assert_eq!(algorithm, KeyAlgorithm::SlhDsa);
            assert_eq!(actual, 31);
        }
        _ => panic!("a short key was taken"),
    }
    assert!(matches!(
        parse_key_string("fndsa:"),
        Err(KeyError::WrongLength { algorithm: KeyAlgorithm::FnDsa, actual: 0 })
    ));
}

#[test]
fn decoded_keys_are_encoded_or_refused() {
    let encoding = encode_decoded_key(KeyAlgorithm::SlhDsa, Some(vec![9; 32])).unwrap();
    assert_eq!(encoding[..5], [4, 32, 0, 0, 0]);
    assert_eq!(encoding[5..], [9; 32]);
    let undecoded = encode_decoded_key(KeyAlgorithm::SlhDsa, None);
    assert!(matches!(undecoded, Err(KeyError::InvalidBase58)));
    let long = encode_decoded_key(KeyAlgorithm::FnDsa, Some(vec![9; 898]));
    assert!(matches!(long, Err(KeyError::WrongLength { actual: 898, .. })));
}

#[test]
fn algorithms_are_found_by_name() {
    for algorithm in [KeyAlgorithm::MlDsa, KeyAlgorithm::FnDsa, KeyAlgorithm::SlhDsa] {
        assert_eq!(KeyAlgorithm::from_name(algorithm.name()), Some(algorithm));
    }
    assert_eq!(KeyAlgorithm::from_name("ed25519"), None);
    assert_eq!(KeyAlgorithm::MlDsa.type_byte(), 2);
    assert_eq!(KeyAlgorithm::FnDsa.type_byte(), 3);
    assert_eq!(KeyAlgorithm::SlhDsa.type_byte(), 4);
    assert_eq!(KeyAlgorithm::MlDsa.key_len(), 1952);
}

#[test]
fn key_errors_say_why() {
    assert_eq!(KeyError::MissingSeparator.message(), "Key format: 'algo:base58'");
    assert_eq!(
        KeyError::UnknownAlgorithm("rsa".to_string()).message(),
        "Unknown key algorithm: rsa"
    );
    assert_eq!(KeyError::InvalidBase58.message(), "Invalid base58");
    assert_eq!(
        KeyError::WrongLength { algorithm: KeyAlgorithm::FnDsa, actual: 31 }.message(),
        "Key must be exactly 897 bytes for fndsa, got 31"
    );
}
