use ethgas::Address;
use ethgas::ClientError;
use ethgas::U256;
use ethgas::data_payload;
use ethgas::gas_from_hex_string;

#[test]
fn address_round_trips_through_its_canonical_string() {
    let mut bytes: Vec<u8> = Vec::new();
    for i in 0..20u8 {
        bytes.push(i.wrapping_mul(13).wrapping_add(7));
    }
    let a = Address::from_bytes(bytes.clone());
    let s = a.to_hex_string();
    assert_eq!(s.len(), 42);
    assert!(s.starts_with("0x"));
    let back = Address::parse(&s).expect("canonical form must parse");
    assert_eq!(back, a);
    assert_eq!(back.to_bytes(), bytes);
}

#[test]
fn address_parse_accepts_checksummed_case() {
    let lower = Address::parse("0x84d82ac02ade3a3d8a636fb06e442ab701aa7bb4").unwrap();
    let mixed = Address::parse("0x84d82ac02AdE3a3d8a636Fb06E442ab701aA7BB4").unwrap();
    assert_eq!(lower, mixed);
    assert_eq!(mixed.to_hex_string(), "0x84d82ac02ade3a3d8a636fb06e442ab701aa7bb4");
}

#[test]
fn address_parse_rejects_malformed_strings() {
    assert!(Address::parse("").is_none());
    assert!(Address::parse("0x").is_none());
    assert!(Address::parse("84d82ac02ade3a3d8a636fb06e442ab701aa7bb4").is_none());
    assert!(Address::parse("0x84d82ac02ade3a3d8a636fb06e442ab701aa7b").is_none());
    assert!(Address::parse("0x84d82ac02ade3a3d8a636fb06e442ab701aa7bbg").is_none());
    assert!(Address::parse("0x84d82ac02ade3a3d8a636fb06e442ab701aa7bb44").is_none());
}

#[test]
fn u256_round_trips_through_its_hex_string() {
    for x in [0u64, 1, 15, 16, 255, 256, 21_000, 987_654_321, u64::MAX] {
        let u = U256::from_u64(x);
        let s = u.to_hex_string();
        let back = gas_from_hex_string(&s).expect("canonical form must parse");
        assert_eq!(back, u, "round trip failed for {}", x);
    }
}

#[test]
fn u256_hex_rendering_is_minimal() {
    assert_eq!(U256::from_u64(0).to_hex_string(), "0x0");
    assert_eq!(U256::from_u64(1).to_hex_string(), "0x1");
    assert_eq!(U256::from_u64(15).to_hex_string(), "0xf");
    assert_eq!(U256::from_u64(16).to_hex_string(), "0x10");
    assert_eq!(U256::from_u64(21_000).to_hex_string(), "0x5208");
}

#[test]
fn u256_be_bytes_round_trip() {
    let mut bytes: Vec<u8> = Vec::new();
    for i in 0..32u8 {
        bytes.push(i.wrapping_mul(17).wrapping_add(3));
    }
    let u = U256::from_be_bytes(bytes.clone());
    assert_eq!(u.to_be_bytes(), bytes);
    let back = gas_from_hex_string(&u.to_hex_string()).unwrap();
    assert_eq!(back, u);
}

#[test]
fn gas_parse_handles_prefix_and_leading_zeros() {
    assert_eq!(gas_from_hex_string("0x5208").unwrap(), U256::from_u64(21_000));
    assert_eq!(gas_from_hex_string("5208").unwrap(), U256::from_u64(21_000));
    assert_eq!(gas_from_hex_string("0x0000005208").unwrap(), U256::from_u64(21_000));
    let long_zeros = format!("0x{}1", "0".repeat(70));
    assert_eq!(gas_from_hex_string(&long_zeros).unwrap(), U256::from_u64(1));
}

#[test]
fn gas_parse_rejects_empty_and_overflowing_numerals() {
    assert!(matches!(gas_from_hex_string(""), Err(ClientError::Encoding(_))));
    assert!(matches!(gas_from_hex_string("0x"), Err(ClientError::Encoding(_))));
    let too_big = format!("0x1{}", "0".repeat(64));
    assert!(matches!(gas_from_hex_string(&too_big), Err(ClientError::Encoding(_))));
    match gas_from_hex_string("0xzz") {
        Err(ClientError::Encoding(s)) => assert_eq!(s, "0xzz"),
        other => panic!("expected an encoding error, got {:?}", other),
    }
}

#[test]
fn data_payload_is_prefixed_and_even_length() {
    assert_eq!(data_payload(&Vec::new()), "0x");
    assert_eq!(data_payload(&vec![0xab, 0x01]), "0xab01");
    assert_eq!(data_payload(&vec![0x00]), "0x00");
    for len in 0..10usize {
        let data: Vec<u8> = (0..len as u8).collect();
        let p = data_payload(&data);
        assert!(p.starts_with("0x"));
        assert_eq!(p.len(), 2 + 2 * len);
    }
}
