use auria_core::{AuriaError, ExpertId, PublicKey, RequestId, RuntimeVersion, ShardId, Signature, Tier};

#[test]
fn current_version_is_one_zero_zero() {
    let v = RuntimeVersion::current();
    assert_eq!((v.major, v.minor, v.patch), (1, 0, 0));
}

#[test]
fn tier_names_are_shown_as_written() {
    assert_eq!(Tier::Nano.to_string(), "Nano");
    assert_eq!(Tier::Standard.to_string(), "Standard");
    assert_eq!(Tier::Pro.to_string(), "Pro");
    assert_eq!(Tier::Max.to_string(), "Max");
}

#[test]
fn shard_id_text_is_lowercase_hex() {
    let mut bytes = [0u8; 32];
    bytes[0] = 0xAB;
    bytes[1] = 0x01;
    bytes[31] = 0xF0;
    let text = ShardId(bytes).to_hex();
    assert_eq!(text.len(), 64);
    assert_eq!(&text[..4], "ab01");
    assert_eq!(&text[62..], "f0");
    assert_eq!(&text[4..62], "0".repeat(58));
}

#[test]
fn identifier_text_round_trips() {
    let mut bytes = [0u8; 32];
    for (i, b) in bytes.iter_mut().enumerate() {
        *b = (i as u8).wrapping_mul(37).wrapping_add(5);
    }
    let id = ExpertId(bytes);
    assert_eq!(ExpertId::from_hex(&id.to_hex()).unwrap(), id);
    let key = PublicKey(bytes);
    assert_eq!(PublicKey::from_hex(&key.to_hex()).unwrap(), key);
    let digest = auria_core::ids::Hash(bytes);
    assert_eq!(auria_core::ids::Hash::from_hex(&digest.to_hex()).unwrap(), digest);
    let mut long = [0u8; 64];
    long[..32].copy_from_slice(&bytes);
    long[63] = 0x7f;
    let signature = Signature(long);
    assert_eq!(signature.to_hex().len(), 128);
    assert_eq!(Signature::from_hex(&signature.to_hex()).unwrap(), signature);
    let mut short = [0u8; 16];
    short.copy_from_slice(&bytes[..16]);
    let request = RequestId(short);
    assert_eq!(request.to_hex().len(), 32);
    assert_eq!(RequestId::from_hex(&request.to_hex()).unwrap(), request);
}

#[test]
fn from_hex_accepts_upper_and_mixed_case() {
    let lower = "ab".repeat(32);
    let upper = "AB".repeat(32);
    let mixed = "aB".repeat(32);
    let want = ShardId([0xAB; 32]);
    assert_eq!(ShardId::from_hex(&lower).unwrap(), want);
    assert_eq!(ShardId::from_hex(&upper).unwrap(), want);
    assert_eq!(ShardId::from_hex(&mixed).unwrap(), want);
}

#[test]
fn from_hex_refuses_wrong_length_with_invalid_length() {
    let short = "ab".repeat(31);
    match ShardId::from_hex(&short) {
        Err(AuriaError::SerializationError(m)) => assert_eq!(m, "invalid length"),
        other => panic!("unexpected: {:?}", other),
    }
    let long = "00".repeat(17);
    match RequestId::from_hex(&long) {
        Err(AuriaError::SerializationError(m)) => assert_eq!(m, "invalid length"),
        other => panic!("unexpected: {:?}", other),
    }
    match Signature::from_hex("") {
        Err(AuriaError::SerializationError(m)) => assert_eq!(m, "invalid length"),
        other => panic!("unexpected: {:?}", other),
    }
}

#[test]
fn from_hex_refuses_odd_length_and_bad_characters() {
    let odd = "a".repeat(63);
    assert!(matches!(ShardId::from_hex(&odd), Err(AuriaError::SerializationError(_))));
    let bad = format!("{}zz", "00".repeat(31));
    assert!(matches!(ShardId::from_hex(&bad), Err(AuriaError::SerializationError(_))));
    let wide = format!("{}é", "00".repeat(31));
    assert!(matches!(ShardId::from_hex(&wide), Err(AuriaError::SerializationError(_))));
}

#[test]
fn identifiers_compare_by_bytes() {
    let a = ShardId([1u8; 32]);
    let mut other = [1u8; 32];
    other[31] = 2;
    assert_eq!(a, ShardId([1u8; 32]));
    assert_ne!(a, ShardId(other));
}
