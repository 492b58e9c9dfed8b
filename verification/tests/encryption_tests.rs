//! Encryption: key-tag resolution, IV derivation, AES round trip.

use livestream_dl::{
    decrypt_aes128, encrypt_aes128, iv_from_sequence, Encryption, KeyMethod, KeyTag,
    LivestreamDLError,
};

fn aes_tag(uri: Option<&str>, iv: Option<&str>, keyformat: Option<&str>) -> KeyTag {
    KeyTag {
        method: KeyMethod::Aes128,
        uri: uri.map(|s| s.to_string()),
        iv: iv.map(|s| s.to_string()),
        keyformat: keyformat.map(|s| s.to_string()),
    }
}

#[test]
fn aes_round_trip_restores_the_buffer() {
    let key: Vec<u8> = (0u8..16).collect();
    let iv: Vec<u8> = (16u8..32).collect();
    let data: Vec<u8> = (0u8..=255).cycle().take(1000).collect();
    let cipher = encrypt_aes128(&key, &iv, &data);
    assert_ne!(cipher, data);
    assert_eq!(cipher.len() % 16, 0);
    assert!(cipher.len() > data.len());
    let plain = decrypt_aes128(&key, &iv, &cipher).expect("decrypt");
    assert_eq!(plain, data);
}

#[test]
fn aes_round_trip_empty_buffer() {
    let key = vec![7u8; 16];
    let iv = vec![9u8; 16];
    let data: Vec<u8> = Vec::new();
    let cipher = encrypt_aes128(&key, &iv, &data);
    assert_eq!(cipher.len(), 16);
    let plain = decrypt_aes128(&key, &iv, &cipher).expect("decrypt");
    assert_eq!(plain, data);
}

#[test]
fn aes_decrypt_rejects_garbage() {
    let key = vec![0u8; 16];
    let iv = vec![0u8; 16];
    assert!(decrypt_aes128(&key, &iv, &vec![1u8, 2, 3]).is_none());
}

#[test]
fn iv_derivation_is_big_endian_right_aligned() {
    let iv = iv_from_sequence(0x0102030405060708);
    assert_eq!(
        iv,
        vec![0, 0, 0, 0, 0, 0, 0, 0, 0x01, 0x02, 0x03, 0x04, 0x05, 0x06, 0x07, 0x08]
    );
    let iv0 = iv_from_sequence(0);
    assert_eq!(iv0, vec![0u8; 16]);
    let iv42 = iv_from_sequence(42);
    let mut expect = vec![0u8; 16];
    expect[15] = 42;
    assert_eq!(iv42, expect);
}

#[test]
fn iv_derivation_is_deterministic() {
    assert_eq!(iv_from_sequence(987654321), iv_from_sequence(987654321));
}

#[test]
fn key_tag_none_is_clear() {
    let tag = KeyTag { method: KeyMethod::Clear, uri: None, iv: None, keyformat: None };
    let e = Encryption::new(&tag, "http://example.com/p.m3u8", 3).expect("clear");
    assert_eq!(e, Encryption::Clear);
}

#[test]
fn key_tag_aes_with_explicit_iv() {
    let tag = aes_tag(Some("key.bin"), Some("0x000102030405060708090a0b0c0d0e0f"), None);
    let e = Encryption::new(&tag, "http://example.com/p.m3u8", 3).expect("aes");
    match e {
        Encryption::Aes128 { key_url, iv } => {
            assert_eq!(key_url, "http://example.com/key.bin");
            assert_eq!(iv, (0u8..16).collect::<Vec<u8>>());
        },
        _ => panic!("expected AES-128"),
    }
}

#[test]
fn key_tag_aes_without_iv_derives_from_sequence() {
    let tag = aes_tag(Some("http://keys.example.com/k"), None, Some("identity"));
    let e = Encryption::new(&tag, "http://example.com/p.m3u8", 5).expect("aes");
    match e {
        Encryption::Aes128 { key_url, iv } => {
            assert_eq!(key_url, "http://keys.example.com/k");
            assert_eq!(iv, iv_from_sequence(5));
        },
        _ => panic!("expected AES-128"),
    }
}

#[test]
fn key_tag_aes_without_uri_is_rejected() {
    let tag = aes_tag(None, None, None);
    let e = Encryption::new(&tag, "http://example.com/p.m3u8", 0);
    assert_eq!(e, Err(LivestreamDLError::NoKeyUri));
}

#[test]
fn key_tag_bad_keyformat_is_rejected() {
    let tag = aes_tag(Some("key.bin"), None, Some("com.example.drm"));
    let e = Encryption::new(&tag, "http://example.com/p.m3u8", 0);
    assert_eq!(
        e,
        Err(LivestreamDLError::InvalidKeyFormat { keyformat: "com.example.drm".to_string() })
    );
}

#[test]
fn key_tag_bad_iv_is_rejected() {
    let tag = aes_tag(Some("key.bin"), Some("0x1234"), None);
    let e = Encryption::new(&tag, "http://example.com/p.m3u8", 0);
    assert_eq!(e, Err(LivestreamDLError::MalformedIv { iv: "0x1234".to_string() }));
}

#[test]
fn key_tag_sample_aes_is_unsupported() {
    let tag = KeyTag { method: KeyMethod::SampleAes, uri: None, iv: None, keyformat: None };
    let e = Encryption::new(&tag, "http://example.com/p.m3u8", 0);
    assert_eq!(e, Err(LivestreamDLError::UnsupportedMethod { method: "SAMPLE-AES".to_string() }));
}

#[test]
fn key_tag_unknown_method_is_invalid() {
    let tag = KeyTag {
        method: KeyMethod::Other { name: "ROT13".to_string() },
        uri: None,
        iv: None,
        keyformat: None,
    };
    let e = Encryption::new(&tag, "http://example.com/p.m3u8", 0);
    assert_eq!(e, Err(LivestreamDLError::InvalidMethod { method: "ROT13".to_string() }));
}

#[test]
fn decrypt_clear_returns_payload() {
    let data = vec![1u8, 2, 3];
    let out = Encryption::Clear.decrypt(None, &data).expect("clear");
    assert_eq!(out, data);
}

#[test]
fn decrypt_aes_inverts_encrypt() {
    let key: Vec<u8> = (100u8..116).collect();
    let iv: Vec<u8> = (50u8..66).collect();
    let data = b"attack at dawn".to_vec();
    let cipher = encrypt_aes128(&key, &iv, &data);
    let enc = Encryption::Aes128 { key_url: "http://k".to_string(), iv: iv.clone() };
    let out = enc.decrypt(Some(&key), &cipher).expect("decrypt");
    assert_eq!(out, data);
}
