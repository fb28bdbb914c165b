use passbox::cryptography::{decrypt, encrypt, get_iv, key_derivation, CryptoError};
use passbox::hex::{hex_decode, hex_encode};

fn salt_a() -> Vec<u8> {
    (0u8..32).collect()
}

fn salt_b() -> Vec<u8> {
    (100u8..132).collect()
}

fn split_envelope(env: &[u8]) -> (Vec<u8>, Vec<u8>, Vec<u8>) {
    let parts: Vec<&[u8]> = env.split(|b| *b == b'/').collect();
    assert_eq!(parts.len(), 3);
    (parts[0].to_vec(), parts[1].to_vec(), parts[2].to_vec())
}

#[test]
fn hex_round_trip() {
    let data: Vec<u8> = vec![0x00, 0x01, 0x7f, 0x80, 0xff, 0xab];
    let encoded = hex_encode(&data);
    assert_eq!(encoded, b"00017f80ffab".to_vec());
    let decoded = hex_decode(&encoded).expect("valid hex");
    assert_eq!(decoded, data);
}

#[test]
fn hex_encode_empty() {
    let encoded = hex_encode(&Vec::new());
    assert_eq!(encoded.len(), 0);
    assert_eq!(hex_decode(&encoded), Some(Vec::new()));
}

#[test]
fn hex_decode_rejects_bad_text() {
    assert_eq!(hex_decode(&b"abc".to_vec()), None);
    assert_eq!(hex_decode(&b"zz".to_vec()), None);
    assert_eq!(hex_decode(&b"AB".to_vec()), None);
    assert_eq!(hex_decode(&b"0g".to_vec()), None);
}

#[test]
fn key_derivation_is_deterministic() {
    let pw = b"correct-horse".to_vec();
    let k1 = key_derivation(&pw, &salt_a()).expect("derivation");
    let k2 = key_derivation(&pw, &salt_a()).expect("derivation");
    assert_eq!(k1, k2);
    assert_eq!(k1.len(), 32);
}

#[test]
fn key_derivation_differs_across_salts() {
    let pw = b"correct-horse".to_vec();
    let k1 = key_derivation(&pw, &salt_a()).expect("derivation");
    let k2 = key_derivation(&pw, &salt_b()).expect("derivation");
    assert_ne!(k1, k2);
}

#[test]
fn key_derivation_is_not_the_passphrase() {
    let pw = vec![0u8; 32];
    let k = key_derivation(&pw, &salt_a()).expect("derivation");
    assert_ne!(k, pw);
    assert_ne!(k, vec![0u8; 32]);
}

#[test]
fn get_iv_has_requested_length() {
    assert_eq!(get_iv(12).len(), 12);
    assert_eq!(get_iv(0).len(), 0);
}

#[test]
fn round_trip_returns_the_payload() {
    let pw = b"correct-horse".to_vec();
    let data = b"attack at dawn".to_vec();
    let env = encrypt(&data, &pw, &salt_a()).expect("encrypt");
    let plain = decrypt(&env, &pw, &salt_a()).expect("decrypt");
    assert_eq!(plain, data);
}

#[test]
fn round_trip_empty_payload() {
    let pw = b"pw".to_vec();
    let data = Vec::new();
    let env = encrypt(&data, &pw, &salt_a()).expect("encrypt");
    let plain = decrypt(&env, &pw, &salt_a()).expect("decrypt");
    assert_eq!(plain, data);
}

#[test]
fn envelope_shape_is_three_hex_fields() {
    let pw = b"pw".to_vec();
    let data = b"payload".to_vec();
    let env = encrypt(&data, &pw, &salt_a()).expect("encrypt");
    let (nonce_hex, cipher_hex, tag_hex) = split_envelope(&env);
    assert_eq!(nonce_hex.len(), 24);
    assert_eq!(cipher_hex.len(), 2 * data.len());
    assert_eq!(tag_hex.len(), 32);
    assert_eq!(hex_decode(&nonce_hex).expect("hex nonce").len(), 12);
    // The ciphertext is a real transformation of the payload.
    assert_ne!(hex_decode(&cipher_hex).expect("hex ciphertext"), data);
}

#[test]
fn nonce_is_fresh_per_encryption() {
    let pw = b"pw".to_vec();
    let data = b"same plaintext".to_vec();
    let env1 = encrypt(&data, &pw, &salt_a()).expect("encrypt");
    let env2 = encrypt(&data, &pw, &salt_a()).expect("encrypt");
    assert_ne!(env1, env2);
    let (n1, c1, _) = split_envelope(&env1);
    let (n2, c2, _) = split_envelope(&env2);
    assert_ne!(n1, n2);
    assert_ne!(c1, c2);
}

fn flip_hex_char(b: u8) -> u8 {
    if b == b'0' {
        b'1'
    } else {
        b'0'
    }
}

#[test]
fn tampered_tag_is_rejected() {
    let pw = b"pw".to_vec();
    let data = b"guarded".to_vec();
    let env = encrypt(&data, &pw, &salt_a()).expect("encrypt");
    // Flip each hex character of the tag portion in turn.
    let tag_start = env.len() - 32;
    for i in tag_start..env.len() {
        let mut bad = env.clone();
        bad[i] = flip_hex_char(bad[i]);
        assert_eq!(decrypt(&bad, &pw, &salt_a()), Err(CryptoError::Authentication));
    }
}

#[test]
fn tampered_ciphertext_is_rejected() {
    let pw = b"pw".to_vec();
    let data = b"guarded".to_vec();
    let env = encrypt(&data, &pw, &salt_a()).expect("encrypt");
    let first = env.iter().position(|b| *b == b'/').unwrap();
    // Flip each hex character of the ciphertext portion in turn.
    for i in first + 1..first + 1 + 2 * data.len() {
        let mut bad = env.clone();
        bad[i] = flip_hex_char(bad[i]);
        assert_eq!(decrypt(&bad, &pw, &salt_a()), Err(CryptoError::Authentication));
    }
}

#[test]
fn wrong_passphrase_is_rejected() {
    let pw = b"correct-horse".to_vec();
    let data = b"secret".to_vec();
    let env = encrypt(&data, &pw, &salt_a()).expect("encrypt");
    let wrong = [
        b"wrong".to_vec(),
        b"correct-horse ".to_vec(),
        b"Correct-horse".to_vec(),
        b"".to_vec(),
        b"correct-hors".to_vec(),
    ];
    for w in wrong {
        assert_eq!(decrypt(&env, &w, &salt_a()), Err(CryptoError::Authentication));
    }
}

#[test]
fn wrong_salt_is_rejected() {
    let pw = b"correct-horse".to_vec();
    let data = b"secret".to_vec();
    let env = encrypt(&data, &pw, &salt_a()).expect("encrypt");
    assert_eq!(decrypt(&env, &pw, &salt_b()), Err(CryptoError::Authentication));
}

#[test]
fn malformed_envelopes_are_format_errors() {
    let pw = b"pw".to_vec();
    let cases: Vec<Vec<u8>> = vec![
        b"".to_vec(),
        b"deadbeef".to_vec(),
        b"aa/bb".to_vec(),
        b"aa/bb/cc/dd".to_vec(),
        b"zz/bb/cc".to_vec(),
        b"aa/b/cc".to_vec(),
        b"aa/bb/c".to_vec(),
        b"AA/bb/cc".to_vec(),
        // valid hex everywhere, but the nonce is not 12 bytes
        b"aabb/ccdd/eeff".to_vec(),
    ];
    for c in cases {
        assert_eq!(decrypt(&c, &pw, &salt_a()), Err(CryptoError::Format));
    }
}

#[test]
fn well_formed_foreign_envelope_is_not_a_format_error() {
    let pw = b"pw".to_vec();
    // 12-byte nonce, some ciphertext, some tag: structurally fine, but
    // the tag is wrong for the ciphertext.
    let env = b"000102030405060708090a0b/ff00/00112233445566778899aabbccddeeff".to_vec();
    assert_eq!(decrypt(&env, &pw, &salt_a()), Err(CryptoError::Authentication));
}
