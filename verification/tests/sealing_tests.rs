use base64::Engine;
use github_secrets_manager::errors::AppError;
use github_secrets_manager::model::{PublicKeyResponse, RecipientKey};
use github_secrets_manager::sealing::{decode_public_key, key_from_bytes, seal};

fn recipient_key(bytes: Vec<u8>) -> RecipientKey {
    RecipientKey { key_id: "key-1".to_string(), key_bytes: bytes }
}

#[test]
fn seal_round_trip_recovers_plaintext() {
    sodiumoxide::init().unwrap();
    let (pk, sk) = sodiumoxide::crypto::box_::gen_keypair();
    let key = recipient_key(pk.0.to_vec());
    let plaintext = b"top secret value";

    let sealed_b64 = seal(plaintext, &key).unwrap();
    let sealed = base64::engine::general_purpose::STANDARD.decode(&sealed_b64).unwrap();
    assert_eq!(sealed.len(), plaintext.len() + 48);

    let opened = sodiumoxide::crypto::sealedbox::open(&sealed, &pk, &sk).unwrap();
    assert_eq!(opened, plaintext);
}

#[test]
fn seal_twice_never_repeats_ciphertext() {
    sodiumoxide::init().unwrap();
    let (pk, _sk) = sodiumoxide::crypto::box_::gen_keypair();
    let key = recipient_key(pk.0.to_vec());

    let first = seal(b"same plaintext", &key).unwrap();
    let second = seal(b"same plaintext", &key).unwrap();
    assert_ne!(first, second);
}

#[test]
fn seal_rejects_key_lengths_around_the_boundary() {
    for len in [0usize, 16, 33] {
        let key = recipient_key(vec![7u8; len]);
        let r = seal(b"x", &key);
        assert!(matches!(r, Err(AppError::InvalidKey)), "length {} must be invalid", len);
    }
}

#[test]
fn seal_accepts_a_32_byte_key_and_pads_base64() {
    sodiumoxide::init().unwrap();
    let key = recipient_key(vec![7u8; 32]);
    let plaintext = b"1";
    let sealed_b64 = seal(plaintext, &key).unwrap();
    // 1 plaintext byte seals to 49 bytes, whose padded base64 takes 68 chars.
    assert_eq!(sealed_b64.len(), 68);
    assert!(sealed_b64.ends_with('='));
}

#[test]
fn decode_public_key_accepts_valid_material() {
    let material = vec![9u8; 32];
    let response = PublicKeyResponse {
        key_id: "key-7".to_string(),
        key: base64::engine::general_purpose::STANDARD.encode(&material),
    };
    let key = decode_public_key(&response).unwrap();
    assert_eq!(key.key_id, "key-7");
    assert_eq!(key.key_bytes, material);
}

#[test]
fn decode_public_key_rejects_malformed_base64() {
    let response = PublicKeyResponse { key_id: "key-7".to_string(), key: "!!!not base64!!!".to_string() };
    assert!(matches!(decode_public_key(&response), Err(AppError::InvalidKey)));
}

#[test]
fn decode_public_key_rejects_wrong_length_material() {
    let response = PublicKeyResponse {
        key_id: "key-7".to_string(),
        key: base64::engine::general_purpose::STANDARD.encode(vec![9u8; 16]),
    };
    assert!(matches!(decode_public_key(&response), Err(AppError::InvalidKey)));
}

#[test]
fn key_from_bytes_checks_the_length() {
    assert!(key_from_bytes("k".to_string(), vec![0u8; 32]).is_ok());
    assert!(matches!(key_from_bytes("k".to_string(), vec![0u8; 31]), Err(AppError::InvalidKey)));
    assert!(matches!(key_from_bytes("k".to_string(), vec![0u8; 0]), Err(AppError::InvalidKey)));
}
