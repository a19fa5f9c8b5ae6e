use rustp2p::cipher::aes_gcm::AesGcmCipher;
use rustp2p::cipher::chacha20_poly1305::ChaCha20Poly1305Cipher;
use rustp2p::cipher::aead::CipherError;
use rustp2p::cipher::{tag, Algorithm, Cipher};
use rustp2p::protocol::node_id::NodeID;

#[test]
fn ring_aes_gcm_cipher_test_aes_gcm() {
    let d = AesGcmCipher::new_256([0; 32]);
    let src = [3; 100];
    let mut data = src;
    d.encrypt([0; 12], &mut data).unwrap();
    let len = d.decrypt([0; 12], &mut data).unwrap();
    assert_eq!(&data[..len], &src[..len]);
}

#[test]
fn test_chacha20_poly1305() {
    let d = ChaCha20Poly1305Cipher::new_256([0; 32]);
    let src = [3; 100];
    let mut data = src;
    d.encrypt([0; 12], &mut data).unwrap();
    let len = d.decrypt([0; 12], &mut data).unwrap();
    assert_eq!(&data[..len], &src[..len]);
}

#[test]
fn cipher_round_trip_from_passwords() {
    for algo in [
        Algorithm::AesGcm("short".to_string()),
        Algorithm::AesGcm("a much longer password".to_string()),
        Algorithm::ChaCha20Poly1305("pw".to_string()),
    ] {
        let c: Cipher = algo.into();
        assert_eq!(c.reserved_len(), 28);
        let mut data = vec![7u8; 64];
        let extra = tag(&NodeID::from(1u32), &NodeID::from(2u32));
        c.encrypt(extra, &mut data).unwrap();
        assert_ne!(&data[..36], &[7u8; 36][..]);
        let n = c.decrypt(extra, &mut data).unwrap();
        assert_eq!(n, 36);
        assert_eq!(&data[..n], &[7u8; 36][..]);
    }
}

#[test]
fn cipher_rejects_short_and_tampered_payloads() {
    let c = Cipher::new_chacha20_poly1305("pw".to_string());
    let mut short = vec![0u8; 27];
    assert_eq!(c.encrypt([0; 12], &mut short), Err(CipherError::TooShort));
    assert_eq!(c.decrypt([0; 12], &mut short), Err(CipherError::TooShort));
    let mut data = vec![1u8; 40];
    c.encrypt_with_random([9; 12], [5; 12], &mut data).unwrap();
    assert_eq!(&data[28..], &[5u8; 12]);
    let mut wrong_extra = data.clone();
    assert_eq!(c.decrypt([8; 12], &mut wrong_extra), Err(CipherError::Open));
    data[0] ^= 1;
    assert_eq!(c.decrypt([9; 12], &mut data), Err(CipherError::Open));
}

#[test]
fn unencrypted_cipher_leaves_payload() {
    let c = Cipher::Unencrypted;
    let mut data = vec![1u8, 2, 3];
    c.encrypt([0; 12], &mut data).unwrap();
    assert_eq!(data, vec![1, 2, 3]);
    assert_eq!(c.decrypt([0; 12], &mut data).unwrap(), 3);
    assert_eq!(c.reserved_len(), 0);
}

#[test]
fn tag_holds_both_ids() {
    let t = tag(&NodeID::from(0x01020304u32), &NodeID::from(0x05060708u32));
    assert_eq!(t, [1, 2, 3, 4, 5, 6, 7, 8, 0, 0, 0, 0]);
}

#[test]
fn short_payloads_are_left_alone_and_invalid_data() {
    for c in [Cipher::new_aes_gcm("pw".to_string()), Cipher::new_chacha20_poly1305("pw".to_string())] {
        let mut short = vec![4u8; 20];
        let e = c.encrypt([0; 12], &mut short).unwrap_err();
        assert_eq!(short, vec![4u8; 20]);
        assert_eq!(e.kind(), rustp2p::error::IoKind::InvalidData);
        let e = c.decrypt([0; 12], &mut short).unwrap_err();
        assert_eq!(short, vec![4u8; 20]);
        assert_eq!(e.kind(), rustp2p::error::IoKind::InvalidData);
    }
}

#[test]
fn encrypted_payload_is_sealed_body_then_random_part() {
    for c in [
        Cipher::new_chacha20_poly1305("pw".to_string()),
        Cipher::from(Algorithm::AesGcm("pw".to_string())),
    ] {
        let extra = tag(&NodeID::from(1u32), &NodeID::from(2u32));
        let mut drawn = vec![4u8; 50];
        c.encrypt(extra, &mut drawn).unwrap();
        let mut random = [0u8; 12];
        random.copy_from_slice(&drawn[38..]);
        let mut again = vec![4u8; 50];
        c.encrypt_with_random(extra, random, &mut again).unwrap();
        assert_eq!(drawn, again);
    }
}
