//! The AEAD layer transform and key derivation, exercised with the real
//! cipher.
use hornet_onion::kdf::derive_keys;
use hornet_onion::onion_layer::OnionLayer;
use hornet_onion::Error;

#[test]
fn layer_round_trip() {
    let key = vec![0x11u8; 32];
    let nonce = vec![0x22u8; 12];
    let next_hop = b"[2001:db8::2]:9002".to_vec();
    let payload = b"inner payload bytes".to_vec();
    let layer = OnionLayer::new(next_hop.clone(), payload.clone());
    let ciphertext = layer.encrypt(&key, &nonce).unwrap();
    assert_eq!(ciphertext.len(), 2 + next_hop.len() + payload.len() + 16);
    let opened = OnionLayer::decrypt(&ciphertext, &key, &nonce).unwrap();
    assert_eq!(opened.next_hop, next_hop);
    assert_eq!(opened.payload, payload);
}

#[test]
fn layer_round_trip_empty_descriptor_and_payload() {
    let key = vec![0x07u8; 32];
    let nonce = vec![0u8; 12];
    let layer = OnionLayer::new(Vec::new(), Vec::new());
    let ciphertext = layer.encrypt(&key, &nonce).unwrap();
    assert_eq!(ciphertext.len(), 18);
    let opened = OnionLayer::decrypt(&ciphertext, &key, &nonce).unwrap();
    assert!(opened.next_hop.is_empty());
    assert!(opened.payload.is_empty());
}

#[test]
fn layer_bit_flip_rejected() {
    let key = vec![0x42u8; 32];
    let nonce = vec![0x09u8; 12];
    let layer = OnionLayer::new(b"next".to_vec(), b"payload".to_vec());
    let ciphertext = layer.encrypt(&key, &nonce).unwrap();
    for byte in 0..ciphertext.len() {
        for bit in 0..8 {
            let mut tampered = ciphertext.clone();
            tampered[byte] ^= 1u8 << bit;
            let r = OnionLayer::decrypt(&tampered, &key, &nonce);
            assert!(matches!(r, Err(Error::CryptoError)));
        }
    }
}

#[test]
fn layer_rejects_wrong_key_or_nonce_size() {
    let layer = OnionLayer::new(b"n".to_vec(), b"p".to_vec());
    assert!(matches!(
        layer.encrypt(&vec![0u8; 31], &vec![0u8; 12]),
        Err(Error::CryptoError)
    ));
    assert!(matches!(
        layer.encrypt(&vec![0u8; 32], &vec![0u8; 11]),
        Err(Error::CryptoError)
    ));
    assert!(matches!(
        OnionLayer::decrypt(&vec![0u8; 40], &vec![0u8; 33], &vec![0u8; 12]),
        Err(Error::CryptoError)
    ));
    assert!(matches!(
        OnionLayer::decrypt(&vec![0u8; 40], &vec![0u8; 32], &vec![0u8; 13]),
        Err(Error::CryptoError)
    ));
}

#[test]
fn decrypt_with_wrong_key_rejected() {
    let layer = OnionLayer::new(b"hop".to_vec(), b"data".to_vec());
    let ciphertext = layer.encrypt(&vec![1u8; 32], &vec![0u8; 12]).unwrap();
    assert!(matches!(
        OnionLayer::decrypt(&ciphertext, &vec![2u8; 32], &vec![0u8; 12]),
        Err(Error::CryptoError)
    ));
}

#[test]
fn derive_keys_distinct_and_deterministic() {
    let secret = b"shared secret".to_vec();
    let context = b"session-7".to_vec();
    let (enc_a, mac_a) = derive_keys(&secret, &context);
    let (enc_b, mac_b) = derive_keys(&secret, &context);
    assert_eq!(enc_a.len(), 32);
    assert_eq!(mac_a.len(), 32);
    assert_eq!(enc_a, enc_b);
    assert_eq!(mac_a, mac_b);
    assert_ne!(enc_a, mac_a);
    let (enc_other, _) = derive_keys(&secret, &b"session-8".to_vec());
    assert_ne!(enc_a, enc_other);
}
