use fastlink::crypto::hash::{blake3_derive_key, blake3_hash, blake3_keyed_hash, blake3_verify, sha256_hash, sha256_verify};
use fastlink::crypto::kdf::{blake3_derive, blake3_derive_with_salt, hkdf_sha256};
use fastlink::crypto::key_manager::KeyManager;
use fastlink::crypto::key_exchange::{derive_shared_secret, generate_keypair, KeyExchangePrivateKey};
use fastlink::crypto::replay_protection::ReplayWindow;
use fastlink::crypto::signature::{verify, KeyPair};
use fastlink::crypto::symmetric::{Aes256GcmCipher, ChaCha20Poly1305, EncryptedData};

#[test]
fn test_blake3_hash() {
    let data = b"Hello, FastLink!";
    let hash = blake3_hash(data);
    assert_eq!(hash.0.len(), 32);
}

#[test]
fn test_blake3_verify() {
    let data = b"Hello, FastLink!";
    let hash = blake3_hash(data);
    assert!(blake3_verify(data, &hash.0));
    assert!(!blake3_verify(b"Wrong data", &hash.0));
}

#[test]
fn test_blake3_keyed_hash() {
    let data = b"Hello, FastLink!";
    let key = b"test_key";
    let hash1 = blake3_keyed_hash(data, key);
    let hash2 = blake3_keyed_hash(data, key);
    assert_eq!(hash1.0, hash2.0);
    let hash3 = blake3_keyed_hash(data, b"different_key");
    assert_ne!(hash1.0, hash3.0);
}

#[test]
fn test_sha256_hash() {
    let data = b"Hello, FastLink!";
    let hash = sha256_hash(data);
    assert_eq!(hash.len(), 32);
}

#[test]
fn test_sha256_verify() {
    let data = b"Hello, FastLink!";
    let hash = sha256_hash(data);
    assert!(sha256_verify(data, &hash));
    assert!(!sha256_verify(b"Wrong data", &hash));
}

#[test]
fn sha256_known_vector() {
    // SHA-256 of the empty string.
    let h = sha256_hash(b"");
    assert_eq!(h[0], 0xe3);
    assert_eq!(h[1], 0xb0);
    assert_eq!(h[31], 0x55);
}

#[test]
fn blake3_known_vector() {
    // BLAKE3 of the empty string starts af1349b9.
    let h = blake3_hash(b"");
    assert_eq!(&h.0[..4], &[0xaf, 0x13, 0x49, 0xb9]);
}

#[test]
fn blake3_verify_rejects_short_digest() {
    let hash = blake3_hash(b"abc");
    assert!(!blake3_verify(b"abc", &hash.0[..31]));
}

#[test]
fn blake3_derive_key_depends_on_context() {
    let a = blake3_derive_key(b"key material", "context one");
    let b = blake3_derive_key(b"key material", "context two");
    assert_eq!(a.0.len(), 32);
    assert_ne!(a.0, b.0);
}

#[test]
fn test_hkdf_sha256() {
    let ikm = b"input key material";
    let salt = b"salt";
    let info = b"info";
    let derived = hkdf_sha256(ikm, salt, info, 32);
    assert_eq!(derived.0.len(), 32);
}

#[test]
fn hkdf_sha256_lengths_and_prefix() {
    let long = hkdf_sha256(b"ikm", b"salt", b"info", 64);
    let short = hkdf_sha256(b"ikm", b"salt", b"info", 16);
    assert_eq!(long.0.len(), 64);
    assert_eq!(short.0.len(), 16);
    // HKDF output is a prefix-stable stream.
    assert_eq!(&long.0[..16], &short.0[..]);
}

#[test]
fn test_blake3_derive() {
    let ikm = b"input key material";
    let derived = blake3_derive(ikm, "fastlink-key-derivation");
    assert_eq!(derived.0.len(), 32);
}

#[test]
fn test_blake3_derive_with_salt() {
    let ikm = b"input key material";
    let salt = b"salt";
    let derived = blake3_derive_with_salt(ikm, "fastlink-key-derivation", salt);
    assert_eq!(derived.0.len(), 32);
}

#[test]
fn blake3_derive_with_salt_is_derive_of_concatenation() {
    let with_salt = blake3_derive_with_salt(b"ikm", "ctx", b"salt");
    let plain = blake3_derive(b"saltikm", "ctx");
    assert_eq!(with_salt.0, plain.0);
    assert_ne!(with_salt.0, blake3_derive(b"ikm", "ctx").0);
}

#[test]
fn key_exchange_test_key_generation() {
    let (private, public) = generate_keypair();
    assert_eq!(public.0.len(), 32);
    let _ = private.public_key();
}

#[test]
fn test_key_exchange() {
    let (alice_private, alice_public) = generate_keypair();
    let (bob_private, bob_public) = generate_keypair();
    let alice_shared = alice_private.diffie_hellman(&bob_public);
    let bob_shared = bob_private.diffie_hellman(&alice_public);
    assert_eq!(alice_shared.0, bob_shared.0);
}

#[test]
fn test_derive_shared_secret() {
    let (alice_private, _) = generate_keypair();
    let (_, bob_public) = generate_keypair();
    let shared = derive_shared_secret(&alice_private.public_key().0, &bob_public.0);
    assert_eq!(shared.0.len(), 32);
}

#[test]
fn seeded_private_key_is_deterministic() {
    let a = KeyExchangePrivateKey::from_bytes(&[7u8; 32]);
    let b = KeyExchangePrivateKey::from_bytes(&[7u8; 32]);
    let c = KeyExchangePrivateKey::from_bytes(&[8u8; 32]);
    assert_eq!(a.public_key().0, b.public_key().0);
    assert_ne!(a.public_key().0, c.public_key().0);
    assert_ne!(a.public_key().0, [7u8; 32]);
}

#[test]
fn derive_shared_secret_agrees_with_seeded_keys() {
    let a = KeyExchangePrivateKey::from_bytes(&[1u8; 32]);
    let b = KeyExchangePrivateKey::from_bytes(&[2u8; 32]);
    let s1 = derive_shared_secret(&[1u8; 32], &b.public_key().0);
    let s2 = derive_shared_secret(&[2u8; 32], &a.public_key().0);
    assert_eq!(s1.0, s2.0);
    assert_eq!(s1.as_bytes(), &s1.0[..]);
}

#[test]
fn test_replay_window() {
    let mut window = ReplayWindow::new(10);
    assert!(window.check_and_mark(1));
    assert!(!window.check_and_mark(1));
    assert!(window.check_and_mark(2));
    assert!(!window.check_and_mark(2));
}

#[test]
fn test_replay_window_wrap() {
    let mut window = ReplayWindow::new(3);
    window.check_and_mark(1);
    window.check_and_mark(2);
    window.check_and_mark(3);
    assert!(window.check_and_mark(4));
    assert!(!window.check_and_mark(1));
}

#[test]
fn replay_window_is_new_and_reset() {
    let mut window = ReplayWindow::new(2);
    assert!(window.is_new(5));
    window.mark_seen(5);
    assert!(!window.is_new(5));
    window.mark_seen(6);
    window.mark_seen(7);
    // 5 left the window but stays below the lowest accepted number.
    assert!(!window.is_new(5));
    assert!(window.is_new(8));
    window.reset();
    assert!(window.is_new(5));
}

#[test]
fn signature_test_key_generation() {
    let key_pair = KeyPair::generate().unwrap();
    assert_eq!(key_pair.public_key().len(), 32);
    assert!(key_pair.private_key().len() >= 32);
}

#[test]
fn test_sign_and_verify() {
    let key_pair = KeyPair::generate().unwrap();
    let message = b"Hello, FastLink!";
    let signature = key_pair.sign(message);
    assert!(verify(key_pair.public_key(), message, &signature.0));
}

#[test]
fn test_invalid_signature() {
    let key_pair = KeyPair::generate().unwrap();
    let message = b"Hello, FastLink!";
    let signature = key_pair.sign(message);
    assert!(!verify(key_pair.public_key(), b"Wrong message", &signature.0));
}

#[test]
fn test_wrong_public_key() {
    let key_pair1 = KeyPair::generate().unwrap();
    let key_pair2 = KeyPair::generate().unwrap();
    let message = b"Hello, FastLink!";
    let signature = key_pair1.sign(message);
    assert!(!verify(key_pair2.public_key(), message, &signature.0));
}

#[test]
fn key_pair_round_trips_through_private_key() {
    let key_pair = KeyPair::generate().unwrap();
    let again = KeyPair::from_private_key(key_pair.private_key()).unwrap();
    assert_eq!(again.public_key(), key_pair.public_key());
    assert!(KeyPair::from_private_key(b"not a key").is_err());
}

#[test]
fn test_aes256gcm_key_generation() {
    let key = Aes256GcmCipher::generate_key().unwrap();
    assert_eq!(key.len(), 32);
}

#[test]
fn test_aes256gcm_encrypt_decrypt() {
    let key = Aes256GcmCipher::generate_key().unwrap();
    let cipher = Aes256GcmCipher::new(&key);
    let plaintext = b"Hello, FastLink!";
    let encrypted = cipher.encrypt(plaintext).unwrap();
    assert!(!encrypted.ciphertext.is_empty());
    assert_eq!(encrypted.nonce.len(), 12);
    let decrypted = cipher.decrypt(&encrypted).unwrap();
    assert_eq!(&decrypted[..], plaintext);
}

#[test]
fn aes256gcm_refuses_bad_nonce_and_tampering() {
    let cipher = Aes256GcmCipher::new(&[3u8; 32]);
    let mut encrypted = cipher.encrypt(b"secret").unwrap();
    assert_eq!(encrypted.ciphertext.len(), 6 + 16);
    assert_ne!(&encrypted.ciphertext[..6], b"secret");
    encrypted.ciphertext[0] ^= 1;
    assert_eq!(cipher.decrypt(&encrypted), Err("Decryption failed"));
    let short = EncryptedData { nonce: vec![0u8; 11], ciphertext: vec![0u8; 16], tag: Vec::new() };
    assert_eq!(cipher.decrypt(&short), Err("Invalid nonce length"));
}

#[test]
fn aes256gcm_with_chosen_nonce_is_deterministic() {
    let cipher = Aes256GcmCipher::new(&[9u8; 32]);
    let a = cipher.encrypt_with_nonce(vec![1u8; 12], b"abc");
    let b = cipher.encrypt_with_nonce(vec![1u8; 12], b"abc");
    assert_eq!(a.nonce, vec![1u8; 12]);
    assert_eq!(a.ciphertext, b.ciphertext);
    assert_eq!(a.ciphertext.len(), 3 + 16);
    assert!(a.tag.is_empty());
    assert_eq!(cipher.decrypt(&a).unwrap(), b"abc".to_vec());
}

#[test]
fn test_chacha20poly1305() {
    let key = [0u8; 32];
    let cipher = ChaCha20Poly1305::new(&key);
    let plaintext = b"Hello, FastLink!";
    let nonce = [0u8; 12];
    let ciphertext = cipher.encrypt(&nonce, plaintext);
    let decrypted = cipher.decrypt(&nonce, &ciphertext).unwrap();
    assert_eq!(&decrypted[..], plaintext);
}

#[test]
fn chacha20poly1305_wrong_key_fails() {
    let nonce = [1u8; 12];
    let ciphertext = ChaCha20Poly1305::new(&[0u8; 32]).encrypt(&nonce, b"abc");
    assert_eq!(ciphertext.len(), 3 + 16);
    assert_eq!(ChaCha20Poly1305::new(&[9u8; 32]).decrypt(&nonce, &ciphertext), Err("Decryption failed"));
}

#[test]
fn test_key_manager_set_and_get() {
    let mut manager = KeyManager::new(3600);
    manager.set_current_key(1, vec![0u8; 32], 0);
    let key = manager.get_current_key();
    assert!(key.is_some());
    assert_eq!(key.unwrap().key_id, 1);
}

#[test]
fn test_key_rotation() {
    let mut manager = KeyManager::new(3600);
    manager.set_current_key(1, vec![1u8; 32], 0);
    manager.set_next_key(2, vec![2u8; 32], 0);
    assert!(manager.rotate_key(3600));
    let key = manager.get_current_key();
    assert!(key.is_some());
    assert_eq!(key.unwrap().key_id, 2);
}

#[test]
fn test_key_by_id() {
    let mut manager = KeyManager::new(3600);
    manager.set_current_key(1, vec![1u8; 32], 0);
    let key = manager.get_key_by_id(1);
    assert!(key.is_some());
    assert_eq!(key.unwrap().key, vec![1u8; 32]);
}

#[test]
fn key_manager_retires_and_cleans_up() {
    let mut manager = KeyManager::new(100);
    assert!(!manager.rotate_key(0));
    manager.set_current_key(1, vec![1], 0);
    manager.set_next_key(2, vec![2], 50);
    assert!(manager.rotate_key(60));
    // The retired key is still found by its identifier until it expires.
    assert_eq!(manager.get_key_by_id(1).unwrap().expires_at, 100);
    assert!(manager.is_key_valid(1, 99));
    assert!(!manager.is_key_valid(1, 100));
    assert!(!manager.is_key_valid(3, 0));
    manager.cleanup_expired_keys(120);
    assert!(manager.get_key_by_id(1).is_none());
    assert_eq!(manager.get_current_key().unwrap().key_id, 2);
    // The key in use expires at 150; with a next key prepared, cleanup rotates.
    manager.set_next_key(3, vec![3], 150);
    manager.cleanup_expired_keys(150);
    assert_eq!(manager.get_current_key().unwrap().key_id, 3);
    assert!(manager.get_key_by_id(2).is_none());
}

#[test]
fn replay_window_accepts_each_number_once() {
    let mut window = ReplayWindow::new(2);
    let marks = [5u64, 6, 5, 7, 8, 6, 5, 9];
    let answers: Vec<bool> = marks.iter().map(|m| window.check_and_mark(*m)).collect();
    assert_eq!(answers, vec![true, true, false, true, true, false, false, true]);
}

#[test]
fn seeded_private_key_matches_x25519_dalek() {
    let seed = [7u8; 32];
    let ours = KeyExchangePrivateKey::from_bytes(&seed).public_key().0;
    let rng = <rand_chacha::ChaChaRng as rand::SeedableRng>::from_seed(seed);
    let theirs = x25519_dalek::PublicKey::from(&x25519_dalek::StaticSecret::random_from_rng(rng)).to_bytes();
    assert_eq!(ours, theirs);
}
