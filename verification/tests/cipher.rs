use entropy_forge::crypto::differing_bits;
use entropy_forge::MockEntropy;
use entropy_forge::StreamCipher;

#[test]
fn test_cipher_basic() {
    let entropy = MockEntropy::new(42);
    let mut cipher = StreamCipher::new(entropy);

    let plaintext = b"Hello, World!";
    let ciphertext = cipher.process(plaintext);

    // Should produce different output
    assert_ne!(plaintext.as_slice(), ciphertext.as_slice());
    assert_eq!(plaintext.len(), ciphertext.len());
}

#[test]
fn test_cipher_deterministic() {
    let entropy1 = MockEntropy::new(42);
    let entropy2 = MockEntropy::new(42);

    let mut cipher1 = StreamCipher::new(entropy1);
    let mut cipher2 = StreamCipher::new(entropy2);

    let plaintext = b"Test message";
    let ciphertext1 = cipher1.process(plaintext);
    let ciphertext2 = cipher2.process(plaintext);

    // Same entropy seed should produce same ciphertext
    assert_eq!(ciphertext1, ciphertext2);
}

#[test]
fn test_cipher_state() {
    let entropy = MockEntropy::new(42);
    let mut cipher = StreamCipher::new(entropy);

    cipher.process(b"Some data");
    let state = cipher.state();

    assert!(!state.is_empty());
    assert!(state.len() <= 64);
}

#[test]
fn test_bytes_processed() {
    let entropy = MockEntropy::new(42);
    let mut cipher = StreamCipher::new(entropy);

    cipher.process(b"12345");
    assert_eq!(cipher.bytes_processed(), 5);

    cipher.process(b"67890");
    assert_eq!(cipher.bytes_processed(), 10);
}

#[test]
fn test_cipher_reset() {
    let entropy = MockEntropy::new(42);
    let mut cipher = StreamCipher::new(entropy);

    let first = cipher.process(b"Some data");
    cipher.reset();
    assert_eq!(cipher.bytes_processed(), 0);
    assert!(cipher.state().is_empty());

    // After the reset the mock source replays its stream.
    let second = cipher.process(b"Some data");
    assert_eq!(first, second);
}

#[test]
fn test_cipher_round_trip() {
    // XOR with the same keystream twice gives the input back.
    let mut cipher1 = StreamCipher::new(MockEntropy::new(7));
    let mut cipher2 = StreamCipher::new(MockEntropy::new(7));

    let plaintext = b"round trip payload";
    let ciphertext = cipher1.process(plaintext);
    let decrypted = cipher2.process(&ciphertext);
    assert_eq!(decrypted.as_slice(), plaintext.as_slice());
}

#[test]
fn test_cipher_state_is_keystream_prefix() {
    let entropy = MockEntropy::new(42);
    let mut cipher = StreamCipher::new(entropy);

    let data = b"abcdefgh";
    let out = cipher.process(data);
    let state = cipher.state().to_vec();
    assert_eq!(state.len(), 8);
    for i in 0..8 {
        assert_eq!(state[i], out[i] ^ data[i]);
    }
}

#[test]
fn test_differing_bits() {
    assert_eq!(differing_bits(&[0x00u8], &[0xFFu8]), 8);
    assert_eq!(differing_bits(&[0xF0u8, 0x0Fu8], &[0x0Fu8, 0xF0u8]), 16);
    let same = [1u8, 2, 3, 4];
    assert_eq!(differing_bits(&same, &same), 0);
    assert_eq!(differing_bits(&[0x01u8], &[0x03u8]), 1);
}
