use entropy_forge::learn::EncryptionStep;

#[test]
fn test_encryption_step_fields() {
    let step = EncryptionStep::new('A', 0xFF);
    assert_eq!(step.character, 'A');
    assert_eq!(step.input_byte, 0x41);
    assert_eq!(step.keystream_byte, 0xFF);
    assert_eq!(step.result_byte, 0x41 ^ 0xFF);
    assert_eq!(step.bit_ops.len(), 8);
}

#[test]
fn test_encryption_step_bit_ops() {
    let step = EncryptionStep::new('A', 0x0F);
    // 'A' = 0x41 = 01000001; positions run from the most significant bit
    // (7) down to the least significant (0).
    let expected_input = [false, true, false, false, false, false, false, true];
    let expected_key = [false, false, false, false, true, true, true, true];
    for (j, op) in step.bit_ops.iter().enumerate() {
        assert_eq!(op.position, 7 - j);
        assert_eq!(op.input_bit, expected_input[j]);
        assert_eq!(op.key_bit, expected_key[j]);
        assert_eq!(op.result_bit, op.input_bit != op.key_bit);
    }
}

#[test]
fn test_binary_strings() {
    let step = EncryptionStep::new('A', 0xFF);
    assert_eq!(step.input_binary(), "01000001");
    assert_eq!(step.keystream_binary(), "11111111");
    assert_eq!(step.result_binary(), "10111110");
}

#[test]
fn test_binary_strings_zero_key() {
    let step = EncryptionStep::new('z', 0x00);
    // XOR with zero leaves the byte unchanged.
    assert_eq!(step.input_binary(), step.result_binary());
    assert_eq!(step.keystream_binary(), "00000000");
    assert_eq!(step.result_byte, step.input_byte);
}
