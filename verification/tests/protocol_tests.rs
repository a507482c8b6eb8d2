use ssh_migrator::protocol::{
    code_to_psk, pairing_code, random_code, zeroize_psk, CHUNK_SIZE, CODE_SPACE, MAX_FRAME_SIZE,
    NOISE_PATTERN, PSK_INFO,
};

#[test]
fn constants_match_the_protocol() {
    assert_eq!(MAX_FRAME_SIZE, 64 * 1024 * 1024);
    assert_eq!(CHUNK_SIZE, 60 * 1024);
    assert_eq!(NOISE_PATTERN, "Noise_NNpsk2_25519_ChaChaPoly_BLAKE2s");
    assert_eq!(&PSK_INFO[..], b"ssh-migrator-psk/v1");
}

#[test]
fn pairing_code_is_zero_padded() {
    assert_eq!(pairing_code(0), "000000");
    assert_eq!(pairing_code(42), "000042");
    assert_eq!(pairing_code(482915), "482915");
    assert_eq!(pairing_code(CODE_SPACE - 1), "999999");
}

#[test]
fn pairing_code_spells_its_number() {
    for n in [0u32, 7, 10, 1234, 99999, 100000, 654321] {
        let code = pairing_code(n);
        assert_eq!(code.len(), 6);
        assert_eq!(code.parse::<u32>().unwrap(), n);
    }
}

#[test]
fn random_code_is_six_digits() {
    for _ in 0..200 {
        let code = random_code();
        assert_eq!(code.len(), 6);
        assert!(code.chars().all(|c| c.is_ascii_digit()));
        assert!(code.parse::<u32>().unwrap() < CODE_SPACE);
    }
}

#[test]
fn psk_is_hkdf_sha256_of_the_code() {
    let expected: [u8; 32] = [
        139, 212, 78, 200, 169, 182, 241, 142, 186, 44, 116, 58, 30, 251, 168, 144, 123, 108, 34,
        94, 45, 188, 126, 42, 55, 239, 240, 83, 74, 66, 76, 10,
    ];
    assert_eq!(code_to_psk("123456"), expected);
    let zeros: [u8; 32] = [
        202, 77, 166, 229, 88, 55, 12, 229, 99, 25, 126, 34, 86, 135, 155, 80, 164, 248, 74, 134,
        75, 194, 232, 252, 118, 208, 115, 113, 118, 60, 250, 105,
    ];
    assert_eq!(code_to_psk("000000"), zeros);
}

#[test]
fn same_code_same_psk_different_code_different_psk() {
    assert_eq!(code_to_psk("482915"), code_to_psk("482915"));
    assert_ne!(code_to_psk("482915"), code_to_psk("482916"));
}

#[test]
fn zeroize_psk_wipes_the_key() {
    let mut psk = code_to_psk("123456");
    assert_ne!(psk, [0u8; 32]);
    zeroize_psk(&mut psk);
    assert_eq!(psk, [0u8; 32]);
}
