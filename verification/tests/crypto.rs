use dexvm::cipher::aes_block_mode;
use dexvm::digest::{mac_compute, pbkdf2_compute};
use dexvm::gcm::Gcm;
use aes_gcm::aead::{Aead, Payload};
use aes_gcm::{Aes256Gcm, KeyInit, Nonce};

#[test]
fn aes_128_cbc_matches_nist_vector_and_pkcs_roundtrips() {
    let key = [
        0x2b, 0x7e, 0x15, 0x16, 0x28, 0xae, 0xd2, 0xa6, 0xab, 0xf7, 0x15, 0x88, 0x09, 0xcf, 0x4f, 0x3c,
    ];
    let iv = [
        0x00, 0x01, 0x02, 0x03, 0x04, 0x05, 0x06, 0x07, 0x08, 0x09, 0x0a, 0x0b, 0x0c, 0x0d, 0x0e, 0x0f,
    ];
    let plaintext = [
        0x6b, 0xc1, 0xbe, 0xe2, 0x2e, 0x40, 0x9f, 0x96, 0xe9, 0x3d, 0x7e, 0x11, 0x73, 0x93, 0x17, 0x2a,
    ];
    let expected = [
        0x76, 0x49, 0xab, 0xac, 0x81, 0x19, 0xb2, 0x46, 0xce, 0xe9, 0x8e, 0x9b, 0x12, 0xe9, 0x19, 0x7d,
    ];
    assert_eq!(aes_block_mode("AES/CBC/NOPADDING", 1, &key, &iv, &plaintext).unwrap(), expected);

    let message = b"extension image payload";
    let encrypted = aes_block_mode("AES/CBC/PKCS5PADDING", 1, &key, &iv, message).unwrap();
    assert_eq!(aes_block_mode("AES/CBC/PKCS5PADDING", 2, &key, &iv, &encrypted).unwrap(), message);
}

#[test]
fn twelve_byte_iv_roundtrip() {
    let g = Gcm::new(&[7u8; 32]);
    let iv = [3u8; 12];
    let ct = g.seal(&iv, b"aad", b"hello gcm");
    assert_eq!(g.open(&iv, b"aad", &ct).unwrap(), b"hello gcm");
}

#[test]
fn long_iv_roundtrip() {
    let g = Gcm::new(&[9u8; 32]);
    let iv = [5u8; 25];
    assert_eq!(g.open(&iv, b"", &g.seal(&iv, b"", b"x")).unwrap(), b"x");
}

#[test]
fn tag_mismatch_fails() {
    let g = Gcm::new(&[1u8; 32]);
    let iv = [2u8; 12];
    let mut ct = g.seal(&iv, b"a", b"payload");
    let n = ct.len();
    ct[n - 1] ^= 1;
    assert!(g.open(&iv, b"a", &ct).is_err());
}

/// RFC 6070 PBKDF2-HMAC-SHA1 test vector 1.
#[test]
fn pbkdf2_hmac_sha1_matches_rfc6070_vector() {
    let out = pbkdf2_compute("PBKDF2WithHmacSHA1", b"password", b"salt", 1, 160);
    assert_eq!(
        out,
        [
            0x0c, 0x60, 0xc8, 0x0f, 0x96, 0x1f, 0x0e, 0x71, 0xf3, 0xa9, 0xb5, 0x24, 0xaf, 0x60, 0x12, 0x06, 0x2f, 0xe0,
            0x37, 0xa6,
        ]
    );
}

/// RFC 4231 HMAC-SHA256 test case 1.
#[test]
fn hmac_sha256_matches_rfc4231_vector() {
    let key = [0x0bu8; 20];
    let result = mac_compute("HmacSHA256", &key, b"Hi There").unwrap();
    assert_eq!(
        result.as_slice(),
        [
            0xb0, 0x34, 0x4c, 0x61, 0xd8, 0xdb, 0x38, 0x53, 0x5c, 0xa8, 0xaf, 0xce, 0xaf, 0x0b, 0xf1, 0x2b, 0x88, 0x1d,
            0xc2, 0x00, 0xc9, 0x83, 0x3d, 0xa7, 0x26, 0xe9, 0x37, 0x6c, 0x2e, 0x32, 0xcf, 0xf7,
        ]
    );
}

#[test]
fn unknown_mac_algorithm_is_refused() {
    assert!(mac_compute("HmacWhirlpool", b"k", b"data").is_none());
}

#[test]
fn gcm_seal_appends_a_sixteen_byte_tag() {
    let g = Gcm::new(&[4u8; 32]);
    let ct = g.seal(&[1u8; 12], b"", b"abc");
    assert_eq!(ct.len(), 3 + 16);
    assert_ne!(&ct[..3], b"abc");
}

#[test]
fn short_ciphertext_is_too_short() {
    let g = Gcm::new(&[4u8; 32]);
    assert!(matches!(g.open(&[1u8; 12], b"", &[0u8; 15]), Err(dexvm::gcm::GcmError::TooShort)));
}

#[test]
fn ecb_rejects_unaligned_input() {
    let key = [0u8; 16];
    assert!(aes_block_mode("AES/ECB/NOPADDING", 1, &key, &[], &[1, 2, 3]).is_err());
    assert!(aes_block_mode("AES/CBC/NOPADDING", 1, &key, &[0u8; 8], &[0u8; 16]).is_err());
}

#[test]
fn interop_with_aes_gcm_crate() {
    let secret = [0x42u8; 32];
    let iv = [0x11u8; 12];
    let plain = b"reference interop check payload";
    let aad = b"aad-data";
    let g = Gcm::new(&secret);
    let mine = g.seal(&iv, aad, plain);
    let reference = Aes256Gcm::new_from_slice(&secret).unwrap();
    let theirs = reference.encrypt(Nonce::from_slice(&iv), Payload { msg: plain, aad: aad.as_ref() }).unwrap();
    assert_eq!(mine, theirs);
    assert_eq!(g.open(&iv, aad, &theirs).unwrap(), plain);
    assert_eq!(reference.decrypt(Nonce::from_slice(&iv), Payload { msg: &mine, aad: aad.as_ref() }).unwrap(), plain);
}
