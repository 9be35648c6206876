use aes::cipher::{Array, BlockCipherEncrypt, KeyInit};
use aes::Aes128;

use tag_access::decoder::decode;

/// Builds the 24-byte payload a real tag would broadcast for a given plain
/// block: `nonce || AES128_encrypt(plain XOR (nonce || nonce))`.
fn seal(key: &[u8; 16], nonce: &[u8; 8], plain: &[u8; 16]) -> Vec<u8> {
    let mut whitened = [0u8; 16];
    for i in 0..16 {
        whitened[i] = plain[i] ^ nonce[i % 8];
    }
    let cipher = Aes128::new(&Array::from(*key));
    let mut block = Array::from(whitened);
    cipher.encrypt_block(&mut block);
    let mut payload = Vec::new();
    payload.extend_from_slice(nonce);
    payload.extend_from_slice(block.as_slice());
    payload
}

#[test]
fn decode_round_trip() {
    let key = [
        0x2b, 0x7e, 0x15, 0x16, 0x28, 0xae, 0xd2, 0xa6, 0xab, 0xf7, 0x15, 0x88, 0x09, 0xcf,
        0x4f, 0x3c,
    ];
    let nonce = [0x01, 0x23, 0x45, 0x67, 0x89, 0xab, 0xcd, 0xef];
    // 10-byte identity, 2 reserved bytes, 4-byte big-endian timestamp.
    let plain = [
        0xd0, 0xd1, 0xd2, 0xd3, 0xd4, 0xd5, 0xd6, 0xd7, 0xd8, 0xd9, 0x00, 0x00, 0x00, 0x01,
        0xe2, 0x40,
    ];
    let payload = seal(&key, &nonce, &plain);
    assert_eq!(payload.len(), 24);

    let token = decode(&payload, &key);
    assert_eq!(token.device_id, plain[0..10].to_vec());
    assert_eq!(token.tag_timestamp, 0x0001e240);
    assert_eq!(token.tag_timestamp, 123456);
}

#[test]
fn decode_uses_both_whitening_halves() {
    let key = [7u8; 16];
    let nonce = [0x10, 0x20, 0x30, 0x40, 0x50, 0x60, 0x70, 0x80];
    let plain = [
        1, 2, 3, 4, 5, 6, 7, 8, 9, 10, 0, 0, 0xff, 0xff, 0xff, 0xff,
    ];
    let payload = seal(&key, &nonce, &plain);
    let token = decode(&payload, &key);
    // Bytes 8..16 of the plain block are whitened by the same nonce bytes as
    // bytes 0..8; a decoder that zeroed the second half would corrupt the
    // identity tail and the timestamp.
    assert_eq!(token.device_id, plain[0..10].to_vec());
    assert_eq!(token.tag_timestamp, u32::MAX);
}

#[test]
fn decode_with_wrong_key_garbles_identity() {
    let key = [1u8; 16];
    let wrong = [2u8; 16];
    let nonce = [9u8; 8];
    let plain = [
        1, 2, 3, 4, 5, 6, 7, 8, 9, 10, 0, 0, 0, 0, 0, 1,
    ];
    let payload = seal(&key, &nonce, &plain);
    let token = decode(&payload, &wrong);
    assert_ne!(token.device_id, plain[0..10].to_vec());
}
