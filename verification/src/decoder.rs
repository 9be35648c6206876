//! Decoding of the sealed radio payload into a device identity and timestamp.
//!
//! A payload is exactly 24 bytes: an 8-byte nonce followed by one 16-byte
//! cipher block. The 16-byte whitening block is the nonce concatenated with
//! itself — both halves are the same 8 bytes; this must be preserved exactly
//! for interoperability with real transmitting devices. The cipher block is
//! decrypted with single-block AES-128 under the device key and XORed with
//! the whitening block; the result carries the 10-byte device identity,
//! 2 reserved bytes, and a big-endian 32-bit device-local timestamp.

use vstd::prelude::*;

verus! {

/// The plain block that single-block AES-128 decryption of `block` under
/// `key` yields. Both inputs are 16 bytes; the result is a pure function of
/// them alone.
pub uninterp spec fn aes128_unseal(key: Seq<u8>, block: Seq<u8>) -> Seq<u8>;

/// Relies on `aes::Aes128` (`KeyInit::new` and
/// `BlockCipherDecrypt::decrypt_block`): one-block AES-128 decryption, a pure
/// 16-byte function of the 16-byte key and the 16-byte block.
#[verifier::external_body]
fn aes128_decrypt_block(key: &[u8], block: &[u8]) -> (r: Vec<u8>)
    requires
        key@.len() == 16,
        block@.len() == 16,
    ensures
        r@ == aes128_unseal(key@, block@),
        r@.len() == 16,
{
    let mut key_bytes = [0u8; 16];
    key_bytes.copy_from_slice(&key[..16]);
    let mut block_bytes = [0u8; 16];
    block_bytes.copy_from_slice(&block[..16]);
    let cipher = <aes::Aes128 as aes::cipher::KeyInit>::new(&aes::cipher::Array::from(key_bytes));
    let mut blk = aes::cipher::Array::from(block_bytes);
    aes::cipher::BlockCipherDecrypt::decrypt_block(&cipher, &mut blk);
    blk.as_slice().to_vec()
}

/// The whitening block of a payload: its first 8 bytes, twice over.
pub open spec fn whitening_block(payload: Seq<u8>) -> Seq<u8> {
    payload.subrange(0, 8) + payload.subrange(0, 8)
}

/// The whitened plain block recovered from a 24-byte payload under a 16-byte
/// key: the 16 bytes of the decryption of bytes 8..24, each XORed with the
/// whitening block.
pub open spec fn token_block(payload: Seq<u8>, key: Seq<u8>) -> Seq<u8> {
    Seq::new(
        16,
        |i: int| aes128_unseal(key, payload.subrange(8, 24))[i] ^ whitening_block(payload)[i],
    )
}

/// The big-endian 32-bit value at position `i` of a byte sequence.
pub open spec fn be_u32_at(s: Seq<u8>, i: int) -> u32 {
    (s[i] * 0x1000000 + s[i + 1] * 0x10000 + s[i + 2] * 0x100 + s[i + 3]) as u32
}

/// A decoded access token: the device identity and the device-local
/// timestamp it was sealed with.
#[derive(Clone, Debug, PartialEq)]
pub struct DecodedToken {
    /// The 10-byte device identity.
    pub device_id: Vec<u8>,
    /// Seconds on the device-local clock; no defined epoch, used only for
    /// differencing.
    pub tag_timestamp: u32,
}

/// Decodes a 24-byte payload under a 16-byte key. The caller validates both
/// lengths; a wrong length is a hard failure there, not here.
pub fn decode(payload: &[u8], key: &[u8]) -> (t: DecodedToken)
    requires
        payload@.len() == 24,
        key@.len() == 16,
    ensures
        t.device_id@ == token_block(payload@, key@).subrange(0, 10),
        t.device_id@.len() == 10,
        t.tag_timestamp == be_u32_at(token_block(payload@, key@), 12),
{
    let plain = aes128_decrypt_block(key, &payload[8..24]);
    let ghost blockv = token_block(payload@, key@);
    let mut result: Vec<u8> = Vec::new();
    let mut i: usize = 0;
    while i < 16
        invariant
            plain@ == aes128_unseal(key@, payload@.subrange(8, 24)),
            plain@.len() == 16,
            payload@.len() == 24,
            i <= 16,
            result@.len() == i,
            forall|j: int| 0 <= j < i ==> result@[j] == blockv[j],
            blockv == token_block(payload@, key@),
        decreases 16 - i,
    {
        let iv_byte = payload[i % 8];
        proof {
            assert(whitening_block(payload@)[i as int] == payload@[(i % 8) as int]);
        }
        result.push(plain[i] ^ iv_byte);
        i += 1;
    }
    let t3 = result[12];
    let t2 = result[13];
    let t1 = result[14];
    let t0 = result[15];
    let tag_timestamp: u32 = (t3 as u32) * 0x1000000 + (t2 as u32) * 0x10000 + (t1 as u32) * 0x100
        + (t0 as u32);
    let mut device_id = result;
    device_id.truncate(10);
    proof {
        assert(device_id@ =~= blockv.subrange(0, 10));
    }
    DecodedToken { device_id, tag_timestamp }
}

} // verus!
