//! Cipher primitives.
//!
//! Everything in this module is a thin call into a cryptographic crate. The
//! contracts here are believed, not proved: each one gives the outcome of a
//! primitive a name, so that the framing code can say exactly which bytes it
//! puts on the wire and which bytes it hands to its caller.

use aes_gcm::aead::{Aead, KeyInit};
use chacha20::cipher::{KeyIvInit, StreamCipher, StreamCipherSeek};
use vstd::prelude::*;

verus! {

/// Length of the authentication tag that every supported AEAD cipher appends.
pub const TAG_LEN: usize = 16;

/// Length of the nonce that every supported AEAD cipher takes.
pub const NONCE_LEN: usize = 12;

/// Longest plaintext that the framing code ever seals in one call.
pub const MAX_SEAL_LEN: usize = 0x1_0000;

/// Length of the ChaCha20 keystream of one key and IV: the block counter has
/// 32 bits, of which the cipher uses all values but the last, and a block
/// has 64 bytes.
pub const CHACHA20_KEYSTREAM_LEN: u64 = 0x3F_FFFF_FFC0;

/// Byte number `index` of the ChaCha20 (RFC 8439) keystream for `key` and `iv`.
pub uninterp spec fn chacha20_keystream_byte(key: Seq<u8>, iv: Seq<u8>, index: nat) -> u8;

/// Byte number `index` of the AES-128-CTR keystream for `key` and `iv`, with
/// a big-endian 64-bit counter.
pub uninterp spec fn aes128ctr_keystream_byte(key: Seq<u8>, iv: Seq<u8>, index: nat) -> u8;

/// Byte number `index` of the AES-192-CTR keystream for `key` and `iv`, with
/// a big-endian 64-bit counter.
pub uninterp spec fn aes192ctr_keystream_byte(key: Seq<u8>, iv: Seq<u8>, index: nat) -> u8;

/// Byte number `index` of the AES-256-CTR keystream for `key` and `iv`, with
/// a big-endian 64-bit counter.
pub uninterp spec fn aes256ctr_keystream_byte(key: Seq<u8>, iv: Seq<u8>, index: nat) -> u8;

/// AES-128-GCM ciphertext and tag for `plaintext` under `key` and `nonce`.
pub uninterp spec fn aes128gcm_sealed(key: Seq<u8>, nonce: Seq<u8>, plaintext: Seq<u8>) -> Seq<u8>;

/// What AES-128-GCM decryption makes of `sealed`: the plaintext, or `None`
/// where the tag does not authenticate it.
pub uninterp spec fn aes128gcm_opened(key: Seq<u8>, nonce: Seq<u8>, sealed: Seq<u8>) -> Option<Seq<u8>>;

/// AES-256-GCM ciphertext and tag for `plaintext` under `key` and `nonce`.
pub uninterp spec fn aes256gcm_sealed(key: Seq<u8>, nonce: Seq<u8>, plaintext: Seq<u8>) -> Seq<u8>;

/// What AES-256-GCM decryption makes of `sealed`.
pub uninterp spec fn aes256gcm_opened(key: Seq<u8>, nonce: Seq<u8>, sealed: Seq<u8>) -> Option<Seq<u8>>;

/// ChaCha20-Poly1305 ciphertext and tag for `plaintext` under `key` and `nonce`.
pub uninterp spec fn chacha20poly1305_sealed(key: Seq<u8>, nonce: Seq<u8>, plaintext: Seq<u8>) -> Seq<u8>;

/// What ChaCha20-Poly1305 decryption makes of `sealed`.
pub uninterp spec fn chacha20poly1305_opened(key: Seq<u8>, nonce: Seq<u8>, sealed: Seq<u8>) -> Option<Seq<u8>>;

/// HKDF-SHA1 output of `len` bytes for the given salt, input key and info.
pub uninterp spec fn hkdf_sha1_expanded(salt: Seq<u8>, ikm: Seq<u8>, info: Seq<u8>, len: nat) -> Seq<u8>;

/// The 32 bytes that BLAKE3 key derivation gives for a context string and key
/// material.
pub uninterp spec fn blake3_derived(context: Seq<char>, material: Seq<u8>) -> Seq<u8>;

/// The key of `len` bytes that OpenSSL's `EVP_BytesToKey`, with MD5 and no
/// salt, derives from a password.
pub uninterp spec fn openssl_key(password: Seq<u8>, len: nat) -> Seq<u8>;

/// `aes_gcm::Aes128Gcm::encrypt` with no associated data. Believed: the
/// result is the ciphertext followed by a 16-byte tag, and decrypting it under
/// the same key and nonce gives the plaintext back.
#[verifier::external_body]
pub(crate) fn aes128gcm_seal(key: &[u8], nonce: &[u8], plaintext: &[u8]) -> (sealed: Vec<u8>)
    requires
        key@.len() == 16,
        nonce@.len() == NONCE_LEN,
        plaintext@.len() <= MAX_SEAL_LEN,
    ensures
        sealed@ == aes128gcm_sealed(key@, nonce@, plaintext@),
        sealed@.len() == plaintext@.len() + TAG_LEN,
        aes128gcm_opened(key@, nonce@, sealed@) == Some(plaintext@),
{
    let cipher = aes_gcm::Aes128Gcm::new_from_slice(key).unwrap();
    cipher.encrypt(aes_gcm::Nonce::from_slice(nonce), plaintext).unwrap()
}

/// `aes_gcm::Aes128Gcm::decrypt` with no associated data. Believed: a
/// plaintext that comes back is 16 bytes shorter than the input.
#[verifier::external_body]
pub(crate) fn aes128gcm_open(key: &[u8], nonce: &[u8], sealed: &[u8]) -> (opened: Option<Vec<u8>>)
    requires
        key@.len() == 16,
        nonce@.len() == NONCE_LEN,
    ensures
        match opened {
            Some(p) => aes128gcm_opened(key@, nonce@, sealed@) == Some(p@)
                && p@.len() + TAG_LEN == sealed@.len(),
            None => aes128gcm_opened(key@, nonce@, sealed@) is None,
        },
{
    let cipher = aes_gcm::Aes128Gcm::new_from_slice(key).unwrap();
    cipher.decrypt(aes_gcm::Nonce::from_slice(nonce), sealed).ok()
}

/// `aes_gcm::Aes256Gcm::encrypt` with no associated data. Believed: the
/// result is the ciphertext followed by a 16-byte tag, and decrypting it under
/// the same key and nonce gives the plaintext back.
#[verifier::external_body]
pub(crate) fn aes256gcm_seal(key: &[u8], nonce: &[u8], plaintext: &[u8]) -> (sealed: Vec<u8>)
    requires
        key@.len() == 32,
        nonce@.len() == NONCE_LEN,
        plaintext@.len() <= MAX_SEAL_LEN,
    ensures
        sealed@ == aes256gcm_sealed(key@, nonce@, plaintext@),
        sealed@.len() == plaintext@.len() + TAG_LEN,
        aes256gcm_opened(key@, nonce@, sealed@) == Some(plaintext@),
{
    let cipher = aes_gcm::Aes256Gcm::new_from_slice(key).unwrap();
    cipher.encrypt(aes_gcm::Nonce::from_slice(nonce), plaintext).unwrap()
}

/// `aes_gcm::Aes256Gcm::decrypt` with no associated data. Believed: a
/// plaintext that comes back is 16 bytes shorter than the input.
#[verifier::external_body]
pub(crate) fn aes256gcm_open(key: &[u8], nonce: &[u8], sealed: &[u8]) -> (opened: Option<Vec<u8>>)
    requires
        key@.len() == 32,
        nonce@.len() == NONCE_LEN,
    ensures
        match opened {
            Some(p) => aes256gcm_opened(key@, nonce@, sealed@) == Some(p@)
                && p@.len() + TAG_LEN == sealed@.len(),
            None => aes256gcm_opened(key@, nonce@, sealed@) is None,
        },
{
    let cipher = aes_gcm::Aes256Gcm::new_from_slice(key).unwrap();
    cipher.decrypt(aes_gcm::Nonce::from_slice(nonce), sealed).ok()
}

/// `chacha20poly1305::ChaCha20Poly1305::encrypt` with no associated data.
/// Believed: the result is the ciphertext followed by a 16-byte tag, and
/// decrypting it under the same key and nonce gives the plaintext back.
#[verifier::external_body]
pub(crate) fn chacha20poly1305_seal(key: &[u8], nonce: &[u8], plaintext: &[u8]) -> (sealed: Vec<u8>)
    requires
        key@.len() == 32,
        nonce@.len() == NONCE_LEN,
        plaintext@.len() <= MAX_SEAL_LEN,
    ensures
        sealed@ == chacha20poly1305_sealed(key@, nonce@, plaintext@),
        sealed@.len() == plaintext@.len() + TAG_LEN,
        chacha20poly1305_opened(key@, nonce@, sealed@) == Some(plaintext@),
{
    let cipher = chacha20poly1305::ChaCha20Poly1305::new_from_slice(key).unwrap();
    cipher.encrypt(chacha20poly1305::Nonce::from_slice(nonce), plaintext).unwrap()
}

/// `chacha20poly1305::ChaCha20Poly1305::decrypt` with no associated data.
/// Believed: a plaintext that comes back is 16 bytes shorter than the input.
#[verifier::external_body]
pub(crate) fn chacha20poly1305_open(key: &[u8], nonce: &[u8], sealed: &[u8]) -> (opened: Option<Vec<u8>>)
    requires
        key@.len() == 32,
        nonce@.len() == NONCE_LEN,
    ensures
        match opened {
            Some(p) => chacha20poly1305_opened(key@, nonce@, sealed@) == Some(p@)
                && p@.len() + TAG_LEN == sealed@.len(),
            None => chacha20poly1305_opened(key@, nonce@, sealed@) is None,
        },
{
    let cipher = chacha20poly1305::ChaCha20Poly1305::new_from_slice(key).unwrap();
    cipher.decrypt(chacha20poly1305::Nonce::from_slice(nonce), sealed).ok()
}

/// `hkdf::Hkdf::<sha1::Sha1>::new` followed by `expand` into `len` bytes.
/// Believed: the output has the length asked for.
#[verifier::external_body]
pub(crate) fn hkdf_sha1(salt: &[u8], ikm: &[u8], info: &[u8], len: usize) -> (okm: Vec<u8>)
    requires
        len <= 5100,
    ensures
        okm@ == hkdf_sha1_expanded(salt@, ikm@, info@, len as nat),
        okm@.len() == len,
{
    let mut okm = vec![0u8; len];
    hkdf::Hkdf::<sha1::Sha1>::new(Some(salt), ikm).expand(info, &mut okm).unwrap();
    okm
}

/// `chacha20::ChaCha20`: `new_from_slices`, `seek` to `offset`, then
/// `apply_keystream` on `len` zero bytes. Believed: what comes back is the
/// keystream from byte `offset` on, the same bytes at the same positions
/// whatever the offset of the call. The calls do not fail as long as the
/// bytes asked for lie before the end of the keystream.
#[verifier::external_body]
pub(crate) fn chacha20_keystream(key: &[u8], iv: &[u8], offset: u64, len: usize) -> (ks: Vec<u8>)
    requires
        key@.len() == 32,
        iv@.len() == 12,
        offset + len <= CHACHA20_KEYSTREAM_LEN,
    ensures
        ks@.len() == len,
        forall|i: int| 0 <= i < len ==> ks@[i] == chacha20_keystream_byte(key@, iv@, (offset + i) as nat),
{
    let mut ks = vec![0u8; len];
    let mut cipher = chacha20::ChaCha20::new_from_slices(key, iv).unwrap();
    cipher.seek(offset);
    cipher.apply_keystream(&mut ks);
    ks
}

/// `ctr::Ctr64BE<aes::Aes128>`: `new_from_slices`, `seek` to `offset`, then
/// `apply_keystream` on `len` zero bytes. Believed: what comes back is the
/// keystream from byte `offset` on, the same bytes at the same positions
/// whatever the offset of the call. The counter has 64 bits and a block 16
/// bytes, so no position that fits 64 bits lies beyond the keystream.
#[verifier::external_body]
pub(crate) fn aes128ctr_keystream(key: &[u8], iv: &[u8], offset: u64, len: usize) -> (ks: Vec<u8>)
    requires
        key@.len() == 16,
        iv@.len() == 16,
        offset + len <= u64::MAX,
    ensures
        ks@.len() == len,
        forall|i: int| 0 <= i < len ==> ks@[i] == aes128ctr_keystream_byte(key@, iv@, (offset + i) as nat),
{
    let mut ks = vec![0u8; len];
    let mut cipher = ctr::Ctr64BE::<aes::Aes128>::new_from_slices(key, iv).unwrap();
    cipher.seek(offset);
    cipher.apply_keystream(&mut ks);
    ks
}

/// `ctr::Ctr64BE<aes::Aes192>`: `new_from_slices`, `seek` to `offset`, then
/// `apply_keystream` on `len` zero bytes. Believed: what comes back is the
/// keystream from byte `offset` on, the same bytes at the same positions
/// whatever the offset of the call. The counter has 64 bits and a block 16
/// bytes, so no position that fits 64 bits lies beyond the keystream.
#[verifier::external_body]
pub(crate) fn aes192ctr_keystream(key: &[u8], iv: &[u8], offset: u64, len: usize) -> (ks: Vec<u8>)
    requires
        key@.len() == 24,
        iv@.len() == 16,
        offset + len <= u64::MAX,
    ensures
        ks@.len() == len,
        forall|i: int| 0 <= i < len ==> ks@[i] == aes192ctr_keystream_byte(key@, iv@, (offset + i) as nat),
{
    let mut ks = vec![0u8; len];
    let mut cipher = ctr::Ctr64BE::<aes::Aes192>::new_from_slices(key, iv).unwrap();
    cipher.seek(offset);
    cipher.apply_keystream(&mut ks);
    ks
}

/// `ctr::Ctr64BE<aes::Aes256>`: `new_from_slices`, `seek` to `offset`, then
/// `apply_keystream` on `len` zero bytes. Believed: what comes back is the
/// keystream from byte `offset` on, the same bytes at the same positions
/// whatever the offset of the call. The counter has 64 bits and a block 16
/// bytes, so no position that fits 64 bits lies beyond the keystream.
#[verifier::external_body]
pub(crate) fn aes256ctr_keystream(key: &[u8], iv: &[u8], offset: u64, len: usize) -> (ks: Vec<u8>)
    requires
        key@.len() == 32,
        iv@.len() == 16,
        offset + len <= u64::MAX,
    ensures
        ks@.len() == len,
        forall|i: int| 0 <= i < len ==> ks@[i] == aes256ctr_keystream_byte(key@, iv@, (offset + i) as nat),
{
    let mut ks = vec![0u8; len];
    let mut cipher = ctr::Ctr64BE::<aes::Aes256>::new_from_slices(key, iv).unwrap();
    cipher.seek(offset);
    cipher.apply_keystream(&mut ks);
    ks
}

/// `shadowsocks_crypto::v1::openssl_bytes_to_key` on a fresh buffer of `len`
/// bytes. Believed: the buffer is filled, so the key has the length asked
/// for.
#[verifier::external_body]
pub(crate) fn openssl_bytes_to_key(password: &[u8], len: usize) -> (key: Vec<u8>)
    ensures
        key@ == openssl_key(password@, len as nat),
        key@.len() == len,
{
    let mut key = vec![0u8; len];
    shadowsocks_crypto::v1::openssl_bytes_to_key(password, &mut key);
    key
}

/// `core::str::from_utf8`, asked only whether it succeeds. Believed: it
/// succeeds on exactly the byte strings that are valid UTF-8.
#[verifier::external_body]
pub(crate) fn is_utf8(bytes: &[u8]) -> (ok: bool)
    ensures
        ok == vstd::utf8::valid_utf8(bytes@),
{
    core::str::from_utf8(bytes).is_ok()
}

/// `blake3::derive_key`. Believed: the output has 32 bytes.
#[verifier::external_body]
pub(crate) fn blake3_derive_key(context: &str, material: &[u8]) -> (key: Vec<u8>)
    ensures
        key@ == blake3_derived(context@, material@),
        key@.len() == 32,
{
    blake3::derive_key(context, material).to_vec()
}

/// `shadowsocks_crypto::utils::random_iv_or_salt` on a fresh buffer of `len`
/// bytes. Believed: only the length; the bytes differ from call to call.
#[verifier::external_body]
pub(crate) fn random_iv_or_salt(len: usize) -> (out: Vec<u8>)
    ensures
        out@.len() == len,
{
    let mut out = vec![0u8; len];
    shadowsocks_crypto::utils::random_iv_or_salt(&mut out);
    out
}

} // verus!
