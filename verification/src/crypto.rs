//! Cipher kinds, their families and lengths, and the dispatch from a kind to
//! the primitive that implements it.

use crate::buf::{copy, equal, extend};
use crate::primitives::{
    aes128ctr_keystream, aes128ctr_keystream_byte, aes192ctr_keystream, aes192ctr_keystream_byte, aes128gcm_open, aes128gcm_opened, aes128gcm_seal,
    aes128gcm_sealed, aes256ctr_keystream, aes256ctr_keystream_byte, aes256gcm_open, aes256gcm_opened,
    aes256gcm_seal, aes256gcm_sealed, blake3_derive_key, blake3_derived, chacha20_keystream,
    chacha20_keystream_byte, chacha20poly1305_open, chacha20poly1305_opened, chacha20poly1305_seal,
    chacha20poly1305_sealed, hkdf_sha1, hkdf_sha1_expanded, openssl_bytes_to_key, openssl_key,
    CHACHA20_KEYSTREAM_LEN, MAX_SEAL_LEN, NONCE_LEN, TAG_LEN,
};
use vstd::prelude::*;
use vstd::string::StringSliceAdditionalSpecFns;

verus! {

/// The family a cipher belongs to. The family decides the framing on the wire.
#[derive(Clone, Copy, Debug, PartialEq, Eq, Structural)]
pub enum CipherCategory {
    /// No encryption: bytes pass through unchanged.
    Plain,
    /// Legacy stream ciphers: an IV followed by the keystream-masked payload.
    Stream,
    /// AEAD ciphers: a salt followed by length-prefixed authenticated records.
    Aead,
    /// AEAD-2022 ciphers: as AEAD, with a typed and timestamped first header.
    Aead2022,
}

/// Every cipher this library can speak.
#[derive(Clone, Copy, Debug, PartialEq, Eq, Structural)]
pub enum CipherKind {
    /// `none` (also called `plain`)
    Plain,
    /// `chacha20-ietf`
    ChaCha20,
    /// `aes-128-ctr`
    Aes128Ctr,
    /// `aes-192-ctr`
    Aes192Ctr,
    /// `aes-256-ctr`
    Aes256Ctr,
    /// `aes-128-gcm`
    Aes128Gcm,
    /// `aes-256-gcm`
    Aes256Gcm,
    /// `chacha20-ietf-poly1305`
    ChaCha20Poly1305,
    /// `2022-blake3-aes-128-gcm`
    Blake3Aes128Gcm,
    /// `2022-blake3-aes-256-gcm`
    Blake3Aes256Gcm,
    /// `2022-blake3-chacha20-poly1305`
    Blake3ChaCha20Poly1305,
}

impl CipherKind {
    /// The family of this cipher.
    pub open spec fn spec_category(self) -> CipherCategory {
        match self {
            CipherKind::Plain => CipherCategory::Plain,
            CipherKind::ChaCha20
            | CipherKind::Aes128Ctr
            | CipherKind::Aes192Ctr
            | CipherKind::Aes256Ctr => CipherCategory::Stream,
            CipherKind::Aes128Gcm | CipherKind::Aes256Gcm | CipherKind::ChaCha20Poly1305 => CipherCategory::Aead,
            CipherKind::Blake3Aes128Gcm
            | CipherKind::Blake3Aes256Gcm
            | CipherKind::Blake3ChaCha20Poly1305 => CipherCategory::Aead2022,
        }
    }

    /// Length of the master key, and of every subkey derived from it.
    pub open spec fn spec_key_len(self) -> usize {
        match self {
            CipherKind::Plain => 0,
            CipherKind::Aes128Ctr => 16,
            CipherKind::Aes192Ctr => 24,
            CipherKind::ChaCha20 | CipherKind::Aes256Ctr => 32,
            CipherKind::Aes128Gcm | CipherKind::Blake3Aes128Gcm => 16,
            CipherKind::Aes256Gcm | CipherKind::Blake3Aes256Gcm => 32,
            CipherKind::ChaCha20Poly1305 | CipherKind::Blake3ChaCha20Poly1305 => 32,
        }
    }

    /// Length of the per-connection prefix on the wire: the IV of a stream
    /// cipher, the salt of an AEAD cipher, nothing for `none`.
    pub open spec fn spec_prefix_len(self) -> usize {
        match self.spec_category() {
            CipherCategory::Plain => 0,
            CipherCategory::Stream => match self {
                CipherKind::ChaCha20 => 12,
                _ => 16,
            },
            CipherCategory::Aead | CipherCategory::Aead2022 => self.spec_key_len(),
        }
    }

    /// Length of the authentication tag; zero outside the AEAD families.
    pub open spec fn spec_tag_len(self) -> usize {
        match self.spec_category() {
            CipherCategory::Aead | CipherCategory::Aead2022 => TAG_LEN,
            _ => 0,
        }
    }

    /// True for the ciphers that seal records: both AEAD families.
    pub open spec fn seals(self) -> bool {
        self.spec_category() == CipherCategory::Aead || self.spec_category() == CipherCategory::Aead2022
    }

    /// The name of the cipher in configuration files.
    pub open spec fn spec_name(self) -> &'static str {
        match self {
            CipherKind::Plain => "none",
            CipherKind::ChaCha20 => "chacha20-ietf",
            CipherKind::Aes128Ctr => "aes-128-ctr",
            CipherKind::Aes192Ctr => "aes-192-ctr",
            CipherKind::Aes256Ctr => "aes-256-ctr",
            CipherKind::Aes128Gcm => "aes-128-gcm",
            CipherKind::Aes256Gcm => "aes-256-gcm",
            CipherKind::ChaCha20Poly1305 => "chacha20-ietf-poly1305",
            CipherKind::Blake3Aes128Gcm => "2022-blake3-aes-128-gcm",
            CipherKind::Blake3Aes256Gcm => "2022-blake3-aes-256-gcm",
            CipherKind::Blake3ChaCha20Poly1305 => "2022-blake3-chacha20-poly1305",
        }
    }

    /// Whether `name` names this cipher. `none` is also called `plain`.
    pub open spec fn is_named(self, name: Seq<u8>) -> bool {
        name == self.spec_name().spec_bytes() || (self == CipherKind::Plain && name == "plain".spec_bytes())
    }

    /// The name of the cipher in configuration files.
    #[verifier::when_used_as_spec(spec_name)]
    pub fn name(self) -> (name: &'static str)
        ensures
            name == self.spec_name(),
    {
        match self {
            CipherKind::Plain => "none",
            CipherKind::ChaCha20 => "chacha20-ietf",
            CipherKind::Aes128Ctr => "aes-128-ctr",
            CipherKind::Aes192Ctr => "aes-192-ctr",
            CipherKind::Aes256Ctr => "aes-256-ctr",
            CipherKind::Aes128Gcm => "aes-128-gcm",
            CipherKind::Aes256Gcm => "aes-256-gcm",
            CipherKind::ChaCha20Poly1305 => "chacha20-ietf-poly1305",
            CipherKind::Blake3Aes128Gcm => "2022-blake3-aes-128-gcm",
            CipherKind::Blake3Aes256Gcm => "2022-blake3-aes-256-gcm",
            CipherKind::Blake3ChaCha20Poly1305 => "2022-blake3-chacha20-poly1305",
        }
    }

    /// The cipher that `name` names, if it names one.
    pub fn from_name(name: &str) -> (kind: Option<CipherKind>)
        ensures
            match kind {
                Some(k) => k.is_named(name.spec_bytes()),
                None => forall|k: CipherKind| !k.is_named(name.spec_bytes()),
            },
    {
        let wanted = name.as_bytes();
        if equal(wanted, "plain".as_bytes()) {
            return Some(CipherKind::Plain);
        }
        if equal(wanted, CipherKind::Plain.name().as_bytes()) {
            return Some(CipherKind::Plain);
        }
        if equal(wanted, CipherKind::ChaCha20.name().as_bytes()) {
            return Some(CipherKind::ChaCha20);
        }
        if equal(wanted, CipherKind::Aes128Ctr.name().as_bytes()) {
            return Some(CipherKind::Aes128Ctr);
        }
        if equal(wanted, CipherKind::Aes192Ctr.name().as_bytes()) {
            return Some(CipherKind::Aes192Ctr);
        }
        if equal(wanted, CipherKind::Aes256Ctr.name().as_bytes()) {
            return Some(CipherKind::Aes256Ctr);
        }
        if equal(wanted, CipherKind::Aes128Gcm.name().as_bytes()) {
            return Some(CipherKind::Aes128Gcm);
        }
        if equal(wanted, CipherKind::Aes256Gcm.name().as_bytes()) {
            return Some(CipherKind::Aes256Gcm);
        }
        if equal(wanted, CipherKind::ChaCha20Poly1305.name().as_bytes()) {
            return Some(CipherKind::ChaCha20Poly1305);
        }
        if equal(wanted, CipherKind::Blake3Aes128Gcm.name().as_bytes()) {
            return Some(CipherKind::Blake3Aes128Gcm);
        }
        if equal(wanted, CipherKind::Blake3Aes256Gcm.name().as_bytes()) {
            return Some(CipherKind::Blake3Aes256Gcm);
        }
        if equal(wanted, CipherKind::Blake3ChaCha20Poly1305.name().as_bytes()) {
            return Some(CipherKind::Blake3ChaCha20Poly1305);
        }
        assert forall|k: CipherKind| !k.is_named(name.spec_bytes()) by {
            match k {
                CipherKind::Plain => {},
                CipherKind::ChaCha20 => {},
                CipherKind::Aes128Ctr => {},
                CipherKind::Aes192Ctr => {},
                CipherKind::Aes256Ctr => {},
                CipherKind::Aes128Gcm => {},
                CipherKind::Aes256Gcm => {},
                CipherKind::ChaCha20Poly1305 => {},
                CipherKind::Blake3Aes128Gcm => {},
                CipherKind::Blake3Aes256Gcm => {},
                CipherKind::Blake3ChaCha20Poly1305 => {},
            }
        }
        None
    }

    #[verifier::when_used_as_spec(spec_category)]
    pub fn category(self) -> (c: CipherCategory)
        ensures
            c == self.spec_category(),
    {
        match self {
            CipherKind::Plain => CipherCategory::Plain,
            CipherKind::ChaCha20
            | CipherKind::Aes128Ctr
            | CipherKind::Aes192Ctr
            | CipherKind::Aes256Ctr => CipherCategory::Stream,
            CipherKind::Aes128Gcm | CipherKind::Aes256Gcm | CipherKind::ChaCha20Poly1305 => CipherCategory::Aead,
            CipherKind::Blake3Aes128Gcm
            | CipherKind::Blake3Aes256Gcm
            | CipherKind::Blake3ChaCha20Poly1305 => CipherCategory::Aead2022,
        }
    }

    #[verifier::when_used_as_spec(spec_key_len)]
    pub fn key_len(self) -> (n: usize)
        ensures
            n == self.spec_key_len(),
    {
        match self {
            CipherKind::Plain => 0,
            CipherKind::Aes128Ctr => 16,
            CipherKind::Aes192Ctr => 24,
            CipherKind::ChaCha20 | CipherKind::Aes256Ctr => 32,
            CipherKind::Aes128Gcm | CipherKind::Blake3Aes128Gcm => 16,
            CipherKind::Aes256Gcm | CipherKind::Blake3Aes256Gcm => 32,
            CipherKind::ChaCha20Poly1305 | CipherKind::Blake3ChaCha20Poly1305 => 32,
        }
    }

    /// Length of the IV of a stream cipher; zero for the other families.
    pub fn iv_len(self) -> (n: usize)
        ensures
            n == (if self.spec_category() == CipherCategory::Stream { self.spec_prefix_len() } else { 0 }),
    {
        match self {
            CipherKind::ChaCha20 => 12,
            CipherKind::Aes128Ctr | CipherKind::Aes192Ctr | CipherKind::Aes256Ctr => 16,
            _ => 0,
        }
    }

    /// Length of the salt of an AEAD cipher; zero for the other families.
    pub fn salt_len(self) -> (n: usize)
        ensures
            n == (if self.seals() { self.spec_prefix_len() } else { 0 }),
    {
        match self.category() {
            CipherCategory::Aead | CipherCategory::Aead2022 => self.key_len(),
            _ => 0,
        }
    }

    #[verifier::when_used_as_spec(spec_prefix_len)]
    pub fn prefix_len(self) -> (n: usize)
        ensures
            n == self.spec_prefix_len(),
    {
        match self.category() {
            CipherCategory::Plain => 0,
            CipherCategory::Stream => self.iv_len(),
            CipherCategory::Aead | CipherCategory::Aead2022 => self.salt_len(),
        }
    }

    #[verifier::when_used_as_spec(spec_tag_len)]
    pub fn tag_len(self) -> (n: usize)
        ensures
            n == self.spec_tag_len(),
    {
        match self.category() {
            CipherCategory::Aead | CipherCategory::Aead2022 => TAG_LEN,
            _ => 0,
        }
    }
}

/// The sealed form of `plaintext`: ciphertext followed by the tag.
pub open spec fn sealed(kind: CipherKind, key: Seq<u8>, nonce: Seq<u8>, plaintext: Seq<u8>) -> Seq<u8> {
    match kind {
        CipherKind::Aes128Gcm | CipherKind::Blake3Aes128Gcm => aes128gcm_sealed(key, nonce, plaintext),
        CipherKind::Aes256Gcm | CipherKind::Blake3Aes256Gcm => aes256gcm_sealed(key, nonce, plaintext),
        CipherKind::ChaCha20Poly1305 | CipherKind::Blake3ChaCha20Poly1305 => chacha20poly1305_sealed(
            key,
            nonce,
            plaintext),
        _ => plaintext,
    }
}

/// What opening `wire` gives: the plaintext, or `None` where authentication
/// fails.
pub open spec fn opened(kind: CipherKind, key: Seq<u8>, nonce: Seq<u8>, wire: Seq<u8>) -> Option<Seq<u8>> {
    match kind {
        CipherKind::Aes128Gcm | CipherKind::Blake3Aes128Gcm => aes128gcm_opened(key, nonce, wire),
        CipherKind::Aes256Gcm | CipherKind::Blake3Aes256Gcm => aes256gcm_opened(key, nonce, wire),
        CipherKind::ChaCha20Poly1305 | CipherKind::Blake3ChaCha20Poly1305 => chacha20poly1305_opened(
            key,
            nonce,
            wire),
        _ => Some(wire),
    }
}

/// Seals `plaintext` under `key` and `nonce` with the cipher of `kind`.
pub fn seal(kind: CipherKind, key: &[u8], nonce: &[u8], plaintext: &[u8]) -> (out: Vec<u8>)
    requires
        kind.seals(),
        key@.len() == kind.spec_key_len(),
        nonce@.len() == NONCE_LEN,
        plaintext@.len() <= MAX_SEAL_LEN,
    ensures
        out@ == sealed(kind, key@, nonce@, plaintext@),
        out@.len() == plaintext@.len() + TAG_LEN,
        opened(kind, key@, nonce@, out@) == Some(plaintext@),
{
    match kind {
        CipherKind::Aes128Gcm | CipherKind::Blake3Aes128Gcm => aes128gcm_seal(key, nonce, plaintext),
        CipherKind::Aes256Gcm | CipherKind::Blake3Aes256Gcm => aes256gcm_seal(key, nonce, plaintext),
        CipherKind::ChaCha20Poly1305 | CipherKind::Blake3ChaCha20Poly1305 => chacha20poly1305_seal(
            key,
            nonce,
            plaintext),
        _ => Vec::new(),
    }
}

/// Opens `wire` under `key` and `nonce` with the cipher of `kind`.
pub fn open(kind: CipherKind, key: &[u8], nonce: &[u8], wire: &[u8]) -> (out: Option<Vec<u8>>)
    requires
        kind.seals(),
        key@.len() == kind.spec_key_len(),
        nonce@.len() == NONCE_LEN,
    ensures
        match out {
            Some(p) => opened(kind, key@, nonce@, wire@) == Some(p@) && p@.len() + TAG_LEN == wire@.len(),
            None => opened(kind, key@, nonce@, wire@) is None,
        },
{
    match kind {
        CipherKind::Aes128Gcm | CipherKind::Blake3Aes128Gcm => aes128gcm_open(key, nonce, wire),
        CipherKind::Aes256Gcm | CipherKind::Blake3Aes256Gcm => aes256gcm_open(key, nonce, wire),
        CipherKind::ChaCha20Poly1305 | CipherKind::Blake3ChaCha20Poly1305 => chacha20poly1305_open(
            key,
            nonce,
            wire),
        _ => None,
    }
}

/// Byte number `index` of the keystream of a stream cipher.
pub open spec fn keystream_byte(kind: CipherKind, key: Seq<u8>, iv: Seq<u8>, index: nat) -> u8 {
    match kind {
        CipherKind::ChaCha20 => chacha20_keystream_byte(key, iv, index),
        CipherKind::Aes128Ctr => aes128ctr_keystream_byte(key, iv, index),
        CipherKind::Aes192Ctr => aes192ctr_keystream_byte(key, iv, index),
        CipherKind::Aes256Ctr => aes256ctr_keystream_byte(key, iv, index),
        _ => 0,
    }
}

/// Number of keystream bytes that one key and IV give: the length of the
/// ChaCha20 keystream, and for AES in counter mode as many as 64 bits count.
pub open spec fn keystream_len(kind: CipherKind) -> u64 {
    match kind {
        CipherKind::ChaCha20 => CHACHA20_KEYSTREAM_LEN,
        _ => u64::MAX,
    }
}

/// Number of keystream bytes that one key and IV give.
pub fn keystream_limit(kind: CipherKind) -> (n: u64)
    ensures
        n == keystream_len(kind),
{
    match kind {
        CipherKind::ChaCha20 => CHACHA20_KEYSTREAM_LEN,
        _ => u64::MAX,
    }
}

/// The `len` keystream bytes from byte `offset` on.
pub fn keystream(kind: CipherKind, key: &[u8], iv: &[u8], offset: u64, len: usize) -> (ks: Vec<u8>)
    requires
        kind.spec_category() == CipherCategory::Stream,
        key@.len() == kind.spec_key_len(),
        iv@.len() == kind.spec_prefix_len(),
        offset + len <= keystream_len(kind),
    ensures
        ks@.len() == len,
        forall|i: int| 0 <= i < len ==> ks@[i] == keystream_byte(kind, key@, iv@, (offset + i) as nat),
{
    match kind {
        CipherKind::ChaCha20 => chacha20_keystream(key, iv, offset, len),
        CipherKind::Aes128Ctr => aes128ctr_keystream(key, iv, offset, len),
        CipherKind::Aes192Ctr => aes192ctr_keystream(key, iv, offset, len),
        _ => aes256ctr_keystream(key, iv, offset, len),
    }
}

/// Derives the master key of `method` from a password.
pub fn bytes_to_key(method: CipherKind, password: &[u8]) -> (key: Vec<u8>)
    ensures
        key@ == openssl_key(password@, method.spec_key_len() as nat),
        key@.len() == method.spec_key_len(),
{
    openssl_bytes_to_key(password, method.key_len())
}

/// The info string of the AEAD subkey derivation: `ss-subkey`.
pub open spec fn subkey_info() -> Seq<u8> {
    seq![0x73u8, 0x73u8, 0x2du8, 0x73u8, 0x75u8, 0x62u8, 0x6bu8, 0x65u8, 0x79u8]
}

/// The key under which the records of one direction of one connection are
/// sealed. AEAD: HKDF-SHA1 of the master key with the salt and the info string
/// `ss-subkey`. AEAD-2022: BLAKE3 key derivation, in the context
/// `shadowsocks 2022 session subkey`, of the master key followed by the salt,
/// cut to the key length.
pub open spec fn session_subkey(kind: CipherKind, key: Seq<u8>, salt: Seq<u8>) -> Seq<u8> {
    match kind.spec_category() {
        CipherCategory::Aead => hkdf_sha1_expanded(salt, key, subkey_info(), kind.spec_key_len() as nat),
        CipherCategory::Aead2022 => blake3_derived("shadowsocks 2022 session subkey"@, key + salt).take(
            kind.spec_key_len() as int,
        ),
        _ => key,
    }
}

/// Derives the session subkey from the master key and the salt.
pub fn derive_subkey(kind: CipherKind, key: &[u8], salt: &[u8]) -> (subkey: Vec<u8>)
    requires
        key@.len() == kind.spec_key_len(),
    ensures
        subkey@ == session_subkey(kind, key@, salt@),
        subkey@.len() == kind.spec_key_len(),
{
    match kind.category() {
        CipherCategory::Aead => {
            let mut info: Vec<u8> = Vec::new();
            info.push(0x73u8);
            info.push(0x73u8);
            info.push(0x2du8);
            info.push(0x73u8);
            info.push(0x75u8);
            info.push(0x62u8);
            info.push(0x6bu8);
            info.push(0x65u8);
            info.push(0x79u8);
            assert(info@ =~= subkey_info());
            hkdf_sha1(salt, key, info.as_slice(), kind.key_len())
        },
        CipherCategory::Aead2022 => {
            let mut material = copy(key);
            extend(&mut material, salt);
            let mut derived = blake3_derive_key("shadowsocks 2022 session subkey", material.as_slice());
            derived.truncate(kind.key_len());
            assert(derived@ =~= session_subkey(kind, key@, salt@));
            derived
        },
        _ => copy(key),
    }
}

} // verus!
