use ss_relay::context::Context;
use ss_relay::crypto::{bytes_to_key, derive_subkey, open, seal, CipherKind};
use ss_relay::crypto_io::{CryptoStream, DecryptedReader, EncryptedWriter, StreamType};
use ss_relay::encoding::{put_be16, put_be64, put_le};
use ss_relay::error::{Error, IoKind};
use ss_relay::model::Poll;
use shadowsocks_crypto::v1::Cipher;

const KIND: CipherKind = CipherKind::Aes128Gcm;

fn key() -> Vec<u8> {
    bytes_to_key(KIND, b"password")
}

fn salt() -> Vec<u8> {
    (100..116u8).collect()
}

/// One record as the protocol describes it, sealed with the nonces `counter` and `counter + 1`.
fn record(subkey: &[u8], counter: u64, len_field: u16, payload: &[u8]) -> Vec<u8> {
    let mut out = seal(KIND, subkey, &put_le(counter, 12), &put_be16(len_field));
    out.extend_from_slice(&seal(KIND, subkey, &put_le(counter + 1, 12), payload));
    out
}

fn reader() -> (DecryptedReader, Context) {
    (DecryptedReader::new(StreamType::Server, KIND, &key()), Context::new())
}

fn expect_bytes(p: Poll<Vec<u8>>) -> Vec<u8> {
    match p {
        Poll::Ready(Ok(bytes)) => bytes,
        other => panic!("unexpected {:?}", other),
    }
}

fn expect_error(p: Poll<Vec<u8>>) -> Error {
    match p {
        Poll::Ready(Err(e)) => e,
        other => panic!("unexpected {:?}", other),
    }
}

#[test]
fn records_use_a_little_endian_counter_from_zero() {
    let subkey = derive_subkey(KIND, &key(), &salt());
    let mut wire = salt();
    wire.extend_from_slice(&record(&subkey, 0, 5, b"hello"));
    wire.extend_from_slice(&record(&subkey, 2, 6, b" world"));
    let (mut r, mut ctx) = reader();
    assert_eq!(expect_bytes(r.poll_read_decrypted(&mut ctx, Some(&wire), 64)), b"hello world");
    assert_eq!(r.nonce().unwrap(), &salt()[..]);
    assert!(r.request_nonce().is_none());
}

#[test]
fn nonce_bytes_are_the_counter_least_significant_first() {
    assert_eq!(put_le(0, 12), vec![0u8; 12]);
    assert_eq!(put_le(1, 12), vec![1, 0, 0, 0, 0, 0, 0, 0, 0, 0, 0, 0]);
    assert_eq!(put_le(0x0102, 12), vec![2, 1, 0, 0, 0, 0, 0, 0, 0, 0, 0, 0]);
    assert_eq!(put_le(u64::MAX, 12), vec![255, 255, 255, 255, 255, 255, 255, 255, 0, 0, 0, 0]);
    assert_eq!(put_be16(0x3FFF), vec![0x3F, 0xFF]);
    assert_eq!(put_be64(0x0102030405060708), vec![1, 2, 3, 4, 5, 6, 7, 8]);
}

#[test]
fn a_record_sealed_with_the_wrong_nonce_fails() {
    let subkey = derive_subkey(KIND, &key(), &salt());
    let mut wire = salt();
    wire.extend_from_slice(&record(&subkey, 1, 5, b"hello"));
    let (mut r, mut ctx) = reader();
    assert_eq!(expect_error(r.poll_read_decrypted(&mut ctx, Some(&wire), 64)), Error::CryptoAuth);
}

#[test]
fn zero_length_record_is_a_framing_error() {
    let subkey = derive_subkey(KIND, &key(), &salt());
    let mut wire = salt();
    wire.extend_from_slice(&record(&subkey, 0, 0, b""));
    let (mut r, mut ctx) = reader();
    assert_eq!(expect_error(r.poll_read_decrypted(&mut ctx, Some(&wire), 64)), Error::ProtocolFraming);
    // and the reader stays failed
    assert_eq!(expect_error(r.poll_read_decrypted(&mut ctx, Some(b"x"), 64)), Error::ProtocolFraming);
    assert_eq!(expect_error(r.poll_read_decrypted(&mut ctx, None, 64)), Error::ProtocolFraming);
}

#[test]
fn length_above_0x3fff_is_a_framing_error() {
    let subkey = derive_subkey(KIND, &key(), &salt());
    let mut wire = salt();
    wire.extend_from_slice(&seal(KIND, &subkey, &put_le(0, 12), &put_be16(0x4000)));
    let (mut r, mut ctx) = reader();
    assert_eq!(expect_error(r.poll_read_decrypted(&mut ctx, Some(&wire), 64)), Error::ProtocolFraming);
}

#[test]
fn largest_record_is_accepted() {
    let subkey = derive_subkey(KIND, &key(), &salt());
    let payload = vec![0x5Au8; 0x3FFF];
    let mut wire = salt();
    wire.extend_from_slice(&record(&subkey, 0, 0x3FFF, &payload));
    let (mut r, mut ctx) = reader();
    assert_eq!(expect_bytes(r.poll_read_decrypted(&mut ctx, Some(&wire), 0x4000)), payload);
}

#[test]
fn plaintext_before_a_bad_record_is_delivered_first() {
    let subkey = derive_subkey(KIND, &key(), &salt());
    let mut wire = salt();
    wire.extend_from_slice(&record(&subkey, 0, 5, b"hello"));
    let mut bad = record(&subkey, 2, 3, b"bad");
    bad[4] ^= 0x80;
    wire.extend_from_slice(&bad);
    let (mut r, mut ctx) = reader();
    assert_eq!(expect_bytes(r.poll_read_decrypted(&mut ctx, Some(&wire), 64)), b"hello");
    assert_eq!(expect_error(r.poll_read_decrypted(&mut ctx, None, 64)), Error::CryptoAuth);
}

#[test]
fn end_of_stream_inside_the_salt_a_header_or_a_payload() {
    let subkey = derive_subkey(KIND, &key(), &salt());
    let mut wire = salt();
    wire.extend_from_slice(&record(&subkey, 0, 5, b"hello"));
    for cut in [0usize, 7, 16 + 3, 16 + 18 + 4] {
        let (mut r, mut ctx) = reader();
        if cut > 0 {
            match r.poll_read_decrypted(&mut ctx, Some(&wire[..cut]), 64) {
                Poll::Pending => {}
                other => panic!("unexpected {:?}", other),
            }
        }
        assert_eq!(expect_error(r.poll_read_decrypted(&mut ctx, Some(&[]), 64)), Error::UnexpectedEof, "{}", cut);
        assert_eq!(expect_error(r.poll_read_decrypted(&mut ctx, Some(&wire[cut..]), 64)), Error::UnexpectedEof);
    }
    // between records the end is clean
    let (mut r, mut ctx) = reader();
    assert_eq!(expect_bytes(r.poll_read_decrypted(&mut ctx, Some(&wire), 64)), b"hello");
    assert!(expect_bytes(r.poll_read_decrypted(&mut ctx, Some(&[]), 64)).is_empty());
}

#[test]
fn surplus_plaintext_waits_for_the_next_read() {
    let subkey = derive_subkey(KIND, &key(), &salt());
    let mut wire = salt();
    wire.extend_from_slice(&record(&subkey, 0, 11, b"hello world"));
    let (mut r, mut ctx) = reader();
    assert_eq!(expect_bytes(r.poll_read_decrypted(&mut ctx, Some(&wire), 4)), b"hell");
    assert_eq!(r.available(), 7);
    assert_eq!(expect_bytes(r.poll_read_decrypted(&mut ctx, None, 4)), b"o wo");
    assert_eq!(expect_bytes(r.poll_read_decrypted(&mut ctx, None, 0)), b"");
    assert_eq!(expect_bytes(r.poll_read_decrypted(&mut ctx, None, 100)), b"rld");
    match r.poll_read_decrypted(&mut ctx, None, 100) {
        Poll::Pending => {}
        other => panic!("unexpected {:?}", other),
    }
}

#[test]
fn writer_emits_the_salt_once_and_caps_records() {
    let ctx = Context::new();
    let mut w = EncryptedWriter::new(StreamType::Client, KIND, &key(), &salt());
    assert_eq!(w.nonce(), &salt()[..]);
    let big = vec![7u8; 0x5000];
    match w.poll_write_encrypted(&ctx, &big, None) {
        Poll::Pending => {}
        other => panic!("unexpected {:?}", other),
    }
    let first = w.pending().to_vec();
    assert_eq!(first.len(), 16 + 18 + 0x3FFF + 16);
    assert_eq!(&first[..16], &salt()[..]);
    // asking again while the frame is pending makes no second frame
    match w.poll_write_encrypted(&ctx, &big, None) {
        Poll::Pending => {}
        other => panic!("unexpected {:?}", other),
    }
    assert_eq!(w.pending(), &first[..]);
    match w.poll_write_encrypted(&ctx, &big, Some(first.len())) {
        Poll::Ready(Ok(n)) => assert_eq!(n, 0x3FFF),
        other => panic!("unexpected {:?}", other),
    }
    match w.poll_write_encrypted(&ctx, &big[0x3FFF..], None) {
        Poll::Pending => {}
        other => panic!("unexpected {:?}", other),
    }
    let second = w.pending().to_vec();
    assert_eq!(second.len(), 18 + 0x1001 + 16);

    // the bytes are exactly the records of the protocol
    let subkey = derive_subkey(KIND, &key(), &salt());
    assert_eq!(&first[16..], &record(&subkey, 0, 0x3FFF, &big[..0x3FFF])[..]);
    assert_eq!(second, record(&subkey, 2, 0x1001, &big[0x3FFF..]));
    let opened = open(KIND, &subkey, &put_le(3, 12), &second[18..]).unwrap();
    assert_eq!(opened, &big[0x3FFF..]);
}

#[test]
fn socket_that_takes_nothing_or_too_much() {
    let ctx = Context::new();
    let mut w = EncryptedWriter::new(StreamType::Client, KIND, &key(), &salt());
    match w.poll_write_encrypted(&ctx, b"abc", None) {
        Poll::Pending => {}
        other => panic!("unexpected {:?}", other),
    }
    let frame = w.pending().to_vec();
    match w.poll_write_encrypted(&ctx, b"abc", Some(0)) {
        Poll::Ready(Err(Error::UnexpectedEof)) => {}
        other => panic!("unexpected {:?}", other),
    }
    match w.poll_write_encrypted(&ctx, b"abc", Some(frame.len() + 1)) {
        Poll::Ready(Err(Error::Io(IoKind::InvalidInput))) => {}
        other => panic!("unexpected {:?}", other),
    }
    assert_eq!(w.pending(), &frame[..]);
    match w.poll_write_encrypted(&ctx, b"", None) {
        Poll::Pending => {}
        other => panic!("unexpected {:?}", other),
    }
    match w.poll_write_encrypted(&ctx, b"abc", Some(frame.len())) {
        Poll::Ready(Ok(3)) => {}
        other => panic!("unexpected {:?}", other),
    }
    match w.poll_write_encrypted(&ctx, b"", None) {
        Poll::Ready(Ok(0)) => {}
        other => panic!("unexpected {:?}", other),
    }
    assert!(w.pending().is_empty());
}

#[test]
fn shadowsocks_crypto_opens_what_the_writer_sealed() {
    for (kind, theirs) in [
        (CipherKind::Aes128Gcm, shadowsocks_crypto::CipherKind::AES_128_GCM),
        (CipherKind::Aes256Gcm, shadowsocks_crypto::CipherKind::AES_256_GCM),
        (CipherKind::ChaCha20Poly1305, shadowsocks_crypto::CipherKind::CHACHA20_POLY1305),
    ] {
        let key = bytes_to_key(kind, b"a longer password");
        let mut ctx = Context::new();
        let mut client = CryptoStream::from_stream(&mut ctx, (), StreamType::Client, kind, &key);
        match client.poll_write_encrypted(&ctx, b"interoperate", None) {
            Poll::Pending => {}
            other => panic!("unexpected {:?}", other),
        }
        let wire = client.pending_write().to_vec();
        let n = kind.salt_len();
        let mut cipher = Cipher::new(theirs, &key, &wire[..n]);
        let mut header = wire[n..n + 18].to_vec();
        assert!(cipher.decrypt_packet(&mut header));
        assert_eq!(&header[..2], &[0, 12]);
        let mut payload = wire[n + 18..].to_vec();
        assert!(cipher.decrypt_packet(&mut payload));
        assert_eq!(&payload[..12], b"interoperate");

        // and the other way round
        let their_salt = vec![0x42u8; n];
        let mut cipher = Cipher::new(theirs, &key, &their_salt);
        let mut wire = their_salt.clone();
        let mut header = vec![0u8, 4];
        header.resize(2 + 16, 0);
        cipher.encrypt_packet(&mut header);
        wire.extend_from_slice(&header);
        let mut payload = b"pong".to_vec();
        payload.resize(4 + 16, 0);
        cipher.encrypt_packet(&mut payload);
        wire.extend_from_slice(&payload);
        let mut server_ctx = Context::new();
        let mut r = DecryptedReader::new(StreamType::Client, kind, &key);
        assert_eq!(expect_bytes(r.poll_read_decrypted(&mut server_ctx, Some(&wire), 64)), b"pong");
    }
}

#[test]
fn password_to_key_is_the_openssl_derivation() {
    let key = bytes_to_key(CipherKind::Aes128Gcm, b"password");
    assert_eq!(
        key,
        vec![0x5f, 0x4d, 0xcc, 0x3b, 0x5a, 0xa7, 0x65, 0xd6, 0x1d, 0x83, 0x27, 0xde, 0xb8, 0x82, 0xcf, 0x99]
    );
    let long = bytes_to_key(CipherKind::Aes256Gcm, b"password");
    assert_eq!(long.len(), 32);
    assert_eq!(&long[..16], &key[..]);
    assert_ne!(&long[16..], &key[..]);
    assert!(bytes_to_key(CipherKind::Plain, b"password").is_empty());
}

#[test]
fn subkeys_depend_on_the_salt() {
    let a = derive_subkey(KIND, &key(), &salt());
    let b = derive_subkey(KIND, &key(), &vec![0u8; 16]);
    assert_eq!(a.len(), 16);
    assert_ne!(a, key());
    assert_ne!(a, b);
    let k = bytes_to_key(CipherKind::Blake3Aes256Gcm, b"password");
    let c = derive_subkey(CipherKind::Blake3Aes256Gcm, &k, &vec![1u8; 32]);
    let d = derive_subkey(CipherKind::Blake3Aes256Gcm, &k, &vec![2u8; 32]);
    assert_eq!(c.len(), 32);
    assert_ne!(c, k);
    assert_ne!(c, d);
    let k16 = bytes_to_key(CipherKind::Blake3Aes128Gcm, b"password");
    assert_eq!(derive_subkey(CipherKind::Blake3Aes128Gcm, &k16, &vec![1u8; 16]).len(), 16);
}

#[test]
fn report_of_a_write_when_nothing_is_pending_is_refused() {
    let ctx = Context::new();
    let mut w = EncryptedWriter::new(StreamType::Client, KIND, &key(), &salt());
    for n in [0usize, 1, 100] {
        match w.poll_write_encrypted(&ctx, b"abc", Some(n)) {
            Poll::Ready(Err(Error::Io(IoKind::InvalidInput))) => {}
            other => panic!("unexpected {:?}", other),
        }
        assert!(w.pending().is_empty());
    }
    // the stream still opens with its salt
    match w.poll_write_encrypted(&ctx, b"abc", None) {
        Poll::Pending => {}
        other => panic!("unexpected {:?}", other),
    }
    assert_eq!(&w.pending()[..16], &salt()[..]);
}
