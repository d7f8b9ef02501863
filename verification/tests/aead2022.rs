use ss_relay::address::Address;
use ss_relay::config::ServerConfig;
use ss_relay::context::Context;
use ss_relay::crypto::{bytes_to_key, derive_subkey, seal, CipherKind};
use ss_relay::crypto_io::{CryptoStream, DecryptedReader, EncryptedWriter, StreamType};
use ss_relay::encoding::{put_be16, put_be64, put_le};
use ss_relay::error::Error;
use ss_relay::model::Poll;
use ss_relay::proxy_stream::ProxyClientStream;

const KIND: CipherKind = CipherKind::Blake3Aes128Gcm;

fn key() -> Vec<u8> {
    bytes_to_key(KIND, b"password")
}

fn frame_of<S>(stream: &mut CryptoStream<S>, ctx: &Context, data: &[u8]) -> Vec<u8> {
    match stream.poll_write_encrypted(ctx, data, None) {
        Poll::Pending => {}
        other => panic!("unexpected {:?}", other),
    }
    let frame = stream.pending_write().to_vec();
    match stream.poll_write_encrypted(ctx, data, Some(frame.len())) {
        Poll::Ready(Ok(n)) => assert_eq!(n, data.len()),
        other => panic!("unexpected {:?}", other),
    }
    frame
}

#[test]
fn server_must_know_the_request_salt_before_it_writes() {
    let mut ctx = Context::new();
    let mut server = CryptoStream::from_stream(&mut ctx, (), StreamType::Server, KIND, &key());
    match server.poll_write_encrypted(&ctx, b"answer", None) {
        Poll::Ready(Err(Error::NotPermitted)) => {}
        other => panic!("unexpected {:?}", other),
    }
    assert!(server.pending_write().is_empty());
    // no request has arrived yet, so there is no salt to take over
    assert!(!server.set_request_nonce_with_received());
    assert_eq!(server.set_request_nonce(&[1u8; 5]), Err(Error::ProtocolFraming));
    assert_eq!(server.set_request_nonce(&[1u8; 16]), Ok(()));
    match server.poll_write_encrypted(&ctx, b"answer", None) {
        Poll::Pending => {}
        other => panic!("unexpected {:?}", other),
    }
    assert!(!server.pending_write().is_empty());
}

#[test]
fn request_salt_is_only_for_aead_2022() {
    for kind in [CipherKind::Plain, CipherKind::ChaCha20, CipherKind::Aes128Gcm] {
        let key = bytes_to_key(kind, b"password");
        let mut ctx = Context::new();
        let mut stream = CryptoStream::from_stream(&mut ctx, (), StreamType::Server, kind, &key);
        assert_eq!(stream.set_request_nonce(&[0u8; 16]), Err(Error::NotPermitted));
        assert!(!stream.set_request_nonce_with_received());
        let mut w = EncryptedWriter::new(StreamType::Server, kind, &key, &vec![3u8; kind.prefix_len()]);
        assert_eq!(w.set_request_nonce(&[0u8; 16]), Err(Error::NotPermitted));
    }
}

#[test]
fn request_and_response_with_salt_echo() {
    let mut client_ctx = Context::new();
    let mut server_ctx = Context::new();
    client_ctx.set_now(1_700_000_000);
    server_ctx.set_now(1_700_000_020);
    let config = ServerConfig::new(Address::V4([10, 0, 0, 1], 8388), b"password", KIND);
    let target = Address::V4([1, 2, 3, 4], 443);
    let mut client = ProxyClientStream::from_stream(&mut client_ctx, (), &config, target);
    let mut server = CryptoStream::from_stream(&mut server_ctx, (), StreamType::Server, KIND, &key());

    match client.poll_write(&client_ctx, b"ping", None) {
        Poll::Pending => {}
        other => panic!("unexpected {:?}", other),
    }
    let request = client.pending_write().to_vec();
    match client.poll_write(&client_ctx, b"ping", Some(request.len())) {
        Poll::Ready(Ok(4)) => {}
        other => panic!("unexpected {:?}", other),
    }
    // salt, sealed header of type, timestamp and length, sealed payload
    let first_plain = 7 + 2 + 4;
    assert_eq!(request.len(), 16 + (1 + 8 + 2 + 16) + (first_plain + 16));

    match server.poll_read_decrypted(&mut server_ctx, Some(&request), 64) {
        Poll::Ready(Ok(bytes)) => {
            assert_eq!(bytes, vec![1, 1, 2, 3, 4, 0x01, 0xBB, 0, 0, b'p', b'i', b'n', b'g'])
        }
        other => panic!("unexpected {:?}", other),
    }
    assert_eq!(server.current_data_chunk_remaining(), (1, 0));
    assert!(server.received_request_nonce().is_none());
    assert!(server.set_request_nonce_with_received());
    let response = frame_of(&mut server, &server_ctx, b"pong");
    assert_eq!(response.len(), 16 + (1 + 8 + 16 + 2 + 16) + (4 + 16));

    client_ctx.set_now(1_700_000_030);
    match client.poll_read(&mut client_ctx, Some(&response), 64) {
        Poll::Ready(Ok(bytes)) => assert_eq!(bytes, b"pong"),
        other => panic!("unexpected {:?}", other),
    }
    assert_eq!(client.get_ref().received_request_nonce().unwrap(), client.get_ref().sent_nonce());

    // later records have the short header
    let more = frame_of(&mut server, &server_ctx, b"more");
    assert_eq!(more.len(), (2 + 16) + (4 + 16));
    match client.poll_read(&mut client_ctx, Some(&more), 64) {
        Poll::Ready(Ok(bytes)) => assert_eq!(bytes, b"more"),
        other => panic!("unexpected {:?}", other),
    }
}

#[test]
fn response_to_another_request_is_refused() {
    let mut client_ctx = Context::new();
    let mut server_ctx = Context::new();
    let config = ServerConfig::new(Address::V4([10, 0, 0, 1], 8388), b"password", KIND);
    let mut client = ProxyClientStream::from_stream(&mut client_ctx, (), &config, Address::V4([1, 2, 3, 4], 443));
    let mut server = CryptoStream::from_stream(&mut server_ctx, (), StreamType::Server, KIND, &key());
    assert_eq!(server.set_request_nonce(&[9u8; 16]), Ok(()));
    let response = frame_of(&mut server, &server_ctx, b"pong");
    match client.poll_read(&mut client_ctx, Some(&response), 64) {
        Poll::Ready(Err(Error::CryptoAuth)) => {}
        other => panic!("unexpected {:?}", other),
    }
    match client.poll_read(&mut client_ctx, None, 64) {
        Poll::Ready(Err(Error::CryptoAuth)) => {}
        other => panic!("unexpected {:?}", other),
    }
}

fn request_wire(kind_byte: u8, stamp: u64, payload: &[u8]) -> Vec<u8> {
    let salt = vec![0x11u8; 16];
    let subkey = derive_subkey(KIND, &key(), &salt);
    let mut header = vec![kind_byte];
    header.extend_from_slice(&put_be64(stamp));
    header.extend_from_slice(&put_be16(payload.len() as u16));
    let mut wire = salt;
    wire.extend_from_slice(&seal(KIND, &subkey, &put_le(0, 12), &header));
    wire.extend_from_slice(&seal(KIND, &subkey, &put_le(1, 12), payload));
    wire
}

fn read_request(now: u64, wire: &[u8]) -> Poll<Vec<u8>> {
    let mut ctx = Context::new();
    ctx.set_now(now);
    let mut r = DecryptedReader::new(StreamType::Server, KIND, &key());
    r.poll_read_decrypted(&mut ctx, Some(wire), 64)
}

#[test]
fn header_timestamp_must_be_within_thirty_seconds() {
    let wire = request_wire(0, 1000, b"data");
    for now in [970u64, 1000, 1030] {
        match read_request(now, &wire) {
            Poll::Ready(Ok(bytes)) => assert_eq!(bytes, b"data"),
            other => panic!("unexpected {:?} at {}", other, now),
        }
    }
    for now in [0u64, 969, 1031, u64::MAX] {
        match read_request(now, &wire) {
            Poll::Ready(Err(Error::CryptoAuth)) => {}
            other => panic!("unexpected {:?} at {}", other, now),
        }
    }
}

#[test]
fn header_type_must_match_the_direction() {
    let wire = request_wire(1, 1000, b"data");
    match read_request(1000, &wire) {
        Poll::Ready(Err(Error::ProtocolFraming)) => {}
        other => panic!("unexpected {:?}", other),
    }
}

#[test]
fn large_payloads_up_to_0xffff() {
    let payload = vec![3u8; 0xFFFF];
    let wire = request_wire(0, 5, &payload);
    match read_request(5, &wire) {
        Poll::Ready(Ok(bytes)) => assert_eq!(bytes.len(), 64),
        other => panic!("unexpected {:?}", other),
    }
    let mut ctx = Context::new();
    let mut w = EncryptedWriter::new(StreamType::Client, KIND, &key(), &[5u8; 16]);
    let big = vec![1u8; 0x12000];
    match w.poll_write_encrypted(&ctx, &big, None) {
        Poll::Pending => {}
        other => panic!("unexpected {:?}", other),
    }
    let n = w.pending().len();
    assert_eq!(n, 16 + 27 + 0xFFFF + 16);
    match w.poll_write_encrypted(&ctx, &big, Some(n)) {
        Poll::Ready(Ok(0xFFFF)) => {}
        other => panic!("unexpected {:?}", other),
    }
    ctx.set_now(1);
}

#[test]
fn telemetry_counts_payloads_and_what_is_left_of_the_last() {
    let mut ctx = Context::new();
    ctx.set_now(5);
    let mut server = CryptoStream::from_stream(&mut ctx, (), StreamType::Server, KIND, &key());
    assert_eq!(server.current_data_chunk_remaining(), (0, 0));
    let mut wire = request_wire(0, 5, b"0123456789");
    let salt = vec![0x11u8; 16];
    let subkey = derive_subkey(KIND, &key(), &salt);
    wire.extend_from_slice(&seal(KIND, &subkey, &put_le(2, 12), &put_be16(4)));
    wire.extend_from_slice(&seal(KIND, &subkey, &put_le(3, 12), b"abcd"));
    match server.poll_read_decrypted(&mut ctx, Some(&wire), 12) {
        Poll::Ready(Ok(bytes)) => assert_eq!(bytes, b"0123456789ab"),
        other => panic!("unexpected {:?}", other),
    }
    assert_eq!(server.current_data_chunk_remaining(), (2, 2));
    match server.poll_read_decrypted(&mut ctx, None, 12) {
        Poll::Ready(Ok(bytes)) => assert_eq!(bytes, b"cd"),
        other => panic!("unexpected {:?}", other),
    }
    assert_eq!(server.current_data_chunk_remaining(), (2, 0));
}

#[test]
fn request_without_payload_is_padded() {
    let mut client_ctx = Context::new();
    let config = ServerConfig::new(Address::V4([10, 0, 0, 1], 8388), b"password", KIND);
    for _ in 0..20 {
        let mut client =
            ProxyClientStream::from_stream(&mut client_ctx, (), &config, Address::V4([1, 2, 3, 4], 443));
        match client.poll_write(&client_ctx, b"", None) {
            Poll::Pending => {}
            other => panic!("unexpected {:?}", other),
        }
        let frame = client.pending_write().to_vec();
        let bare = 16 + (11 + 16) + (7 + 2 + 16);
        assert!(frame.len() > bare && frame.len() <= bare + 900, "{}", frame.len());
        match client.poll_write(&client_ctx, b"", Some(frame.len())) {
            Poll::Ready(Ok(0)) => {}
            other => panic!("unexpected {:?}", other),
        }
        // the server reads the address, the length of the padding and the padding
        let mut server_ctx = Context::new();
        let mut server = CryptoStream::from_stream(&mut server_ctx, (), StreamType::Server, KIND, &key());
        match server.poll_read_decrypted(&mut server_ctx, Some(&frame), 2000) {
            Poll::Ready(Ok(bytes)) => {
                assert_eq!(&bytes[..7], &[1, 1, 2, 3, 4, 0x01, 0xBB]);
                let padding = usize::from(bytes[7]) * 256 + usize::from(bytes[8]);
                assert_eq!(bytes.len(), 9 + padding);
                assert_eq!(frame.len(), bare + padding);
            }
            other => panic!("unexpected {:?}", other),
        }
    }
}

#[test]
fn request_with_the_padding_given() {
    let mut client_ctx = Context::new();
    let config = ServerConfig::new(Address::V4([10, 0, 0, 1], 8388), b"password", KIND);
    let mut client = ProxyClientStream::from_stream(&mut client_ctx, (), &config, Address::V4([1, 2, 3, 4], 443));
    match client.poll_write_padded(&client_ctx, b"hi", None, &[0xEE, 0xEF, 0xF0]) {
        Poll::Pending => {}
        other => panic!("unexpected {:?}", other),
    }
    let frame = client.pending_write().to_vec();
    match client.poll_write_padded(&client_ctx, b"hi", Some(frame.len()), &[]) {
        Poll::Ready(Ok(2)) => {}
        other => panic!("unexpected {:?}", other),
    }
    let mut server_ctx = Context::new();
    let mut server = CryptoStream::from_stream(&mut server_ctx, (), StreamType::Server, KIND, &key());
    match server.poll_read_decrypted(&mut server_ctx, Some(&frame), 2000) {
        Poll::Ready(Ok(bytes)) => {
            assert_eq!(bytes, vec![1, 1, 2, 3, 4, 0x01, 0xBB, 0, 3, 0xEE, 0xEF, 0xF0, b'h', b'i'])
        }
        other => panic!("unexpected {:?}", other),
    }
    // the padding is for AEAD-2022 only
    let plain = ServerConfig::new(Address::V4([10, 0, 0, 1], 8388), b"password", CipherKind::Plain);
    let mut client = ProxyClientStream::from_stream(&mut client_ctx, (), &plain, Address::V4([1, 2, 3, 4], 443));
    match client.poll_write_padded(&client_ctx, b"hi", None, &[0xEE, 0xEF, 0xF0]) {
        Poll::Pending => {}
        other => panic!("unexpected {:?}", other),
    }
    assert_eq!(client.pending_write(), &[1, 1, 2, 3, 4, 0x01, 0xBB, b'h', b'i']);
}
