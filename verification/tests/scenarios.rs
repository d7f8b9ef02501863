use ss_relay::address::{copy_address, Address};
use ss_relay::auto_proxy_stream::{AutoProxyClientStream, Route};
use ss_relay::config::ServerConfig;
use ss_relay::context::Context;
use ss_relay::crypto::{bytes_to_key, CipherKind};
use ss_relay::crypto_io::{CryptoStream, StreamType};
use ss_relay::error::{Error, IoKind, Peer};
use ss_relay::loadbalancing::ServerIdent;
use ss_relay::dns::ProxyPara;
use ss_relay::model::Poll;
use std::cell::RefCell;

fn server_ident(kind: CipherKind) -> ServerIdent {
    let addr = Address::V4([10, 0, 0, 1], 8388);
    ServerIdent::new(ServerConfig::new(addr, b"password", kind))
}

fn direct(target: &Address) -> Route {
    Route::Direct(copy_address(target))
}

fn via_server() -> Route {
    Route::Server(Address::V4([10, 0, 0, 1], 8388))
}

/// Drives a write of `payload` to completion and returns what went to the socket.
fn write_all(stream: &mut AutoProxyClientStream<u32>, context: &Context, payload: &[u8]) -> Vec<u8> {
    let mut wire = Vec::new();
    let mut sent = 0;
    loop {
        let rest = &payload[sent..];
        match stream.poll_write(context, rest, None) {
            Poll::Pending => {}
            Poll::Ready(Ok(0)) if rest.is_empty() => break,
            other => panic!("unexpected {:?}", other),
        }
        let frame = stream.pending_write(rest).to_vec();
        wire.extend_from_slice(&frame);
        match stream.poll_write(context, rest, Some(frame.len())) {
            Poll::Ready(Ok(n)) => sent += n,
            other => panic!("unexpected {:?}", other),
        }
        if sent == payload.len() {
            break;
        }
    }
    wire
}

fn read_all(server: &mut CryptoStream<()>, context: &mut Context, wire: &[u8]) -> Vec<u8> {
    let mut got = Vec::new();
    let mut arrived = Some(wire);
    loop {
        match server.poll_read_decrypted(context, arrived, 1000) {
            Poll::Ready(Ok(bytes)) => got.extend_from_slice(&bytes),
            Poll::Pending => break,
            Poll::Ready(Err(e)) => panic!("unexpected {:?}", e),
        }
        arrived = None;
    }
    got
}

#[test]
fn round_trip_aes_128_gcm_carries_the_address_first() {
    let kind = CipherKind::Aes128Gcm;
    let mut client_ctx = Context::new();
    let mut server_ctx = Context::new();
    let mut ident = server_ident(kind);
    let target = Address::domain(b"example.com", 80).unwrap();
    let route = AutoProxyClientStream::<u32>::route(&ident, &target, |_: &Address| false);
    let mut client =
        AutoProxyClientStream::connect(&mut client_ctx, &mut ident, target, &route, Some(7u32)).unwrap();
    assert!(client.is_proxied());
    let payload = b"GET / HTTP/1.0\r\n\r\n";
    let wire = write_all(&mut client, &client_ctx, payload);

    let key = bytes_to_key(kind, b"password");
    let mut server = CryptoStream::from_stream(&mut server_ctx, (), StreamType::Server, kind, &key);
    let got = read_all(&mut server, &mut server_ctx, &wire);

    let mut expected = vec![0x03u8, 0x0B];
    expected.extend_from_slice(b"example.com");
    expected.extend_from_slice(&[0x00, 0x50]);
    expected.extend_from_slice(payload);
    assert_eq!(got, expected);
    // salt, then one record: sealed length and sealed payload
    assert_eq!(wire.len(), 16 + (2 + 16) + (expected.len() + 16));
}

#[test]
fn bypassed_target_gets_a_direct_stream() {
    let mut ctx = Context::new();
    let mut ident = server_ident(CipherKind::Aes128Gcm);
    let target = Address::V4([127, 0, 0, 1], 9000);
    let local = Address::V4([127, 0, 0, 1], 9000);
    let route = AutoProxyClientStream::<u32>::route(&ident, &target, |a: &Address| *a == local);
    match &route {
        Route::Direct(a) => assert_eq!(*a, target),
        Route::Server(_) => panic!("must go direct"),
    }
    let mut stream = AutoProxyClientStream::connect(&mut ctx, &mut ident, target, &route, Some(3u32)).unwrap();
    assert!(matches!(stream, AutoProxyClientStream::Bypassed { .. }));
    assert!(!stream.is_proxied());
    assert_eq!(*stream.socket(), 3);

    // bytes flow through unmodified, both ways
    let data = b"plain bytes";
    match stream.poll_write(&ctx, data, None) {
        Poll::Pending => {}
        other => panic!("unexpected {:?}", other),
    }
    assert_eq!(stream.pending_write(data), data);
    match stream.poll_write(&ctx, data, Some(4)) {
        Poll::Ready(Ok(4)) => {}
        other => panic!("unexpected {:?}", other),
    }
    match stream.poll_read(&mut ctx, Some(b"answer"), 64, |_: &[u8]| false).0 {
        Poll::Ready(Ok(bytes)) => assert_eq!(bytes, b"answer"),
        other => panic!("unexpected {:?}", other),
    }
    match stream.poll_read(&mut ctx, None, 64, |_: &[u8]| false).0 {
        Poll::Pending => {}
        other => panic!("unexpected {:?}", other),
    }
    assert!(!stream.is_proxied());
    assert_eq!(ident.failures(), 0);
}

#[test]
fn route_of_a_proxied_target_is_the_server() {
    let ident = server_ident(CipherKind::Aes128Gcm);
    let target = Address::V4([93, 184, 216, 34], 80);
    let local = Address::V4([127, 0, 0, 1], 9000);
    match AutoProxyClientStream::<u32>::route(&ident, &target, |a: &Address| *a == local) {
        Route::Server(a) => assert_eq!(a, Address::V4([10, 0, 0, 1], 8388)),
        Route::Direct(_) => panic!("must go through the server"),
    }
}

#[test]
fn partial_frames_one_byte_at_a_time() {
    let kind = CipherKind::Aes256Gcm;
    let key = bytes_to_key(kind, b"password");
    let mut client_ctx = Context::new();
    let mut server_ctx = Context::new();
    let mut client = CryptoStream::from_stream(&mut client_ctx, (), StreamType::Client, kind, &key);
    let mut server = CryptoStream::from_stream(&mut server_ctx, (), StreamType::Server, kind, &key);
    let payload: Vec<u8> = (0..700u32).map(|i| (i * 7 % 256) as u8).collect();
    let mut wire = Vec::new();
    for part in payload.chunks(300) {
        match client.poll_write_encrypted(&client_ctx, part, None) {
            Poll::Pending => {}
            other => panic!("unexpected {:?}", other),
        }
        // the socket takes the frame in two pieces
        let frame = client.pending_write().to_vec();
        wire.extend_from_slice(&frame);
        match client.poll_write_encrypted(&client_ctx, part, Some(5)) {
            Poll::Pending => {}
            other => panic!("unexpected {:?}", other),
        }
        assert_eq!(client.pending_write(), &frame[5..]);
        match client.poll_write_encrypted(&client_ctx, part, Some(frame.len() - 5)) {
            Poll::Ready(Ok(n)) => assert_eq!(n, part.len()),
            other => panic!("unexpected {:?}", other),
        }
    }
    let mut got = Vec::new();
    for byte in wire.iter() {
        let mut arrived = Some(std::slice::from_ref(byte));
        loop {
            match server.poll_read_decrypted(&mut server_ctx, arrived, 7) {
                Poll::Ready(Ok(bytes)) => {
                    assert!(bytes.len() <= 7);
                    got.extend_from_slice(&bytes)
                }
                Poll::Pending => break,
                Poll::Ready(Err(e)) => panic!("unexpected {:?}", e),
            }
            arrived = None;
        }
    }
    assert_eq!(got, payload);
    // the peer closes between records: a clean end
    match server.poll_read_decrypted(&mut server_ctx, Some(&[]), 7) {
        Poll::Ready(Ok(bytes)) => assert!(bytes.is_empty()),
        other => panic!("unexpected {:?}", other),
    }
}

#[test]
fn replayed_salt_is_rejected() {
    // A generator that always gives the same bytes still leads to two salts.
    let mut ctx = Context::new();
    let candidate = vec![0xABu8; 16];
    let first = ctx.fresh_nonce(candidate.clone());
    let second = ctx.fresh_nonce(candidate.clone());
    let third = ctx.fresh_nonce(candidate.clone());
    assert_eq!(first, candidate);
    assert_ne!(first, second);
    assert_ne!(second, third);
    assert_ne!(first, third);
    assert_eq!(second.len(), 16);
    assert_eq!(&second[..8], &[0u8; 8]);
    assert_eq!(&second[8..], &candidate[8..]);
    assert_eq!(&third[..8], &[1u8, 0, 0, 0, 0, 0, 0, 0]);

    // Two streams made in succession open with different salts.
    let kind = CipherKind::Aes128Gcm;
    let key = bytes_to_key(kind, b"password");
    let a = CryptoStream::from_stream(&mut ctx, (), StreamType::Client, kind, &key);
    let b = CryptoStream::from_stream(&mut ctx, (), StreamType::Client, kind, &key);
    assert_ne!(a.sent_nonce(), b.sent_nonce());
    assert!(ctx.check_nonce_replay(a.sent_nonce()));
    assert!(ctx.check_nonce_replay(b.sent_nonce()));

    // A context that sees the same salt twice rejects the second stream.
    let mut client_ctx = Context::new();
    let mut client = CryptoStream::from_stream(&mut client_ctx, (), StreamType::Client, kind, &key);
    match client.poll_write_encrypted(&client_ctx, b"hello", None) {
        Poll::Pending => {}
        other => panic!("unexpected {:?}", other),
    }
    let wire = client.pending_write().to_vec();
    let mut server_ctx = Context::new();
    let mut one = CryptoStream::from_stream(&mut server_ctx, (), StreamType::Server, kind, &key);
    let mut two = CryptoStream::from_stream(&mut server_ctx, (), StreamType::Server, kind, &key);
    match one.poll_read_decrypted(&mut server_ctx, Some(&wire), 64) {
        Poll::Ready(Ok(bytes)) => assert_eq!(bytes, b"hello"),
        other => panic!("unexpected {:?}", other),
    }
    match two.poll_read_decrypted(&mut server_ctx, Some(&wire), 64) {
        Poll::Ready(Err(Error::CryptoAuth)) => {}
        other => panic!("unexpected {:?}", other),
    }
}

#[test]
fn dns_query_is_sniffed_once_and_delivered_unchanged() {
    let mut ctx = Context::new();
    let mut ident = server_ident(CipherKind::Aes128Gcm);
    let target = Address::V4([8, 8, 8, 8], 53);
    let mut stream = AutoProxyClientStream::connect(&mut ctx, &mut ident, copy_address(&target), &direct(&target), Some(1u32)).unwrap();
    assert!(stream.get_para().is_dns());

    let query: Vec<u8> = (1..=28u8).collect();
    let mut framed = vec![0x00u8, 0x1C];
    framed.extend_from_slice(&query);
    assert_eq!(framed.len(), 30);

    let seen_by_acl = RefCell::new(Vec::new());
    let acl = |message: &[u8]| {
        seen_by_acl.borrow_mut().push(message.to_vec());
        false
    };
    let (out, handed) = stream.poll_read(&mut ctx, Some(&framed), 512, acl);
    let delivered = match out {
        Poll::Ready(Ok(bytes)) => bytes,
        other => panic!("unexpected {:?}", other),
    };
    assert_eq!(delivered, framed);
    assert_eq!(*seen_by_acl.borrow(), vec![query.clone()]);
    assert_eq!(handed, vec![query]);
    // nothing is handed out twice
    let (_, handed) = stream.poll_read(&mut ctx, None, 512, acl);
    assert!(handed.is_empty());
    assert_eq!(seen_by_acl.borrow().len(), 1);
    assert_eq!(stream.para_mut().next_query(), None);
}

#[test]
fn dns_through_the_tunnel_is_sniffed_after_decryption() {
    let kind = CipherKind::Aes128Gcm;
    let mut ctx = Context::new();
    let mut ident = server_ident(kind);
    let target = Address::V4([8, 8, 8, 8], 53);
    let mut stream = AutoProxyClientStream::connect(&mut ctx, &mut ident, target, &via_server(), Some(1u32)).unwrap();
    assert!(stream.is_proxied());
    let key = bytes_to_key(kind, b"password");
    let mut server_ctx = Context::new();
    let mut server = CryptoStream::from_stream(&mut server_ctx, (), StreamType::Server, kind, &key);
    match server.poll_write_encrypted(&server_ctx, &[0, 3, 7, 8, 9, 0], None) {
        Poll::Pending => {}
        other => panic!("unexpected {:?}", other),
    }
    let wire = server.pending_write().to_vec();
    let seen_by_acl = RefCell::new(Vec::new());
    let acl = |message: &[u8]| {
        seen_by_acl.borrow_mut().push(message.to_vec());
        false
    };
    let (out, handed) = stream.poll_read(&mut ctx, Some(&wire), 512, acl);
    match out {
        Poll::Ready(Ok(bytes)) => assert_eq!(bytes, vec![0, 3, 7, 8, 9, 0]),
        other => panic!("unexpected {:?}", other),
    }
    assert_eq!(handed, vec![vec![7u8, 8, 9]]);
    assert_eq!(*seen_by_acl.borrow(), vec![vec![7u8, 8, 9]]);
    assert!(stream.is_proxied());
}

#[test]
fn dns_message_split_over_two_reads_and_answered_locally() {
    let mut ctx = Context::new();
    let mut ident = server_ident(CipherKind::Aes128Gcm);
    let target = Address::V4([8, 8, 8, 8], 53);
    let mut stream = AutoProxyClientStream::connect(&mut ctx, &mut ident, copy_address(&target), &direct(&target), Some(1u32)).unwrap();
    // length 0x0102 = 258: the high byte counts 256, not 4
    let body: Vec<u8> = (0..258u32).map(|i| (i % 256) as u8).collect();
    let mut framed = vec![0x01u8, 0x02];
    framed.extend_from_slice(&body);
    framed.extend_from_slice(&[0x00, 0x01, 0xEE, 0x00]);
    let (head, tail) = framed.split_at(100);
    let seen_by_acl = RefCell::new(Vec::new());
    // the list answers every message itself
    let acl = |message: &[u8]| {
        seen_by_acl.borrow_mut().push(message.to_vec());
        true
    };
    let (_, handed) = stream.poll_read(&mut ctx, Some(head), 512, acl);
    assert!(handed.is_empty());
    assert!(seen_by_acl.borrow().is_empty());
    let (_, handed) = stream.poll_read(&mut ctx, Some(tail), 512, acl);
    assert_eq!(handed, vec![body.clone()]);
    // the first message was answered: the second, though complete, is dropped with the rest
    assert_eq!(*seen_by_acl.borrow(), vec![body]);
    assert_eq!(stream.para_mut().next_query(), None);
    stream.poll_read(&mut ctx, Some(&[0, 1, 5]), 512, acl);
    assert_eq!(seen_by_acl.borrow().len(), 2);
    assert_eq!(seen_by_acl.borrow()[1], vec![5u8]);
}

#[test]
fn dns_messages_in_one_read_all_go_to_the_list() {
    let mut ctx = Context::new();
    let mut ident = server_ident(CipherKind::Aes128Gcm);
    let target = Address::V4([8, 8, 8, 8], 53);
    let mut stream = AutoProxyClientStream::connect(&mut ctx, &mut ident, copy_address(&target), &direct(&target), Some(1u32)).unwrap();
    let seen_by_acl = RefCell::new(Vec::new());
    let acl = |message: &[u8]| {
        seen_by_acl.borrow_mut().push(message.to_vec());
        false
    };
    let (_, handed) = stream.poll_read(&mut ctx, Some(&[0, 1, 0xAA, 0, 2, 0xBB, 0xCC, 0, 9, 1]), 512, acl);
    assert_eq!(*seen_by_acl.borrow(), vec![vec![0xAAu8], vec![0xBB, 0xCC]]);
    assert_eq!(handed, vec![vec![0xAAu8], vec![0xBB, 0xCC]]);
    // the start of the third message waits for its rest
    let mut left = ProxyPara::default(true);
    left.sniff(&[0, 9, 1]);
    assert_eq!(stream.para_mut().next_query(), left.next_query());
}

#[test]
fn other_ports_are_not_sniffed() {
    let mut ctx = Context::new();
    let mut ident = server_ident(CipherKind::Aes128Gcm);
    let target = Address::V4([8, 8, 8, 8], 443);
    let mut stream = AutoProxyClientStream::connect(&mut ctx, &mut ident, copy_address(&target), &direct(&target), Some(1u32)).unwrap();
    assert!(!stream.get_para().is_dns());
    let seen_by_acl = RefCell::new(0);
    let acl = |_: &[u8]| {
        *seen_by_acl.borrow_mut() += 1;
        true
    };
    let (_, handed) = stream.poll_read(&mut ctx, Some(&[0, 1, 9]), 512, acl);
    assert!(handed.is_empty());
    assert_eq!(*seen_by_acl.borrow(), 0);
    assert_eq!(stream.para_mut().next_query(), None);
}

#[test]
fn unreachable_server_is_reported_once() {
    let mut ctx = Context::new();
    let mut ident = server_ident(CipherKind::Aes128Gcm);
    let target = Address::domain(b"example.com", 80).unwrap();
    let r = AutoProxyClientStream::<u32>::connect_proxied(&mut ctx, &mut ident, target, None);
    assert!(matches!(r, Err(Error::ConnectFailed(Peer::Server))));
    assert_eq!(ident.failures(), 1);

    // a failure to connect directly is handed on and not reported
    let target = Address::V4([127, 0, 0, 1], 9000);
    let r = AutoProxyClientStream::<u32>::connect(&mut ctx, &mut ident, copy_address(&target), &direct(&target), None);
    assert!(matches!(r, Err(Error::ConnectFailed(Peer::Target))));
    assert_eq!(ident.failures(), 1);
}

#[test]
fn address_that_cannot_be_encoded_is_refused() {
    let mut ctx = Context::new();
    let mut ident = server_ident(CipherKind::Aes128Gcm);
    let target = Address::Domain(vec![b'a'; 300], 80);
    let r = AutoProxyClientStream::connect_proxied(&mut ctx, &mut ident, target, Some(1u32));
    assert!(matches!(r, Err(Error::ProtocolFraming)));
    assert_eq!(ident.failures(), 0);
}

#[test]
fn vectored_write_takes_the_first_buffer_that_is_not_empty() {
    let mut ctx = Context::new();
    let mut ident = server_ident(CipherKind::Aes128Gcm);
    let target = Address::V4([127, 0, 0, 1], 9000);
    let mut stream = AutoProxyClientStream::connect(&mut ctx, &mut ident, copy_address(&target), &direct(&target), Some(3u32)).unwrap();
    let bufs: [&[u8]; 3] = [b"", b"abc", b"defg"];
    match stream.poll_write_vectored(&ctx, &bufs, None) {
        Poll::Pending => {}
        other => panic!("unexpected {:?}", other),
    }
    match stream.poll_write_vectored(&ctx, &bufs, Some(3)) {
        Poll::Ready(Ok(3)) => {}
        other => panic!("unexpected {:?}", other),
    }
    match stream.poll_write_vectored(&ctx, &bufs, Some(4)) {
        Poll::Ready(Err(Error::Io(IoKind::InvalidInput))) => {}
        other => panic!("unexpected {:?}", other),
    }
    let none: [&[u8]; 2] = [b"", b""];
    match stream.poll_write_vectored(&ctx, &none, None) {
        Poll::Ready(Ok(0)) => {}
        other => panic!("unexpected {:?}", other),
    }
}

#[test]
fn address_is_not_skipped_by_an_early_report() {
    let kind = CipherKind::Aes128Gcm;
    let mut client_ctx = Context::new();
    let mut ident = server_ident(kind);
    let target = Address::V4([1, 2, 3, 4], 80);
    let mut client =
        AutoProxyClientStream::connect(&mut client_ctx, &mut ident, target, &via_server(), Some(7u32)).unwrap();
    match client.poll_write(&client_ctx, b"data", Some(0)) {
        Poll::Ready(Err(Error::Io(IoKind::InvalidInput))) => {}
        other => panic!("unexpected {:?}", other),
    }
    let wire = write_all(&mut client, &client_ctx, b"data");
    let key = bytes_to_key(kind, b"password");
    let mut server_ctx = Context::new();
    let mut server = CryptoStream::from_stream(&mut server_ctx, (), StreamType::Server, kind, &key);
    assert_eq!(read_all(&mut server, &mut server_ctx, &wire), vec![1, 1, 2, 3, 4, 0, 80, b'd', b'a', b't', b'a']);
}

#[test]
fn first_frame_holds_the_address_and_as_much_payload_as_fits() {
    let kind = CipherKind::Aes128Gcm;
    let mut client_ctx = Context::new();
    let mut ident = server_ident(kind);
    let target = Address::V4([1, 2, 3, 4], 80);
    let mut client =
        AutoProxyClientStream::connect(&mut client_ctx, &mut ident, target, &via_server(), Some(7u32)).unwrap();
    let payload = vec![9u8; 0x4000];
    match client.poll_write(&client_ctx, &payload, None) {
        Poll::Pending => {}
        other => panic!("unexpected {:?}", other),
    }
    let frame = client.pending_write(&payload).to_vec();
    assert_eq!(frame.len(), 16 + 18 + 0x3FFF + 16);
    match client.poll_write(&client_ctx, &payload, Some(frame.len())) {
        Poll::Ready(Ok(n)) => assert_eq!(n, 0x3FFF - 7),
        other => panic!("unexpected {:?}", other),
    }
    // an empty first write sends the address alone
    let mut ident = server_ident(kind);
    let mut client = AutoProxyClientStream::connect(
        &mut client_ctx,
        &mut ident,
        Address::V4([1, 2, 3, 4], 80),
        &via_server(),
        Some(7u32),
    )
    .unwrap();
    match client.poll_write(&client_ctx, b"", None) {
        Poll::Pending => {}
        other => panic!("unexpected {:?}", other),
    }
    let frame = client.pending_write(b"").to_vec();
    assert_eq!(frame.len(), 16 + 18 + 7 + 16);
    match client.poll_write(&client_ctx, b"", Some(frame.len())) {
        Poll::Ready(Ok(0)) => {}
        other => panic!("unexpected {:?}", other),
    }
}

#[test]
fn dns_message_of_256_bytes_has_the_prefix_01_00() {
    let mut ctx = Context::new();
    let mut ident = server_ident(CipherKind::Aes128Gcm);
    let target = Address::V4([8, 8, 8, 8], 53);
    let mut stream =
        AutoProxyClientStream::connect(&mut ctx, &mut ident, copy_address(&target), &direct(&target), Some(1u32))
            .unwrap();
    let message: Vec<u8> = (0..256u32).map(|i| (i % 256) as u8).collect();
    let mut framed = vec![0x01u8, 0x00];
    framed.extend_from_slice(&message);
    let (_, handed) = stream.poll_read(&mut ctx, Some(&framed), 512, |_: &[u8]| false);
    assert_eq!(handed, vec![message]);
}
