use core::time::Duration;
use ss_relay::address::{copy_address, Address};
use ss_relay::config::{ConnectOpts, Mode, ServerConfig};
use ss_relay::context::{Context, REPLAY_WINDOW};
use ss_relay::crypto::{bytes_to_key, CipherCategory, CipherKind};
use ss_relay::crypto_io::{CryptoRead, CryptoStream, CryptoWrite, DecryptedReader, EncryptedWriter, StreamType};
use ss_relay::proxy_stream::ProxyClientStream;
use ss_relay::dns::ProxyPara;
use ss_relay::error::{Error, IoKind, Peer};
use ss_relay::flow::{FlowStat, MonProxyStream};
use ss_relay::loadbalancing::ServerIdent;
use ss_relay::model::Poll;
use ss_relay::relay::{Action, Relay, Shuttle};
use ss_relay::service::ServiceContext;
use ss_relay::tunnel::TunnelBuilder;

#[test]
fn address_encodings() {
    assert_eq!(Address::V4([127, 0, 0, 1], 9000).encode(), vec![1, 127, 0, 0, 1, 0x23, 0x28]);
    let mut v6 = vec![4u8];
    v6.extend_from_slice(&[0x20, 0x01, 0x0d, 0xb8, 0, 0, 0, 0, 0, 0, 0, 0, 0, 0, 0, 1]);
    v6.extend_from_slice(&[0x01, 0xBB]);
    assert_eq!(Address::V6([0x20, 0x01, 0x0d, 0xb8, 0, 0, 0, 0, 0, 0, 0, 0, 0, 0, 0, 1], 443).encode(), v6);
    let domain = Address::domain(b"example.com", 80).unwrap();
    let mut expected = vec![0x03u8, 0x0B];
    expected.extend_from_slice(b"example.com");
    expected.extend_from_slice(&[0x00, 0x50]);
    assert_eq!(domain.encode(), expected);
    assert_eq!(domain.serialized_len(), expected.len());
    assert_eq!(domain.port(), 80);
    assert_eq!(copy_address(&domain), domain);
}

#[test]
fn address_domain_must_be_encodable() {
    assert!(Address::domain(b"", 80).is_none());
    assert!(Address::domain(&[b'a'; 256], 80).is_none());
    assert!(Address::domain(&[b'a'; 255], 80).is_some());
    assert!(Address::domain(&[0xFF, 0xFE], 80).is_none());
    assert!(Address::domain("bücher.example".as_bytes(), 80).is_some());
    assert!(!Address::Domain(vec![], 1).is_valid());
    assert!(!Address::Domain(vec![0xC0], 1).is_valid());
    assert!(Address::V4([0; 4], 0).is_valid());
    assert!(Address::V6([0; 16], 0).is_valid());
}

#[test]
fn address_parsing() {
    let bytes = [1u8, 10, 0, 0, 1, 0x1F, 0x90, 0xAA, 0xBB];
    assert_eq!(Address::parse(&bytes), Ok(Some((Address::V4([10, 0, 0, 1], 8080), 7))));
    for cut in 0..7 {
        assert_eq!(Address::parse(&bytes[..cut]), Ok(None));
    }
    let mut name = vec![3u8, 3];
    name.extend_from_slice(b"a.b");
    name.extend_from_slice(&[0, 53, 9, 9]);
    assert_eq!(Address::parse(&name), Ok(Some((Address::Domain(b"a.b".to_vec(), 53), 7))));
    assert_eq!(Address::parse(&name[..6]), Ok(None));
    assert_eq!(Address::parse(&name[..1]), Ok(None));
    let mut v6 = vec![4u8];
    v6.extend_from_slice(&[7u8; 16]);
    v6.extend_from_slice(&[0xFF, 0xFF]);
    assert_eq!(Address::parse(&v6), Ok(Some((Address::V6([7; 16], 65535), 19))));
    assert_eq!(Address::parse(&v6[..18]), Ok(None));
    // malformed: unknown type, empty name, name that is not UTF-8
    assert_eq!(Address::parse(&[2, 0, 0]), Err(Error::ProtocolFraming));
    assert_eq!(Address::parse(&[0]), Err(Error::ProtocolFraming));
    assert_eq!(Address::parse(&[3, 0, 0, 80]), Err(Error::ProtocolFraming));
    assert_eq!(Address::parse(&[3, 2, 0xC3, 0x28, 0, 80]), Err(Error::ProtocolFraming));
    // what was encoded is read back
    for a in [
        Address::V4([1, 2, 3, 4], 5),
        Address::V6([9; 16], 6),
        Address::domain(b"shadowsocks.org", 443).unwrap(),
    ] {
        let mut wire = a.encode();
        let n = wire.len();
        wire.extend_from_slice(b"payload");
        assert_eq!(Address::parse(&wire), Ok(Some((copy_address(&a), n))));
    }
}

#[test]
fn cipher_kinds_and_categories() {
    let table = [
        (CipherKind::Plain, CipherCategory::Plain, 0, 0, 0),
        (CipherKind::ChaCha20, CipherCategory::Stream, 32, 12, 0),
        (CipherKind::Aes128Ctr, CipherCategory::Stream, 16, 16, 0),
        (CipherKind::Aes192Ctr, CipherCategory::Stream, 24, 16, 0),
        (CipherKind::Aes256Ctr, CipherCategory::Stream, 32, 16, 0),
        (CipherKind::Aes128Gcm, CipherCategory::Aead, 16, 16, 16),
        (CipherKind::Aes256Gcm, CipherCategory::Aead, 32, 32, 16),
        (CipherKind::ChaCha20Poly1305, CipherCategory::Aead, 32, 32, 16),
        (CipherKind::Blake3Aes128Gcm, CipherCategory::Aead2022, 16, 16, 16),
        (CipherKind::Blake3Aes256Gcm, CipherCategory::Aead2022, 32, 32, 16),
        (CipherKind::Blake3ChaCha20Poly1305, CipherCategory::Aead2022, 32, 32, 16),
    ];
    for (kind, category, key_len, prefix_len, tag_len) in table {
        assert_eq!(kind.category(), category);
        assert_eq!(kind.key_len(), key_len);
        assert_eq!(kind.prefix_len(), prefix_len);
        assert_eq!(kind.tag_len(), tag_len);
        let stream = category == CipherCategory::Stream;
        assert_eq!(kind.iv_len(), if stream { prefix_len } else { 0 });
        assert_eq!(kind.salt_len(), if tag_len > 0 { prefix_len } else { 0 });
    }
}

#[test]
fn cipher_names() {
    let all = [
        (CipherKind::Plain, "none"),
        (CipherKind::ChaCha20, "chacha20-ietf"),
        (CipherKind::Aes128Ctr, "aes-128-ctr"),
        (CipherKind::Aes192Ctr, "aes-192-ctr"),
        (CipherKind::Aes256Ctr, "aes-256-ctr"),
        (CipherKind::Aes128Gcm, "aes-128-gcm"),
        (CipherKind::Aes256Gcm, "aes-256-gcm"),
        (CipherKind::ChaCha20Poly1305, "chacha20-ietf-poly1305"),
        (CipherKind::Blake3Aes128Gcm, "2022-blake3-aes-128-gcm"),
        (CipherKind::Blake3Aes256Gcm, "2022-blake3-aes-256-gcm"),
        (CipherKind::Blake3ChaCha20Poly1305, "2022-blake3-chacha20-poly1305"),
    ];
    for (kind, name) in all {
        assert_eq!(kind.name(), name);
        assert_eq!(CipherKind::from_name(name), Some(kind));
    }
    assert_eq!(CipherKind::from_name("plain"), Some(CipherKind::Plain));
    assert_eq!(CipherKind::from_name("aes-128-cfb"), None);
    assert_eq!(CipherKind::from_name(""), None);
    assert_eq!(CipherKind::from_name("AES-128-GCM"), None);
}

#[test]
fn context_records_salts() {
    let mut ctx = Context::new();
    assert_eq!(ctx.now(), 0);
    ctx.set_now(77);
    assert_eq!(ctx.now(), 77);
    assert!(!ctx.check_nonce_replay(b"abc"));
    assert!(!ctx.check_nonce_and_set(b"abc"));
    assert!(ctx.check_nonce_replay(b"abc"));
    assert!(ctx.check_nonce_and_set(b"abc"));
    assert!(!ctx.check_nonce_replay(b"abd"));
    assert!(!ctx.check_nonce_replay(b"ab"));
    assert_eq!(ctx.now(), 77);
}

#[test]
fn context_forgets_the_oldest_salt_when_the_window_is_full() {
    let mut ctx = Context::new();
    let salt = |i: usize| (i as u64).to_le_bytes().to_vec();
    for i in 0..REPLAY_WINDOW {
        assert!(!ctx.check_nonce_and_set(&salt(i)));
    }
    assert!(ctx.check_nonce_replay(&salt(0)));
    assert!(ctx.check_nonce_replay(&salt(REPLAY_WINDOW - 1)));
    // a salt that is remembered does not push another out
    assert!(ctx.check_nonce_and_set(&salt(5)));
    assert!(ctx.check_nonce_replay(&salt(0)));
    // a new one pushes the oldest out
    assert!(!ctx.check_nonce_and_set(&salt(REPLAY_WINDOW)));
    assert!(!ctx.check_nonce_replay(&salt(0)));
    assert!(ctx.check_nonce_replay(&salt(1)));
    assert!(ctx.check_nonce_replay(&salt(REPLAY_WINDOW)));
    assert!(!ctx.check_nonce_and_set(&salt(0)));
    assert!(!ctx.check_nonce_replay(&salt(1)));
    assert!(ctx.check_nonce_replay(&salt(2)));
}

#[test]
fn generated_nonces_have_the_length_of_the_cipher_and_are_recorded() {
    let mut ctx = Context::new();
    for kind in [CipherKind::ChaCha20, CipherKind::Aes128Gcm, CipherKind::Blake3Aes256Gcm] {
        let a = ctx.generate_nonce(kind, true);
        let b = ctx.generate_nonce(kind, true);
        assert_eq!(a.len(), kind.prefix_len());
        assert_ne!(a, b);
        assert!(ctx.check_nonce_replay(&a));
        assert!(ctx.check_nonce_replay(&b));
        let c = ctx.generate_nonce(kind, false);
        assert_eq!(c.len(), kind.prefix_len());
        assert!(!ctx.check_nonce_replay(&c));
    }
    assert!(ctx.generate_nonce(CipherKind::Plain, true).is_empty());
    assert!(!ctx.check_nonce_replay(&[]));
}

#[test]
fn fresh_nonce_skips_every_replacement_already_seen() {
    let mut ctx = Context::new();
    let candidate = vec![7u8; 12];
    let mut zero = vec![0u8; 8];
    zero.extend_from_slice(&[7u8; 4]);
    let mut one = zero.clone();
    one[0] = 1;
    let mut two = zero.clone();
    two[0] = 2;
    ctx.check_nonce_and_set(&candidate);
    ctx.check_nonce_and_set(&zero);
    ctx.check_nonce_and_set(&one);
    assert_eq!(ctx.fresh_nonce(candidate.clone()), two);
    assert!(ctx.check_nonce_replay(&two));
}

#[test]
fn flow_counters_never_go_back() {
    let mut stat = FlowStat::new();
    assert_eq!((stat.tx(), stat.rx()), (0, 0));
    stat.incr_tx(10);
    stat.incr_rx(3);
    stat.incr_tx(5);
    assert_eq!((stat.tx(), stat.rx()), (15, 3));
    stat.incr_rx(u64::MAX);
    assert_eq!(stat.rx(), u64::MAX);
    stat.incr_rx(1);
    assert_eq!(stat.rx(), u64::MAX);
    assert_eq!(stat.tx(), 15);

    let mut mon = MonProxyStream::from_stream(5u8);
    mon.after_read(&mut stat, 0);
    mon.after_write(&mut stat, 7);
    assert_eq!((stat.tx(), stat.rx()), (22, u64::MAX));
    assert_eq!(*mon.get_ref(), 5);
    *mon.get_mut() = 6;
    assert_eq!(mon.into_inner(), 6);
}

#[test]
fn server_ident_counts_failures() {
    let config = ServerConfig::new(Address::V4([1, 1, 1, 1], 1), b"pw", CipherKind::Aes256Gcm);
    assert_eq!(config.method(), CipherKind::Aes256Gcm);
    assert_eq!(config.key(), &bytes_to_key(CipherKind::Aes256Gcm, b"pw")[..]);
    assert_eq!(*config.addr(), Address::V4([1, 1, 1, 1], 1));
    let mut ident = ServerIdent::new(config);
    assert_eq!(ident.failures(), 0);
    ident.report_failure();
    ident.report_failure();
    assert_eq!(ident.failures(), 2);
    assert_eq!(ident.server_config().method(), CipherKind::Aes256Gcm);

    assert!(ServerConfig::with_key(Address::V4([1, 1, 1, 1], 1), &[0u8; 16], CipherKind::Aes256Gcm).is_none());
    let keyed = ServerConfig::with_key(Address::V4([1, 1, 1, 1], 1), &[8u8; 32], CipherKind::Aes256Gcm).unwrap();
    assert_eq!(keyed.key(), &[8u8; 32][..]);
}

#[test]
fn modes_and_connect_options() {
    assert!(Mode::TcpOnly.enable_tcp() && !Mode::TcpOnly.enable_udp());
    assert!(!Mode::UdpOnly.enable_tcp() && Mode::UdpOnly.enable_udp());
    assert!(Mode::TcpAndUdp.enable_tcp() && Mode::TcpAndUdp.enable_udp());
    let opts = ConnectOpts::new();
    assert!(!opts.nodelay && !opts.fastopen && !opts.ipv6_first);
    assert!(opts.keepalive.is_none() && opts.bind_interface.is_none() && opts.fwmark.is_none());
    let service = ServiceContext::new();
    assert_eq!(service.flow_stat_ref().tx(), 0);
    assert!(!service.connect_opts_ref().nodelay);
    assert_eq!(service.context_ref().now(), 0);
}

#[test]
fn tunnel_serves_tcp_only_unless_told_otherwise() {
    let forward = Address::domain(b"internal.example", 5353).unwrap();
    let listen = Address::V4([127, 0, 0, 1], 1080);
    let builder = TunnelBuilder::new(copy_address(&forward), copy_address(&listen), "balancer");
    let tunnel = builder.build();
    let tcp = tunnel.tcp_server().unwrap();
    assert_eq!(tcp.client_addr, listen);
    assert_eq!(tcp.forward_addr, forward);
    assert!(tunnel.udp_server().is_none());
}

#[test]
fn tunnel_udp_listener_takes_the_settings() {
    let forward = Address::V4([8, 8, 8, 8], 53);
    let listen = Address::V4([127, 0, 0, 1], 1080);
    let udp = Address::V4([127, 0, 0, 1], 1081);

    let mut builder =
        TunnelBuilder::with_context(ServiceContext::new(), copy_address(&forward), copy_address(&listen), 1u8);
    builder.set_mode(Mode::TcpAndUdp);
    builder.set_udp_expiry_duration(Duration::from_secs(300));
    builder.set_udp_capacity(64);
    let tunnel = builder.build();
    assert!(tunnel.tcp_server().is_some());
    let server = tunnel.udp_server().unwrap();
    assert_eq!(server.client_addr, listen);
    assert_eq!(server.forward_addr, forward);
    assert_eq!(server.time_to_live, Some(Duration::from_secs(300)));
    assert_eq!(server.capacity, Some(64));

    let mut builder = TunnelBuilder::new(copy_address(&forward), copy_address(&listen), 1u8);
    builder.set_mode(Mode::UdpOnly);
    builder.set_udp_bind_addr(copy_address(&udp));
    let tunnel = builder.build();
    assert!(tunnel.tcp_server().is_none());
    let server = tunnel.udp_server().unwrap();
    assert_eq!(server.client_addr, udp);
    assert_eq!(server.time_to_live, None);
    assert_eq!(server.capacity, None);
    let (_, balancer, tcp, udp_server) = tunnel.into_parts();
    assert_eq!(balancer, 1);
    assert!(tcp.is_none() && udp_server.is_some());
}

#[test]
fn shuttle_copies_in_order_and_closes_its_sink() {
    let mut s = Shuttle::new();
    assert_eq!(s.action(), Action::Read);
    assert_eq!(s.outcome(), None);
    s.after_read(Ok(b"hello".to_vec()));
    assert_eq!(s.action(), Action::Write);
    assert_eq!(s.pending(), b"hello");
    // a report that was not asked for changes nothing
    s.after_read(Ok(b"zzz".to_vec()));
    s.after_shutdown(Ok(()));
    assert_eq!(s.pending(), b"hello");
    s.after_write(Ok(2));
    assert_eq!(s.action(), Action::Write);
    assert_eq!(s.pending(), b"llo");
    s.after_write(Ok(3));
    assert_eq!(s.action(), Action::Read);
    assert_eq!(s.copied(), 5);
    s.after_read(Ok(Vec::new()));
    assert_eq!(s.action(), Action::Shutdown);
    s.after_shutdown(Ok(()));
    assert_eq!(s.action(), Action::Finished);
    assert_eq!(s.outcome(), Some(Ok(5)));
}

#[test]
fn shuttle_reports_the_first_error() {
    for (setup, expected) in [(0, Error::CryptoAuth), (1, Error::UnexpectedEof), (2, Error::Io(IoKind::InvalidInput)), (3, Error::Io(IoKind::BrokenPipe))] {
        let mut s = Shuttle::new();
        match setup {
            0 => s.after_read(Err(Error::CryptoAuth)),
            1 => {
                s.after_read(Ok(b"abc".to_vec()));
                s.after_write(Ok(0));
            }
            2 => {
                s.after_read(Ok(b"abc".to_vec()));
                s.after_write(Ok(4));
            }
            _ => {
                s.after_read(Ok(b"abc".to_vec()));
                s.after_write(Err(Error::Io(IoKind::BrokenPipe)));
            }
        }
        assert_eq!(s.action(), Action::Shutdown);
        assert!(s.pending().is_empty());
        s.after_shutdown(Err(Error::ConnectFailed(Peer::Server)));
        assert_eq!(s.outcome(), Some(Err(expected)));
    }
    let mut s = Shuttle::new();
    s.after_read(Ok(Vec::new()));
    s.after_shutdown(Err(Error::Io(IoKind::InvalidInput)));
    assert_eq!(s.outcome(), Some(Err(Error::Io(IoKind::InvalidInput))));
}

#[test]
fn cancelled_shuttle_closes_its_sink() {
    let mut s = Shuttle::new();
    s.after_read(Ok(b"abc".to_vec()));
    s.after_write(Ok(1));
    s.cancel();
    assert_eq!(s.action(), Action::Shutdown);
    assert!(s.pending().is_empty());
    s.cancel();
    s.after_shutdown(Ok(()));
    assert_eq!(s.outcome(), Some(Ok(1)));
    s.cancel();
    assert_eq!(s.action(), Action::Finished);
}

#[test]
fn relay_is_done_when_both_shuttles_are() {
    let mut relay = Relay::new();
    assert_eq!(relay.outcome(), None);
    relay.up.after_read(Ok(b"abcd".to_vec()));
    relay.up.after_write(Ok(4));
    relay.up.after_read(Ok(Vec::new()));
    relay.up.after_shutdown(Ok(()));
    assert_eq!(relay.outcome(), None);
    relay.down.after_read(Ok(b"xy".to_vec()));
    relay.down.after_write(Ok(2));
    relay.down.after_read(Ok(Vec::new()));
    relay.down.after_shutdown(Ok(()));
    assert_eq!(relay.outcome(), Some(Ok((4, 2))));

    let mut relay = Relay::new();
    relay.up.after_read(Ok(Vec::new()));
    relay.up.after_shutdown(Ok(()));
    relay.down.after_read(Err(Error::CryptoAuth));
    relay.down.after_shutdown(Ok(()));
    assert_eq!(relay.outcome(), Some(Err(Error::CryptoAuth)));
}

#[test]
fn dns_buffer_keeps_what_follows_a_message() {
    let mut para = ProxyPara::default(true);
    para.sniff(&[0, 1, 0xAA, 0, 2, 0xBB]);
    assert_eq!(para.next_query(), Some(vec![0xAA]));
    assert_eq!(para.next_query(), None);
    para.sniff(&[0xCC, 0]);
    assert_eq!(para.next_query(), Some(vec![0xBB, 0xCC]));
    assert_eq!(para.next_query(), None);
    para.sniff(&[0]);
    // an empty message has a length and nothing else
    assert_eq!(para.next_query(), Some(vec![]));
    para.sniff(&[0, 9, 1, 2]);
    para.answered();
    para.sniff(&[0, 1, 5]);
    assert_eq!(para.next_query(), Some(vec![5]));

    // an inspection takes every whole message, and stops at one that is answered
    let mut para = ProxyPara::default(true);
    para.sniff(&[0, 1, 1, 0, 1, 2, 0, 1, 3, 0, 1]);
    let count = std::cell::Cell::new(0);
    para.inspect(|message: &[u8]| {
        count.set(count.get() + 1);
        message == [2]
    });
    assert_eq!(count.get(), 2);
    assert_eq!(para.next_query(), None);
    para.sniff(&[0, 1, 1, 0, 1, 3, 0, 1]);
    para.inspect(|_: &[u8]| false);
    para.sniff(&[4]);
    assert_eq!(para.next_query(), Some(vec![4]));

    let mut other = ProxyPara::default(false);
    other.sniff(&[0, 1, 0xAA]);
    assert_eq!(other.next_query(), None);
    assert!(!other.is_dns());
}

#[test]
fn crypto_stream_keeps_its_socket_and_splits() {
    let kind = CipherKind::Aes128Gcm;
    let key = bytes_to_key(kind, b"password");
    let mut ctx = Context::new();
    let mut stream = CryptoStream::from_stream(&mut ctx, String::from("socket"), StreamType::Client, kind, &key);
    assert_eq!(stream.method(), kind);
    assert_eq!(stream.get_ref(), "socket");
    stream.get_mut().push('!');
    assert_eq!(stream.sent_nonce().len(), 16);
    assert!(stream.received_nonce().is_none());
    assert!(stream.received_request_nonce().is_none());
    assert_eq!(stream.poll_flush(Poll::Ready(Ok(()))), Poll::Ready(Ok(())));
    assert_eq!(stream.poll_shutdown(Poll::Pending), Poll::Pending);
    let salt = stream.sent_nonce().to_vec();

    let (mut rd, mut wr) = stream.into_split(|s| (s.clone(), s.len()));
    assert_eq!(rd.method(), kind);
    assert_eq!(wr.method(), kind);
    assert_eq!(wr.sent_nonce(), &salt[..]);
    assert!(rd.nonce().is_none());
    assert_eq!(rd.get_mut().as_str(), "socket!");
    assert_eq!(*wr.get_mut(), 7);
    assert_eq!(wr.poll_flush(Poll::Ready(Err(Error::Io(IoKind::InvalidInput)))), Poll::Ready(Err(Error::Io(IoKind::InvalidInput))));
    assert_eq!(wr.poll_shutdown(Poll::Ready(Ok(()))), Poll::Ready(Ok(())));

    match CryptoWrite::poll_write_encrypted(&mut wr, &ctx, b"data", None) {
        Poll::Pending => {}
        other => panic!("unexpected {:?}", other),
    }
    let frame = wr.pending_write().to_vec();
    let mut peer_ctx = Context::new();
    let peer = CryptoStream::from_stream(&mut peer_ctx, (), StreamType::Server, kind, &key);
    let (mut peer_rd, _) = peer.into_split(|_| ((), ()));
    match CryptoRead::poll_read_decrypted(&mut peer_rd, &mut peer_ctx, Some(&frame), 16) {
        Poll::Ready(Ok(bytes)) => assert_eq!(bytes, b"data"),
        other => panic!("unexpected {:?}", other),
    }
    assert_eq!(peer_rd.nonce().unwrap(), &salt[..]);
    match CryptoRead::poll_read_decrypted(&mut rd, &mut ctx, None, 16) {
        Poll::Pending => {}
        other => panic!("unexpected {:?}", other),
    }
}

#[test]
fn plain_stream_passes_bytes_through() {
    let mut ctx = Context::new();
    let mut stream = CryptoStream::new_none(1u8, CipherKind::Plain);
    assert_eq!(stream.into_inner(), 1);
    stream = CryptoStream::from_stream(&mut ctx, 2u8, StreamType::Server, CipherKind::Plain, &[]);
    assert!(stream.sent_nonce().is_empty());
    assert!(stream.received_nonce().is_none());
    match stream.poll_write_encrypted(&ctx, b"as is", None) {
        Poll::Pending => {}
        other => panic!("unexpected {:?}", other),
    }
    assert_eq!(stream.pending_write(), b"as is");
    match stream.poll_write_encrypted(&ctx, b"as is", Some(5)) {
        Poll::Ready(Ok(5)) => {}
        other => panic!("unexpected {:?}", other),
    }
    match stream.poll_read_decrypted(&mut ctx, Some(b"back"), 2) {
        Poll::Ready(Ok(bytes)) => assert_eq!(bytes, b"ba"),
        other => panic!("unexpected {:?}", other),
    }
    match stream.poll_read_decrypted(&mut ctx, Some(&[]), 2) {
        Poll::Ready(Ok(bytes)) => assert_eq!(bytes, b"ck"),
        other => panic!("unexpected {:?}", other),
    }
    match stream.poll_read_decrypted(&mut ctx, Some(&[]), 2) {
        Poll::Ready(Ok(bytes)) => assert!(bytes.is_empty()),
        other => panic!("unexpected {:?}", other),
    }
}

#[test]
fn writing_without_encryption_hands_on_what_the_socket_answers() {
    let ctx = Context::new();
    // key and nonce are ignored
    let mut w = EncryptedWriter::new(StreamType::Client, CipherKind::Plain, b"any key", b"any nonce");
    assert!(w.nonce().is_empty());
    let big = vec![7u8; 0x2_0000];
    assert_eq!(w.poll_write_encrypted(&ctx, &big, None), Poll::Pending);
    // the whole buffer is offered
    assert_eq!(w.pending(), &big[..]);
    // a short write is the answer, and nothing is kept back
    assert_eq!(w.poll_write_encrypted(&ctx, &big, Some(5)), Poll::Ready(Ok(5)));
    assert!(w.pending().is_empty());
    assert_eq!(w.poll_write_encrypted(&ctx, &big[5..], None), Poll::Pending);
    assert_eq!(w.pending(), &big[5..]);
    // a socket that took nothing
    assert_eq!(w.poll_write_encrypted(&ctx, &big[5..], Some(0)), Poll::Ready(Ok(0)));
    // another buffer replaces what was offered
    assert_eq!(w.poll_write_encrypted(&ctx, b"abc", None), Poll::Pending);
    assert_eq!(w.poll_write_encrypted(&ctx, b"xy", None), Poll::Pending);
    assert_eq!(w.pending(), b"xy");
    assert_eq!(w.poll_write_encrypted(&ctx, b"xy", Some(3)), Poll::Ready(Err(Error::Io(IoKind::InvalidInput))));
    assert_eq!(w.poll_write_encrypted(&ctx, b"xy", Some(2)), Poll::Ready(Ok(2)));
    assert_eq!(w.poll_write_encrypted(&ctx, b"", None), Poll::Ready(Ok(0)));

    let mut peer = Context::new();
    let mut r = DecryptedReader::new(StreamType::Server, CipherKind::Plain, b"another key");
    assert!(r.nonce().is_none());
    assert!(r.request_nonce().is_none());
    assert_eq!(r.poll_read_decrypted(&mut peer, Some(b"xy"), 8), Poll::Ready(Ok(b"xy".to_vec())));
    let stream = CryptoStream::from_stream(&mut peer, 1u8, StreamType::Client, CipherKind::Plain, b"key");
    assert!(stream.sent_nonce().is_empty());
}

#[test]
fn first_plaintext_without_encryption_survives_short_writes() {
    let mut ctx = Context::new();
    let config = ServerConfig::new(Address::V4([10, 0, 0, 1], 8388), b"", CipherKind::Plain);
    let mut client = ProxyClientStream::from_stream(&mut ctx, (), &config, Address::V4([1, 2, 3, 4], 80));
    let mut wire = Vec::new();
    assert_eq!(client.poll_write(&ctx, b"hello", None), Poll::Pending);
    let expected = vec![1u8, 1, 2, 3, 4, 0, 80, b'h', b'e', b'l', b'l', b'o'];
    assert_eq!(client.pending_write(), &expected[..]);
    // the socket takes three bytes, then four, then the rest
    wire.extend_from_slice(&client.pending_write()[..3]);
    assert_eq!(client.poll_write(&ctx, b"hello", Some(3)), Poll::Pending);
    assert_eq!(client.pending_write(), &expected[3..]);
    wire.extend_from_slice(&client.pending_write()[..4]);
    assert_eq!(client.poll_write(&ctx, b"hello", Some(4)), Poll::Pending);
    assert_eq!(client.pending_write(), &expected[7..]);
    // a socket that takes nothing of it ends the write
    assert_eq!(client.poll_write(&ctx, b"hello", Some(0)), Poll::Ready(Err(Error::UnexpectedEof)));
    assert_eq!(client.poll_write(&ctx, b"hello", None), Poll::Pending);
    wire.extend_from_slice(client.pending_write());
    assert_eq!(client.poll_write(&ctx, b"hello", Some(5)), Poll::Ready(Ok(5)));
    assert_eq!(wire, expected);
    // afterwards the stream is a pass-through
    assert_eq!(client.poll_write(&ctx, b"more", None), Poll::Pending);
    assert_eq!(client.poll_write(&ctx, b"more", Some(1)), Poll::Ready(Ok(1)));
}
