//! What a relay is configured with: the mode of a listener, the options of
//! outgoing connections, and the description of an upstream server.

use crate::address::Address;
use crate::buf::copy;
use crate::crypto::{bytes_to_key, CipherKind};
use crate::primitives::openssl_key;
use vstd::prelude::*;

verus! {

/// Which transports a listener serves.
#[derive(Clone, Copy, Debug, PartialEq, Eq, Structural)]
pub enum Mode {
    TcpOnly,
    UdpOnly,
    TcpAndUdp,
}

impl Mode {
    pub open spec fn spec_enable_tcp(self) -> bool {
        self == Mode::TcpOnly || self == Mode::TcpAndUdp
    }

    pub open spec fn spec_enable_udp(self) -> bool {
        self == Mode::UdpOnly || self == Mode::TcpAndUdp
    }

    /// Whether TCP is served.
    #[verifier::when_used_as_spec(spec_enable_tcp)]
    pub fn enable_tcp(self) -> (on: bool)
        ensures
            on == self.spec_enable_tcp(),
    {
        match self {
            Mode::TcpOnly | Mode::TcpAndUdp => true,
            Mode::UdpOnly => false,
        }
    }

    /// Whether UDP is served.
    #[verifier::when_used_as_spec(spec_enable_udp)]
    pub fn enable_udp(self) -> (on: bool)
        ensures
            on == self.spec_enable_udp(),
    {
        match self {
            Mode::UdpOnly | Mode::TcpAndUdp => true,
            Mode::TcpOnly => false,
        }
    }
}

/// Options that the caller applies to every outgoing TCP socket.
#[derive(Clone, Debug)]
pub struct ConnectOpts {
    /// Disable Nagle's algorithm.
    pub nodelay: bool,
    /// Use TCP fast open.
    pub fastopen: bool,
    /// Keep-alive interval in seconds, if any.
    pub keepalive: Option<u64>,
    /// Size of the send buffer, if set.
    pub send_buffer_size: Option<u32>,
    /// Size of the receive buffer, if set.
    pub recv_buffer_size: Option<u32>,
    /// Name of the device to bind to, if any.
    pub bind_interface: Option<Vec<u8>>,
    /// Firewall mark, where the platform has one.
    pub fwmark: Option<u32>,
    /// User cookie, where the platform has one.
    pub user_cookie: Option<u32>,
    /// Prefer IPv6 addresses when a name resolves to both.
    pub ipv6_first: bool,
}

impl ConnectOpts {
    /// The options of a socket that is left as the system makes it.
    pub fn new() -> (opts: ConnectOpts)
        ensures
            !opts.nodelay,
            !opts.fastopen,
            opts.keepalive is None,
            opts.send_buffer_size is None,
            opts.recv_buffer_size is None,
            opts.bind_interface is None,
            opts.fwmark is None,
            opts.user_cookie is None,
            !opts.ipv6_first,
    {
        ConnectOpts {
            nodelay: false,
            fastopen: false,
            keepalive: None,
            send_buffer_size: None,
            recv_buffer_size: None,
            bind_interface: None,
            fwmark: None,
            user_cookie: None,
            ipv6_first: false,
        }
    }
}

/// An upstream server: where it listens, and the cipher and master key that
/// it shares with its clients.
pub struct ServerConfig {
    addr: Address,
    method: CipherKind,
    key: Vec<u8>,
}

impl ServerConfig {
    pub closed spec fn spec_addr(&self) -> Address {
        self.addr
    }

    pub closed spec fn spec_method(&self) -> CipherKind {
        self.method
    }

    pub closed spec fn spec_key(&self) -> Seq<u8> {
        self.key@
    }

    /// What holds of every server description: the key has the length that
    /// the cipher asks.
    pub closed spec fn wf(&self) -> bool {
        self.key@.len() == self.method.spec_key_len()
    }

    /// The key of a well-formed description has the length that its cipher
    /// asks.
    pub proof fn lemma_wf(&self)
        requires
            self.wf(),
        ensures
            self.spec_key().len() == self.spec_method().spec_key_len(),
    {
    }

    /// Describes a server whose master key is derived from a password.
    pub fn new(addr: Address, password: &[u8], method: CipherKind) -> (config: ServerConfig)
        ensures
            config.wf(),
            config.spec_addr() == addr,
            config.spec_method() == method,
            config.spec_key() == openssl_key(password@, method.spec_key_len() as nat),
    {
        ServerConfig { addr, method, key: bytes_to_key(method, password) }
    }

    /// Describes a server whose master key is given. `None` where the key
    /// does not have the length that the cipher asks.
    pub fn with_key(addr: Address, key: &[u8], method: CipherKind) -> (config: Option<ServerConfig>)
        ensures
            match config {
                Some(c) => key@.len() == method.spec_key_len() && c.wf() && c.spec_addr() == addr
                    && c.spec_method() == method && c.spec_key() == key@,
                None => key@.len() != method.spec_key_len(),
            },
    {
        if key.len() != method.key_len() {
            None
        } else {
            Some(ServerConfig { addr, method, key: copy(key) })
        }
    }

    /// Where the server listens.
    pub fn addr(&self) -> (addr: &Address)
        ensures
            *addr == self.spec_addr(),
    {
        &self.addr
    }

    /// The cipher.
    #[verifier::when_used_as_spec(spec_method)]
    pub fn method(&self) -> (method: CipherKind)
        ensures
            method == self.spec_method(),
    {
        self.method
    }

    /// The master key.
    pub fn key(&self) -> (key: &[u8])
        ensures
            key@ == self.spec_key(),
    {
        self.key.as_slice()
    }
}

} // verus!
