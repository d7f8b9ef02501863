//! The tunnel: a local endpoint whose connections all go to one fixed
//! address at the far side of the upstream server.
//!
//! Building a tunnel decides which listeners there will be and what each of
//! them is given. Binding the sockets and running the listeners is left to
//! the caller.

use crate::address::{copy_address, Address};
use crate::config::Mode;
use crate::service::ServiceContext;
use core::time::Duration;
use vstd::prelude::*;

verus! {

/// What the TCP listener of a tunnel is given.
pub struct TunnelTcpServer {
    /// Where to listen.
    pub client_addr: Address,
    /// Where every connection is forwarded to.
    pub forward_addr: Address,
}

/// What the UDP listener of a tunnel is given.
pub struct TunnelUdpServer {
    /// Where to listen.
    pub client_addr: Address,
    /// Where every datagram is forwarded to.
    pub forward_addr: Address,
    /// How long an idle association is kept, if limited.
    pub time_to_live: Option<Duration>,
    /// How many associations are kept at once, if limited.
    pub capacity: Option<usize>,
}

/// Collects the settings of a tunnel. `B` is whatever chooses the upstream
/// server of a connection; the tunnel only carries it.
pub struct TunnelBuilder<B> {
    context: ServiceContext,
    forward_addr: Address,
    mode: Mode,
    udp_expiry_duration: Option<Duration>,
    udp_capacity: Option<usize>,
    client_addr: Address,
    udp_addr: Option<Address>,
    balancer: B,
}

impl<B> TunnelBuilder<B> {
    pub closed spec fn spec_context(&self) -> ServiceContext {
        self.context
    }

    pub closed spec fn spec_forward_addr(&self) -> Address {
        self.forward_addr
    }

    pub closed spec fn spec_mode(&self) -> Mode {
        self.mode
    }

    pub closed spec fn spec_udp_expiry_duration(&self) -> Option<Duration> {
        self.udp_expiry_duration
    }

    pub closed spec fn spec_udp_capacity(&self) -> Option<usize> {
        self.udp_capacity
    }

    pub closed spec fn spec_client_addr(&self) -> Address {
        self.client_addr
    }

    pub closed spec fn spec_udp_addr(&self) -> Option<Address> {
        self.udp_addr
    }

    pub closed spec fn spec_balancer(&self) -> B {
        self.balancer
    }

    /// True where `self` differs from `before` at most in the settings that
    /// the setters change.
    pub open spec fn same_endpoints(&self, before: &TunnelBuilder<B>) -> bool {
        &&& self.spec_context() == before.spec_context()
        &&& self.spec_forward_addr() == before.spec_forward_addr()
        &&& self.spec_client_addr() == before.spec_client_addr()
        &&& self.spec_balancer() == before.spec_balancer()
    }

    /// Starts a tunnel that listens at `client_addr` and forwards to
    /// `forward_addr`, with a context of its own. It serves TCP only until
    /// told otherwise.
    pub fn new(forward_addr: Address, client_addr: Address, balancer: B) -> (builder: TunnelBuilder<B>)
        ensures
            builder.spec_forward_addr() == forward_addr,
            builder.spec_client_addr() == client_addr,
            builder.spec_balancer() == balancer,
            builder.spec_mode() == Mode::TcpOnly,
            builder.spec_udp_expiry_duration() is None,
            builder.spec_udp_capacity() is None,
            builder.spec_udp_addr() is None,
            builder.spec_context().context.seen() == Seq::<Seq<u8>>::empty(),
    {
        let context = ServiceContext::new();
        TunnelBuilder::with_context(context, forward_addr, client_addr, balancer)
    }

    /// Starts a tunnel as `new` does, with the context given.
    pub fn with_context(context: ServiceContext, forward_addr: Address, client_addr: Address, balancer: B) -> (builder:
        TunnelBuilder<B>)
        ensures
            builder.spec_context() == context,
            builder.spec_forward_addr() == forward_addr,
            builder.spec_client_addr() == client_addr,
            builder.spec_balancer() == balancer,
            builder.spec_mode() == Mode::TcpOnly,
            builder.spec_udp_expiry_duration() is None,
            builder.spec_udp_capacity() is None,
            builder.spec_udp_addr() is None,
    {
        TunnelBuilder {
            context,
            forward_addr,
            mode: Mode::TcpOnly,
            udp_expiry_duration: None,
            udp_capacity: None,
            client_addr,
            udp_addr: None,
            balancer,
        }
    }

    /// Sets how long an idle UDP association is kept.
    pub fn set_udp_expiry_duration(&mut self, d: Duration)
        ensures
            final(self).spec_udp_expiry_duration() == Some(d),
            final(self).same_endpoints(old(self)),
            final(self).spec_mode() == old(self).spec_mode(),
            final(self).spec_udp_capacity() == old(self).spec_udp_capacity(),
            final(self).spec_udp_addr() == old(self).spec_udp_addr(),
    {
        self.udp_expiry_duration = Some(d);
    }

    /// Sets how many UDP associations are kept at once.
    pub fn set_udp_capacity(&mut self, c: usize)
        ensures
            final(self).spec_udp_capacity() == Some(c),
            final(self).same_endpoints(old(self)),
            final(self).spec_mode() == old(self).spec_mode(),
            final(self).spec_udp_expiry_duration() == old(self).spec_udp_expiry_duration(),
            final(self).spec_udp_addr() == old(self).spec_udp_addr(),
    {
        self.udp_capacity = Some(c);
    }

    /// Sets which transports the tunnel serves.
    pub fn set_mode(&mut self, mode: Mode)
        ensures
            final(self).spec_mode() == mode,
            final(self).same_endpoints(old(self)),
            final(self).spec_udp_capacity() == old(self).spec_udp_capacity(),
            final(self).spec_udp_expiry_duration() == old(self).spec_udp_expiry_duration(),
            final(self).spec_udp_addr() == old(self).spec_udp_addr(),
    {
        self.mode = mode;
    }

    /// Sets where the UDP listener listens, if not where the TCP listener
    /// does.
    pub fn set_udp_bind_addr(&mut self, addr: Address)
        ensures
            final(self).spec_udp_addr() == Some(addr),
            final(self).same_endpoints(old(self)),
            final(self).spec_mode() == old(self).spec_mode(),
            final(self).spec_udp_capacity() == old(self).spec_udp_capacity(),
            final(self).spec_udp_expiry_duration() == old(self).spec_udp_expiry_duration(),
    {
        self.udp_addr = Some(addr);
    }

    /// Decides the listeners of the tunnel. There is a TCP listener where the
    /// mode serves TCP, at the client address. There is a UDP listener where
    /// the mode serves UDP, at the UDP address if one was set and at the
    /// client address otherwise, with the expiry and capacity that were set.
    pub fn build(self) -> (tunnel: Tunnel<B>)
        ensures
            tunnel.spec_context() == self.spec_context(),
            tunnel.spec_balancer() == self.spec_balancer(),
            tunnel.spec_tcp_server() is Some == self.spec_mode().spec_enable_tcp(),
            tunnel.spec_udp_server() is Some == self.spec_mode().spec_enable_udp(),
            tunnel.spec_tcp_server() matches Some(tcp) ==> tcp.client_addr@ == self.spec_client_addr()@
                && tcp.forward_addr@ == self.spec_forward_addr()@,
            tunnel.spec_udp_server() matches Some(udp) ==> udp.forward_addr@ == self.spec_forward_addr()@
                && udp.time_to_live == self.spec_udp_expiry_duration() && udp.capacity
                == self.spec_udp_capacity() && udp.client_addr@ == (match self.spec_udp_addr() {
                Some(a) => a@,
                None => self.spec_client_addr()@,
            }),
    {
        let mut tcp_server = None;
        if self.mode.enable_tcp() {
            let server = TunnelTcpServer {
                client_addr: copy_address(&self.client_addr),
                forward_addr: copy_address(&self.forward_addr),
            };
            tcp_server = Some(server);
        }
        let mut udp_server = None;
        if self.mode.enable_udp() {
            let udp_addr = match self.udp_addr {
                Some(a) => a,
                None => self.client_addr,
            };
            let server = TunnelUdpServer {
                client_addr: udp_addr,
                forward_addr: self.forward_addr,
                time_to_live: self.udp_expiry_duration,
                capacity: self.udp_capacity,
            };
            udp_server = Some(server);
        }
        Tunnel { context: self.context, balancer: self.balancer, tcp_server, udp_server }
    }
}

/// The listeners of a tunnel, decided and not yet running.
pub struct Tunnel<B> {
    context: ServiceContext,
    balancer: B,
    tcp_server: Option<TunnelTcpServer>,
    udp_server: Option<TunnelUdpServer>,
}

impl<B> Tunnel<B> {
    pub closed spec fn spec_context(&self) -> ServiceContext {
        self.context
    }

    pub closed spec fn spec_balancer(&self) -> B {
        self.balancer
    }

    pub closed spec fn spec_tcp_server(&self) -> Option<TunnelTcpServer> {
        self.tcp_server
    }

    pub closed spec fn spec_udp_server(&self) -> Option<TunnelUdpServer> {
        self.udp_server
    }

    /// The TCP listener, if there is one.
    pub fn tcp_server(&self) -> (server: Option<&TunnelTcpServer>)
        ensures
            match server {
                Some(s) => self.spec_tcp_server() == Some(*s),
                None => self.spec_tcp_server() is None,
            },
    {
        self.tcp_server.as_ref()
    }

    /// The UDP listener, if there is one.
    pub fn udp_server(&self) -> (server: Option<&TunnelUdpServer>)
        ensures
            match server {
                Some(s) => self.spec_udp_server() == Some(*s),
                None => self.spec_udp_server() is None,
            },
    {
        self.udp_server.as_ref()
    }

    /// Takes the tunnel apart for the caller to run it: the context, the
    /// chooser of servers, and the two listeners.
    pub fn into_parts(self) -> (parts: (ServiceContext, B, Option<TunnelTcpServer>, Option<TunnelUdpServer>))
        ensures
            parts.0 == self.spec_context(),
            parts.1 == self.spec_balancer(),
            parts.2 == self.spec_tcp_server(),
            parts.3 == self.spec_udp_server(),
    {
        (self.context, self.balancer, self.tcp_server, self.udp_server)
    }
}

} // verus!
