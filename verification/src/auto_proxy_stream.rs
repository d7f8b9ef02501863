//! One stream for both kinds of connection: through a server, encrypted, or
//! straight to the target.

use crate::address::{copy_address, Address, DNS_PORT};
use crate::buf::copy;
use crate::context::Context;
use crate::dns::{decided_by, inspected, views, ProxyPara};
use crate::error::{Error, IoKind, Peer};
use crate::flow::MonProxyStream;
use crate::loadbalancing::ServerIdent;
use crate::model::{arrival_view, poll_view, Poll};
use crate::proxy_stream::ProxyClientStream;
use vstd::prelude::*;

verus! {

/// Where the socket of a new connection has to be connected to.
pub enum Route {
    /// Straight to the target.
    Direct(Address),
    /// To the server, which will connect to the target.
    Server(Address),
}

impl Route {
    /// True where the route is one for a connection to `addr` through
    /// `server`: it names `addr` itself, or the address of the server.
    pub open spec fn names(self, server: ServerIdent, addr: Address) -> bool {
        match self {
            Route::Direct(a) => a@ == addr@,
            Route::Server(a) => a@ == server.spec_server_config().spec_addr()@,
        }
    }
}

/// The first of `bufs` that is not empty; empty where all are.
pub open spec fn first_nonempty(bufs: Seq<&[u8]>) -> Seq<u8>
    decreases bufs.len(),
{
    if bufs.len() == 0 {
        Seq::empty()
    } else if bufs[0]@.len() > 0 {
        bufs[0]@
    } else {
        first_nonempty(bufs.skip(1))
    }
}

/// The bytes that a read handed to the caller, if it handed any.
pub open spec fn delivered(out: Poll<Vec<u8>>) -> Option<Seq<u8>> {
    match out {
        Poll::Ready(Ok(v)) => Some(v@),
        _ => None,
    }
}

/// A stream to a target, bypassed or proxied.
#[allow(inconsistent_fields)]
pub enum AutoProxyClientStream<S> {
    Proxied { para: ProxyPara, stream: ProxyClientStream<MonProxyStream<S>> },
    Bypassed { para: ProxyPara, stream: S },
}

impl<S> AutoProxyClientStream<S> {
    /// Whether the stream goes through a server.
    pub open spec fn spec_is_proxied(&self) -> bool {
        self is Proxied
    }

    /// What the connection keeps for DNS.
    pub open spec fn para(&self) -> ProxyPara {
        match self {
            AutoProxyClientStream::Proxied { para, stream } => *para,
            AutoProxyClientStream::Bypassed { para, stream } => *para,
        }
    }

    /// The stream through the server, of a proxied stream.
    pub open spec fn proxied(&self) -> ProxyClientStream<MonProxyStream<S>> {
        match self {
            AutoProxyClientStream::Proxied { para, stream } => *stream,
            AutoProxyClientStream::Bypassed { para, stream } => arbitrary(),
        }
    }

    /// The socket to the target, of a bypassed stream.
    pub open spec fn direct(&self) -> S {
        match self {
            AutoProxyClientStream::Proxied { para, stream } => arbitrary(),
            AutoProxyClientStream::Bypassed { para, stream } => *stream,
        }
    }

    /// What holds of every stream.
    pub open spec fn wf(&self) -> bool {
        match self {
            AutoProxyClientStream::Proxied { para, stream } => stream.wf(),
            AutoProxyClientStream::Bypassed { para, stream } => true,
        }
    }

    /// Decides where the socket of a connection to `addr` has to be
    /// connected to. The access control list, which `check_target_bypassed`
    /// stands for, is asked about `addr`: a target that it bypasses is
    /// connected to directly, any other through the server.
    pub fn route<F: FnOnce(&Address) -> bool>(server: &ServerIdent, addr: &Address, check_target_bypassed: F) -> (route:
        Route)
        requires
            call_requires(check_target_bypassed, (addr,)),
        ensures
            route.names(*server, *addr),
            match route {
                Route::Direct(a) => call_ensures(check_target_bypassed, (addr,), true) && a@ == addr@,
                Route::Server(a) => call_ensures(check_target_bypassed, (addr,), false) && a@
                    == server.spec_server_config().spec_addr()@,
            },
    {
        if check_target_bypassed(addr) {
            Route::Direct(copy_address(addr))
        } else {
            Route::Server(copy_address(server.server_config().addr()))
        }
    }

    /// Makes the stream of a connection to `addr`, once `route` has said
    /// where to connect to: `route` is what `route` gave for `addr` and
    /// `server`. `dialed` is the socket connected to there, or `None` where
    /// it could not be connected.
    pub fn connect(context: &mut Context, server: &mut ServerIdent, addr: Address, route: &Route, dialed: Option<S>) -> (r:
        Result<AutoProxyClientStream<S>, Error>)
        requires
            old(server).spec_server_config().wf(),
            route.names(*old(server), addr),
        ensures
            final(context).spec_now() == old(context).spec_now(),
            final(server).spec_server_config() == old(server).spec_server_config(),
            r is Ok <==> dialed is Some && (route is Direct || addr@.wf()),
            r is Err ==> r->Err_0 == (if dialed is Some {
                Error::ProtocolFraming
            } else if route is Direct {
                Error::ConnectFailed(Peer::Target)
            } else {
                Error::ConnectFailed(Peer::Server)
            }),
            r is Ok ==> r->Ok_0.wf() && r->Ok_0.spec_is_proxied() == (route is Server) && r->Ok_0.para().spec_is_dns()
                == (addr@.port() == DNS_PORT) && r->Ok_0.para().buffer() == Seq::<u8>::empty(),
            r is Ok && route is Direct ==> dialed == Some(r->Ok_0.direct()),
            r is Ok && route is Server ==> dialed == Some(r->Ok_0.proxied().inner().socket().socket())
                && r->Ok_0.proxied().inner().spec_method() == old(server).spec_server_config().spec_method()
                && r->Ok_0.proxied().write_side().state == crate::proxy_stream::WriteStateModel::Connect(addr@),
            final(server).spec_failures() == (if route is Server && dialed is None && old(server).spec_failures()
                < u64::MAX {
                (old(server).spec_failures() + 1) as u64
            } else {
                old(server).spec_failures()
            }),
            route is Direct ==> final(context).seen() == old(context).seen(),
    {
        match route {
            Route::Direct(_) => AutoProxyClientStream::connect_bypassed(addr, dialed),
            Route::Server(_) => AutoProxyClientStream::connect_proxied(context, server, addr, dialed),
        }
    }

    /// Makes the stream of a connection straight to `addr`. A failure to
    /// connect is the error of the stream's maker, and of nobody else.
    pub fn connect_bypassed(addr: Address, dialed: Option<S>) -> (r: Result<AutoProxyClientStream<S>, Error>)
        ensures
            dialed is None ==> r == Err::<AutoProxyClientStream<S>, Error>(Error::ConnectFailed(Peer::Target)),
            dialed matches Some(socket) ==> r is Ok && !r->Ok_0.spec_is_proxied() && r->Ok_0.direct() == socket
                && r->Ok_0.para().spec_is_dns() == (addr@.port() == DNS_PORT) && r->Ok_0.para().buffer()
                == Seq::<u8>::empty(),
    {
        let port = addr.port();
        match dialed {
            Some(stream) => Ok(AutoProxyClientStream::Bypassed { para: ProxyPara::default(port == DNS_PORT), stream }),
            None => Err(Error::ConnectFailed(Peer::Target)),
        }
    }

    /// Makes the stream of a connection to `addr` through `server`. A failure
    /// to connect is reported to the chooser of servers, once, and handed
    /// on. An address that cannot be encoded is refused with
    /// `ProtocolFraming`.
    pub fn connect_proxied(context: &mut Context, server: &mut ServerIdent, addr: Address, dialed: Option<S>) -> (r:
        Result<AutoProxyClientStream<S>, Error>)
        requires
            old(server).spec_server_config().wf(),
        ensures
            final(context).spec_now() == old(context).spec_now(),
            final(server).spec_server_config() == old(server).spec_server_config(),
            final(server).spec_failures() == (if dialed is None && old(server).spec_failures() < u64::MAX {
                (old(server).spec_failures() + 1) as u64
            } else {
                old(server).spec_failures()
            }),
            dialed is None ==> r == Err::<AutoProxyClientStream<S>, Error>(Error::ConnectFailed(Peer::Server)),
            dialed is Some && !addr@.wf() ==> r == Err::<AutoProxyClientStream<S>, Error>(Error::ProtocolFraming),
            r is Err ==> final(context).seen() == old(context).seen(),
            dialed matches Some(socket) ==> addr@.wf() ==> ({
                &&& r is Ok
                &&& r->Ok_0.wf()
                &&& r->Ok_0.spec_is_proxied()
                &&& r->Ok_0.para().spec_is_dns() == (addr@.port() == DNS_PORT)
                &&& r->Ok_0.para().buffer() == Seq::<u8>::empty()
                &&& r->Ok_0.proxied().inner().socket().socket() == socket
                &&& r->Ok_0.proxied().inner().spec_method() == old(server).spec_server_config().spec_method()
                &&& r->Ok_0.proxied().write_side().state == crate::proxy_stream::WriteStateModel::Connect(addr@)
                &&& !r->Ok_0.proxied().refused()
            }),
    {
        let port = addr.port();
        let socket = match dialed {
            Some(s) => s,
            None => {
                server.report_failure();
                return Err(Error::ConnectFailed(Peer::Server));
            },
        };
        if !addr.is_valid() {
            return Err(Error::ProtocolFraming);
        }
        let stream = ProxyClientStream::connect_with_opts_map(
            context,
            server.server_config(),
            addr,
            socket,
            MonProxyStream::from_stream,
        );
        Ok(AutoProxyClientStream::Proxied { para: ProxyPara::default(port == DNS_PORT), stream })
    }

    /// The socket underneath, through whichever wrapping is in place, for
    /// the caller to ask its local address or to set its options.
    pub fn socket(&self) -> (socket: &S)
        ensures
            *socket == (if self.spec_is_proxied() {
                self.proxied().inner().socket().socket()
            } else {
                self.direct()
            }),
    {
        match self {
            AutoProxyClientStream::Proxied { para: _, stream } => stream.get_ref().get_ref().get_ref(),
            AutoProxyClientStream::Bypassed { para: _, stream } => stream,
        }
    }

    /// The socket underneath, for the caller to read, write and shut down.
    /// The stream stays as it is.
    pub fn socket_mut(&mut self) -> (socket: &mut S)
        ensures
            *socket == (if old(self).spec_is_proxied() {
                old(self).proxied().inner().socket().socket()
            } else {
                old(self).direct()
            }),
            final(self).spec_is_proxied() == old(self).spec_is_proxied(),
            final(self).para() == old(self).para(),
            final(self).wf() == old(self).wf(),
            old(self).spec_is_proxied() ==> final(self).proxied().write_side() == old(self).proxied().write_side()
                && final(self).proxied().inner().reader() == old(self).proxied().inner().reader() && final(self).proxied().refused() == old(self).proxied().refused() && final(self).proxied().inner().socket().socket() == *final(socket),
            !old(self).spec_is_proxied() ==> final(self).direct() == *final(socket),
    {
        match self {
            AutoProxyClientStream::Proxied { para: _, stream } => stream.socket_mut().get_mut(),
            AutoProxyClientStream::Bypassed { para: _, stream } => stream,
        }
    }

    /// Whether the stream goes through a server.
    #[verifier::when_used_as_spec(spec_is_proxied)]
    pub fn is_proxied(&self) -> (proxied: bool)
        ensures
            proxied == self.spec_is_proxied(),
    {
        match self {
            AutoProxyClientStream::Proxied { para: _, stream: _ } => true,
            AutoProxyClientStream::Bypassed { para: _, stream: _ } => false,
        }
    }

    /// One step of a read. A proxied stream decrypts; see
    /// `ProxyClientStream::poll_read`. A bypassed stream hands on what the
    /// socket delivered, and asks for a read of the socket where it was not
    /// read. Either way, if the target is a DNS server, the bytes handed to
    /// the caller are also inspected for DNS messages, which go to the access
    /// control list that `check_dns_message` stands for; see
    /// `check_dns_msg`. The caller gets the bytes unchanged, and beside them
    /// the messages that went to the list, in order.
    pub fn poll_read<F: Fn(&[u8]) -> bool>(
        &mut self,
        context: &mut Context,
        arrived: Option<&[u8]>,
        capacity: usize,
        check_dns_message: F,
    ) -> (r: (Poll<Vec<u8>>, Vec<Vec<u8>>))
        requires
            old(self).wf(),
            forall|m: &[u8]| call_requires(check_dns_message, (m,)),
        ensures
            final(self).wf(),
            final(self).spec_is_proxied() == old(self).spec_is_proxied(),
            final(context).spec_now() == old(context).spec_now(),
            final(self).para().spec_is_dns() == old(self).para().spec_is_dns(),
            delivered(r.0) is Some && old(self).para().spec_is_dns() ==> forall|answers: spec_fn(Seq<u8>) -> bool|
                decided_by(check_dns_message, answers) ==> (#[trigger] inspected(
                    old(self).para().buffer() + delivered(r.0)->0,
                    answers,
                )) == (views(r.1@), final(self).para().buffer()),
            !(delivered(r.0) is Some && old(self).para().spec_is_dns()) ==> final(self).para().buffer() == old(self).para().buffer() && r.1@.len() == 0,
            !old(self).spec_is_proxied() ==> ({
                &&& poll_view(r.0) == (match arrival_view(arrived) {
                    Some(data) => Poll::<Seq<u8>>::Ready(Ok(data)),
                    None => Poll::<Seq<u8>>::Pending,
                })
                &&& final(self).direct() == old(self).direct()
                &&& final(context).seen() == old(context).seen()
            }),
            old(self).spec_is_proxied() ==> ({
                let before = old(self).proxied();
                let after = final(self).proxied();
                let taken = before.inner().reader().take_in(
                    old(context).seen(),
                    old(context).spec_now(),
                    arrival_view(arrived),
                );
                let closed = arrived matches Some(d) && d@.len() == 0;
                let answer = taken.0.outcome(closed, capacity as nat);
                let mismatch = taken.0.request_salt() is Some && taken.0.request_salt()->0
                    != before.write_side().writer.salt;
                &&& after.write_side() == before.write_side()
                &&& after.inner().socket() == before.inner().socket()
                &&& before.refused() ==> r.0 == Poll::<Vec<u8>>::Ready(Err(Error::CryptoAuth)) && after.inner()
                    == before.inner() && final(context).seen() == old(context).seen()
                &&& !before.refused() ==> final(context).seen() == taken.1 && poll_view(r.0) == (if mismatch {
                    Poll::<Seq<u8>>::Ready(Err(Error::CryptoAuth))
                } else {
                    answer
                }) && after.refused() == mismatch && after.inner().reader() == (match answer {
                    Poll::Ready(Ok(v)) => taken.0.deliver(v.len()),
                    _ => taken.0,
                })
            }),
    {
        match self {
            AutoProxyClientStream::Proxied { para, stream } => {
                let out = stream.poll_read(context, arrived, capacity);
                let handed = match &out {
                    Poll::Ready(Ok(data)) => Self::check_dns_msg(para, data.as_slice(), check_dns_message),
                    _ => Vec::new(),
                };
                (out, handed)
            },
            AutoProxyClientStream::Bypassed { para, stream: _ } => {
                match arrived {
                    Some(data) => {
                        let handed = Self::check_dns_msg(para, data, check_dns_message);
                        (Poll::Ready(Ok(copy(data))), handed)
                    },
                    None => (Poll::Pending, Vec::new()),
                }
            },
        }
    }

    /// Inspects the bytes that a read delivered, on a DNS connection: they
    /// are appended to the bytes kept from earlier reads, and the DNS
    /// messages that are then complete go to the access control list, which
    /// `check_dns_message` stands for, until it answers one itself; see
    /// `ProxyPara::inspect`. Returns the messages that went to the list, in
    /// order. On other connections nothing happens.
    pub fn check_dns_msg<F: Fn(&[u8]) -> bool>(para: &mut ProxyPara, data: &[u8], check_dns_message: F) -> (handed:
        Vec<Vec<u8>>)
        requires
            forall|m: &[u8]| call_requires(check_dns_message, (m,)),
        ensures
            final(para).spec_is_dns() == old(para).spec_is_dns(),
            !old(para).spec_is_dns() ==> final(para).buffer() == old(para).buffer() && handed@.len() == 0,
            old(para).spec_is_dns() ==> forall|answers: spec_fn(Seq<u8>) -> bool|
                decided_by(check_dns_message, answers) ==> (#[trigger] inspected(
                    old(para).buffer() + data@,
                    answers,
                )) == (views(handed@), final(para).buffer()),
    {
        if para.is_dns() {
            para.sniff(data);
            para.inspect(check_dns_message)
        } else {
            Vec::new()
        }
    }

    /// What the connection keeps for DNS.
    pub fn get_para(&self) -> (para: &ProxyPara)
        ensures
            *para == self.para(),
    {
        match self {
            AutoProxyClientStream::Proxied { para, stream: _ } => para,
            AutoProxyClientStream::Bypassed { para, stream: _ } => para,
        }
    }

    /// What the connection keeps for DNS, for `check_dns_msg`.
    pub fn para_mut(&mut self) -> (para: &mut ProxyPara)
        ensures
            *para == old(self).para(),
            final(self).para() == *final(para),
            final(self).spec_is_proxied() == old(self).spec_is_proxied(),
            final(self).proxied() == old(self).proxied(),
            final(self).direct() == old(self).direct(),
            final(self).wf() == old(self).wf(),
    {
        match self {
            AutoProxyClientStream::Proxied { para, stream: _ } => para,
            AutoProxyClientStream::Bypassed { para, stream: _ } => para,
        }
    }

    /// What one step of a write of `buf` does: the stream before and after,
    /// and what the caller is told.
    pub open spec fn write_step(
        before: &AutoProxyClientStream<S>,
        after: &AutoProxyClientStream<S>,
        clock: u64,
        buf: Seq<u8>,
        written: Option<usize>,
        out: Poll<usize>,
    ) -> bool {
        if before.spec_is_proxied() {
            let step = match written {
                Some(n) => Some(n as nat),
                None => None,
            };
            &&& after.spec_is_proxied()
            &&& after.para() == before.para()
            &&& ProxyClientStream::write_step(&before.proxied(), &after.proxied(), clock, buf, written, out)
            &&& after.proxied().inner().reader() == before.proxied().inner().reader()
            &&& after.proxied().inner().socket() == before.proxied().inner().socket()
            &&& after.proxied().refused() == before.proxied().refused()
        } else {
            &&& *after == *before
            &&& out == (match written {
                Some(n) => if n <= buf.len() {
                    Poll::<usize>::Ready(Ok(n))
                } else {
                    Poll::<usize>::Ready(Err(Error::Io(IoKind::InvalidInput)))
                },
                None => if buf.len() == 0 {
                    Poll::<usize>::Ready(Ok(0))
                } else {
                    Poll::<usize>::Pending
                },
            })
        }
    }

    /// One step of a write of `buf`. A proxied stream encrypts; see
    /// `ProxyClientStream::poll_write`. A bypassed stream asks for `buf`
    /// itself to be written to the socket, and reports what the socket took.
    pub fn poll_write(&mut self, context: &Context, buf: &[u8], written: Option<usize>) -> (out: Poll<usize>)
        requires
            old(self).wf(),
        ensures
            final(self).wf(),
            final(self).spec_is_proxied() == old(self).spec_is_proxied(),
            final(self).para() == old(self).para(),
            Self::write_step(old(self), final(self), context.spec_now(), buf@, written, out),
    {
        match self {
            AutoProxyClientStream::Proxied { para: _, stream } => stream.poll_write(context, buf, written),
            AutoProxyClientStream::Bypassed { para: _, stream: _ } => match written {
                Some(n) => {
                    if n <= buf.len() {
                        Poll::Ready(Ok(n))
                    } else {
                        Poll::Ready(Err(Error::Io(IoKind::InvalidInput)))
                    }
                },
                None => {
                    if buf.len() == 0 {
                        Poll::Ready(Ok(0))
                    } else {
                        Poll::Pending
                    }
                },
            },
        }
    }

    /// The bytes that the socket has to take next, while a write of `buf` is
    /// pending: the queued frame of a proxied stream, `buf` itself on a
    /// bypassed one.
    pub fn pending_write<'a>(&'a self, buf: &'a [u8]) -> (bytes: &'a [u8])
        requires
            self.wf(),
        ensures
            bytes@ == (if self.spec_is_proxied() {
                self.proxied().write_side().writer.queued
            } else {
                buf@
            }),
    {
        match self {
            AutoProxyClientStream::Proxied { para: _, stream } => stream.pending_write(),
            AutoProxyClientStream::Bypassed { para: _, stream: _ } => buf,
        }
    }

    /// One step of a write of several buffers: of the first that is not
    /// empty, as `poll_write` writes it; of nothing where all are empty.
    pub fn poll_write_vectored(&mut self, context: &Context, bufs: &[&[u8]], written: Option<usize>) -> (out: Poll<
        usize,
    >)
        requires
            old(self).wf(),
        ensures
            final(self).wf(),
            final(self).spec_is_proxied() == old(self).spec_is_proxied(),
            final(self).para() == old(self).para(),
            Self::write_step(old(self), final(self), context.spec_now(), first_nonempty(bufs@), written, out),
    {
        let mut i: usize = 0;
        assert(bufs@.skip(0) =~= bufs@);
        while i < bufs.len()
            invariant
                i <= bufs@.len(),
                *self == *old(self),
                self.wf(),
                first_nonempty(bufs@) == first_nonempty(bufs@.skip(i as int)),
            decreases bufs.len() - i,
        {
            if bufs[i].len() > 0 {
                assert(bufs@.skip(i as int)[0] == bufs@[i as int]);
                return self.poll_write(context, bufs[i], written);
            }
            proof {
                assert(bufs@.skip(i as int)[0] == bufs@[i as int]);
                assert(bufs@.skip(i as int).skip(1) =~= bufs@.skip(i + 1));
            }
            i = i + 1;
        }
        let none: &[u8] = &[];
        assert(none@ =~= Seq::<u8>::empty());
        self.poll_write(context, none, written)
    }

    /// A flush is the socket's business: the stream passes on what the
    /// socket answered and changes nothing.
    pub fn poll_flush(&mut self, socket: Poll<()>) -> (out: Poll<()>)
        ensures
            out == socket,
            *final(self) == *old(self),
    {
        socket
    }

    /// A shutdown is the socket's business: the stream passes on what the
    /// socket answered and changes nothing.
    pub fn poll_shutdown(&mut self, socket: Poll<()>) -> (out: Poll<()>)
        ensures
            out == socket,
            *final(self) == *old(self),
    {
        socket
    }
}

} // verus!
