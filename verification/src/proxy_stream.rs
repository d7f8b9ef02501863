//! The client's stream to a server. The first plaintext that goes into the
//! tunnel opens with the address of the target; everything else is the
//! encrypted stream underneath.

use crate::address::{Address, AddressModel};
use crate::buf::{copy, equal, extend};
use crate::config::ServerConfig;
use crate::context::{remembered, Context};
use crate::crypto::{CipherCategory, CipherKind};
use crate::crypto_io::{read_flow, write_flow, CryptoStream, StreamType};
use crate::encoding::{be16, put_be16};
use crate::error::{Error, IoKind};
use crate::model::{arrival_view, poll_view, Poll, ReaderModel, WriterModel};
use crate::primitives::random_iv_or_salt;
use crate::record::{max_payload, payload_limit};
use vstd::prelude::*;
use vstd::slice::slice_subrange;

verus! {

/// Largest padding of an AEAD-2022 request.
pub const MAX_PADDING: usize = 900;

/// What precedes the payload in the first plaintext: the address of the
/// target, and for AEAD-2022 the length of the padding and the padding.
pub open spec fn first_head(kind: CipherKind, target: AddressModel, padding: Seq<u8>) -> Seq<u8> {
    target.wire() + (if kind.spec_category() == CipherCategory::Aead2022 {
        be16(padding.len() as u16) + padding
    } else {
        Seq::empty()
    })
}

/// Number of bytes of a buffer of `len` bytes that travel with the address.
pub open spec fn first_carried(kind: CipherKind, target: AddressModel, padding: Seq<u8>, len: nat) -> nat {
    let room = max_payload(kind) - first_head(kind, target, padding).len();
    if len <= room {
        len
    } else {
        room as nat
    }
}

/// The first plaintext: the head, then as much of `buf` as one frame holds
/// beside it.
pub open spec fn first_packet(kind: CipherKind, target: AddressModel, padding: Seq<u8>, buf: Seq<u8>) -> Seq<u8> {
    first_head(kind, target, padding) + buf.take(first_carried(kind, target, padding, buf.len()) as int)
}

/// The report of a socket write, if there is one, as a number.
pub open spec fn report_view(written: Option<usize>) -> Option<nat> {
    match written {
        Some(n) => Some(n as nat),
        None => None,
    }
}

/// How far the writing side has come.
pub enum WriteState {
    /// Nothing was written; the address has still to go.
    Connect(Address),
    /// The first plaintext is on its way. It carries `carried` bytes of
    /// payload.
    Connecting { first: Vec<u8>, carried: usize },
    /// The address is gone; payload passes straight to the encrypted stream.
    Connected,
}

/// How far the writing side has come, as a mathematical value.
pub enum WriteStateModel {
    Connect(AddressModel),
    Connecting { first: Seq<u8>, carried: nat },
    Connected,
}

impl View for WriteState {
    type V = WriteStateModel;

    open spec fn view(&self) -> WriteStateModel {
        match self {
            WriteState::Connect(a) => WriteStateModel::Connect(a@),
            WriteState::Connecting { first, carried } => WriteStateModel::Connecting {
                first: first@,
                carried: *carried as nat,
            },
            WriteState::Connected => WriteStateModel::Connected,
        }
    }
}

/// The writing side between two polls.
pub struct ProxyWriteModel {
    pub state: WriteStateModel,
    pub writer: WriterModel,
}

impl ProxyWriteModel {
    /// The plaintext that the encrypted stream is polled with: the first
    /// plaintext until the address is gone, `buf` afterwards.
    pub open spec fn plaintext(self, buf: Seq<u8>, padding: Seq<u8>) -> Seq<u8> {
        match self.state {
            WriteStateModel::Connect(target) => first_packet(self.writer.kind, target, padding, buf),
            WriteStateModel::Connecting { first, carried } => first,
            WriteStateModel::Connected => buf,
        }
    }

    /// Number of bytes of `buf` that the plaintext carries.
    pub open spec fn carried(self, buf: Seq<u8>, padding: Seq<u8>) -> nat {
        match self.state {
            WriteStateModel::Connect(target) => first_carried(self.writer.kind, target, padding, buf.len()),
            WriteStateModel::Connecting { first, carried } => carried,
            WriteStateModel::Connected => self.writer.chunk_len(buf.len()),
        }
    }

    /// True where the caller reports a write of the socket before anything
    /// was written: nothing was asked of the socket yet.
    pub open spec fn early_report(self, written: Option<nat>) -> bool {
        self.state is Connect && written is Some
    }

    /// What the caller of a poll is told. Once the address is gone: what the
    /// encrypted stream answers. Before: a report of a write before anything
    /// was written is an `Io` error. Where the encrypted stream reports all
    /// of the first plaintext written, the answer is the number of bytes of
    /// `buf` in it. Where it reports a part written, as it may without
    /// encryption, the rest is offered again and the socket has to take it.
    /// A socket that took nothing of the first plaintext ends the write with
    /// `UnexpectedEof`.
    pub open spec fn outcome(self, clock: u64, buf: Seq<u8>, written: Option<nat>, padding: Seq<u8>) -> Poll<usize> {
        let text = self.plaintext(buf, padding);
        if self.early_report(written) {
            Poll::Ready(Err(Error::Io(IoKind::InvalidInput)))
        } else {
            match self.state {
                WriteStateModel::Connected => self.writer.poll_outcome(buf, written),
                _ => match self.writer.poll_outcome(text, written) {
                    Poll::Ready(Ok(n)) => if n >= text.len() {
                        Poll::Ready(Ok(self.carried(buf, padding) as usize))
                    } else if n == 0 {
                        Poll::Ready(Err(Error::UnexpectedEof))
                    } else {
                        match self.writer.poll(clock, text, written).poll_outcome(text.skip(n as int), None) {
                            Poll::Ready(Err(e)) => Poll::Ready(Err(e)),
                            _ => Poll::Pending,
                        }
                    },
                    other => other,
                },
            }
        }
    }

    /// The plaintext that a poll hands to the encrypted stream to be framed,
    /// and the writer that frames it, if the poll hands over any: what the
    /// caller came with, or the rest of a first plaintext that the socket
    /// took a part of.
    pub open spec fn offers(self, clock: u64, buf: Seq<u8>, written: Option<nat>, padding: Seq<u8>) -> Option<
        (WriterModel, Seq<u8>),
    > {
        let text = self.plaintext(buf, padding);
        if self.early_report(written) {
            None
        } else if written is None {
            Some((self.writer, text))
        } else if self.state is Connected {
            None
        } else {
            match self.writer.poll_outcome(text, written) {
                Poll::Ready(Ok(n)) => if 0 < n < text.len() {
                    Some((self.writer.poll(clock, text, written), text.skip(n as int)))
                } else {
                    None
                },
                _ => None,
            }
        }
    }

    /// True where what a poll has framed opens again to what was framed; see
    /// `WriterModel::opens`.
    pub open spec fn opens(self, clock: u64, buf: Seq<u8>, written: Option<nat>, padding: Seq<u8>) -> bool {
        match self.offers(clock, buf, written, padding) {
            Some((writer, text)) => writer.assembles(text) ==> writer.opens(
                clock,
                text.take(writer.chunk_len(text.len()) as int),
            ),
            None => true,
        }
    }

    /// True where a poll with plaintext has to pad: the first plaintext of an
    /// AEAD-2022 request that carries no payload.
    pub open spec fn needs_padding(self, buf: Seq<u8>, written: Option<nat>) -> bool {
        self.state is Connect && written is None && self.writer.kind.spec_category() == CipherCategory::Aead2022
            && buf.len() == 0
    }

    /// True of the padding that a poll chooses: some where it has to pad,
    /// none elsewhere.
    pub open spec fn chooses(self, buf: Seq<u8>, written: Option<nat>, padding: Seq<u8>) -> bool {
        if self.needs_padding(buf, written) {
            1 <= padding.len() <= MAX_PADDING
        } else {
            padding.len() == 0
        }
    }

    /// The writing side after a poll. The address is gone once the encrypted
    /// stream reports all of the first plaintext written. Where it reports a
    /// part written, the rest stays the first plaintext and is offered again.
    /// A report of a write before anything was written changes nothing.
    pub open spec fn poll(self, clock: u64, buf: Seq<u8>, written: Option<nat>, padding: Seq<u8>) -> ProxyWriteModel {
        let text = self.plaintext(buf, padding);
        let writer = self.writer.poll(clock, text, written);
        let waiting = WriteStateModel::Connecting { first: text, carried: self.carried(buf, padding) };
        if self.early_report(written) {
            self
        } else {
            match self.state {
                WriteStateModel::Connected => ProxyWriteModel { state: self.state, writer },
                _ => match self.writer.poll_outcome(text, written) {
                    Poll::Ready(Ok(n)) => if n >= text.len() {
                        ProxyWriteModel { state: WriteStateModel::Connected, writer }
                    } else if n == 0 {
                        ProxyWriteModel { state: waiting, writer }
                    } else {
                        ProxyWriteModel {
                            state: WriteStateModel::Connecting {
                                first: text.skip(n as int),
                                carried: self.carried(buf, padding),
                            },
                            writer: writer.poll(clock, text.skip(n as int), None),
                        }
                    },
                    _ => ProxyWriteModel { state: waiting, writer },
                },
            }
        }
    }
}

/// The stream of a client to a server, over the socket `S`.
pub struct ProxyClientStream<S> {
    stream: CryptoStream<S>,
    state: WriteState,
    refused: bool,
}

impl<S> ProxyClientStream<S> {
    /// The encrypted stream underneath.
    pub closed spec fn inner(&self) -> CryptoStream<S> {
        self.stream
    }

    /// The writing side.
    pub closed spec fn write_side(&self) -> ProxyWriteModel {
        ProxyWriteModel { state: self.state@, writer: self.stream.writer() }
    }

    /// Whether a response was refused because it answers another request.
    pub closed spec fn refused(&self) -> bool {
        self.refused
    }

    /// What holds of every stream: the address that has still to go can be
    /// encoded, and a first plaintext on its way fits into one frame.
    pub closed spec fn wf(&self) -> bool {
        &&& self.stream.wf()
        &&& match self.state {
            WriteState::Connect(a) => a@.wf(),
            WriteState::Connecting { first, carried } => 0 < first@.len() <= max_payload(self.stream.spec_method()),
            WriteState::Connected => true,
        }
    }

    /// Both sides of a well-formed stream are well-formed and use the cipher
    /// of the stream.
    pub proof fn lemma_wf(&self)
        requires
            self.wf(),
        ensures
            self.inner().wf(),
            self.write_side().writer.wf(),
            self.write_side().writer.kind == self.inner().spec_method(),
            self.inner().reader().wf(),
            self.inner().reader().kind == self.inner().spec_method(),
            self.write_side().state matches WriteStateModel::Connect(target) ==> target.wf(),
    {
        self.stream.lemma_wf();
    }

    /// Creates the stream of a connection to the server `svr_cfg`, over a
    /// socket that is connected to it, for traffic to `addr`.
    pub fn from_stream(context: &mut Context, stream: S, svr_cfg: &ServerConfig, addr: Address) -> (s:
        ProxyClientStream<S>)
        requires
            svr_cfg.wf(),
            addr@.wf(),
        ensures
            s.wf(),
            !s.refused(),
            s.inner().socket() == stream,
            s.inner().spec_method() == svr_cfg.spec_method(),
            s.write_side().state == WriteStateModel::Connect(addr@),
            s.inner().reader() == ReaderModel::initial(
                svr_cfg.spec_method(),
                read_flow(StreamType::Client, svr_cfg.spec_method()),
                svr_cfg.spec_key(),
            ),
            s.write_side().writer == WriterModel::initial(
                svr_cfg.spec_method(),
                write_flow(StreamType::Client, svr_cfg.spec_method()),
                svr_cfg.spec_key(),
                s.write_side().writer.salt,
            ),
            s.write_side().writer.salt.len() == svr_cfg.spec_method().spec_prefix_len(),
            svr_cfg.spec_method().spec_prefix_len() > 0 ==> !old(context).seen().contains(
                s.write_side().writer.salt,
            ) && final(context).seen() == remembered(old(context).seen(), s.write_side().writer.salt),
            svr_cfg.spec_method().spec_prefix_len() == 0 ==> final(context).seen() == old(context).seen(),
            final(context).spec_now() == old(context).spec_now(),
    {
        proof {
            svr_cfg.lemma_wf();
        }
        let stream = CryptoStream::from_stream(context, stream, StreamType::Client, svr_cfg.method(), svr_cfg.key());
        proof {
            if svr_cfg.spec_method().spec_category() == CipherCategory::Plain {
                assert(svr_cfg.spec_key() =~= Seq::<u8>::empty());
            }
        }
        ProxyClientStream { stream, state: WriteState::Connect(addr), refused: false }
    }

    /// Creates the stream of a connection to the server `svr_cfg`, for
    /// traffic to `addr`, over the socket that `map` makes of `dialed`, a
    /// socket connected to the server.
    pub fn connect_with_opts_map<T, F: FnOnce(T) -> S>(
        context: &mut Context,
        svr_cfg: &ServerConfig,
        addr: Address,
        dialed: T,
        map: F,
    ) -> (s: ProxyClientStream<S>)
        requires
            svr_cfg.wf(),
            addr@.wf(),
            map.requires((dialed,)),
        ensures
            map.ensures((dialed,), s.inner().socket()),
            s.wf(),
            !s.refused(),
            s.inner().spec_method() == svr_cfg.spec_method(),
            s.write_side().state == WriteStateModel::Connect(addr@),
            s.inner().reader() == ReaderModel::initial(
                svr_cfg.spec_method(),
                read_flow(StreamType::Client, svr_cfg.spec_method()),
                svr_cfg.spec_key(),
            ),
            s.write_side().writer == WriterModel::initial(
                svr_cfg.spec_method(),
                write_flow(StreamType::Client, svr_cfg.spec_method()),
                svr_cfg.spec_key(),
                s.write_side().writer.salt,
            ),
            s.write_side().writer.salt.len() == svr_cfg.spec_method().spec_prefix_len(),
            svr_cfg.spec_method().spec_prefix_len() > 0 ==> !old(context).seen().contains(
                s.write_side().writer.salt,
            ) && final(context).seen() == remembered(old(context).seen(), s.write_side().writer.salt),
            svr_cfg.spec_method().spec_prefix_len() == 0 ==> final(context).seen() == old(context).seen(),
            final(context).spec_now() == old(context).spec_now(),
    {
        let stream = map(dialed);
        ProxyClientStream::from_stream(context, stream, svr_cfg, addr)
    }

    /// The encrypted stream underneath.
    pub fn get_ref(&self) -> (stream: &CryptoStream<S>)
        ensures
            *stream == self.inner(),
    {
        &self.stream
    }

    /// The socket, for the caller to use. The stream stays as it is.
    pub fn socket_mut(&mut self) -> (socket: &mut S)
        ensures
            *socket == old(self).inner().socket(),
            final(self).inner().socket() == *final(socket),
            final(self).inner().reader() == old(self).inner().reader(),
            final(self).inner().spec_method() == old(self).inner().spec_method(),
            final(self).write_side() == old(self).write_side(),
            final(self).refused() == old(self).refused(),
            final(self).wf() == old(self).wf(),
    {
        self.stream.get_mut()
    }

    /// Gives up the stream for the encrypted stream underneath.
    pub fn into_inner(self) -> (stream: CryptoStream<S>)
        ensures
            stream == self.inner(),
    {
        self.stream
    }

    /// Builds the first plaintext for `buf`.
    fn make_first_packet(method: CipherKind, addr: &Address, padding: &[u8], buf: &[u8]) -> (r: (Vec<u8>, usize))
        requires
            addr@.wf(),
            padding@.len() <= MAX_PADDING,
        ensures
            r.0@ == first_packet(method, addr@, padding@, buf@),
            r.1 == first_carried(method, addr@, padding@, buf@.len()),
            0 < r.0@.len() <= max_payload(method),
    {
        let mut first = addr.encode();
        match method.category() {
            CipherCategory::Aead2022 => {
                let len = put_be16(padding.len() as u16);
                extend(&mut first, len.as_slice());
                extend(&mut first, padding);
            },
            _ => {},
        }
        assert(first@ =~= first_head(method, addr@, padding@));
        let room = payload_limit(method) - first.len();
        let carried = if buf.len() <= room {
            buf.len()
        } else {
            room
        };
        extend(&mut first, slice_subrange(buf, 0, carried));
        assert(buf@.subrange(0, carried as int) =~= buf@.take(carried as int));
        (first, carried)
    }

    /// Draws the padding of an AEAD-2022 request without payload: between 1
    /// and 900 random bytes.
    fn draw_padding() -> (padding: Vec<u8>)
        ensures
            1 <= padding@.len() <= MAX_PADDING,
    {
        let dice = random_iv_or_salt(2);
        let n: usize = 1 + (dice[0] as usize * 256 + dice[1] as usize) % MAX_PADDING;
        random_iv_or_salt(n)
    }

    /// One step of a write of `buf`, with the padding given; see `poll_write`.
    /// The padding goes into the first plaintext of an AEAD-2022 request and
    /// nowhere else.
    pub fn poll_write_padded(&mut self, context: &Context, buf: &[u8], written: Option<usize>, padding: &[u8]) -> (out:
        Poll<usize>)
        requires
            old(self).wf(),
            padding@.len() <= MAX_PADDING,
        ensures
            final(self).wf(),
            final(self).refused() == old(self).refused(),
            final(self).inner().reader() == old(self).inner().reader(),
            final(self).inner().socket() == old(self).inner().socket(),
            final(self).inner().spec_method() == old(self).inner().spec_method(),
            ({
                let step = match written {
                    Some(n) => Some(n as nat),
                    None => None,
                };
                &&& final(self).write_side() == old(self).write_side().poll(context.spec_now(), buf@, step, padding@)
                &&& out == old(self).write_side().outcome(context.spec_now(), buf@, step, padding@)
                &&& old(self).write_side().opens(context.spec_now(), buf@, step, padding@)
            }),
    {
        proof {
            self.stream.lemma_wf();
        }
        if let WriteState::Connect(addr) = &self.state {
            if written.is_some() {
                return Poll::Ready(Err(Error::Io(IoKind::InvalidInput)));
            }
            let (first, carried) = Self::make_first_packet(self.stream.method(), addr, padding, buf);
            self.state = WriteState::Connecting { first, carried };
        }
        match &self.state {
            WriteState::Connecting { first, carried } => {
                let carried = *carried;
                match self.stream.poll_write_encrypted(context, first.as_slice(), written) {
                    Poll::Ready(Ok(n)) => {
                        if n >= first.len() {
                            self.state = WriteState::Connected;
                            Poll::Ready(Ok(carried))
                        } else if n == 0 {
                            Poll::Ready(Err(Error::UnexpectedEof))
                        } else {
                            let rest = copy(slice_subrange(first.as_slice(), n, first.len()));
                            assert(rest@ =~= first@.skip(n as int));
                            let again = self.stream.poll_write_encrypted(context, rest.as_slice(), None);
                            self.state = WriteState::Connecting { first: rest, carried };
                            match again {
                                Poll::Ready(Err(e)) => Poll::Ready(Err(e)),
                                _ => Poll::Pending,
                            }
                        }
                    },
                    Poll::Ready(Err(e)) => Poll::Ready(Err(e)),
                    Poll::Pending => Poll::Pending,
                }
            },
            _ => self.stream.poll_write_encrypted(context, buf, written),
        }
    }

    /// One step of a write of `buf`; see
    /// `EncryptedWriter::poll_write_encrypted` for `written` and for the
    /// answer. Until the address of the target is gone, the encrypted stream
    /// is given the first plaintext: the address, then the start of `buf`.
    /// The first plaintext of an AEAD-2022 request must not be bare: where
    /// `buf` is empty, it is padded with random bytes.
    pub fn poll_write(&mut self, context: &Context, buf: &[u8], written: Option<usize>) -> (out: Poll<usize>)
        requires
            old(self).wf(),
        ensures
            final(self).wf(),
            final(self).refused() == old(self).refused(),
            final(self).inner().reader() == old(self).inner().reader(),
            final(self).inner().socket() == old(self).inner().socket(),
            final(self).inner().spec_method() == old(self).inner().spec_method(),
            Self::write_step(old(self), final(self), context.spec_now(), buf@, written, out),
    {
        let pad = match (&self.state, written, self.stream.method().category()) {
            (WriteState::Connect(_), None, CipherCategory::Aead2022) => buf.len() == 0,
            _ => false,
        };
        let padding = if pad {
            Self::draw_padding()
        } else {
            Vec::new()
        };
        let ghost step = match written {
            Some(n) => Some(n as nat),
            None => None,
        };
        proof {
            self.stream.lemma_wf();
            assert(pad == self.write_side().needs_padding(buf@, step));
            assert(self.write_side().chooses(buf@, step, padding@));
        }
        let out = self.poll_write_padded(context, buf, written, padding.as_slice());
        proof {
            assert(step == report_view(written));
            assert(Self::write_step_with(
                old(self).write_side(),
                self.write_side(),
                context.spec_now(),
                buf@,
                report_view(written),
                out,
                padding@,
            ));
        }
        out
    }

    /// What one step of a write of `buf` does: there is a padding, as a poll
    /// chooses it, with which the writing side moves as `poll` says, the
    /// caller is told what `outcome` says, and what was framed opens again.
    pub open spec fn write_step(
        before: &ProxyClientStream<S>,
        after: &ProxyClientStream<S>,
        clock: u64,
        buf: Seq<u8>,
        written: Option<usize>,
        out: Poll<usize>,
    ) -> bool {
        exists|padding: Seq<u8>|
            Self::write_step_with(before.write_side(), after.write_side(), clock, buf, report_view(written), out, padding)
    }

    /// What one step of a write of `buf` does with the padding given.
    pub open spec fn write_step_with(
        before: ProxyWriteModel,
        after: ProxyWriteModel,
        clock: u64,
        buf: Seq<u8>,
        written: Option<nat>,
        out: Poll<usize>,
        padding: Seq<u8>,
    ) -> bool {
        &&& before.chooses(buf, written, padding)
        &&& after == before.poll(clock, buf, written, padding)
        &&& out == before.outcome(clock, buf, written, padding)
        &&& before.opens(clock, buf, written, padding)
    }

    /// The encrypted bytes that the socket has still to take.
    pub fn pending_write(&self) -> (bytes: &[u8])
        requires
            self.wf(),
        ensures
            bytes@ == self.write_side().writer.queued,
    {
        self.stream.pending_write()
    }

    /// One step of a read; see `DecryptedReader::poll_read_decrypted`. An
    /// AEAD-2022 response must repeat the salt of the request: one that
    /// repeats another salt is refused with `CryptoAuth`, and so is every
    /// read after it.
    pub fn poll_read(&mut self, context: &mut Context, arrived: Option<&[u8]>, capacity: usize) -> (out: Poll<
        Vec<u8>,
    >)
        requires
            old(self).wf(),
        ensures
            final(self).wf(),
            final(self).write_side() == old(self).write_side(),
            final(self).inner().socket() == old(self).inner().socket(),
            final(self).inner().spec_method() == old(self).inner().spec_method(),
            final(context).spec_now() == old(context).spec_now(),
            old(self).refused() ==> out == Poll::<Vec<u8>>::Ready(Err(Error::CryptoAuth)) && final(self).inner()
                == old(self).inner() && final(self).refused() && final(context).seen() == old(context).seen(),
            !old(self).refused() ==> ({
                let taken = old(self).inner().reader().take_in(
                    old(context).seen(),
                    old(context).spec_now(),
                    arrival_view(arrived),
                );
                let closed = arrived matches Some(d) && d@.len() == 0;
                let answer = taken.0.outcome(closed, capacity as nat);
                let mismatch = taken.0.request_salt() is Some && taken.0.request_salt()->0 != old(
                    self,
                ).write_side().writer.salt;
                &&& final(context).seen() == taken.1
                &&& final(self).refused() == mismatch
                &&& poll_view(out) == (if mismatch {
                    Poll::<Seq<u8>>::Ready(Err(Error::CryptoAuth))
                } else {
                    answer
                })
                &&& final(self).inner().reader() == (match answer {
                    Poll::Ready(Ok(v)) => taken.0.deliver(v.len()),
                    _ => taken.0,
                })
            }),
    {
        if self.refused {
            return Poll::Ready(Err(Error::CryptoAuth));
        }
        let out = self.stream.poll_read_decrypted(context, arrived, capacity);
        let mismatch = match self.stream.received_request_nonce() {
            Some(echo) => !equal(echo, self.stream.sent_nonce()),
            None => false,
        };
        if mismatch {
            self.refused = true;
            Poll::Ready(Err(Error::CryptoAuth))
        } else {
            out
        }
    }
}

} // verus!
