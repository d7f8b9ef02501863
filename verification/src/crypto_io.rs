//! The encrypted stream of one connection: a reader and a writer over one
//! socket, or each over its own half of it.
//!
//! Nothing here reads or writes the socket. A poll is told what the socket
//! did since the last poll and answers with what the caller has to do next.

use crate::aead::{AeadReader, AeadWriter};
use crate::buf::copy;
use crate::context::{remembered, Context};
use crate::crypto::{CipherCategory, CipherKind};
use crate::error::Error;
use crate::model::{arrival_view, poll_view, Poll, ReaderModel, WriterModel};
use crate::plain::{PlainReader, PlainWriter};
use crate::record::Flow;
use crate::stream::{StreamReader, StreamWriter};
use vstd::prelude::*;

verus! {

/// The side of the tunnel that a stream is on.
#[derive(Clone, Copy, Debug, PartialEq, Eq, Structural)]
pub enum StreamType {
    /// The stream of a client: it writes requests and reads responses.
    Client,
    /// The stream of a server: it reads requests and writes responses.
    Server,
}

/// The direction of the bytes that a stream of this side reads. Without
/// encryption the direction plays no part, and the model carries `Request`.
pub open spec fn read_flow(stream_ty: StreamType, method: CipherKind) -> Flow {
    if method.spec_category() == CipherCategory::Plain {
        Flow::Request
    } else {
        match stream_ty {
            StreamType::Client => Flow::Response,
            StreamType::Server => Flow::Request,
        }
    }
}

/// The direction of the bytes that a stream of this side writes.
pub open spec fn write_flow(stream_ty: StreamType, method: CipherKind) -> Flow {
    if method.spec_category() == CipherCategory::Plain {
        Flow::Request
    } else {
        match stream_ty {
            StreamType::Client => Flow::Request,
            StreamType::Server => Flow::Response,
        }
    }
}

/// The key, IV or salt that a stream of `method` works with. Without
/// encryption whatever is given is ignored, and the model carries the empty
/// byte string.
pub open spec fn used(method: CipherKind, bytes: Seq<u8>) -> Seq<u8> {
    if method.spec_category() == CipherCategory::Plain {
        Seq::empty()
    } else {
        bytes
    }
}

/// Reader for the encrypted bytes that come out of the tunnel.
pub enum DecryptedReader {
    Plain(PlainReader),
    Stream(StreamReader),
    Aead(AeadReader),
    Aead2022(AeadReader),
}

impl View for DecryptedReader {
    type V = ReaderModel;

    open spec fn view(&self) -> ReaderModel {
        match self {
            DecryptedReader::Plain(r) => r@,
            DecryptedReader::Stream(r) => r@,
            DecryptedReader::Aead(r) => r@,
            DecryptedReader::Aead2022(r) => r@,
        }
    }
}

impl DecryptedReader {
    /// What holds of every reader: the variant is the family of the cipher.
    pub open spec fn wf(&self) -> bool {
        match self {
            DecryptedReader::Plain(r) => r@.kind == CipherKind::Plain,
            DecryptedReader::Stream(r) => r.wf() && r@.kind.spec_category() == CipherCategory::Stream,
            DecryptedReader::Aead(r) => r.wf() && r@.kind.spec_category() == CipherCategory::Aead,
            DecryptedReader::Aead2022(r) => r.wf() && r@.kind.spec_category() == CipherCategory::Aead2022,
        }
    }

    /// Creates a reader for a stream of side `stream_ty` that uses `method`
    /// with the master key `key`. Without encryption the key is ignored.
    pub fn new(stream_ty: StreamType, method: CipherKind, key: &[u8]) -> (reader: DecryptedReader)
        requires
            method.spec_category() != CipherCategory::Plain ==> key@.len() == method.spec_key_len(),
        ensures
            reader.wf(),
            reader@ == ReaderModel::initial(method, read_flow(stream_ty, method), used(method, key@)),
    {
        let flow = match stream_ty {
            StreamType::Client => Flow::Response,
            StreamType::Server => Flow::Request,
        };
        match method.category() {
            CipherCategory::Stream => DecryptedReader::Stream(StreamReader::new(method, flow, key)),
            CipherCategory::Aead => DecryptedReader::Aead(AeadReader::new(method, flow, key)),
            CipherCategory::Plain => DecryptedReader::Plain(PlainReader::new()),
            CipherCategory::Aead2022 => DecryptedReader::Aead2022(AeadReader::new(method, flow, key)),
        }
    }

    /// Takes in the bytes that arrived from the peer.
    pub fn receive(&mut self, context: &mut Context, data: &[u8])
        requires
            old(self).wf(),
        ensures
            final(self).wf(),
            final(context).spec_now() == old(context).spec_now(),
            (final(self)@, final(context).seen()) == old(self)@.absorb(
                old(context).seen(),
                old(context).spec_now(),
                data@,
            ),
    {
        match self {
            DecryptedReader::Plain(r) => {
                proof {
                    r.lemma_shape();
                }
                r.receive(data);
                proof {
                    r.lemma_shape();
                }
            },
            DecryptedReader::Stream(r) => r.receive(context, data),
            DecryptedReader::Aead(r) => r.receive(context, data),
            DecryptedReader::Aead2022(r) => r.receive(context, data),
        }
    }

    /// Notes that the peer closed the connection.
    pub fn close(&mut self)
        requires
            old(self).wf(),
        ensures
            final(self).wf(),
            final(self)@ == old(self)@.close(),
    {
        match self {
            DecryptedReader::Plain(r) => {
                proof {
                    r.lemma_shape();
                }
            },
            DecryptedReader::Stream(r) => r.close(),
            DecryptedReader::Aead(r) => r.close(),
            DecryptedReader::Aead2022(r) => r.close(),
        }
    }

    /// Hands out up to `max` bytes of plaintext, oldest first.
    pub fn take(&mut self, max: usize) -> (out: Vec<u8>)
        requires
            old(self).wf(),
        ensures
            final(self).wf(),
            out@ == old(self)@.rec.plain.take(old(self)@.yield_len(max as nat) as int),
            final(self)@ == old(self)@.deliver(out@.len()),
    {
        match self {
            DecryptedReader::Plain(r) => {
                proof {
                    r.lemma_shape();
                }
                let out = r.take(max);
                proof {
                    r.lemma_shape();
                }
                out
            },
            DecryptedReader::Stream(r) => r.take(max),
            DecryptedReader::Aead(r) => r.take(max),
            DecryptedReader::Aead2022(r) => r.take(max),
        }
    }

    /// Number of plaintext bytes ready to be handed out.
    pub fn available(&self) -> (n: usize)
        ensures
            n == self@.rec.plain.len(),
    {
        match self {
            DecryptedReader::Plain(r) => r.available(),
            DecryptedReader::Stream(r) => r.available(),
            DecryptedReader::Aead(r) => r.available(),
            DecryptedReader::Aead2022(r) => r.available(),
        }
    }

    /// The error that ended decoding, if one did.
    pub fn failed(&self) -> (e: Option<Error>)
        requires
            self.wf(),
        ensures
            e == self@.rec.failed,
    {
        match self {
            DecryptedReader::Plain(r) => {
                proof {
                    r.lemma_shape();
                }
                None
            },
            DecryptedReader::Stream(r) => r.failed(),
            DecryptedReader::Aead(r) => r.failed(),
            DecryptedReader::Aead2022(r) => r.failed(),
        }
    }

    /// One step of a decrypted read. `arrived` is `None` where the socket was
    /// not read since the last step, the bytes that it delivered where it was,
    /// and no bytes where the peer closed the connection. The step hands out
    /// at most `capacity` bytes. `Pending` asks the caller to read the socket
    /// and to come back with what arrived.
    pub fn poll_read_decrypted(&mut self, context: &mut Context, arrived: Option<&[u8]>, capacity: usize) -> (out:
        Poll<Vec<u8>>)
        requires
            old(self).wf(),
        ensures
            final(self).wf(),
            final(context).spec_now() == old(context).spec_now(),
            ({
                let taken = old(self)@.take_in(
                    old(context).seen(),
                    old(context).spec_now(),
                    arrival_view(arrived),
                );
                let closed = arrived matches Some(d) && d@.len() == 0;
                &&& final(context).seen() == taken.1
                &&& poll_view(out) == taken.0.outcome(closed, capacity as nat)
                &&& final(self)@ == (match out {
                    Poll::Ready(Ok(v)) => taken.0.deliver(v@.len()),
                    _ => taken.0,
                })
            }),
    {
        let mut closed = false;
        match arrived {
            Some(data) => {
                if data.len() == 0 {
                    closed = true;
                    self.close();
                } else {
                    self.receive(context, data);
                }
            },
            None => {},
        }
        if capacity == 0 || self.available() > 0 {
            Poll::Ready(Ok(self.take(capacity)))
        } else {
            match self.failed() {
                Some(e) => Poll::Ready(Err(e)),
                None => {
                    if closed {
                        let none: Vec<u8> = Vec::new();
                        assert(none@ =~= Seq::<u8>::empty());
                        assert(self@.rec.plain.skip(0) =~= self@.rec.plain);
                        Poll::Ready(Ok(none))
                    } else {
                        Poll::Pending
                    }
                },
            }
        }
    }

    /// The model of a well-formed reader is well-formed, and an IV or salt
    /// that has arrived has the length that the cipher asks.
    pub proof fn lemma_view_wf(&self)
        requires
            self.wf(),
        ensures
            self@.wf(),
            self@.salt is Some ==> self@.salt->0.len() == self@.kind.spec_prefix_len(),
    {
        match self {
            DecryptedReader::Plain(r) => r.lemma_shape(),
            DecryptedReader::Stream(r) => r.lemma_view_wf(),
            DecryptedReader::Aead(r) => r.lemma_view_wf(),
            DecryptedReader::Aead2022(r) => r.lemma_view_wf(),
        }
    }

    /// The IV (stream) or salt (AEAD, AEAD-2022) that the peer sent, once all
    /// of it has arrived. Without encryption there is none.
    pub fn nonce(&self) -> (nonce: Option<&[u8]>)
        requires
            self.wf(),
        ensures
            match nonce {
                Some(s) => self@.kind != CipherKind::Plain && self@.salt == Some(s@),
                None => self@.kind == CipherKind::Plain || self@.salt is None,
            },
    {
        match self {
            DecryptedReader::Plain(_) => None,
            DecryptedReader::Stream(r) => r.iv(),
            DecryptedReader::Aead(r) => r.salt(),
            DecryptedReader::Aead2022(r) => r.salt(),
        }
    }

    /// The salt of the request, as the first header of an AEAD-2022 response
    /// repeats it. `None` for the other families, for requests, and until
    /// that header has been opened.
    pub fn request_nonce(&self) -> (nonce: Option<&[u8]>)
        requires
            self.wf(),
        ensures
            match nonce {
                Some(s) => self@.request_salt() == Some(s@),
                None => self@.request_salt() is None,
            },
    {
        match self {
            DecryptedReader::Aead2022(r) => r.request_salt(),
            DecryptedReader::Plain(r) => {
                proof {
                    r.lemma_shape();
                }
                None
            },
            DecryptedReader::Stream(_) => None,
            DecryptedReader::Aead(_) => None,
        }
    }
}

/// Writer for the encrypted bytes that go into the tunnel.
pub enum EncryptedWriter {
    Plain(PlainWriter),
    Stream(StreamWriter),
    Aead(AeadWriter),
    Aead2022(AeadWriter),
}

impl View for EncryptedWriter {
    type V = WriterModel;

    open spec fn view(&self) -> WriterModel {
        match self {
            EncryptedWriter::Plain(w) => w@,
            EncryptedWriter::Stream(w) => w@,
            EncryptedWriter::Aead(w) => w@,
            EncryptedWriter::Aead2022(w) => w@,
        }
    }
}

impl EncryptedWriter {
    /// What holds of every writer: the variant is the family of the cipher.
    pub open spec fn wf(&self) -> bool {
        match self {
            EncryptedWriter::Plain(w) => true,
            EncryptedWriter::Stream(w) => w.wf(),
            EncryptedWriter::Aead(w) => w.wf() && w@.kind.spec_category() == CipherCategory::Aead,
            EncryptedWriter::Aead2022(w) => w.wf() && w@.kind.spec_category() == CipherCategory::Aead2022,
        }
    }

    /// The model of a well-formed writer is well-formed.
    pub proof fn lemma_wf(&self)
        requires
            self.wf(),
        ensures
            self@.wf(),
    {
        match self {
            EncryptedWriter::Plain(w) => w.lemma_wf(),
            EncryptedWriter::Stream(w) => w.lemma_wf(),
            EncryptedWriter::Aead(w) => w.lemma_wf(),
            EncryptedWriter::Aead2022(w) => w.lemma_wf(),
        }
    }

    /// Creates a writer for a stream of side `stream_ty` that uses `method`
    /// with the master key `key` and opens its stream with `nonce`. Without
    /// encryption key and nonce are ignored, and nothing opens the stream.
    pub fn new(stream_ty: StreamType, method: CipherKind, key: &[u8], nonce: &[u8]) -> (writer: EncryptedWriter)
        requires
            method.spec_category() != CipherCategory::Plain ==> key@.len() == method.spec_key_len() && nonce@.len()
                == method.spec_prefix_len(),
        ensures
            writer.wf(),
            writer@ == WriterModel::initial(
                method,
                write_flow(stream_ty, method),
                used(method, key@),
                used(method, nonce@),
            ),
    {
        let flow = match stream_ty {
            StreamType::Client => Flow::Request,
            StreamType::Server => Flow::Response,
        };
        match method.category() {
            CipherCategory::Stream => EncryptedWriter::Stream(StreamWriter::new(method, flow, key, nonce)),
            CipherCategory::Aead => EncryptedWriter::Aead(AeadWriter::new(method, flow, key, nonce)),
            CipherCategory::Plain => EncryptedWriter::Plain(PlainWriter::new()),
            CipherCategory::Aead2022 => EncryptedWriter::Aead2022(AeadWriter::new(method, flow, key, nonce)),
        }
    }

    /// Turns the start of `buf` into a frame, unless a frame is still queued.
    /// Returns the number of bytes of `buf` that the queued frame carries.
    /// Without encryption there are no frames: the socket is offered `buf`
    /// itself, all of it.
    pub fn assemble(&mut self, clock: u64, buf: &[u8]) -> (taken: Result<usize, Error>)
        requires
            old(self).wf(),
        ensures
            final(self).wf(),
            final(self)@ == old(self)@.assemble(clock, buf@),
            taken == (if old(self)@.queued.len() == 0 && buf@.len() > 0 && !old(self)@.assembles(buf@) {
                Err::<usize, Error>(old(self)@.refusal(old(self)@.chunk_len(buf@.len()))->0)
            } else {
                Ok::<usize, Error>(final(self)@.accepted as usize)
            }),
            old(self)@.assembles(buf@) ==> old(self)@.opens(
                clock,
                buf@.take(old(self)@.chunk_len(buf@.len()) as int),
            ),
    {
        match self {
            EncryptedWriter::Plain(w) => {
                proof {
                    w.lemma_wf();
                }
                w.assemble(clock, buf)
            },
            EncryptedWriter::Stream(w) => w.assemble(clock, buf),
            EncryptedWriter::Aead(w) => w.assemble(clock, buf),
            EncryptedWriter::Aead2022(w) => w.assemble(clock, buf),
        }
    }

    /// The bytes that the socket has still to take.
    pub fn pending(&self) -> (bytes: &[u8])
        requires
            self.wf(),
        ensures
            bytes@ == self@.queued,
    {
        match self {
            EncryptedWriter::Plain(w) => w.pending(),
            EncryptedWriter::Stream(w) => w.pending(),
            EncryptedWriter::Aead(w) => w.pending(),
            EncryptedWriter::Aead2022(w) => w.pending(),
        }
    }

    /// Notes that the socket took the first `n` of the pending bytes. Returns
    /// the number of plaintext bytes of the frame once all of it is gone.
    /// Without encryption the number that the socket took is handed on as it
    /// is, and nothing stays pending.
    pub fn wrote(&mut self, n: usize) -> (done: Result<Option<usize>, Error>)
        requires
            old(self).wf(),
        ensures
            final(self).wf(),
            done == old(self)@.report(n as nat),
            final(self)@ == (if done is Ok {
                old(self)@.wrote(n as nat)
            } else {
                old(self)@
            }),
    {
        match self {
            EncryptedWriter::Plain(w) => w.wrote(n),
            EncryptedWriter::Stream(w) => w.wrote(n),
            EncryptedWriter::Aead(w) => w.wrote(n),
            EncryptedWriter::Aead2022(w) => w.wrote(n),
        }
    }

    /// One step of an encrypted write of `buf`. `written` is `None` where the
    /// caller comes with plaintext, and the number of pending bytes that the
    /// socket took where it comes back from the socket. `Pending` asks the
    /// caller to write the pending bytes to the socket and to come back with
    /// the number that it took; `Ready` gives the number of bytes of `buf`
    /// that are now on their way. Without encryption the write is passed
    /// through: the pending bytes are `buf`, and the socket's answer is the
    /// answer.
    pub fn poll_write_encrypted(&mut self, context: &Context, buf: &[u8], written: Option<usize>) -> (out: Poll<
        usize,
    >)
        requires
            old(self).wf(),
        ensures
            final(self).wf(),
            ({
                let step = match written {
                    Some(n) => Some(n as nat),
                    None => None,
                };
                &&& final(self)@ == old(self)@.poll(context.spec_now(), buf@, step)
                &&& out == old(self)@.poll_outcome(buf@, step)
                &&& written is None && old(self)@.assembles(buf@) ==> old(self)@.opens(
                    context.spec_now(),
                    buf@.take(old(self)@.chunk_len(buf@.len()) as int),
                )
            }),
    {
        proof {
            self.lemma_wf();
        }
        match written {
            None => match self.assemble(context.now(), buf) {
                Err(e) => Poll::Ready(Err(e)),
                Ok(n) => {
                    if self.pending().len() == 0 {
                        Poll::Ready(Ok(0))
                    } else {
                        Poll::Pending
                    }
                },
            },
            Some(n) => match self.wrote(n) {
                Err(e) => Poll::Ready(Err(e)),
                Ok(Some(accepted)) => Poll::Ready(Ok(accepted)),
                Ok(None) => Poll::Pending,
            },
        }
    }

    /// The IV (stream) or salt (AEAD, AEAD-2022) that opens the stream.
    /// Without encryption it is empty.
    pub fn nonce(&self) -> (nonce: &[u8])
        requires
            self.wf(),
        ensures
            nonce@ == self@.salt,
    {
        match self {
            EncryptedWriter::Plain(w) => {
                proof {
                    w.lemma_wf();
                }
                let none: &[u8] = &[];
                assert(none@ =~= Seq::<u8>::empty());
                none
            },
            EncryptedWriter::Stream(w) => w.iv(),
            EncryptedWriter::Aead(w) => w.salt(),
            EncryptedWriter::Aead2022(w) => w.salt(),
        }
    }

    /// Tells a writer of responses the salt of the request. Only an AEAD-2022
    /// writer takes it, and only at the length of its own salt.
    pub fn set_request_nonce(&mut self, request_nonce: &[u8]) -> (done: Result<(), Error>)
        requires
            old(self).wf(),
        ensures
            final(self).wf(),
            done == (if old(self)@.kind.spec_category() != CipherCategory::Aead2022 {
                Err::<(), Error>(Error::NotPermitted)
            } else if request_nonce@.len() != old(self)@.kind.spec_prefix_len() {
                Err::<(), Error>(Error::ProtocolFraming)
            } else {
                Ok::<(), Error>(())
            }),
            final(self)@ == (if done is Ok {
                WriterModel { request_salt: Some(request_nonce@), ..old(self)@ }
            } else {
                old(self)@
            }),
    {
        match self {
            EncryptedWriter::Aead2022(w) => w.set_request_salt(request_nonce),
            EncryptedWriter::Plain(w) => {
                proof {
                    w.lemma_wf();
                }
                Err(Error::NotPermitted)
            },
            EncryptedWriter::Stream(w) => {
                proof {
                    w.lemma_wf();
                }
                Err(Error::NotPermitted)
            },
            EncryptedWriter::Aead(_) => Err(Error::NotPermitted),
        }
    }
}

/// A bidirectional encrypted stream over the socket `S`.
pub struct CryptoStream<S> {
    stream: S,
    dec: DecryptedReader,
    enc: EncryptedWriter,
    method: CipherKind,
}

impl<S> CryptoStream<S> {
    /// The socket that the stream owns.
    pub closed spec fn socket(&self) -> S {
        self.stream
    }

    /// The reading side.
    pub closed spec fn reader(&self) -> ReaderModel {
        self.dec@
    }

    /// The writing side.
    pub closed spec fn writer(&self) -> WriterModel {
        self.enc@
    }

    /// The cipher.
    pub closed spec fn spec_method(&self) -> CipherKind {
        self.method
    }

    /// What holds of every stream: both sides use the cipher of the stream.
    pub closed spec fn wf(&self) -> bool {
        &&& self.dec.wf()
        &&& self.enc.wf()
        &&& self.dec@.kind == self.method
        &&& self.enc@.kind == self.method
    }

    /// Both sides of a well-formed stream use its cipher, and both are
    /// well-formed.
    pub proof fn lemma_wf(&self)
        requires
            self.wf(),
        ensures
            self.reader().kind == self.spec_method(),
            self.writer().kind == self.spec_method(),
            self.reader().wf(),
            self.writer().wf(),
    {
        self.enc.lemma_wf();
        self.dec.lemma_view_wf();
    }

    /// Creates the stream of one connection over `stream`. Unless the cipher
    /// is `none`, the stream will open with an IV or salt that `context` has
    /// not seen before, and `context` records it. Without encryption the key
    /// is ignored.
    pub fn from_stream(context: &mut Context, stream: S, stream_ty: StreamType, method: CipherKind, key: &[u8]) -> (s:
        CryptoStream<S>)
        requires
            method.spec_category() != CipherCategory::Plain ==> key@.len() == method.spec_key_len(),
        ensures
            s.wf(),
            s.socket() == stream,
            s.spec_method() == method,
            s.reader() == ReaderModel::initial(method, read_flow(stream_ty, method), used(method, key@)),
            s.writer() == WriterModel::initial(
                method,
                write_flow(stream_ty, method),
                used(method, key@),
                s.writer().salt,
            ),
            s.writer().salt.len() == method.spec_prefix_len(),
            final(context).spec_now() == old(context).spec_now(),
            method.spec_prefix_len() > 0 ==> !old(context).seen().contains(s.writer().salt) && final(context).seen() == remembered(old(context).seen(), s.writer().salt),
            method.spec_prefix_len() == 0 ==> final(context).seen() == old(context).seen(),
    {
        let category = method.category();
        if category == CipherCategory::Plain {
            return CryptoStream::<S>::new_none(stream, method);
        }
        let iv = match category {
            CipherCategory::Stream => context.generate_nonce(method, true),
            CipherCategory::Aead => context.generate_nonce(method, true),
            CipherCategory::Plain => Vec::new(),
            CipherCategory::Aead2022 => context.generate_nonce(method, true),
        };
        CryptoStream {
            stream,
            dec: DecryptedReader::new(stream_ty, method, key),
            enc: EncryptedWriter::new(stream_ty, method, key, iv.as_slice()),
            method,
        }
    }

    /// Creates a stream that passes bytes through unchanged.
    pub fn new_none(stream: S, method: CipherKind) -> (s: CryptoStream<S>)
        requires
            method.spec_category() == CipherCategory::Plain,
        ensures
            s.wf(),
            s.socket() == stream,
            s.spec_method() == method,
            s.reader() == ReaderModel::initial(method, Flow::Request, Seq::empty()),
            s.writer() == WriterModel::initial(method, Flow::Request, Seq::empty(), Seq::empty()),
    {
        CryptoStream {
            stream,
            dec: DecryptedReader::Plain(PlainReader::new()),
            enc: EncryptedWriter::Plain(PlainWriter::new()),
            method,
        }
    }

    /// The socket.
    pub fn get_ref(&self) -> (socket: &S)
        ensures
            *socket == self.socket(),
    {
        &self.stream
    }

    /// The socket, for the caller to use. The encryption state stays as it
    /// is.
    pub fn get_mut(&mut self) -> (socket: &mut S)
        ensures
            *socket == old(self).socket(),
            final(self).socket() == *final(socket),
            final(self).reader() == old(self).reader(),
            final(self).writer() == old(self).writer(),
            final(self).spec_method() == old(self).spec_method(),
            final(self).wf() == old(self).wf(),
    {
        &mut self.stream
    }

    /// Gives up the stream for its socket.
    pub fn into_inner(self) -> (socket: S)
        ensures
            socket == self.socket(),
    {
        self.stream
    }

    /// The IV or salt that the peer sent, once all of it has arrived.
    pub fn received_nonce(&self) -> (nonce: Option<&[u8]>)
        requires
            self.wf(),
        ensures
            match nonce {
                Some(s) => self.spec_method() != CipherKind::Plain && self.reader().salt == Some(s@),
                None => self.spec_method() == CipherKind::Plain || self.reader().salt is None,
            },
    {
        self.dec.nonce()
    }

    /// The IV or salt that opens the outgoing bytes.
    pub fn sent_nonce(&self) -> (nonce: &[u8])
        requires
            self.wf(),
        ensures
            nonce@ == self.writer().salt,
    {
        self.enc.nonce()
    }

    /// The request salt that the peer's response repeated, once its first
    /// header has been opened.
    pub fn received_request_nonce(&self) -> (nonce: Option<&[u8]>)
        requires
            self.wf(),
        ensures
            match nonce {
                Some(s) => self.reader().request_salt() == Some(s@),
                None => self.reader().request_salt() is None,
            },
    {
        self.dec.request_nonce()
    }

    /// Tells the writing side of a server stream the salt of the request.
    pub fn set_request_nonce(&mut self, request_nonce: &[u8]) -> (done: Result<(), Error>)
        requires
            old(self).wf(),
        ensures
            final(self).wf(),
            final(self).socket() == old(self).socket(),
            final(self).reader() == old(self).reader(),
            final(self).spec_method() == old(self).spec_method(),
            done == (if old(self).spec_method().spec_category() != CipherCategory::Aead2022 {
                Err::<(), Error>(Error::NotPermitted)
            } else if request_nonce@.len() != old(self).spec_method().spec_prefix_len() {
                Err::<(), Error>(Error::ProtocolFraming)
            } else {
                Ok::<(), Error>(())
            }),
            final(self).writer() == (if done is Ok {
                WriterModel { request_salt: Some(request_nonce@), ..old(self).writer() }
            } else {
                old(self).writer()
            }),
    {
        self.enc.set_request_nonce(request_nonce)
    }

    /// Tells the writing side the salt that the reading side received, as a
    /// server does before it answers. Says whether there was one to tell.
    pub fn set_request_nonce_with_received(&mut self) -> (done: bool)
        requires
            old(self).wf(),
        ensures
            final(self).wf(),
            final(self).socket() == old(self).socket(),
            final(self).reader() == old(self).reader(),
            final(self).spec_method() == old(self).spec_method(),
            done == (old(self).spec_method().spec_category() == CipherCategory::Aead2022 && old(self).reader().salt is Some),
            final(self).writer() == (if done {
                WriterModel { request_salt: old(self).reader().salt, ..old(self).writer() }
            } else {
                old(self).writer()
            }),
    {
        let received = match self.dec.nonce() {
            None => {
                return false;
            },
            Some(nonce) => copy(nonce),
        };
        proof {
            self.dec.lemma_view_wf();
        }
        self.enc.set_request_nonce(received.as_slice()).is_ok()
    }

    /// For telemetry: the number of payloads opened so far, and the number of
    /// bytes of the last of them that have not been handed out yet. Only
    /// AEAD-2022 counts its payloads.
    pub fn current_data_chunk_remaining(&self) -> (r: (u64, usize))
        requires
            self.wf(),
            self.spec_method().spec_category() == CipherCategory::Aead2022,
        ensures
            r.0 == self.reader().rec.counter / 2,
            r.1 == self.reader().chunk_remaining(),
    {
        match &self.dec {
            DecryptedReader::Aead2022(dec) => (dec.chunks(), dec.chunk_remaining()),
            _ => (0, 0),
        }
    }

    /// The cipher.
    #[verifier::when_used_as_spec(spec_method)]
    pub fn method(&self) -> (method: CipherKind)
        ensures
            method == self.spec_method(),
    {
        self.method
    }

    /// One step of a decrypted read; see `DecryptedReader::poll_read_decrypted`.
    pub fn poll_read_decrypted(&mut self, context: &mut Context, arrived: Option<&[u8]>, capacity: usize) -> (out:
        Poll<Vec<u8>>)
        requires
            old(self).wf(),
        ensures
            final(self).wf(),
            final(self).socket() == old(self).socket(),
            final(self).writer() == old(self).writer(),
            final(self).spec_method() == old(self).spec_method(),
            final(context).spec_now() == old(context).spec_now(),
            ({
                let taken = old(self).reader().take_in(
                    old(context).seen(),
                    old(context).spec_now(),
                    arrival_view(arrived),
                );
                let closed = arrived matches Some(d) && d@.len() == 0;
                &&& final(context).seen() == taken.1
                &&& poll_view(out) == taken.0.outcome(closed, capacity as nat)
                &&& final(self).reader() == (match out {
                    Poll::Ready(Ok(v)) => taken.0.deliver(v@.len()),
                    _ => taken.0,
                })
            }),
    {
        self.dec.poll_read_decrypted(context, arrived, capacity)
    }

    /// One step of an encrypted write; see `EncryptedWriter::poll_write_encrypted`.
    pub fn poll_write_encrypted(&mut self, context: &Context, buf: &[u8], written: Option<usize>) -> (out: Poll<
        usize,
    >)
        requires
            old(self).wf(),
        ensures
            final(self).wf(),
            final(self).socket() == old(self).socket(),
            final(self).reader() == old(self).reader(),
            final(self).spec_method() == old(self).spec_method(),
            ({
                let step = match written {
                    Some(n) => Some(n as nat),
                    None => None,
                };
                &&& final(self).writer() == old(self).writer().poll(context.spec_now(), buf@, step)
                &&& out == old(self).writer().poll_outcome(buf@, step)
                &&& written is None && old(self).writer().assembles(buf@) ==> old(self).writer().opens(
                    context.spec_now(),
                    buf@.take(old(self).writer().chunk_len(buf@.len()) as int),
                )
            }),
    {
        proof {
            self.enc.lemma_wf();
        }
        self.enc.poll_write_encrypted(context, buf, written)
    }

    /// The encrypted bytes that the socket has still to take.
    pub fn pending_write(&self) -> (bytes: &[u8])
        requires
            self.wf(),
        ensures
            bytes@ == self.writer().queued,
    {
        self.enc.pending()
    }

    /// A flush is the socket's business: the stream passes on what the
    /// socket answered and changes nothing.
    pub fn poll_flush(&mut self, socket: Poll<()>) -> (out: Poll<()>)
        ensures
            out == socket,
            *final(self) == *old(self),
    {
        socket
    }

    /// A shutdown is the socket's business: the stream passes on what the
    /// socket answered and changes nothing.
    pub fn poll_shutdown(&mut self, socket: Poll<()>) -> (out: Poll<()>)
        ensures
            out == socket,
            *final(self) == *old(self),
    {
        socket
    }
}

/// What reads decrypted bytes, step by step.
pub trait CryptoRead {
    /// The reading side between two steps.
    spec fn read_state(&self) -> ReaderModel;

    /// What a step asks of the reader.
    spec fn read_ready(&self) -> bool;

    /// One step of a decrypted read; see `DecryptedReader::poll_read_decrypted`.
    fn poll_read_decrypted(&mut self, context: &mut Context, arrived: Option<&[u8]>, capacity: usize) -> (out: Poll<
        Vec<u8>,
    >)
        requires
            old(self).read_ready(),
        ensures
            final(self).read_ready(),
            final(context).spec_now() == old(context).spec_now(),
            ({
                let taken = old(self).read_state().take_in(
                    old(context).seen(),
                    old(context).spec_now(),
                    arrival_view(arrived),
                );
                let closed = arrived matches Some(d) && d@.len() == 0;
                &&& final(context).seen() == taken.1
                &&& poll_view(out) == taken.0.outcome(closed, capacity as nat)
                &&& final(self).read_state() == (match out {
                    Poll::Ready(Ok(v)) => taken.0.deliver(v@.len()),
                    _ => taken.0,
                })
            }),
    ;
}

/// What writes encrypted bytes, step by step.
pub trait CryptoWrite {
    /// The writing side between two steps.
    spec fn write_state(&self) -> WriterModel;

    /// What a step asks of the writer.
    spec fn write_ready(&self) -> bool;

    /// One step of an encrypted write; see `EncryptedWriter::poll_write_encrypted`.
    fn poll_write_encrypted(&mut self, context: &Context, buf: &[u8], written: Option<usize>) -> (out: Poll<usize>)
        requires
            old(self).write_ready(),
        ensures
            final(self).write_ready(),
            ({
                let step = match written {
                    Some(n) => Some(n as nat),
                    None => None,
                };
                &&& final(self).write_state() == old(self).write_state().poll(context.spec_now(), buf@, step)
                &&& out == old(self).write_state().poll_outcome(buf@, step)
            }),
    ;
}

impl<S> CryptoRead for CryptoStream<S> {
    open spec fn read_state(&self) -> ReaderModel {
        self.reader()
    }

    open spec fn read_ready(&self) -> bool {
        self.wf()
    }

    fn poll_read_decrypted(&mut self, context: &mut Context, arrived: Option<&[u8]>, capacity: usize) -> (out: Poll<
        Vec<u8>,
    >) {
        self.dec.poll_read_decrypted(context, arrived, capacity)
    }
}

impl<S> CryptoWrite for CryptoStream<S> {
    open spec fn write_state(&self) -> WriterModel {
        self.writer()
    }

    open spec fn write_ready(&self) -> bool {
        self.wf()
    }

    fn poll_write_encrypted(&mut self, context: &Context, buf: &[u8], written: Option<usize>) -> (out: Poll<usize>) {
        self.enc.poll_write_encrypted(context, buf, written)
    }
}

impl<S> CryptoStream<S> {
    /// Splits the stream into a reading half and a writing half, each with
    /// its own half of the socket as `split` makes them. The reading half
    /// keeps the reader, the writing half the writer.
    pub fn into_split<R, W, F: FnOnce(S) -> (R, W)>(self, split: F) -> (halves: (
        CryptoStreamReadHalf<R>,
        CryptoStreamWriteHalf<W>,
    ))
        requires
            self.wf(),
            split.requires((self.socket(),)),
        ensures
            split.ensures((self.socket(),), (halves.0.socket(), halves.1.socket())),
            halves.0.wf(),
            halves.1.wf(),
            halves.0.reader() == self.reader(),
            halves.1.writer() == self.writer(),
            halves.0.spec_method() == self.spec_method(),
            halves.1.spec_method() == self.spec_method(),
    {
        let (reader, writer) = split(self.stream);
        (
            CryptoStreamReadHalf { reader, dec: self.dec, method: self.method },
            CryptoStreamWriteHalf { writer, enc: self.enc, method: self.method },
        )
    }
}

/// The reading half of a split stream.
pub struct CryptoStreamReadHalf<R> {
    reader: R,
    dec: DecryptedReader,
    method: CipherKind,
}

impl<R> CryptoStreamReadHalf<R> {
    /// The reading half of the socket.
    pub closed spec fn socket(&self) -> R {
        self.reader
    }

    /// The reader.
    pub closed spec fn reader(&self) -> ReaderModel {
        self.dec@
    }

    /// The cipher.
    pub closed spec fn spec_method(&self) -> CipherKind {
        self.method
    }

    /// What holds of every reading half: the reader uses its cipher.
    pub closed spec fn wf(&self) -> bool {
        self.dec.wf() && self.dec@.kind == self.method
    }

    /// The cipher.
    #[verifier::when_used_as_spec(spec_method)]
    pub fn method(&self) -> (method: CipherKind)
        ensures
            method == self.spec_method(),
    {
        self.method
    }

    /// The IV or salt that the peer sent, once all of it has arrived.
    pub fn nonce(&self) -> (nonce: Option<&[u8]>)
        requires
            self.wf(),
        ensures
            match nonce {
                Some(s) => self.spec_method() != CipherKind::Plain && self.reader().salt == Some(s@),
                None => self.spec_method() == CipherKind::Plain || self.reader().salt is None,
            },
    {
        self.dec.nonce()
    }

    /// The reading half of the socket, for the caller to use. The reader
    /// stays as it is.
    pub fn get_mut(&mut self) -> (socket: &mut R)
        ensures
            *socket == old(self).socket(),
            final(self).socket() == *final(socket),
            final(self).reader() == old(self).reader(),
            final(self).spec_method() == old(self).spec_method(),
            final(self).wf() == old(self).wf(),
    {
        &mut self.reader
    }
}

impl<R> CryptoRead for CryptoStreamReadHalf<R> {
    open spec fn read_state(&self) -> ReaderModel {
        self.reader()
    }

    open spec fn read_ready(&self) -> bool {
        self.wf()
    }

    fn poll_read_decrypted(&mut self, context: &mut Context, arrived: Option<&[u8]>, capacity: usize) -> (out: Poll<
        Vec<u8>,
    >) {
        self.dec.poll_read_decrypted(context, arrived, capacity)
    }
}

/// The writing half of a split stream.
pub struct CryptoStreamWriteHalf<W> {
    writer: W,
    enc: EncryptedWriter,
    method: CipherKind,
}

impl<W> CryptoStreamWriteHalf<W> {
    /// The writing half of the socket.
    pub closed spec fn socket(&self) -> W {
        self.writer
    }

    /// The writer.
    pub closed spec fn writer(&self) -> WriterModel {
        self.enc@
    }

    /// The cipher.
    pub closed spec fn spec_method(&self) -> CipherKind {
        self.method
    }

    /// What holds of every writing half: the writer uses its cipher.
    pub closed spec fn wf(&self) -> bool {
        self.enc.wf() && self.enc@.kind == self.method
    }

    /// The cipher.
    #[verifier::when_used_as_spec(spec_method)]
    pub fn method(&self) -> (method: CipherKind)
        ensures
            method == self.spec_method(),
    {
        self.method
    }

    /// The IV or salt that opens the outgoing bytes.
    pub fn sent_nonce(&self) -> (nonce: &[u8])
        requires
            self.wf(),
        ensures
            nonce@ == self.writer().salt,
    {
        self.enc.nonce()
    }

    /// The encrypted bytes that the socket has still to take.
    pub fn pending_write(&self) -> (bytes: &[u8])
        requires
            self.wf(),
        ensures
            bytes@ == self.writer().queued,
    {
        self.enc.pending()
    }

    /// The writing half of the socket, for the caller to use. The writer
    /// stays as it is.
    pub fn get_mut(&mut self) -> (socket: &mut W)
        ensures
            *socket == old(self).socket(),
            final(self).socket() == *final(socket),
            final(self).writer() == old(self).writer(),
            final(self).spec_method() == old(self).spec_method(),
            final(self).wf() == old(self).wf(),
    {
        &mut self.writer
    }

    /// A flush is the socket's business: the half passes on what the socket
    /// answered and changes nothing.
    pub fn poll_flush(&mut self, socket: Poll<()>) -> (out: Poll<()>)
        ensures
            out == socket,
            *final(self) == *old(self),
    {
        socket
    }

    /// A shutdown is the socket's business: the half passes on what the
    /// socket answered and changes nothing.
    pub fn poll_shutdown(&mut self, socket: Poll<()>) -> (out: Poll<()>)
        ensures
            out == socket,
            *final(self) == *old(self),
    {
        socket
    }
}

impl<W> CryptoWrite for CryptoStreamWriteHalf<W> {
    open spec fn write_state(&self) -> WriterModel {
        self.writer()
    }

    open spec fn write_ready(&self) -> bool {
        self.wf()
    }

    fn poll_write_encrypted(&mut self, context: &Context, buf: &[u8], written: Option<usize>) -> (out: Poll<usize>) {
        self.enc.poll_write_encrypted(context, buf, written)
    }
}

} // verus!
