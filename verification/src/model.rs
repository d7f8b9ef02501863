//! What a reader and a writer are between two calls, for every cipher family.
//!
//! The structures here are mathematical: sequences and numbers. The readers
//! and writers of the other modules keep the same information in buffers, and
//! their contracts say which of these states they move to.

use crate::crypto::{
    keystream_byte, keystream_len, opened, sealed, session_subkey, CipherCategory, CipherKind,
};
use crate::encoding::{be16, be64};
use crate::error::{Error, IoKind};
use crate::primitives::TAG_LEN;
use crate::record::{flow_byte, max_payload, nonce_bytes, settle, Channel, Flow, RecordState};
use crate::context::remembered;
use vstd::prelude::*;

verus! {

/// The view of an optional byte string.
pub open spec fn option_view(o: Option<Vec<u8>>) -> Option<Seq<u8>> {
    match o {
        Some(v) => Some(v@),
        None => None,
    }
}

/// `data` with the keystream from byte `offset` on laid over it.
pub open spec fn masked(ch: Channel, offset: nat, data: Seq<u8>) -> Seq<u8> {
    Seq::new(data.len(), |i: int| data[i] ^ keystream_byte(ch.kind, ch.subkey, ch.salt, (offset + i) as nat))
}

/// A stream-cipher decoder after it has unmasked what is pending. The
/// keystream has an end: bytes beyond it are dropped and the decoder fails
/// with `NotPermitted`.
pub open spec fn unmask(ch: Channel, s: RecordState) -> RecordState {
    let room = keystream_len(ch.kind) - s.counter;
    if s.failed is Some {
        s
    } else if s.pending.len() <= room {
        RecordState {
            counter: s.counter + s.pending.len(),
            pending: Seq::empty(),
            plain: s.plain + masked(ch, s.counter, s.pending),
            ..s
        }
    } else {
        (RecordState {
            counter: keystream_len(ch.kind) as nat,
            plain: s.plain + masked(ch, s.counter, s.pending.take(room)),
            ..s
        }).fail(Error::NotPermitted)
    }
}

/// A decoder for `none` after it has passed on what is pending.
pub open spec fn pass(s: RecordState) -> RecordState {
    if s.failed is Some {
        s
    } else {
        RecordState { pending: Seq::empty(), plain: s.plain + s.pending, ..s }
    }
}

/// A decoder after it has turned into plaintext as much of what is pending
/// as its family allows.
pub open spec fn digest(ch: Channel, clock: u64, s: RecordState) -> RecordState {
    match ch.kind.spec_category() {
        CipherCategory::Plain => pass(s),
        CipherCategory::Stream => unmask(ch, s),
        CipherCategory::Aead | CipherCategory::Aead2022 => settle(ch, clock, s),
    }
}

/// How far an operation got: done, with its result, or waiting for the
/// socket.
#[derive(Debug, PartialEq, Eq)]
pub enum Poll<T> {
    /// The operation is complete.
    Ready(Result<T, Error>),
    /// The socket has to move first.
    Pending,
}

/// A poll of plaintext bytes, with the bytes as a sequence.
pub open spec fn poll_view(p: Poll<Vec<u8>>) -> Poll<Seq<u8>> {
    match p {
        Poll::Ready(Ok(v)) => Poll::Ready(Ok(v@)),
        Poll::Ready(Err(e)) => Poll::Ready(Err(e)),
        Poll::Pending => Poll::Pending,
    }
}

/// The view of what a socket read delivered, if it delivered.
pub open spec fn arrival_view(a: Option<&[u8]>) -> Option<Seq<u8>> {
    match a {
        Some(d) => Some(d@),
        None => None,
    }
}

/// A reader between two calls.
pub struct ReaderModel {
    pub kind: CipherKind,
    pub flow: Flow,
    /// The master key.
    pub key: Seq<u8>,
    /// The IV or salt of the peer, once all of it has arrived.
    pub salt: Option<Seq<u8>>,
    /// The decoder. Until the salt is complete its pending bytes are the part
    /// of the salt that has arrived.
    pub rec: RecordState,
}

impl ReaderModel {
    /// A reader that has seen nothing. Where the cipher has no IV or salt,
    /// the empty one counts as arrived.
    pub open spec fn initial(kind: CipherKind, flow: Flow, key: Seq<u8>) -> ReaderModel {
        ReaderModel {
            kind,
            flow,
            key,
            salt: if kind.spec_prefix_len() == 0 {
                Some(Seq::empty())
            } else {
                None
            },
            rec: RecordState::initial(),
        }
    }

    /// What holds of every reader: a stream cipher has not used more
    /// keystream than there is, and nothing has been decoded before the IV
    /// or salt was complete.
    pub open spec fn wf(self) -> bool {
        &&& self.kind.spec_category() == CipherCategory::Stream ==> self.rec.counter <= keystream_len(self.kind)
        &&& self.salt is None ==> self.rec.plain.len() == 0 && self.rec.counter == 0 && self.rec.expect is None
            && self.rec.preamble is None && self.rec.chunk == 0
    }

    /// What the reader shares with the writer at the other end.
    pub open spec fn channel(self) -> Channel {
        Channel {
            kind: self.kind,
            flow: self.flow,
            salt: self.salt->0,
            subkey: session_subkey(self.kind, self.key, self.salt->0),
        }
    }

    /// The reader, and the salts remembered, after `data` arrived. Bytes
    /// complete the IV or salt first. One seen before fails the reader with
    /// `CryptoAuth`; a new one is recorded. Whatever follows is turned into
    /// plaintext as far as it is complete.
    pub open spec fn absorb(self, seen: Seq<Seq<u8>>, clock: u64, data: Seq<u8>) -> (ReaderModel, Seq<Seq<u8>>) {
        let fed = ReaderModel { rec: self.rec.append(data), ..self };
        if self.rec.failed is Some {
            (self, seen)
        } else if self.salt is Some {
            (ReaderModel { rec: digest(self.channel(), clock, fed.rec), ..self }, seen)
        } else if fed.rec.pending.len() < self.kind.spec_prefix_len() {
            (fed, seen)
        } else {
            let salt = fed.rec.pending.take(self.kind.spec_prefix_len() as int);
            let salted = ReaderModel {
                salt: Some(salt),
                rec: RecordState { pending: fed.rec.pending.skip(self.kind.spec_prefix_len() as int), ..fed.rec },
                ..self
            };
            if seen.contains(salt) {
                (ReaderModel { rec: salted.rec.fail(Error::CryptoAuth), ..salted }, seen)
            } else {
                (ReaderModel { rec: digest(salted.channel(), clock, salted.rec), ..salted }, remembered(seen, salt))
            }
        }
    }

    /// True where the peer may close the connection: the IV or salt has
    /// arrived and the last record is complete.
    pub open spec fn at_boundary(self) -> bool {
        self.salt is Some && self.rec.at_boundary()
    }

    /// The reader after the peer closed the connection: unchanged at a record
    /// boundary and after a failure, failed with `UnexpectedEof` elsewhere.
    pub open spec fn close(self) -> ReaderModel {
        if self.rec.failed is Some || self.at_boundary() {
            self
        } else {
            ReaderModel { rec: self.rec.fail(Error::UnexpectedEof), ..self }
        }
    }

    /// The reader, and the salts remembered, after a socket read. `None`:
    /// the socket was not read. No bytes: the peer closed the connection.
    pub open spec fn take_in(self, seen: Seq<Seq<u8>>, clock: u64, arrived: Option<Seq<u8>>) -> (
        ReaderModel,
        Seq<Seq<u8>>,
    ) {
        match arrived {
            None => (self, seen),
            Some(data) => if data.len() == 0 {
                (self.close(), seen)
            } else {
                self.absorb(seen, clock, data)
            },
        }
    }

    /// Number of plaintext bytes handed to a caller with room for `capacity`.
    pub open spec fn yield_len(self, capacity: nat) -> nat {
        if capacity <= self.rec.plain.len() {
            capacity
        } else {
            self.rec.plain.len()
        }
    }

    /// What a caller with room for `capacity` bytes is told. Plaintext comes
    /// first, oldest first; then the error that ended decoding; then the end
    /// of the stream, as no bytes, where the peer closed the connection
    /// between records. Otherwise the caller must read the socket.
    pub open spec fn outcome(self, closed: bool, capacity: nat) -> Poll<Seq<u8>> {
        if capacity == 0 || self.rec.plain.len() > 0 {
            Poll::Ready(Ok(self.rec.plain.take(self.yield_len(capacity) as int)))
        } else if self.rec.failed is Some {
            Poll::Ready(Err(self.rec.failed->0))
        } else if closed {
            Poll::Ready(Ok(Seq::empty()))
        } else {
            Poll::Pending
        }
    }

    /// The reader after `n` bytes of plaintext were handed out.
    pub open spec fn deliver(self, n: nat) -> ReaderModel {
        ReaderModel { rec: RecordState { plain: self.rec.plain.skip(n as int), ..self.rec }, ..self }
    }

    /// Number of bytes of the payload opened last that have not been handed
    /// out yet: plaintext is handed out oldest first, so what is left of the
    /// last payload is at the end of the plaintext.
    pub open spec fn chunk_remaining(self) -> nat {
        if self.rec.plain.len() <= self.rec.chunk {
            self.rec.plain.len()
        } else {
            self.rec.chunk
        }
    }

    /// The salt of the request that this response answers: what follows the
    /// type byte and the timestamp in the preamble of an AEAD-2022 response.
    pub open spec fn request_salt(self) -> Option<Seq<u8>> {
        if self.kind.spec_category() == CipherCategory::Aead2022 && self.flow == Flow::Response
            && self.rec.preamble is Some {
            Some(self.rec.preamble->0.skip(9))
        } else {
            None
        }
    }
}

/// A writer between two calls.
pub struct WriterModel {
    pub kind: CipherKind,
    pub flow: Flow,
    /// The master key.
    pub key: Seq<u8>,
    /// The IV or salt of this direction.
    pub salt: Seq<u8>,
    /// AEAD: number of sealings made so far, the next nonce. Stream: number
    /// of keystream bytes used so far.
    pub counter: nat,
    /// Whether the IV or salt has been queued.
    pub started: bool,
    /// The salt of the request that a response answers, once known.
    pub request_salt: Option<Seq<u8>>,
    /// Bytes assembled and not yet taken by the socket.
    pub queued: Seq<u8>,
    /// Number of plaintext bytes that the queued frame carries.
    pub accepted: nat,
}

impl WriterModel {
    /// A writer that has written nothing.
    pub open spec fn initial(kind: CipherKind, flow: Flow, key: Seq<u8>, salt: Seq<u8>) -> WriterModel {
        WriterModel {
            kind,
            flow,
            key,
            salt,
            counter: 0,
            started: false,
            request_salt: None,
            queued: Seq::empty(),
            accepted: 0,
        }
    }

    /// What the writer shares with the reader at the other end.
    pub open spec fn channel(self) -> Channel {
        Channel {
            kind: self.kind,
            flow: self.flow,
            salt: self.salt,
            subkey: session_subkey(self.kind, self.key, self.salt),
        }
    }

    /// What precedes the length in the first header.
    pub open spec fn first_preamble(self, clock: u64) -> Seq<u8> {
        if self.kind.spec_category() == CipherCategory::Aead2022 {
            seq![flow_byte(self.flow)] + be64(clock) + (match self.flow {
                Flow::Request => Seq::empty(),
                Flow::Response => self.request_salt->0,
            })
        } else {
            Seq::empty()
        }
    }

    /// The header of the next record, for a payload of `n` bytes.
    pub open spec fn header(self, clock: u64, n: nat) -> Seq<u8> {
        (if self.counter == 0 {
            self.first_preamble(clock)
        } else {
            Seq::empty()
        }) + be16(n as u16)
    }

    /// The next record, for the payload `chunk`: the sealed header, then the
    /// sealed payload.
    pub open spec fn record(self, clock: u64, chunk: Seq<u8>) -> Seq<u8> {
        sealed(self.kind, self.channel().subkey, nonce_bytes(self.counter), self.header(clock, chunk.len()))
            + sealed(self.kind, self.channel().subkey, nonce_bytes(self.counter + 1), chunk)
    }

    /// What `chunk` becomes on the wire: itself for `none`, masked by the
    /// keystream for a stream cipher, a record for an AEAD cipher.
    pub open spec fn body(self, clock: u64, chunk: Seq<u8>) -> Seq<u8> {
        match self.kind.spec_category() {
            CipherCategory::Plain => chunk,
            CipherCategory::Stream => masked(self.channel(), self.counter, chunk),
            CipherCategory::Aead | CipherCategory::Aead2022 => self.record(clock, chunk),
        }
    }

    /// The next frame: the IV or salt if it has not been queued yet, then the
    /// body.
    pub open spec fn frame(self, clock: u64, chunk: Seq<u8>) -> Seq<u8> {
        (if self.started {
            Seq::empty()
        } else {
            self.salt
        }) + self.body(clock, chunk)
    }

    /// The counter after a chunk of `n` bytes.
    pub open spec fn next_counter(self, n: nat) -> nat {
        match self.kind.spec_category() {
            CipherCategory::Plain => self.counter,
            CipherCategory::Stream => self.counter + n,
            CipherCategory::Aead | CipherCategory::Aead2022 => self.counter + 2,
        }
    }

    /// Why the writer refuses a chunk of `n` bytes, if it does: a response of
    /// AEAD-2022 needs the salt of the request first, and neither the nonces
    /// nor the keystream may run out.
    pub open spec fn refusal(self, n: nat) -> Option<Error> {
        match self.kind.spec_category() {
            CipherCategory::Plain => None,
            CipherCategory::Stream => if self.counter + n > keystream_len(self.kind) {
                Some(Error::NotPermitted)
            } else {
                None
            },
            CipherCategory::Aead => if self.counter + 2 > u64::MAX {
                Some(Error::NotPermitted)
            } else {
                None
            },
            CipherCategory::Aead2022 => if self.flow == Flow::Response && self.request_salt is None {
                Some(Error::NotPermitted)
            } else if self.counter + 2 > u64::MAX {
                Some(Error::NotPermitted)
            } else {
                None
            },
        }
    }

    /// True without encryption: the writer is a pass-through.
    pub open spec fn is_plain(self) -> bool {
        self.kind.spec_category() == CipherCategory::Plain
    }

    /// Number of bytes of a buffer of `len` bytes that go into one frame:
    /// all of them without encryption, at most a frame's payload otherwise.
    pub open spec fn chunk_len(self, len: nat) -> nat {
        if self.is_plain() || len <= max_payload(self.kind) {
            len
        } else {
            max_payload(self.kind) as nat
        }
    }

    /// True where `assemble` called with `buf` queues bytes of `buf`. With
    /// encryption: nothing is queued, there is something to send, and the
    /// writer does not refuse. Without: there is something to send.
    pub open spec fn assembles(self, buf: Seq<u8>) -> bool {
        if self.is_plain() {
            buf.len() > 0
        } else {
            self.queued.len() == 0 && buf.len() > 0 && self.refusal(self.chunk_len(buf.len())) is None
        }
    }

    /// The writer after `assemble` was called with `buf`. With encryption a
    /// frame is made unless one is still queued. Without encryption the
    /// socket is offered `buf` itself, all of it, whatever was offered
    /// before.
    pub open spec fn assemble(self, clock: u64, buf: Seq<u8>) -> WriterModel {
        let n = self.chunk_len(buf.len());
        if self.assembles(buf) {
            WriterModel {
                counter: self.next_counter(n),
                started: true,
                queued: self.frame(clock, buf.take(n as int)),
                accepted: n,
                ..self
            }
        } else if self.is_plain() {
            WriterModel { queued: Seq::empty(), accepted: 0, ..self }
        } else {
            self
        }
    }

    /// The writer after the socket took the first `n` queued bytes. Without
    /// encryption the write is over with the socket's answer, and nothing
    /// stays queued.
    pub open spec fn wrote(self, n: nat) -> WriterModel {
        if self.is_plain() {
            WriterModel { queued: Seq::empty(), accepted: 0, ..self }
        } else {
            WriterModel {
                queued: self.queued.skip(n as int),
                accepted: if n == self.queued.len() {
                    0
                } else {
                    self.accepted
                },
                ..self
            }
        }
    }

    /// What is made of the report that the socket took the first `n` queued
    /// bytes. A report of more bytes than were queued cannot be true and is an
    /// `Io` error. Without encryption the socket's answer is the answer: `n`
    /// bytes were written, be it none. With encryption a report of a write
    /// when nothing was queued is an `Io` error too, and a socket that took
    /// nothing ends the stream with `UnexpectedEof`; otherwise the report is
    /// taken, and once the whole frame is gone, the answer is the number of
    /// plaintext bytes that it carried.
    pub open spec fn report(self, n: nat) -> Result<Option<usize>, Error> {
        if n > self.queued.len() {
            Err(Error::Io(IoKind::InvalidInput))
        } else if self.is_plain() {
            Ok(Some(n as usize))
        } else if self.queued.len() == 0 {
            Err(Error::Io(IoKind::InvalidInput))
        } else if n == 0 {
            Err(Error::UnexpectedEof)
        } else if n == self.queued.len() {
            Ok(Some(self.accepted as usize))
        } else {
            Ok(None)
        }
    }

    /// The writer after a poll. `written` is `None` where the caller comes
    /// with plaintext, and the number of queued bytes that the socket took
    /// where it comes back from the socket.
    pub open spec fn poll(self, clock: u64, buf: Seq<u8>, written: Option<nat>) -> WriterModel {
        match written {
            None => self.assemble(clock, buf),
            Some(n) => if self.report(n) is Ok {
                self.wrote(n)
            } else {
                self
            },
        }
    }

    /// What the caller of a poll is told. With plaintext: the refusal, or
    /// nothing accepted where there was nothing to send, or that the socket
    /// has to take what is queued. Back from the socket: what is made of its
    /// report, and that the socket has to take the rest as long as the frame
    /// is not gone.
    pub open spec fn poll_outcome(self, buf: Seq<u8>, written: Option<nat>) -> Poll<usize> {
        match written {
            None => if (self.queued.len() == 0 || self.is_plain()) && buf.len() == 0 {
                Poll::Ready(Ok(0))
            } else if self.queued.len() == 0 && !self.assembles(buf) {
                Poll::Ready(Err(self.refusal(self.chunk_len(buf.len()))->0))
            } else {
                Poll::Pending
            },
            Some(n) => match self.report(n) {
                Err(e) => Poll::Ready(Err(e)),
                Ok(Some(accepted)) => Poll::Ready(Ok(accepted)),
                Ok(None) => Poll::Pending,
            },
        }
    }

    /// True where opening the next record gives back what was sealed. Holds
    /// of every record that a writer has made; nothing is claimed of ciphers
    /// that do not seal.
    pub open spec fn opens(self, clock: u64, chunk: Seq<u8>) -> bool {
        let ch = self.channel();
        let header = self.header(clock, chunk.len());
        let sealed_header = sealed(ch.kind, ch.subkey, nonce_bytes(self.counter), header);
        let sealed_chunk = sealed(ch.kind, ch.subkey, nonce_bytes(self.counter + 1), chunk);
        self.kind.seals() ==> {
            &&& sealed_header.len() == header.len() + TAG_LEN
            &&& sealed_chunk.len() == chunk.len() + TAG_LEN
            &&& opened(ch.kind, ch.subkey, nonce_bytes(self.counter), sealed_header) == Some(header)
            &&& opened(ch.kind, ch.subkey, nonce_bytes(self.counter + 1), sealed_chunk) == Some(chunk)
        }
    }

    /// What holds of every writer.
    pub open spec fn wf(self) -> bool {
        &&& self.key.len() == self.kind.spec_key_len()
        &&& self.salt.len() == self.kind.spec_prefix_len()
        &&& self.request_salt is Some ==> self.request_salt->0.len() == self.kind.spec_prefix_len()
        &&& self.counter <= u64::MAX
        &&& self.kind.spec_category() == CipherCategory::Stream ==> self.counter <= keystream_len(self.kind)
        &&& self.queued.len() == 0 ==> self.accepted == 0
    }
}

} // verus!
