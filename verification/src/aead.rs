//! Reader and writer for the AEAD and AEAD-2022 families.
//!
//! Neither touches a socket. The reader is handed the bytes that arrived and
//! keeps what it cannot open yet. The writer assembles one frame at a time
//! and keeps it until the socket has taken all of it.

use crate::buf::{copy, extend, take_front};
use crate::context::Context;
use crate::crypto::{derive_subkey, open, seal, session_subkey, CipherCategory, CipherKind};
use crate::encoding::{be16, get_be16, put_be16, put_be64, put_le};
use crate::error::Error;
use crate::primitives::{NONCE_LEN, TAG_LEN};
use crate::model::{digest, option_view, ReaderModel, WriterModel};
use crate::record::{
    check_preamble, header_len, header_size, lemma_settle_failed, max_payload, payload_limit, preamble_len,
    settle, step, Flow, RecordState,
};
use crate::queue::SendQueue;
use vstd::prelude::*;
use vstd::slice::slice_subrange;

verus! {

/// Reads one direction of an AEAD or AEAD-2022 stream.
pub struct AeadReader {
    kind: CipherKind,
    flow: Flow,
    key: Vec<u8>,
    salt: Option<Vec<u8>>,
    subkey: Vec<u8>,
    counter: u64,
    buffer: Vec<u8>,
    expect: Option<usize>,
    plain: Vec<u8>,
    preamble: Option<Vec<u8>>,
    chunk: usize,
    failed: Option<Error>,
}

impl View for AeadReader {
    type V = ReaderModel;

    /// The reader as a model. The subkey is no part of it: it is the session
    /// subkey of kind, key and salt, which the model gives as
    /// `channel().subkey`; see `lemma_view_wf`.
    closed spec fn view(&self) -> ReaderModel {
        ReaderModel {
            kind: self.kind,
            flow: self.flow,
            key: self.key@,
            salt: option_view(self.salt),
            rec: RecordState {
                counter: self.counter as nat,
                pending: self.buffer@,
                expect: match self.expect {
                    Some(n) => Some(n as nat),
                    None => None,
                },
                plain: self.plain@,
                preamble: option_view(self.preamble),
                chunk: self.chunk as nat,
                failed: self.failed,
            },
        }
    }
}

impl AeadReader {
    /// What holds of every reader that this module hands out.
    pub closed spec fn wf(&self) -> bool {
        &&& self.kind.seals()
        &&& self.key@.len() == self.kind.spec_key_len()
        &&& self.salt is Some ==> self.subkey@ == session_subkey(self.kind, self.key@, self.salt->0@)
            && self.subkey@.len() == self.kind.spec_key_len()
        &&& self.expect is Some ==> self.counter < u64::MAX && 0 < self.expect->0 <= max_payload(self.kind)
        &&& self.preamble is Some ==> self.preamble->0@.len() == preamble_len(self.kind, self.flow)
        &&& self.salt is Some ==> self.salt->0@.len() == self.kind.spec_prefix_len()
        &&& self.salt is None ==> self.plain@.len() == 0 && self.counter == 0 && self.expect is None
            && self.preamble is None && self.chunk == 0
    }

    /// The subkey that the reader opens with, once the salt is complete.
    pub closed spec fn subkey(&self) -> Seq<u8> {
        self.subkey@
    }

    /// The model of a well-formed reader is well-formed, its cipher seals,
    /// a salt that has arrived has the length that the cipher asks, and the
    /// subkey is the one that the model gives.
    pub proof fn lemma_view_wf(&self)
        requires
            self.wf(),
        ensures
            self@.wf(),
            self@.kind.seals(),
            self@.salt is Some ==> self@.salt->0.len() == self@.kind.spec_prefix_len(),
            self@.salt is Some ==> self.subkey() == self@.channel().subkey,
    {
    }

    /// A reader for the bytes that travel in direction `flow`.
    pub fn new(kind: CipherKind, flow: Flow, key: &[u8]) -> (reader: AeadReader)
        requires
            kind.seals(),
            key@.len() == kind.spec_key_len(),
        ensures
            reader.wf(),
            reader@ == ReaderModel::initial(kind, flow, key@),
    {
        AeadReader {
            kind,
            flow,
            key: copy(key),
            salt: None,
            subkey: Vec::new(),
            counter: 0,
            buffer: Vec::new(),
            expect: None,
            plain: Vec::new(),
            preamble: None,
            chunk: 0,
            failed: None,
        }
    }

    fn fail(&mut self, e: Error)
        requires
            old(self).wf(),
        ensures
            final(self).wf(),
            final(self)@ == (ReaderModel { rec: old(self)@.rec.fail(e), ..old(self)@ }),
    {
        self.buffer.clear();
        self.expect = None;
        self.failed = Some(e);
    }

    /// Opens the header or payload at the front of the buffer, if all of it
    /// is there. Says whether anything was done.
    fn advance(&mut self, clock: u64) -> (moved: bool)
        requires
            old(self).wf(),
            old(self).salt is Some,
        ensures
            final(self).wf(),
            moved == step(old(self)@.channel(), clock, old(self)@.rec) is Some,
            moved ==> final(self)@ == (ReaderModel {
                rec: step(old(self)@.channel(), clock, old(self)@.rec)->0,
                ..old(self)@
            }),
            !moved ==> *final(self) == *old(self),
    {
        if self.failed.is_some() {
            return false;
        }
        let nonce = put_le(self.counter, NONCE_LEN);
        match self.expect {
            None => {
                let h: usize = header_size(self.kind, self.flow, self.counter);
                let hs: usize = h + TAG_LEN;
                if self.buffer.len() < hs {
                    return false;
                }
                if self.counter > u64::MAX - 2 {
                    self.fail(Error::NotPermitted);
                    return true;
                }
                let sealed_header = take_front(&mut self.buffer, hs);
                match open(self.kind, self.subkey.as_slice(), nonce.as_slice(), sealed_header.as_slice()) {
                    None => {
                        self.fail(Error::CryptoAuth);
                    },
                    Some(header) => {
                        let preamble = copy(slice_subrange(header.as_slice(), 0, h - 2));
                        let len: usize = get_be16(slice_subrange(header.as_slice(), h - 2, h)) as usize;
                        proof {
                            assert(header@.subrange(0, h - 2) =~= header@.take(h - 2));
                            assert(header@.subrange(h - 2, h as int) =~= header@.skip(h - 2));
                        }
                        let refused = if self.counter == 0 {
                            check_preamble(self.kind, self.flow, clock, preamble.as_slice())
                        } else {
                            None
                        };
                        match refused {
                            Some(e) => {
                                self.fail(e);
                            },
                            None => {
                                if len == 0 || len > payload_limit(self.kind) {
                                    self.fail(Error::ProtocolFraming);
                                } else {
                                    if self.counter == 0 {
                                        self.preamble = Some(preamble);
                                    }
                                    self.counter = self.counter + 1;
                                    self.expect = Some(len);
                                }
                            },
                        }
                    },
                }
                true
            },
            Some(len) => {
                let ps: usize = len + TAG_LEN;
                if self.buffer.len() < ps {
                    return false;
                }
                let sealed_payload = take_front(&mut self.buffer, ps);
                match open(self.kind, self.subkey.as_slice(), nonce.as_slice(), sealed_payload.as_slice()) {
                    None => {
                        self.fail(Error::CryptoAuth);
                    },
                    Some(payload) => {
                        extend(&mut self.plain, payload.as_slice());
                        self.counter = self.counter + 1;
                        self.expect = None;
                        self.chunk = len;
                    },
                }
                true
            },
        }
    }

    /// Opens everything in the buffer that is complete.
    fn drain(&mut self, clock: u64)
        requires
            old(self).wf(),
            old(self).salt is Some,
        ensures
            final(self).wf(),
            final(self)@ == (ReaderModel {
                rec: digest(old(self)@.channel(), clock, old(self)@.rec),
                ..old(self)@
            }),
    {
        let ghost ch = self@.channel();
        let mut moved = true;
        while moved
            invariant
                self.wf(),
                self.salt is Some,
                self@.channel() == ch,
                self@ == (ReaderModel { rec: self@.rec, ..old(self)@ }),
                settle(ch, clock, self@.rec) == settle(ch, clock, old(self)@.rec),
                !moved ==> step(ch, clock, self@.rec) is None,
            decreases
                    self@.rec.pending.len() + (if self@.rec.failed is Some { 0nat } else { 1nat }) + (if moved {
                        1nat
                    } else {
                        0nat
                    }),
        {
            moved = self.advance(clock);
            proof {
                if self@.rec.failed is Some {
                    lemma_settle_failed(ch, clock, self@.rec);
                }
            }
        }
    }

    /// Takes in the bytes that arrived from the peer.
    pub fn receive(&mut self, context: &mut Context, data: &[u8])
        requires
            old(self).wf(),
        ensures
            final(self).wf(),
            final(context).spec_now() == old(context).spec_now(),
            (final(self)@, final(context).seen()) == old(self)@.absorb(
                old(context).seen(),
                old(context).spec_now(),
                data@,
            ),
    {
        if self.failed.is_some() {
            return;
        }
        extend(&mut self.buffer, data);
        if self.salt.is_none() {
            let n = self.kind.prefix_len();
            if self.buffer.len() < n {
                return;
            }
            let salt = take_front(&mut self.buffer, n);
            let replayed = context.check_nonce_and_set(salt.as_slice());
            self.subkey = derive_subkey(self.kind, self.key.as_slice(), salt.as_slice());
            self.salt = Some(salt);
            if replayed {
                assert(context.seen() =~= old(context).seen());
                self.fail(Error::CryptoAuth);
                return;
            }
        }
        self.drain(context.now());
    }

    /// Notes that the peer closed the connection.
    pub fn close(&mut self)
        requires
            old(self).wf(),
        ensures
            final(self).wf(),
            final(self)@ == old(self)@.close(),
    {
        if self.failed.is_none() && !(self.salt.is_some() && self.buffer.len() == 0 && self.expect.is_none()) {
            self.fail(Error::UnexpectedEof);
        }
    }

    /// Hands out up to `max` bytes of plaintext, oldest first.
    pub fn take(&mut self, max: usize) -> (out: Vec<u8>)
        requires
            old(self).wf(),
        ensures
            final(self).wf(),
            out@ == old(self)@.rec.plain.take(if max <= old(self)@.rec.plain.len() {
                max as int
            } else {
                old(self)@.rec.plain.len() as int
            }),
            final(self)@ == old(self)@.deliver(out@.len()),
    {
        let n = if max <= self.plain.len() {
            max
        } else {
            self.plain.len()
        };
        take_front(&mut self.plain, n)
    }

    /// The error that ended decoding, if one did.
    pub fn failed(&self) -> (e: Option<Error>)
        ensures
            e == self@.rec.failed,
    {
        self.failed
    }

    /// Number of plaintext bytes opened and not yet handed out.
    pub fn available(&self) -> (n: usize)
        ensures
            n == self@.rec.plain.len(),
    {
        self.plain.len()
    }

    /// The salt of the request, as the first header of an AEAD-2022 response
    /// repeats it.
    pub fn request_salt(&self) -> (salt: Option<&[u8]>)
        requires
            self.wf(),
        ensures
            match salt {
                Some(s) => self@.request_salt() == Some(s@),
                None => self@.request_salt() is None,
            },
    {
        match self.kind.category() {
            CipherCategory::Aead2022 => match self.flow {
                Flow::Response => match &self.preamble {
                    Some(p) => {
                        let rest = slice_subrange(p.as_slice(), 9, p.len());
                        assert(rest@ =~= p@.skip(9));
                        Some(rest)
                    },
                    None => None,
                },
                Flow::Request => None,
            },
            _ => None,
        }
    }

    /// Number of payloads opened so far.
    pub fn chunks(&self) -> (n: u64)
        ensures
            n == self@.rec.counter / 2,
    {
        self.counter / 2
    }

    /// Number of bytes of the payload opened last that have not been handed
    /// out yet.
    pub fn chunk_remaining(&self) -> (n: usize)
        ensures
            n == self@.chunk_remaining(),
    {
        if self.plain.len() <= self.chunk {
            self.plain.len()
        } else {
            self.chunk
        }
    }

    /// The salt of the peer, once all of it has arrived.
    pub fn salt(&self) -> (salt: Option<&[u8]>)
        ensures
            match salt {
                Some(s) => self@.salt == Some(s@),
                None => self@.salt is None,
            },
    {
        match &self.salt {
            Some(s) => Some(s.as_slice()),
            None => None,
        }
    }
}

/// Writes one direction of an AEAD or AEAD-2022 stream.
pub struct AeadWriter {
    kind: CipherKind,
    flow: Flow,
    key: Vec<u8>,
    salt: Vec<u8>,
    subkey: Vec<u8>,
    counter: u64,
    started: bool,
    request_salt: Option<Vec<u8>>,
    queue: SendQueue,
}

impl View for AeadWriter {
    type V = WriterModel;

    /// The writer as a model. The subkey is no part of it: it is the session
    /// subkey of kind, key and salt, which the model gives as
    /// `channel().subkey`; see `lemma_wf`.
    closed spec fn view(&self) -> WriterModel {
        WriterModel {
            kind: self.kind,
            flow: self.flow,
            key: self.key@,
            salt: self.salt@,
            counter: self.counter as nat,
            started: self.started,
            request_salt: option_view(self.request_salt),
            queued: self.queue.queued(),
            accepted: self.queue.accepted(),
        }
    }
}

impl AeadWriter {
    /// What holds of every writer that this module hands out.
    pub closed spec fn wf(&self) -> bool {
        &&& self.kind.seals()
        &&& self@.wf()
        &&& self.subkey@ == session_subkey(self.kind, self.key@, self.salt@)
        &&& self.subkey@.len() == self.kind.spec_key_len()
        &&& self.queue.wf()
    }

    /// The subkey that the writer seals with.
    pub closed spec fn subkey(&self) -> Seq<u8> {
        self.subkey@
    }

    /// The model of a well-formed writer is well-formed, and the subkey is
    /// the one that the model gives.
    pub proof fn lemma_wf(&self)
        requires
            self.wf(),
        ensures
            self@.wf(),
            self.subkey() == self@.channel().subkey,
    {
    }

    /// A writer for the bytes that travel in direction `flow`, which will
    /// open its stream with `salt`.
    pub fn new(kind: CipherKind, flow: Flow, key: &[u8], salt: &[u8]) -> (writer: AeadWriter)
        requires
            kind.seals(),
            key@.len() == kind.spec_key_len(),
            salt@.len() == kind.spec_prefix_len(),
        ensures
            writer.wf(),
            writer@ == WriterModel::initial(kind, flow, key@, salt@),
    {
        AeadWriter {
            kind,
            flow,
            key: copy(key),
            salt: copy(salt),
            subkey: derive_subkey(kind, key, salt),
            counter: 0,
            started: false,
            request_salt: None,
            queue: SendQueue::new(),
        }
    }

    /// Tells a writer of responses the salt of the request. Only AEAD-2022
    /// has such a salt, and it is as long as the writer's own.
    pub fn set_request_salt(&mut self, salt: &[u8]) -> (done: Result<(), Error>)
        requires
            old(self).wf(),
        ensures
            final(self).wf(),
            done == (if old(self)@.kind.spec_category() != CipherCategory::Aead2022 {
                Err::<(), Error>(Error::NotPermitted)
            } else if salt@.len() != old(self)@.kind.spec_prefix_len() {
                Err::<(), Error>(Error::ProtocolFraming)
            } else {
                Ok::<(), Error>(())
            }),
            final(self)@ == (if done is Ok {
                WriterModel { request_salt: Some(salt@), ..old(self)@ }
            } else {
                old(self)@
            }),
    {
        match self.kind.category() {
            CipherCategory::Aead2022 => {
                if salt.len() != self.kind.prefix_len() {
                    Err(Error::ProtocolFraming)
                } else {
                    self.request_salt = Some(copy(salt));
                    Ok(())
                }
            },
            _ => Err(Error::NotPermitted),
        }
    }

    /// Builds the header of the next record.
    fn build_header(&self, clock: u64, n: usize) -> (header: Vec<u8>)
        requires
            self.wf(),
            self@.refusal(n as nat) is None,
            0 < n <= max_payload(self.kind),
        ensures
            header@ == self@.header(clock, n as nat),
            header@.len() == header_len(self.kind, self.flow, self.counter as nat),
    {
        let mut header: Vec<u8> = Vec::new();
        if self.counter == 0 {
            match self.kind.category() {
                CipherCategory::Aead2022 => {
                    match self.flow {
                        Flow::Request => {
                            header.push(0u8);
                            let stamp = put_be64(clock);
                            extend(&mut header, stamp.as_slice());
                        },
                        Flow::Response => {
                            header.push(1u8);
                            let stamp = put_be64(clock);
                            extend(&mut header, stamp.as_slice());
                            match &self.request_salt {
                                Some(rs) => {
                                    extend(&mut header, rs.as_slice());
                                },
                                None => {},
                            }
                        },
                    }
                    assert(header@ =~= self@.first_preamble(clock));
                },
                _ => {
                    assert(header@ =~= self@.first_preamble(clock));
                },
            }
        }
        let ghost lead = header@;
        let len = put_be16(n as u16);
        extend(&mut header, len.as_slice());
        assert(header@ =~= lead + be16(n as u16));
        header
    }

    /// Seals the start of `buf` into a frame, unless a frame is still queued.
    /// Returns the number of bytes of `buf` that the queued frame carries.
    pub fn assemble(&mut self, clock: u64, buf: &[u8]) -> (taken: Result<usize, Error>)
        requires
            old(self).wf(),
        ensures
            final(self).wf(),
            final(self)@ == old(self)@.assemble(clock, buf@),
            taken == (if old(self)@.queued.len() == 0 && buf@.len() > 0 && !old(self)@.assembles(buf@) {
                Err::<usize, Error>(old(self)@.refusal(old(self)@.chunk_len(buf@.len()))->0)
            } else {
                Ok::<usize, Error>(final(self)@.accepted as usize)
            }),
            old(self)@.assembles(buf@) ==> old(self)@.opens(
                clock,
                buf@.take(old(self)@.chunk_len(buf@.len()) as int),
            ),
    {
        proof {
            self.queue.lemma_wf();
        }
        if !self.queue.is_empty() {
            return Ok(self.queue.carried());
        }
        if buf.len() == 0 {
            return Ok(0);
        }
        match self.kind.category() {
            CipherCategory::Aead2022 => {
                if self.flow == Flow::Response && self.request_salt.is_none() {
                    return Err(Error::NotPermitted);
                }
            },
            _ => {},
        }
        if self.counter > u64::MAX - 2 {
            return Err(Error::NotPermitted);
        }
        let limit = payload_limit(self.kind);
        let n: usize = if buf.len() <= limit {
            buf.len()
        } else {
            limit
        };
        let chunk = slice_subrange(buf, 0, n);
        assert(chunk@ =~= buf@.take(n as int));
        let header = self.build_header(clock, n);
        let nonce_header = put_le(self.counter, NONCE_LEN);
        let nonce_chunk = put_le(self.counter + 1, NONCE_LEN);
        let sealed_header = seal(self.kind, self.subkey.as_slice(), nonce_header.as_slice(), header.as_slice());
        let sealed_chunk = seal(self.kind, self.subkey.as_slice(), nonce_chunk.as_slice(), chunk);
        let mut frame: Vec<u8> = Vec::new();
        if !self.started {
            extend(&mut frame, self.salt.as_slice());
        }
        extend(&mut frame, sealed_header.as_slice());
        extend(&mut frame, sealed_chunk.as_slice());
        assert(frame@ =~= self@.frame(clock, chunk@));
        self.queue.load(frame, n);
        self.counter = self.counter + 2;
        self.started = true;
        Ok(n)
    }

    /// The bytes that the socket has still to take.
    pub fn pending(&self) -> (bytes: &[u8])
        requires
            self.wf(),
        ensures
            bytes@ == self@.queued,
    {
        self.queue.pending()
    }

    /// Notes that the socket took the first `n` of the pending bytes. Returns
    /// the number of plaintext bytes of the frame once all of it is gone.
    pub fn wrote(&mut self, n: usize) -> (done: Result<Option<usize>, Error>)
        requires
            old(self).wf(),
        ensures
            final(self).wf(),
            done == old(self)@.report(n as nat),
            final(self)@ == (if done is Ok {
                old(self)@.wrote(n as nat)
            } else {
                old(self)@
            }),
    {
        proof {
            self.queue.lemma_wf();
        }
        self.queue.wrote(n)
    }

    /// The salt of this direction.
    pub fn salt(&self) -> (salt: &[u8])
        ensures
            salt@ == self@.salt,
    {
        self.salt.as_slice()
    }
}

} // verus!
