//! Reader and writer for the legacy stream ciphers: an IV, then the payload
//! with the keystream laid over it byte by byte.

use crate::buf::{copy, extend, take_front};
use crate::context::Context;
use crate::crypto::{keystream, keystream_byte, keystream_len, keystream_limit, CipherCategory, CipherKind};
use crate::error::Error;
use crate::model::{masked, option_view, unmask, ReaderModel, WriterModel};
use crate::record::{payload_limit, Channel, Flow, RecordState};
use crate::queue::SendQueue;
use vstd::prelude::*;
use vstd::slice::slice_subrange;

verus! {

/// Lays the keystream from byte `offset` on over `data`.
pub fn mask(kind: CipherKind, flow: Flow, key: &[u8], iv: &[u8], offset: u64, data: &[u8]) -> (out: Vec<u8>)
    requires
        kind.spec_category() == CipherCategory::Stream,
        key@.len() == kind.spec_key_len(),
        iv@.len() == kind.spec_prefix_len(),
        offset + data@.len() <= keystream_len(kind),
    ensures
        out@ == masked(Channel { kind, flow, salt: iv@, subkey: key@ }, offset as nat, data@),
{
    let ghost ch = Channel { kind, flow, salt: iv@, subkey: key@ };
    let ks = keystream(kind, key, iv, offset, data.len());
    let mut out: Vec<u8> = Vec::new();
    let mut i: usize = 0;
    while i < data.len()
        invariant
            i <= data@.len(),
            ks@.len() == data@.len(),
            out@.len() == i,
            forall|j: int| 0 <= j < data@.len() ==> ks@[j] == keystream_byte(kind, key@, iv@, (offset + j) as nat),
            forall|j: int| 0 <= j < i ==> out@[j] == data@[j] ^ ks@[j],
        decreases data.len() - i,
    {
        out.push(data[i] ^ ks[i]);
        i = i + 1;
    }
    assert(out@ =~= masked(ch, offset as nat, data@));
    out
}

/// Reads one direction of a stream-cipher connection.
pub struct StreamReader {
    kind: CipherKind,
    flow: Flow,
    key: Vec<u8>,
    iv: Option<Vec<u8>>,
    offset: u64,
    buffer: Vec<u8>,
    plain: Vec<u8>,
    failed: Option<Error>,
}

impl View for StreamReader {
    type V = ReaderModel;

    closed spec fn view(&self) -> ReaderModel {
        ReaderModel {
            kind: self.kind,
            flow: self.flow,
            key: self.key@,
            salt: option_view(self.iv),
            rec: RecordState {
                counter: self.offset as nat,
                pending: self.buffer@,
                expect: None,
                plain: self.plain@,
                preamble: None,
                chunk: 0,
                failed: self.failed,
            },
        }
    }
}

impl StreamReader {
    /// What holds of every reader that this module hands out.
    pub closed spec fn wf(&self) -> bool {
        &&& self.kind.spec_category() == CipherCategory::Stream
        &&& self.key@.len() == self.kind.spec_key_len()
        &&& self.offset <= keystream_len(self.kind)
        &&& self.iv is Some ==> self.iv->0@.len() == self.kind.spec_prefix_len() && self.buffer@.len() == 0
        &&& self.iv is None ==> self.plain@.len() == 0 && self.offset == 0
    }

    /// The model of a well-formed reader is well-formed, its cipher is a
    /// stream cipher, and an IV that has arrived has the length that the
    /// cipher asks.
    pub proof fn lemma_view_wf(&self)
        requires
            self.wf(),
        ensures
            self@.wf(),
            self@.kind.spec_category() == CipherCategory::Stream,
            self@.salt is Some ==> self@.salt->0.len() == self@.kind.spec_prefix_len(),
    {
    }

    /// A reader for the bytes that travel in direction `flow`.
    pub fn new(kind: CipherKind, flow: Flow, key: &[u8]) -> (reader: StreamReader)
        requires
            kind.spec_category() == CipherCategory::Stream,
            key@.len() == kind.spec_key_len(),
        ensures
            reader.wf(),
            reader@ == ReaderModel::initial(kind, flow, key@),
    {
        StreamReader {
            kind,
            flow,
            key: copy(key),
            iv: None,
            offset: 0,
            buffer: Vec::new(),
            plain: Vec::new(),
            failed: None,
        }
    }

    fn fail(&mut self, e: Error)
        requires
            old(self).wf(),
        ensures
            final(self).wf(),
            final(self)@ == (ReaderModel { rec: old(self)@.rec.fail(e), ..old(self)@ }),
    {
        self.buffer.clear();
        self.failed = Some(e);
    }

    /// Unmasks `data`, which follows what was unmasked before.
    fn unmask(&mut self, data: &[u8])
        requires
            old(self).wf(),
            old(self).iv is Some,
            old(self).failed is None,
        ensures
            final(self).wf(),
            final(self)@ == (ReaderModel {
                rec: unmask(old(self)@.channel(), RecordState { pending: data@, ..old(self)@.rec }),
                ..old(self)@
            }),
    {
        let room: u64 = keystream_limit(self.kind) - self.offset;
        let fits = data.len() as u64 <= room;
        let n: usize = if fits {
            data.len()
        } else {
            room as usize
        };
        let part = slice_subrange(data, 0, n);
        assert(part@ =~= data@.take(n as int));
        if fits {
            assert(data@.take(n as int) =~= data@);
        }
        match &self.iv {
            Some(iv) => {
                let clear = mask(self.kind, self.flow, self.key.as_slice(), iv.as_slice(), self.offset, part);
                extend(&mut self.plain, clear.as_slice());
            },
            None => {},
        }
        self.offset = self.offset + n as u64;
        if !fits {
            self.fail(Error::NotPermitted);
        }
        proof {
            let ch = old(self)@.channel();
            let start = RecordState { pending: data@, ..old(self)@.rec };
            assert(ch == Channel { kind: self.kind, flow: self.flow, salt: self.iv->0@, subkey: self.key@ });
            assert(self.plain@ == old(self).plain@ + masked(ch, old(self).offset as nat, data@.take(n as int)));
            assert(self@.rec.pending =~= unmask(ch, start).pending);
            assert(self@.rec == unmask(ch, start));
        }
    }

    /// Takes in the bytes that arrived from the peer.
    pub fn receive(&mut self, context: &mut Context, data: &[u8])
        requires
            old(self).wf(),
        ensures
            final(self).wf(),
            final(context).spec_now() == old(context).spec_now(),
            (final(self)@, final(context).seen()) == old(self)@.absorb(
                old(context).seen(),
                old(context).spec_now(),
                data@,
            ),
    {
        if self.failed.is_some() {
            return;
        }
        if self.iv.is_none() {
            extend(&mut self.buffer, data);
            let n = self.kind.prefix_len();
            if self.buffer.len() < n {
                return;
            }
            let iv = take_front(&mut self.buffer, n);
            let left = self.buffer.len();
            let rest = take_front(&mut self.buffer, left);
            assert(rest@ =~= (old(self).buffer@ + data@).skip(n as int));
            let replayed = context.check_nonce_and_set(iv.as_slice());
            self.iv = Some(iv);
            if replayed {
                assert(context.seen() =~= old(context).seen());
                self.fail(Error::CryptoAuth);
                return;
            }
            self.unmask(rest.as_slice());
        } else {
            assert(old(self).buffer@ + data@ =~= data@);
            self.unmask(data);
        }
    }

    /// Notes that the peer closed the connection.
    pub fn close(&mut self)
        requires
            old(self).wf(),
        ensures
            final(self).wf(),
            final(self)@ == old(self)@.close(),
    {
        if self.failed.is_none() && !(self.iv.is_some() && self.buffer.len() == 0) {
            self.fail(Error::UnexpectedEof);
        }
    }

    /// Hands out up to `max` bytes of plaintext, oldest first.
    pub fn take(&mut self, max: usize) -> (out: Vec<u8>)
        requires
            old(self).wf(),
        ensures
            final(self).wf(),
            out@ == old(self)@.rec.plain.take(if max <= old(self)@.rec.plain.len() {
                max as int
            } else {
                old(self)@.rec.plain.len() as int
            }),
            final(self)@ == old(self)@.deliver(out@.len()),
    {
        let n = if max <= self.plain.len() {
            max
        } else {
            self.plain.len()
        };
        take_front(&mut self.plain, n)
    }

    /// The error that ended decoding, if one did.
    pub fn failed(&self) -> (e: Option<Error>)
        ensures
            e == self@.rec.failed,
    {
        self.failed
    }

    /// Number of plaintext bytes unmasked and not yet handed out.
    pub fn available(&self) -> (n: usize)
        ensures
            n == self@.rec.plain.len(),
    {
        self.plain.len()
    }

    /// The IV of the peer, once all of it has arrived.
    pub fn iv(&self) -> (iv: Option<&[u8]>)
        ensures
            match iv {
                Some(s) => self@.salt == Some(s@),
                None => self@.salt is None,
            },
    {
        match &self.iv {
            Some(s) => Some(s.as_slice()),
            None => None,
        }
    }
}

/// Writes one direction of a stream-cipher connection.
pub struct StreamWriter {
    kind: CipherKind,
    flow: Flow,
    key: Vec<u8>,
    iv: Vec<u8>,
    offset: u64,
    started: bool,
    queue: SendQueue,
}

impl View for StreamWriter {
    type V = WriterModel;

    closed spec fn view(&self) -> WriterModel {
        WriterModel {
            kind: self.kind,
            flow: self.flow,
            key: self.key@,
            salt: self.iv@,
            counter: self.offset as nat,
            started: self.started,
            request_salt: None,
            queued: self.queue.queued(),
            accepted: self.queue.accepted(),
        }
    }
}

impl StreamWriter {
    /// What holds of every writer that this module hands out.
    pub closed spec fn wf(&self) -> bool {
        &&& self.kind.spec_category() == CipherCategory::Stream
        &&& self@.wf()
        &&& self.queue.wf()
    }

    /// The model of a well-formed writer is well-formed, and its kind is a
    /// stream cipher.
    pub proof fn lemma_wf(&self)
        requires
            self.wf(),
        ensures
            self@.wf(),
            self@.kind.spec_category() == CipherCategory::Stream,
            self@.request_salt is None,
    {
    }

    /// A writer for the bytes that travel in direction `flow`, which will
    /// open its stream with `iv`.
    pub fn new(kind: CipherKind, flow: Flow, key: &[u8], iv: &[u8]) -> (writer: StreamWriter)
        requires
            kind.spec_category() == CipherCategory::Stream,
            key@.len() == kind.spec_key_len(),
            iv@.len() == kind.spec_prefix_len(),
        ensures
            writer.wf(),
            writer@ == WriterModel::initial(kind, flow, key@, iv@),
    {
        StreamWriter {
            kind,
            flow,
            key: copy(key),
            iv: copy(iv),
            offset: 0,
            started: false,
            queue: SendQueue::new(),
        }
    }

    /// Masks the start of `buf` into a frame, unless a frame is still queued.
    /// Returns the number of bytes of `buf` that the queued frame carries.
    pub fn assemble(&mut self, clock: u64, buf: &[u8]) -> (taken: Result<usize, Error>)
        requires
            old(self).wf(),
        ensures
            final(self).wf(),
            final(self)@ == old(self)@.assemble(clock, buf@),
            taken == (if old(self)@.queued.len() == 0 && buf@.len() > 0 && !old(self)@.assembles(buf@) {
                Err::<usize, Error>(old(self)@.refusal(old(self)@.chunk_len(buf@.len()))->0)
            } else {
                Ok::<usize, Error>(final(self)@.accepted as usize)
            }),
            old(self)@.assembles(buf@) ==> old(self)@.opens(
                clock,
                buf@.take(old(self)@.chunk_len(buf@.len()) as int),
            ),
    {
        proof {
            self.queue.lemma_wf();
        }
        if !self.queue.is_empty() {
            return Ok(self.queue.carried());
        }
        if buf.len() == 0 {
            return Ok(0);
        }
        let limit = payload_limit(self.kind);
        let n: usize = if buf.len() <= limit {
            buf.len()
        } else {
            limit
        };
        if n as u64 > keystream_limit(self.kind) - self.offset {
            return Err(Error::NotPermitted);
        }
        let chunk = slice_subrange(buf, 0, n);
        assert(chunk@ =~= buf@.take(n as int));
        let body = mask(self.kind, self.flow, self.key.as_slice(), self.iv.as_slice(), self.offset, chunk);
        let mut frame: Vec<u8> = Vec::new();
        if !self.started {
            extend(&mut frame, self.iv.as_slice());
        }
        extend(&mut frame, body.as_slice());
        assert(frame@ =~= self@.frame(clock, chunk@));
        self.queue.load(frame, n);
        self.offset = self.offset + n as u64;
        self.started = true;
        Ok(n)
    }

    /// The bytes that the socket has still to take.
    pub fn pending(&self) -> (bytes: &[u8])
        requires
            self.wf(),
        ensures
            bytes@ == self@.queued,
    {
        self.queue.pending()
    }

    /// Notes that the socket took the first `n` of the pending bytes. Returns
    /// the number of plaintext bytes of the frame once all of it is gone.
    pub fn wrote(&mut self, n: usize) -> (done: Result<Option<usize>, Error>)
        requires
            old(self).wf(),
        ensures
            final(self).wf(),
            done == old(self)@.report(n as nat),
            final(self)@ == (if done is Ok {
                old(self)@.wrote(n as nat)
            } else {
                old(self)@
            }),
    {
        proof {
            self.queue.lemma_wf();
        }
        self.queue.wrote(n)
    }

    /// The IV of this direction.
    pub fn iv(&self) -> (iv: &[u8])
        ensures
            iv@ == self@.salt,
    {
        self.iv.as_slice()
    }
}

} // verus!
