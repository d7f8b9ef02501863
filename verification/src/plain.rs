//! Reader and writer for `none`: bytes pass through unchanged.

use crate::buf::{copy, extend, take_front};
use crate::crypto::CipherKind;
use crate::error::{Error, IoKind};
use crate::model::{ReaderModel, WriterModel};
use crate::record::{Flow, RecordState};
use vstd::prelude::*;

verus! {

/// Reads one direction of an unencrypted connection.
pub struct PlainReader {
    plain: Vec<u8>,
}

impl View for PlainReader {
    type V = ReaderModel;

    closed spec fn view(&self) -> ReaderModel {
        ReaderModel {
            kind: CipherKind::Plain,
            flow: Flow::Request,
            key: Seq::empty(),
            salt: Some(Seq::empty()),
            rec: RecordState { plain: self.plain@, ..RecordState::initial() },
        }
    }
}

impl PlainReader {
    /// The reader of an unencrypted connection never waits for an IV, never
    /// fails and is always between records.
    pub proof fn lemma_shape(&self)
        ensures
            self@.kind == CipherKind::Plain,
            self@.key == Seq::<u8>::empty(),
            self@.salt == Some(Seq::<u8>::empty()),
            self@.rec == (RecordState { plain: self@.rec.plain, ..RecordState::initial() }),
    {
    }

    /// A reader that has seen nothing. The direction plays no part without
    /// encryption; the model carries `Request`.
    pub fn new() -> (reader: PlainReader)
        ensures
            reader@ == ReaderModel::initial(CipherKind::Plain, Flow::Request, Seq::empty()),
    {
        PlainReader { plain: Vec::new() }
    }

    /// Takes in the bytes that arrived from the peer.
    pub fn receive(&mut self, data: &[u8])
        ensures
            forall|seen: Seq<Seq<u8>>, clock: u64| (final(self)@, seen) == #[trigger] old(self)@.absorb(seen, clock, data@),
    {
        extend(&mut self.plain, data);
        assert(Seq::<u8>::empty() + data@ =~= data@);
    }

    /// Hands out up to `max` bytes, oldest first.
    pub fn take(&mut self, max: usize) -> (out: Vec<u8>)
        ensures
            out@ == old(self)@.rec.plain.take(if max <= old(self)@.rec.plain.len() {
                max as int
            } else {
                old(self)@.rec.plain.len() as int
            }),
            final(self)@ == old(self)@.deliver(out@.len()),
    {
        let n = if max <= self.plain.len() {
            max
        } else {
            self.plain.len()
        };
        take_front(&mut self.plain, n)
    }

    /// Number of bytes received and not yet handed out.
    pub fn available(&self) -> (n: usize)
        ensures
            n == self@.rec.plain.len(),
    {
        self.plain.len()
    }
}

/// Writes one direction of an unencrypted connection. The writer is a
/// pass-through: the socket is offered the caller's bytes, and the socket's
/// answer is the caller's answer.
pub struct PlainWriter {
    started: bool,
    offered: Vec<u8>,
}

impl View for PlainWriter {
    type V = WriterModel;

    closed spec fn view(&self) -> WriterModel {
        WriterModel {
            kind: CipherKind::Plain,
            flow: Flow::Request,
            key: Seq::empty(),
            salt: Seq::empty(),
            counter: 0,
            started: self.started,
            request_salt: None,
            queued: self.offered@,
            accepted: self.offered@.len(),
        }
    }
}

impl PlainWriter {
    /// The model of every such writer is well-formed, and its kind is `none`.
    pub proof fn lemma_wf(&self)
        ensures
            self@.wf(),
            self@.kind == CipherKind::Plain,
            self@.key == Seq::<u8>::empty(),
            self@.salt == Seq::<u8>::empty(),
            self@.request_salt is None,
            self@.accepted == self@.queued.len(),
    {
    }

    /// A writer that has written nothing. The direction plays no part
    /// without encryption; the model carries `Request`.
    pub fn new() -> (writer: PlainWriter)
        ensures
            writer@ == WriterModel::initial(CipherKind::Plain, Flow::Request, Seq::empty(), Seq::empty()),
    {
        PlainWriter { started: false, offered: Vec::new() }
    }

    /// Offers the socket `buf`, all of it, in place of what was offered
    /// before. Returns the number of bytes offered.
    pub fn assemble(&mut self, clock: u64, buf: &[u8]) -> (taken: Result<usize, Error>)
        ensures
            final(self)@ == old(self)@.assemble(clock, buf@),
            taken == Ok::<usize, Error>(buf@.len() as usize),
            final(self)@.queued == buf@,
    {
        self.offered = copy(buf);
        if buf.len() > 0 {
            self.started = true;
        }
        proof {
            assert(buf@.take(buf@.len() as int) =~= buf@);
            assert(Seq::<u8>::empty() + buf@ =~= buf@);
            if buf@.len() == 0 {
                assert(self.offered@ =~= Seq::<u8>::empty());
            }
        }
        Ok(buf.len())
    }

    /// The bytes that the socket is offered.
    pub fn pending(&self) -> (bytes: &[u8])
        ensures
            bytes@ == self@.queued,
    {
        self.offered.as_slice()
    }

    /// Notes that the socket took the first `n` of the bytes offered, and
    /// hands that number on. Nothing stays queued: what the socket did not
    /// take is the caller's to offer again.
    pub fn wrote(&mut self, n: usize) -> (done: Result<Option<usize>, Error>)
        ensures
            done == old(self)@.report(n as nat),
            final(self)@ == (if done is Ok {
                old(self)@.wrote(n as nat)
            } else {
                old(self)@
            }),
    {
        if n > self.offered.len() {
            return Err(Error::Io(IoKind::InvalidInput));
        }
        self.offered.clear();
        Ok(Some(n))
    }
}

} // verus!
