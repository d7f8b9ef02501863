//! The frame that a writer has assembled, as far as the socket has not taken
//! it yet.

use crate::error::{Error, IoKind};
use vstd::prelude::*;
use vstd::slice::slice_subrange;

verus! {

/// A frame on its way to the socket.
pub struct SendQueue {
    buffer: Vec<u8>,
    pos: usize,
    accepted: usize,
}

impl SendQueue {
    /// The bytes that the socket has still to take.
    pub closed spec fn queued(&self) -> Seq<u8> {
        self.buffer@.skip(self.pos as int)
    }

    /// Number of plaintext bytes that the frame carries; zero where nothing
    /// is queued.
    pub closed spec fn accepted(&self) -> nat {
        self.accepted as nat
    }

    /// What holds of every queue.
    pub closed spec fn wf(&self) -> bool {
        &&& self.pos <= self.buffer@.len()
        &&& self.pos == self.buffer@.len() ==> self.accepted == 0
    }

    /// Nothing queued means nothing accepted, and what is accepted fits a
    /// machine word.
    pub proof fn lemma_wf(&self)
        requires
            self.wf(),
        ensures
            self.queued().len() == 0 ==> self.accepted() == 0,
            self.accepted() <= usize::MAX,
    {
    }

    /// An empty queue.
    pub fn new() -> (queue: SendQueue)
        ensures
            queue.wf(),
            queue.queued() == Seq::<u8>::empty(),
            queue.accepted() == 0,
    {
        let queue = SendQueue { buffer: Vec::new(), pos: 0, accepted: 0 };
        assert(queue.queued() =~= Seq::<u8>::empty());
        queue
    }

    /// Whether nothing is queued.
    pub fn is_empty(&self) -> (empty: bool)
        requires
            self.wf(),
        ensures
            empty == (self.queued().len() == 0),
    {
        self.pos >= self.buffer.len()
    }

    /// Number of plaintext bytes that the frame carries.
    pub fn carried(&self) -> (n: usize)
        ensures
            n == self.accepted(),
    {
        self.accepted
    }

    /// Queues a frame that carries `accepted` bytes of plaintext.
    pub fn load(&mut self, frame: Vec<u8>, accepted: usize)
        requires
            frame@.len() > 0,
        ensures
            final(self).wf(),
            final(self).queued() == frame@,
            final(self).accepted() == accepted,
    {
        assert(frame@.skip(0) =~= frame@);
        self.buffer = frame;
        self.pos = 0;
        self.accepted = accepted;
    }

    /// The bytes that the socket has still to take.
    pub fn pending(&self) -> (bytes: &[u8])
        requires
            self.wf(),
        ensures
            bytes@ == self.queued(),
    {
        slice_subrange(self.buffer.as_slice(), self.pos, self.buffer.len())
    }

    /// Notes that the socket took the first `n` of the pending bytes. Returns
    /// the number of plaintext bytes of the frame once all of it is gone. A
    /// report that cannot be true, of more bytes than were pending or of a
    /// write when nothing was pending, is answered with `Io`, and a socket
    /// that took nothing with `UnexpectedEof`; the queue then stays as it
    /// is.
    pub fn wrote(&mut self, n: usize) -> (done: Result<Option<usize>, Error>)
        requires
            old(self).wf(),
        ensures
            final(self).wf(),
            done == (if n > old(self).queued().len() || old(self).queued().len() == 0 {
                Err::<Option<usize>, Error>(Error::Io(IoKind::InvalidInput))
            } else if n == 0 {
                Err::<Option<usize>, Error>(Error::UnexpectedEof)
            } else if n == old(self).queued().len() {
                Ok::<Option<usize>, Error>(Some(old(self).accepted() as usize))
            } else {
                Ok::<Option<usize>, Error>(None)
            }),
            final(self).queued() == (if done is Ok {
                old(self).queued().skip(n as int)
            } else {
                old(self).queued()
            }),
            final(self).accepted() == (if done is Ok && n == old(self).queued().len() {
                0
            } else {
                old(self).accepted()
            }),
    {
        let left = self.buffer.len() - self.pos;
        if n > left || left == 0 {
            return Err(Error::Io(IoKind::InvalidInput));
        }
        if n == 0 {
            return Err(Error::UnexpectedEof);
        }
        if n == left {
            let accepted = self.accepted;
            self.buffer.clear();
            self.pos = 0;
            self.accepted = 0;
            assert(self.queued() =~= old(self).queued().skip(n as int));
            Ok(Some(accepted))
        } else {
            self.pos = self.pos + n;
            assert(self.queued() =~= old(self).queued().skip(n as int));
            Ok(None)
        }
    }
}

} // verus!
