//! The copier between an accepted connection and the stream to its target:
//! two shuttles, one for each direction.
//!
//! A shuttle reads from its source, writes all of what it read to its sink,
//! and reads again. When the source ends, anything fails or the shuttle is
//! cancelled, it shuts down its sink and is done. The copier is done when
//! both shuttles are.

use crate::error::{Error, IoKind};
use vstd::prelude::*;
use vstd::slice::slice_subrange;

verus! {

/// What a shuttle is doing.
#[derive(Clone, Copy, Debug, PartialEq, Eq, Structural)]
pub enum Phase {
    /// Waiting for the source to deliver.
    Reading,
    /// Waiting for the sink to take what is pending.
    Writing,
    /// Waiting for the sink to shut down.
    Closing,
    /// Finished.
    Done,
}

/// What the caller has to do for a shuttle.
#[derive(Clone, Copy, Debug, PartialEq, Eq, Structural)]
pub enum Action {
    /// Read the source and report with `after_read`.
    Read,
    /// Write the pending bytes to the sink and report with `after_write`.
    Write,
    /// Shut down the sink and report with `after_shutdown`.
    Shutdown,
    /// Nothing: the shuttle is finished.
    Finished,
}

/// A shuttle between two reports.
pub struct ShuttleModel {
    pub phase: Phase,
    /// Bytes read and not yet taken by the sink.
    pub pending: Seq<u8>,
    /// Number of bytes that the sink has taken. The count stops at the
    /// largest 64-bit number.
    pub copied: nat,
    /// The first error, if there was one.
    pub error: Option<Error>,
}

impl ShuttleModel {
    /// A shuttle that has done nothing.
    pub open spec fn initial() -> ShuttleModel {
        ShuttleModel { phase: Phase::Reading, pending: Seq::empty(), copied: 0, error: None }
    }

    /// What the caller has to do next.
    pub open spec fn action(self) -> Action {
        match self.phase {
            Phase::Reading => Action::Read,
            Phase::Writing => Action::Write,
            Phase::Closing => Action::Shutdown,
            Phase::Done => Action::Finished,
        }
    }

    /// The shuttle after a read of the source. Bytes are to be written; the
    /// end of the source, reported as no bytes, and an error close the sink.
    /// A report that the shuttle did not ask for changes nothing.
    pub open spec fn after_read(self, r: Result<Seq<u8>, Error>) -> ShuttleModel {
        if self.phase != Phase::Reading {
            self
        } else {
            match r {
                Ok(data) => if data.len() == 0 {
                    ShuttleModel { phase: Phase::Closing, ..self }
                } else {
                    ShuttleModel { phase: Phase::Writing, pending: data, ..self }
                },
                Err(e) => ShuttleModel { phase: Phase::Closing, error: Some(e), ..self },
            }
        }
    }

    /// The shuttle after a write to the sink. What the sink took is gone from
    /// the pending bytes; once all are gone, the shuttle reads again. A sink
    /// that takes nothing, or claims more than was pending, and an error
    /// close the sink.
    pub open spec fn after_write(self, r: Result<nat, Error>) -> ShuttleModel {
        if self.phase != Phase::Writing {
            self
        } else {
            match r {
                Ok(n) => if n == 0 {
                    ShuttleModel {
                        phase: Phase::Closing,
                        pending: Seq::empty(),
                        error: Some(Error::UnexpectedEof),
                        ..self
                    }
                } else if n > self.pending.len() {
                    ShuttleModel { phase: Phase::Closing, pending: Seq::empty(), error: Some(Error::Io(IoKind::InvalidInput)), ..self }
                } else {
                    ShuttleModel {
                        phase: if n == self.pending.len() {
                            Phase::Reading
                        } else {
                            Phase::Writing
                        },
                        pending: self.pending.skip(n as int),
                        copied: if self.copied + n <= u64::MAX {
                            self.copied + n
                        } else {
                            u64::MAX as nat
                        },
                        ..self
                    }
                },
                Err(e) => ShuttleModel { phase: Phase::Closing, pending: Seq::empty(), error: Some(e), ..self },
            }
        }
    }

    /// The shuttle after it was cancelled: what is pending is dropped and the
    /// sink is closed, unless that is already under way or done.
    pub open spec fn cancel(self) -> ShuttleModel {
        if self.phase == Phase::Reading || self.phase == Phase::Writing {
            ShuttleModel { phase: Phase::Closing, pending: Seq::empty(), ..self }
        } else {
            self
        }
    }

    /// The shuttle after the shutdown of the sink: finished, with the first
    /// error of the shuttle, which is that of the shutdown if there was none
    /// before.
    pub open spec fn after_shutdown(self, r: Result<(), Error>) -> ShuttleModel {
        if self.phase != Phase::Closing {
            self
        } else {
            ShuttleModel {
                phase: Phase::Done,
                error: match self.error {
                    Some(e) => Some(e),
                    None => match r {
                        Ok(_) => None,
                        Err(e) => Some(e),
                    },
                },
                ..self
            }
        }
    }
}

/// One direction of the copier.
pub struct Shuttle {
    phase: Phase,
    buffer: Vec<u8>,
    pos: usize,
    copied: u64,
    error: Option<Error>,
}

impl View for Shuttle {
    type V = ShuttleModel;

    closed spec fn view(&self) -> ShuttleModel {
        ShuttleModel {
            phase: self.phase,
            pending: self.buffer@.skip(self.pos as int),
            copied: self.copied as nat,
            error: self.error,
        }
    }
}

impl Shuttle {
    /// What holds of every shuttle.
    pub closed spec fn wf(&self) -> bool {
        self.pos <= self.buffer@.len()
    }

    /// A shuttle that has done nothing.
    pub fn new() -> (shuttle: Shuttle)
        ensures
            shuttle.wf(),
            shuttle@ == ShuttleModel::initial(),
    {
        let shuttle = Shuttle { phase: Phase::Reading, buffer: Vec::new(), pos: 0, copied: 0, error: None };
        assert(shuttle@.pending =~= Seq::<u8>::empty());
        shuttle
    }

    /// What the caller has to do next.
    pub fn action(&self) -> (action: Action)
        ensures
            action == self@.action(),
    {
        match self.phase {
            Phase::Reading => Action::Read,
            Phase::Writing => Action::Write,
            Phase::Closing => Action::Shutdown,
            Phase::Done => Action::Finished,
        }
    }

    /// The bytes that the sink has still to take.
    pub fn pending(&self) -> (bytes: &[u8])
        requires
            self.wf(),
        ensures
            bytes@ == self@.pending,
    {
        slice_subrange(self.buffer.as_slice(), self.pos, self.buffer.len())
    }

    /// Number of bytes that the sink has taken.
    pub fn copied(&self) -> (n: u64)
        ensures
            n == self@.copied,
    {
        self.copied
    }

    /// The outcome of a finished shuttle: the number of bytes copied, or the
    /// first error. `None` while the shuttle is not finished.
    pub fn outcome(&self) -> (r: Option<Result<u64, Error>>)
        ensures
            r == (if self@.phase != Phase::Done {
                None
            } else {
                match self@.error {
                    Some(e) => Some(Err(e)),
                    None => Some(Ok(self@.copied as u64)),
                }
            }),
    {
        match self.phase {
            Phase::Done => match self.error {
                Some(e) => Some(Err(e)),
                None => Some(Ok(self.copied)),
            },
            _ => None,
        }
    }

    /// Reports a read of the source.
    pub fn after_read(&mut self, r: Result<Vec<u8>, Error>)
        requires
            old(self).wf(),
        ensures
            final(self).wf(),
            final(self)@ == old(self)@.after_read(
                match r {
                    Ok(v) => Ok(v@),
                    Err(e) => Err(e),
                },
            ),
    {
        match self.phase {
            Phase::Reading => {},
            _ => {
                return ;
            },
        }
        match r {
            Ok(data) => {
                if data.len() == 0 {
                    self.phase = Phase::Closing;
                } else {
                    assert(data@.skip(0) =~= data@);
                    self.buffer = data;
                    self.pos = 0;
                    self.phase = Phase::Writing;
                }
            },
            Err(e) => {
                self.error = Some(e);
                self.phase = Phase::Closing;
            },
        }
    }

    /// Reports a write to the sink.
    pub fn after_write(&mut self, r: Result<usize, Error>)
        requires
            old(self).wf(),
        ensures
            final(self).wf(),
            final(self)@ == old(self)@.after_write(
                match r {
                    Ok(n) => Ok(n as nat),
                    Err(e) => Err(e),
                },
            ),
    {
        match self.phase {
            Phase::Writing => {},
            _ => {
                return ;
            },
        }
        let left = self.buffer.len() - self.pos;
        let failure = match r {
            Ok(n) => {
                if n == 0 {
                    Some(Error::UnexpectedEof)
                } else if n > left {
                    Some(Error::Io(IoKind::InvalidInput))
                } else {
                    self.pos = self.pos + n;
                    self.copied = if n as u64 <= u64::MAX - self.copied {
                        self.copied + n as u64
                    } else {
                        u64::MAX
                    };
                    assert(self@.pending =~= old(self)@.pending.skip(n as int));
                    if n == left {
                        self.phase = Phase::Reading;
                    }
                    None
                }
            },
            Err(e) => Some(e),
        };
        match failure {
            Some(e) => {
                self.buffer.clear();
                self.pos = 0;
                self.error = Some(e);
                self.phase = Phase::Closing;
                assert(self@.pending =~= Seq::<u8>::empty());
            },
            None => {},
        }
    }

    /// Cancels the shuttle: nothing more is read or written, and the sink is
    /// closed.
    pub fn cancel(&mut self)
        requires
            old(self).wf(),
        ensures
            final(self).wf(),
            final(self)@ == old(self)@.cancel(),
    {
        match self.phase {
            Phase::Reading | Phase::Writing => {
                self.buffer.clear();
                self.pos = 0;
                self.phase = Phase::Closing;
                assert(self@.pending =~= Seq::<u8>::empty());
            },
            _ => {},
        }
    }

    /// Reports the shutdown of the sink.
    pub fn after_shutdown(&mut self, r: Result<(), Error>)
        requires
            old(self).wf(),
        ensures
            final(self).wf(),
            final(self)@ == old(self)@.after_shutdown(r),
    {
        match self.phase {
            Phase::Closing => {},
            _ => {
                return ;
            },
        }
        if self.error.is_none() {
            match r {
                Ok(_) => {},
                Err(e) => {
                    self.error = Some(e);
                },
            }
        }
        self.phase = Phase::Done;
    }
}

/// The copier: one shuttle from the client to the target, one back.
pub struct Relay {
    pub up: Shuttle,
    pub down: Shuttle,
}

impl Relay {
    /// A copier that has done nothing.
    pub fn new() -> (relay: Relay)
        ensures
            relay.up.wf(),
            relay.down.wf(),
            relay.up@ == ShuttleModel::initial(),
            relay.down@ == ShuttleModel::initial(),
    {
        Relay { up: Shuttle::new(), down: Shuttle::new() }
    }

    /// The outcome of the copier, once both shuttles are finished: the bytes
    /// copied up and down, or the first error, that of the way up before that
    /// of the way down. `None` while a shuttle is still at work.
    pub fn outcome(&self) -> (r: Option<Result<(u64, u64), Error>>)
        ensures
            r == (if self.up@.phase != Phase::Done || self.down@.phase != Phase::Done {
                None
            } else {
                match (self.up@.error, self.down@.error) {
                    (Some(e), _) => Some(Err(e)),
                    (None, Some(e)) => Some(Err(e)),
                    (None, None) => Some(Ok((self.up@.copied as u64, self.down@.copied as u64))),
                }
            }),
    {
        match (self.up.outcome(), self.down.outcome()) {
            (Some(Err(e)), Some(_)) => Some(Err(e)),
            (Some(Ok(_)), Some(Err(e))) => Some(Err(e)),
            (Some(Ok(a)), Some(Ok(b))) => Some(Ok((a, b))),
            _ => None,
        }
    }
}

/// The bytes never change order and none is lost or written twice: what the
/// sink has taken, read together with what is pending, is what the source
/// delivered. Stated for one read and the writes after it: after the sink
/// took `n` of the pending bytes, those `n` bytes followed by what is still
/// pending are the bytes that were pending before.
pub proof fn lemma_write_keeps_order(s: ShuttleModel, n: nat)
    requires
        s.phase == Phase::Writing,
        0 < n <= s.pending.len(),
    ensures
        s.pending.take(n as int) + s.after_write(Ok(n)).pending == s.pending,
        s.copied + n <= u64::MAX ==> s.after_write(Ok(n)).copied == s.copied + n,
        s.after_write(Ok(n)).copied >= s.copied || s.copied > u64::MAX,
        s.after_write(Ok(n)).error == s.error,
{
    assert(s.pending.take(n as int) + s.pending.skip(n as int) =~= s.pending);
}

} // verus!
