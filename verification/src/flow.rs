//! Counting the bytes that cross the tunnel.

use vstd::prelude::*;

verus! {

/// The bytes sent to and received from the upstream servers.
#[derive(Debug)]
pub struct FlowStat {
    tx: u64,
    rx: u64,
}

impl FlowStat {
    pub closed spec fn spec_tx(&self) -> u64 {
        self.tx
    }

    pub closed spec fn spec_rx(&self) -> u64 {
        self.rx
    }

    /// Counters at zero.
    pub fn new() -> (stat: FlowStat)
        ensures
            stat.spec_tx() == 0,
            stat.spec_rx() == 0,
    {
        FlowStat { tx: 0, rx: 0 }
    }

    /// Bytes sent so far.
    #[verifier::when_used_as_spec(spec_tx)]
    pub fn tx(&self) -> (n: u64)
        ensures
            n == self.spec_tx(),
    {
        self.tx
    }

    /// Bytes received so far.
    #[verifier::when_used_as_spec(spec_rx)]
    pub fn rx(&self) -> (n: u64)
        ensures
            n == self.spec_rx(),
    {
        self.rx
    }

    /// Counts `n` more bytes sent. The counter never goes back: it stops at
    /// the largest 64-bit number.
    pub fn incr_tx(&mut self, n: u64)
        ensures
            final(self).spec_rx() == old(self).spec_rx(),
            final(self).spec_tx() == (if old(self).spec_tx() + n <= u64::MAX {
                (old(self).spec_tx() + n) as u64
            } else {
                u64::MAX
            }),
            final(self).spec_tx() >= old(self).spec_tx(),
    {
        self.tx = if n <= u64::MAX - self.tx {
            self.tx + n
        } else {
            u64::MAX
        };
    }

    /// Counts `n` more bytes received. The counter never goes back: it stops
    /// at the largest 64-bit number.
    pub fn incr_rx(&mut self, n: u64)
        ensures
            final(self).spec_tx() == old(self).spec_tx(),
            final(self).spec_rx() == (if old(self).spec_rx() + n <= u64::MAX {
                (old(self).spec_rx() + n) as u64
            } else {
                u64::MAX
            }),
            final(self).spec_rx() >= old(self).spec_rx(),
    {
        self.rx = if n <= u64::MAX - self.rx {
            self.rx + n
        } else {
            u64::MAX
        };
    }
}

/// A socket whose traffic is counted. The wrapper changes no byte: it is
/// told what the socket did and adds it to the counters.
pub struct MonProxyStream<S> {
    stream: S,
}

impl<S> MonProxyStream<S> {
    pub closed spec fn socket(&self) -> S {
        self.stream
    }

    /// Wraps a socket.
    pub fn from_stream(stream: S) -> (mon: MonProxyStream<S>)
        ensures
            mon.socket() == stream,
    {
        MonProxyStream { stream }
    }

    /// The socket.
    pub fn get_ref(&self) -> (socket: &S)
        ensures
            *socket == self.socket(),
    {
        &self.stream
    }

    /// The socket, for the caller to use.
    pub fn get_mut(&mut self) -> (socket: &mut S)
        ensures
            *socket == old(self).socket(),
            final(self).socket() == *final(socket),
    {
        &mut self.stream
    }

    /// Gives up the wrapper for its socket.
    pub fn into_inner(self) -> (socket: S)
        ensures
            socket == self.socket(),
    {
        self.stream
    }

    /// Notes a read of the socket that delivered `n` bytes.
    pub fn after_read(&self, stat: &mut FlowStat, n: usize)
        ensures
            final(stat).spec_tx() == old(stat).spec_tx(),
            final(stat).spec_rx() == (if old(stat).spec_rx() + n <= u64::MAX {
                (old(stat).spec_rx() + n) as u64
            } else {
                u64::MAX
            }),
    {
        stat.incr_rx(n as u64);
    }

    /// Notes a write to the socket that took `n` bytes.
    pub fn after_write(&self, stat: &mut FlowStat, n: usize)
        ensures
            final(stat).spec_rx() == old(stat).spec_rx(),
            final(stat).spec_tx() == (if old(stat).spec_tx() + n <= u64::MAX {
                (old(stat).spec_tx() + n) as u64
            } else {
                u64::MAX
            }),
    {
        stat.incr_tx(n as u64);
    }
}

} // verus!
