//! What one relay process shares among its connections.

use crate::config::ConnectOpts;
use crate::context::Context;
use crate::flow::FlowStat;
use vstd::prelude::*;

verus! {

/// The shared state of a local relay: the salts seen and the clock, the
/// options of outgoing sockets, and the traffic counters. The access control
/// list is not part of it: its verdicts are handed to the functions that need
/// them.
pub struct ServiceContext {
    pub context: Context,
    pub connect_opts: ConnectOpts,
    pub flow_stat: FlowStat,
}

impl ServiceContext {
    /// A context that has seen no salt, with default socket options and
    /// counters at zero.
    pub fn new() -> (service: ServiceContext)
        ensures
            service.context.seen() == Seq::<Seq<u8>>::empty(),
            service.context.spec_now() == 0,
            service.flow_stat.spec_tx() == 0,
            service.flow_stat.spec_rx() == 0,
    {
        ServiceContext { context: Context::new(), connect_opts: ConnectOpts::new(), flow_stat: FlowStat::new() }
    }

    /// The salts seen and the clock.
    pub fn context_ref(&self) -> (context: &Context)
        ensures
            *context == self.context,
    {
        &self.context
    }

    /// The options of outgoing sockets.
    pub fn connect_opts_ref(&self) -> (opts: &ConnectOpts)
        ensures
            *opts == self.connect_opts,
    {
        &self.connect_opts
    }

    /// The traffic counters.
    pub fn flow_stat_ref(&self) -> (stat: &FlowStat)
        ensures
            *stat == self.flow_stat,
    {
        &self.flow_stat
    }
}

} // verus!
