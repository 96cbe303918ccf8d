use vstd::prelude::*;
use crate::logs::LogEvent;
use crate::messages::Message;
use crate::packets::Packet;

verus! {

/// What one dispatch step of a connection state produced: messages for the
/// connection's own inbox, messages for the server orchestrator, and the log
/// events owed for it.
pub struct DispatchOutput {
    pub to_self: Vec<Message>,
    pub to_server: Vec<Message>,
    pub logs: Vec<LogEvent>,
}

impl DispatchOutput {
    pub open spec fn is_empty(&self) -> bool {
        self.to_self@ == Seq::<Message>::empty() && self.to_server@ == Seq::<Message>::empty()
            && self.logs@ == Seq::<LogEvent>::empty()
    }

    pub fn empty() -> (out: DispatchOutput)
        ensures
            out.is_empty(),
    {
        DispatchOutput { to_self: Vec::new(), to_server: Vec::new(), logs: Vec::new() }
    }
}

/// Uniform dispatch contract of a per-connection state.  Each state says in
/// its two predicates what dispatching leaves of it and what it emits; the
/// methods promise exactly that.  States grow additively: a future
/// authentication or in-world state implements the same trait.
pub trait StateHandler: Sized {
    /// What dispatching `msg` guarantees: `post` is the state afterwards and
    /// `out` what was emitted.
    spec fn msg_ens(self, msg: Message, post: Self, out: DispatchOutput) -> bool;

    /// What dispatching an inbound `packet` guarantees.
    spec fn packet_ens(self, packet: Packet, post: Self, out: DispatchOutput) -> bool;

    fn dispatch_msg(&mut self, msg: Message) -> (out: DispatchOutput)
        ensures
            old(self).msg_ens(msg, *final(self), out),
    ;

    fn dispatch_packet(&mut self, packet: Packet) -> (out: DispatchOutput)
        ensures
            old(self).packet_ens(packet, *final(self), out),
    ;
}

/// The per-connection state machine: one variant per state.  A transition
/// replaces the whole value, so no message is ever dispatched against a
/// half-replaced state.  Entry is today both the initial and the final state.
pub enum State {
    Entry(crate::entry::Entry),
}

} // verus!
