use vstd::prelude::*;
use crate::details::Details;
use crate::logs::LogEvent;
use crate::messages::Message;
use crate::packets::Packet;
use crate::state::{DispatchOutput, StateHandler};

verus! {

/// The entry state of a connection: the state a client sits in right after
/// the accept.  It handles one packet kind meaningfully — a request to claim
/// a display name, which it forwards to the orchestrator, because name
/// uniqueness needs the global view.  Everything else it reports as
/// unhandled and ignores.
pub struct Entry {
    pub details: Details,
}

impl StateHandler for Entry {
    open spec fn msg_ens(self, msg: Message, post: Self, out: DispatchOutput) -> bool {
        match msg {
            // An inbound packet is delegated to the packet dispatch.
            Message::Packet(_, p) => self.packet_ens(p, post, out),
            // The orchestrator turned the name request down: tell the client.
            Message::NameTaken(_, name) => {
                &&& post == self
                &&& out.to_self@ == seq![Message::SendPacket(Packet::NameTaken(name))]
                &&& out.to_server@ == Seq::<Message>::empty()
                &&& out.logs@ == Seq::<LogEvent>::empty()
            },
            // The orchestrator granted the name: record it.
            Message::SetName(_, name) => {
                &&& post.details.id == self.details.id
                &&& post.details.name == Some(name)
                &&& out.is_empty()
            },
            _ => {
                &&& post == self
                &&& out.to_self@ == Seq::<Message>::empty()
                &&& out.to_server@ == Seq::<Message>::empty()
                &&& out.logs@ == seq![LogEvent::UnhandledMessage(self.details.id)]
            },
        }
    }

    open spec fn packet_ens(self, packet: Packet, post: Self, out: DispatchOutput) -> bool {
        match packet {
            // Ask the orchestrator to claim the name for this connection.
            Packet::SetName(name) => {
                &&& post == self
                &&& out.to_self@ == Seq::<Message>::empty()
                &&& out.to_server@ == seq![Message::SetName(self.details.id, name)]
                &&& out.logs@ == seq![LogEvent::NameRequest(self.details.id)]
            },
            _ => {
                &&& post == self
                &&& out.to_self@ == Seq::<Message>::empty()
                &&& out.to_server@ == Seq::<Message>::empty()
                &&& out.logs@ == seq![LogEvent::UnhandledPacket(self.details.id)]
            },
        }
    }

    fn dispatch_msg(&mut self, msg: Message) -> (out: DispatchOutput)
    {
        match msg {
            Message::Packet(_, p) => self.dispatch_packet(p),
            Message::NameTaken(_, name) => {
                let mut out = DispatchOutput::empty();
                out.to_self.push(Message::SendPacket(Packet::NameTaken(name)));
                out
            },
            Message::SetName(_, name) => {
                self.details.name = Some(name);
                DispatchOutput::empty()
            },
            _ => {
                let mut out = DispatchOutput::empty();
                out.logs.push(LogEvent::UnhandledMessage(self.details.id));
                out
            },
        }
    }

    fn dispatch_packet(&mut self, packet: Packet) -> (out: DispatchOutput)
    {
        match packet {
            Packet::SetName(name) => self.try_setname(name),
            _ => {
                let mut out = DispatchOutput::empty();
                out.logs.push(LogEvent::UnhandledPacket(self.details.id));
                out
            },
        }
    }
}

impl Entry {
    pub fn new(details: Details) -> (e: Entry)
        ensures
            e.details == details,
    {
        Entry { details }
    }

    /// Forwards a name request, tagged with this connection's identity, to
    /// the orchestrator; arbitration happens there, not here.
    fn try_setname(&mut self, name: String) -> (out: DispatchOutput)
        ensures
            *final(self) == *old(self),
            out.to_self@ == Seq::<Message>::empty(),
            out.to_server@ == seq![Message::SetName(old(self).details.id, name)],
            out.logs@ == seq![LogEvent::NameRequest(old(self).details.id)],
    {
        let mut out = DispatchOutput::empty();
        out.logs.push(LogEvent::NameRequest(self.details.id));
        out.to_server.push(Message::SetName(self.details.id, name));
        out
    }
}

} // verus!
