use vstd::prelude::*;
use crate::codec::{decode_packet, spec_decode_packet};
use crate::details::Details;
use crate::entry::Entry;
use crate::ids::{ConnectionId, EntityId};
use crate::logs::LogEvent;
use crate::mailbox::Mailbox;
use crate::messages::Message;
use crate::packets::Packet;
use crate::state::{DispatchOutput, State, StateHandler};

verus! {

/// How many packets may wait in a connection's outbox at once; a producer
/// that finds it full experiences backpressure.
pub const OUTBOX_CAPACITY: usize = 100;

/// What one step of the connection actor produced.  The binary that runs the
/// actor performs these effects: it writes `to_client` to the socket, feeds
/// `to_self` back into the actor's inbox, forwards `to_server`, renders the
/// log events, and suspends on `blocked`.
pub struct ConnectionOutput {
    /// Packets to write to this connection's socket now.
    pub to_client: Vec<Packet>,
    /// Messages for the actor's own inbox.
    pub to_self: Vec<Message>,
    /// Messages for the server orchestrator's inbox.
    pub to_server: Vec<Message>,
    /// Log events owed for this step.
    pub logs: Vec<LogEvent>,
    /// A packet that found the outbox full.  The actor suspends and offers it
    /// again once the outbox has drained; it is never dropped.
    pub blocked: Option<Packet>,
}

impl ConnectionOutput {
    pub open spec fn quiet(&self) -> bool {
        &&& self.to_client@ == Seq::<Packet>::empty()
        &&& self.to_self@ == Seq::<Message>::empty()
        &&& self.to_server@ == Seq::<Message>::empty()
        &&& self.logs@ == Seq::<LogEvent>::empty()
        &&& self.blocked is None
    }

    pub fn empty() -> (out: ConnectionOutput)
        ensures
            out.quiet(),
    {
        ConnectionOutput {
            to_client: Vec::new(),
            to_self: Vec::new(),
            to_server: Vec::new(),
            logs: Vec::new(),
            blocked: None,
        }
    }
}

/// The per-connection actor's state: its identity, the entity it controls,
/// its bounded outbox, and the active per-connection state machine state.
/// The socket halves and the channels stay with the binary that runs the
/// actor; this core decides, the binary performs.
pub struct Connection {
    pub id: ConnectionId,
    pub entity_id: EntityId,
    pub outbox: Mailbox<Packet>,
    pub state: State,
    pub finished: bool,
}

/// The effect of queueing one outbound packet: appended when there is room;
/// handed back in `blocked`, with nothing else changed, when there is none.
pub open spec fn spec_queued(pre: Connection, p: Packet, post: Connection, out: ConnectionOutput) -> bool {
    &&& post.state == pre.state
    &&& out.to_client@ == Seq::<Packet>::empty()
    &&& out.to_self@ == Seq::<Message>::empty()
    &&& out.to_server@ == Seq::<Message>::empty()
    &&& out.logs@ == Seq::<LogEvent>::empty()
    &&& if pre.outbox.is_full() {
        out.blocked == Some(p) && post.outbox.contents() == pre.outbox.contents()
    } else {
        out.blocked is None && post.outbox.contents() == pre.outbox.contents().push(p)
    }
}

/// The effect of handing a message to the active state: the state answers
/// for it, the actor only relays what the state emitted.
pub open spec fn spec_delegated(pre: Connection, msg: Message, post: Connection, out: ConnectionOutput) -> bool {
    &&& post.outbox.contents() == pre.outbox.contents()
    &&& out.to_client@ == Seq::<Packet>::empty()
    &&& out.blocked is None
    &&& match (pre.state, post.state) {
        (State::Entry(e), State::Entry(e2)) => e.msg_ens(
            msg,
            e2,
            DispatchOutput { to_self: out.to_self, to_server: out.to_server, logs: out.logs },
        ),
    }
}

/// Everything Connection::process_message promises, case by case over the
/// dispatched message.
pub open spec fn spec_process_message(pre: Connection, msg: Message, post: Connection, out: ConnectionOutput) -> bool {
    &&& post.id == pre.id
    &&& post.entity_id == pre.entity_id
    &&& post.finished == pre.finished
    &&& post.outbox.cap() == pre.outbox.cap()
    &&& match msg {
        // Flush: every queued packet goes to the client, oldest first.
        Message::Tick => {
            &&& out.to_client@ == pre.outbox.contents()
            &&& post.outbox.contents() == Seq::<Packet>::empty()
            &&& post.state == pre.state
            &&& out.to_self@ == Seq::<Message>::empty()
            &&& out.to_server@ == Seq::<Message>::empty()
            &&& out.logs@ == Seq::<LogEvent>::empty()
            &&& out.blocked is None
        },
        Message::SendPacket(p) => spec_queued(pre, p, post, out),
        // The client learns its own identity from its own connected event.
        Message::PlayerConnected(cid) => spec_queued(
            pre,
            if cid == pre.id {
                Packet::Id(cid)
            } else {
                Packet::PlayerConnected(cid)
            },
            post,
            out,
        ),
        Message::PlayerDisconnected(cid) => spec_queued(
            pre,
            Packet::PlayerDisconnected(cid),
            post,
            out,
        ),
        // An inbound component update is gated here before the orchestrator
        // re-checks it against the registry: a request naming any entity but
        // this connection's own is dropped with a warning.
        Message::Packet(_, Packet::UpdateComponent(eid, k)) => {
            &&& post.outbox.contents() == pre.outbox.contents()
            &&& post.state == pre.state
            &&& out.to_client@ == Seq::<Packet>::empty()
            &&& out.to_self@ == Seq::<Message>::empty()
            &&& out.blocked is None
            &&& if eid != pre.entity_id {
                &&& out.to_server@ == Seq::<Message>::empty()
                &&& out.logs@ == seq![LogEvent::OwnershipViolation(pre.id, eid)]
            } else {
                &&& out.to_server@ == seq![
                    Message::Packet(pre.id, Packet::UpdateComponent(eid, k)),
                ]
                &&& out.logs@ == Seq::<LogEvent>::empty()
            }
        },
        // Everything else is the active state's business.
        _ => spec_delegated(pre, msg, post, out),
    }
}

impl Connection {
    pub open spec fn well_formed(self) -> bool {
        &&& self.outbox.well_formed()
        &&& self.outbox.cap() == OUTBOX_CAPACITY
        &&& match self.state {
            State::Entry(e) => e.details.id == self.id,
        }
    }

    /// A fresh actor: assigned its identity and its entity, an empty outbox,
    /// and the entry state.
    pub fn new(id: ConnectionId, entity_id: EntityId) -> (c: Connection)
        ensures
            c.well_formed(),
            c.id == id,
            c.entity_id == entity_id,
            c.outbox.contents() == Seq::<Packet>::empty(),
            c.state matches State::Entry(e) && e.details.id == id && e.details.name is None,
            !c.finished,
    {
        Connection {
            id,
            entity_id,
            outbox: Mailbox::new(OUTBOX_CAPACITY),
            state: State::Entry(Entry::new(Details::new(id))),
            finished: false,
        }
    }

    fn queue_packet(&mut self, p: Packet) -> (out: ConnectionOutput)
        requires
            old(self).well_formed(),
        ensures
            final(self).well_formed(),
            final(self).id == old(self).id,
            final(self).entity_id == old(self).entity_id,
            final(self).finished == old(self).finished,
            final(self).outbox.cap() == old(self).outbox.cap(),
            spec_queued(*old(self), p, *final(self), out),
    {
        let mut out = ConnectionOutput::empty();
        match self.outbox.try_send(p) {
            Ok(()) => {},
            Err(p) => {
                out.blocked = Some(p);
            },
        }
        out
    }

    /// One step of the actor's dispatch loop: handles the global messages
    /// inline — lifecycle events and outbound-packet requests feed the
    /// outbox, a tick flushes it, an inbound component update is gated
    /// against this connection's entity — and delegates the rest to the
    /// active state.
    pub fn process_message(&mut self, msg: Message) -> (out: ConnectionOutput)
        requires
            old(self).well_formed(),
        ensures
            final(self).well_formed(),
            spec_process_message(*old(self), msg, *final(self), out),
    {
        match msg {
            Message::Tick => {
                let mut out = ConnectionOutput::empty();
                out.to_client = self.outbox.drain();
                out
            },
            Message::SendPacket(p) => self.queue_packet(p),
            Message::PlayerConnected(cid) => {
                if cid.0 == self.id.0 {
                    self.queue_packet(Packet::Id(cid))
                } else {
                    self.queue_packet(Packet::PlayerConnected(cid))
                }
            },
            Message::PlayerDisconnected(cid) => self.queue_packet(Packet::PlayerDisconnected(cid)),
            Message::Packet(from, p) => {
                match p {
                    Packet::UpdateComponent(eid, k) => {
                        let mut out = ConnectionOutput::empty();
                        if eid != self.entity_id {
                            out.logs.push(LogEvent::OwnershipViolation(self.id, eid));
                        } else {
                            out.to_server.push(
                                Message::Packet(self.id, Packet::UpdateComponent(eid, k)),
                            );
                        }
                        out
                    },
                    _ => self.delegate(Message::Packet(from, p)),
                }
            },
            _ => self.delegate(msg),
        }
    }

    fn delegate(&mut self, msg: Message) -> (out: ConnectionOutput)
        requires
            old(self).well_formed(),
            !(msg matches Message::Packet(_, Packet::UpdateComponent(_, _))),
        ensures
            final(self).well_formed(),
            final(self).id == old(self).id,
            final(self).entity_id == old(self).entity_id,
            final(self).finished == old(self).finished,
            final(self).outbox.cap() == old(self).outbox.cap(),
            spec_delegated(*old(self), msg, *final(self), out),
    {
        let dout = match &mut self.state {
            State::Entry(e) => e.dispatch_msg(msg),
        };
        proof {
            let ghost pre = *old(self);
            let ghost cur = *self;
            match (pre.state, cur.state) {
                (State::Entry(e), State::Entry(e2)) => {
                    lemma_entry_keeps_id(e, e2, msg, dout);
                },
            }
        }
        ConnectionOutput {
            to_client: Vec::new(),
            to_self: dout.to_self,
            to_server: dout.to_server,
            logs: dout.logs,
            blocked: None,
        }
    }

    /// Turns one received transport unit into the tagged inbound message, or
    /// reports the decode failure to discard; a bad unit never ends the
    /// connection.
    pub fn handle_incoming(&self, bytes: &[u8]) -> (r: Result<Message, LogEvent>)
        ensures
            r matches Ok(m) ==> (spec_decode_packet(bytes@) matches Ok(pv) && m matches Message::Packet(c, p) && c == self.id && p@ == pv),
            r matches Err(e) ==> (spec_decode_packet(bytes@) matches Err(de) && e == LogEvent::DecodeFailed(self.id, de)),
    {
        match decode_packet(bytes) {
            Ok(p) => Ok(Message::Packet(self.id, p)),
            Err(de) => Err(LogEvent::DecodeFailed(self.id, de)),
        }
    }

    /// The receive loop has ended, by orderly close or by a read error: the
    /// actor reports the disconnect to the orchestrator exactly once,
    /// however often the loops wind down afterwards.
    pub fn finish(&mut self) -> (msg: Option<Message>)
        ensures
            final(self).finished,
            final(self).id == old(self).id,
            final(self).entity_id == old(self).entity_id,
            final(self).outbox == old(self).outbox,
            final(self).state == old(self).state,
            !old(self).finished ==> msg == Some(Message::PlayerDisconnected(old(self).id)),
            old(self).finished ==> msg is None,
    {
        if self.finished {
            None
        } else {
            self.finished = true;
            Some(Message::PlayerDisconnected(self.id))
        }
    }
}

/// Dispatch never changes which connection a state belongs to.
proof fn lemma_entry_keeps_id(e: Entry, e2: Entry, msg: Message, out: DispatchOutput)
    requires
        e.msg_ens(msg, e2, out),
    ensures
        e2.details.id == e.details.id,
{
}

} // verus!
