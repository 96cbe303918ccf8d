use vstd::prelude::*;
use crate::ids::ConnectionId;
use crate::packets::{Packet, PacketView};

verus! {

/// Internal, process-local events exchanged between the server orchestrator,
/// the connection actors and the per-tick systems.  Messages never travel on
/// the wire; only packets do.
#[derive(Clone, PartialEq, Debug)]
pub enum Message {
    /// A packet to be written to this connection's client.
    SendPacket(Packet),
    /// A packet received from a client, tagged with its connection.
    Packet(ConnectionId, Packet),
    /// A packet to be sent to every connected client.
    BroadcastPacket(Packet),
    /// Heartbeat fired once per server cycle: connections flush their outboxes.
    Tick,
    /// Lifecycle: a connection was accepted.
    PlayerConnected(ConnectionId),
    /// Lifecycle: a connection terminated.
    PlayerDisconnected(ConnectionId),
    /// A connection asks the orchestrator to claim a display name for it.
    SetName(ConnectionId, String),
    /// The orchestrator rejects a name request: the name is already claimed.
    NameTaken(ConnectionId, String),
}

/// The mathematical shape of a message, with packets and strings abstracted
/// to their views.
pub enum MessageView {
    SendPacket(PacketView),
    Packet(ConnectionId, PacketView),
    BroadcastPacket(PacketView),
    Tick,
    PlayerConnected(ConnectionId),
    PlayerDisconnected(ConnectionId),
    SetName(ConnectionId, Seq<char>),
    NameTaken(ConnectionId, Seq<char>),
}

impl View for Message {
    type V = MessageView;

    open spec fn view(&self) -> MessageView {
        match self {
            Message::SendPacket(p) => MessageView::SendPacket(p@),
            Message::Packet(c, p) => MessageView::Packet(*c, p@),
            Message::BroadcastPacket(p) => MessageView::BroadcastPacket(p@),
            Message::Tick => MessageView::Tick,
            Message::PlayerConnected(c) => MessageView::PlayerConnected(*c),
            Message::PlayerDisconnected(c) => MessageView::PlayerDisconnected(*c),
            Message::SetName(c, name) => MessageView::SetName(*c, name@),
            Message::NameTaken(c, name) => MessageView::NameTaken(*c, name@),
        }
    }
}

} // verus!
