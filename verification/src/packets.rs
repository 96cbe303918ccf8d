use vstd::prelude::*;
use crate::ids::{ConnectionId, EntityId};
use crate::server_components::ServerComponentKind;

verus! {

/// The wire-visible protocol: a closed set of request/response variants.
/// A packet is built by a sender, encoded, written to the socket; on receipt
/// it is decoded, converted into an internal message, and discarded.
#[derive(Clone, PartialEq, Debug)]
pub enum Packet {
    // client -> server
    /// Request to claim a display name.
    SetName(String),
    /// Voluntary disconnect signal.
    Logout,
    /// Request to mutate a component of the sender's own entity.
    UpdateComponent(EntityId, ServerComponentKind),
    // server -> client
    /// Assigns the client its own identity.
    Id(ConnectionId),
    /// Lifecycle broadcast: a player joined.
    PlayerConnected(ConnectionId),
    /// Lifecycle broadcast: a player left.
    PlayerDisconnected(ConnectionId),
    /// Tells a client which entity it controls.
    PlayerEntityId(ConnectionId, EntityId),
    /// Broadcast of a successful name assignment.
    Name(ConnectionId, String),
    /// Rejection of a name request: the name is already claimed.
    NameTaken(String),
}

/// The mathematical shape of a packet: the same variants with every string
/// abstracted to its character sequence.  Contracts speak of this view, so
/// that two packets carrying equal text are equal in specifications.
pub enum PacketView {
    SetName(Seq<char>),
    Logout,
    UpdateComponent(EntityId, ServerComponentKind),
    Id(ConnectionId),
    PlayerConnected(ConnectionId),
    PlayerDisconnected(ConnectionId),
    PlayerEntityId(ConnectionId, EntityId),
    Name(ConnectionId, Seq<char>),
    NameTaken(Seq<char>),
}

impl View for Packet {
    type V = PacketView;

    open spec fn view(&self) -> PacketView {
        match self {
            Packet::SetName(name) => PacketView::SetName(name@),
            Packet::Logout => PacketView::Logout,
            Packet::UpdateComponent(eid, kind) => PacketView::UpdateComponent(*eid, *kind),
            Packet::Id(c) => PacketView::Id(*c),
            Packet::PlayerConnected(c) => PacketView::PlayerConnected(*c),
            Packet::PlayerDisconnected(c) => PacketView::PlayerDisconnected(*c),
            Packet::PlayerEntityId(c, eid) => PacketView::PlayerEntityId(*c, *eid),
            Packet::Name(c, name) => PacketView::Name(*c, name@),
            Packet::NameTaken(name) => PacketView::NameTaken(name@),
        }
    }
}

} // verus!
