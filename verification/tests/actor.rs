use encosmo::codec::encode_packet;
use encosmo::connection::Connection;
use encosmo::details::Details;
use encosmo::entry::Entry;
use encosmo::ids::ConnectionId;
use encosmo::logs::{LogEvent, LogLevel};
use encosmo::messages::Message;
use encosmo::packets::Packet;
use encosmo::server::{Directive, Server};
use encosmo::server_components::{Position, ServerComponentKind, Translate};
use encosmo::state::StateHandler;

#[test]
fn own_connected_event_becomes_id_packet() {
    let c = ConnectionId(7);
    let mut conn = Connection::new(c, 0);
    conn.process_message(Message::PlayerConnected(c));
    let other = ConnectionId(8);
    conn.process_message(Message::PlayerConnected(other));
    let flush = conn.process_message(Message::Tick);
    assert_eq!(flush.to_client, vec![Packet::Id(c), Packet::PlayerConnected(other)]);
}

#[test]
fn tick_empties_the_outbox() {
    let mut conn = Connection::new(ConnectionId(7), 0);
    conn.process_message(Message::SendPacket(Packet::Logout));
    let first = conn.process_message(Message::Tick);
    assert_eq!(first.to_client, vec![Packet::Logout]);
    let second = conn.process_message(Message::Tick);
    assert!(second.to_client.is_empty());
}

#[test]
fn inbound_update_for_foreign_entity_is_gated() {
    let c = ConnectionId(7);
    let mut conn = Connection::new(c, 3);
    let p = Packet::UpdateComponent(9, ServerComponentKind::Translate(Translate { dx: 1, dy: 0 }));
    let out = conn.process_message(Message::Packet(c, p));
    assert!(out.to_server.is_empty());
    assert_eq!(out.logs, vec![LogEvent::OwnershipViolation(c, 9)]);
    assert_eq!(out.logs[0].level(), LogLevel::Warn);
}

#[test]
fn inbound_update_for_own_entity_is_forwarded() {
    let c = ConnectionId(7);
    let mut conn = Connection::new(c, 3);
    let p = Packet::UpdateComponent(3, ServerComponentKind::Translate(Translate { dx: 1, dy: 0 }));
    let out = conn.process_message(Message::Packet(c, p.clone()));
    assert_eq!(out.to_server, vec![Message::Packet(c, p)]);
    assert!(out.logs.is_empty());
}

#[test]
fn set_name_packet_goes_to_the_orchestrator() {
    let c = ConnectionId(7);
    let mut conn = Connection::new(c, 0);
    let out = conn.process_message(Message::Packet(c, Packet::SetName("zed".to_owned())));
    assert_eq!(out.to_server, vec![Message::SetName(c, "zed".to_owned())]);
    assert_eq!(out.logs, vec![LogEvent::NameRequest(c)]);
    assert_eq!(out.logs[0].level(), LogLevel::Info);
}

#[test]
fn name_taken_reply_reaches_the_client() {
    let c = ConnectionId(7);
    let mut conn = Connection::new(c, 0);
    let out = conn.process_message(Message::NameTaken(c, "zed".to_owned()));
    assert_eq!(out.to_self, vec![Message::SendPacket(Packet::NameTaken("zed".to_owned()))]);
}

#[test]
fn unhandled_message_is_logged_not_fatal() {
    let c = ConnectionId(7);
    let mut conn = Connection::new(c, 0);
    let out = conn.process_message(Message::BroadcastPacket(Packet::Logout));
    assert_eq!(out.logs, vec![LogEvent::UnhandledMessage(c)]);
}

#[test]
fn handle_incoming_tags_the_packet() {
    let c = ConnectionId(7);
    let conn = Connection::new(c, 0);
    let bytes = encode_packet(&Packet::Logout);
    assert_eq!(conn.handle_incoming(&bytes), Ok(Message::Packet(c, Packet::Logout)));
}

#[test]
fn handle_incoming_reports_bad_units() {
    let c = ConnectionId(7);
    let conn = Connection::new(c, 0);
    let r = conn.handle_incoming(&[0, 0xff]);
    assert!(matches!(r, Err(LogEvent::DecodeFailed(id, _)) if id == c));
}

#[test]
fn disconnect_is_reported_exactly_once() {
    let c = ConnectionId(7);
    let mut conn = Connection::new(c, 0);
    assert_eq!(conn.finish(), Some(Message::PlayerDisconnected(c)));
    assert_eq!(conn.finish(), None);
}

#[test]
fn entry_state_records_granted_name() {
    let c = ConnectionId(7);
    let mut entry = Entry::new(Details::new(c));
    let out = entry.dispatch_msg(Message::SetName(c, "zed".to_owned()));
    assert!(out.to_self.is_empty() && out.to_server.is_empty() && out.logs.is_empty());
    assert_eq!(entry.details.name, Some("zed".to_owned()));
}

#[test]
fn end_to_end_move_replication() {
    // client connects: the orchestrator creates and binds its entity
    let mut server = Server::new(2);
    let c = ConnectionId(0xabc);
    let (eid, msgs) = server.accept(c);
    let mut conn = Connection::new(c, eid);

    // the accept messages go through a tick and fan out
    let directives = server.tick(msgs);
    assert!(directives.contains(&Directive::Broadcast(Message::PlayerConnected(c))));
    assert!(directives.contains(&Directive::Broadcast(Message::SendPacket(
        Packet::PlayerEntityId(c, eid)
    ))));
    assert_eq!(directives.last(), Some(&Directive::Broadcast(Message::Tick)));

    // the actor turns its own connected event into the Id packet
    conn.process_message(Message::PlayerConnected(c));
    let flush = conn.process_message(Message::Tick);
    assert_eq!(flush.to_client, vec![Packet::Id(c)]);

    // the client asks to move its entity: one wire unit, decoded and gated
    let wire = encode_packet(&Packet::UpdateComponent(
        eid,
        ServerComponentKind::Translate(Translate { dx: 16, dy: 0 }),
    ));
    let msg = conn.handle_incoming(&wire).expect("the unit decodes");
    let out = conn.process_message(msg);
    assert_eq!(out.to_server.len(), 1);

    // next tick: the write is honored, the movement pass consumes it, and
    // the new position is broadcast to everyone
    let directives = server.tick(out.to_server);
    assert!(directives.contains(&Directive::Broadcast(Message::SendPacket(
        Packet::UpdateComponent(eid, ServerComponentKind::Position(Position { x: 16, y: 0 }))
    ))));

    // the actor queues the broadcast and flushes it to its client on Tick
    conn.process_message(Message::SendPacket(Packet::UpdateComponent(
        eid,
        ServerComponentKind::Position(Position { x: 16, y: 0 }),
    )));
    let flush = conn.process_message(Message::Tick);
    assert_eq!(
        flush.to_client,
        vec![Packet::UpdateComponent(
            eid,
            ServerComponentKind::Position(Position { x: 16, y: 0 })
        )]
    );
}

#[test]
fn unhandled_packet_is_logged_not_fatal() {
    let c = ConnectionId(7);
    let mut conn = Connection::new(c, 0);
    let out = conn.process_message(Message::Packet(c, Packet::Logout));
    assert_eq!(out.logs, vec![LogEvent::UnhandledPacket(c)]);
    assert!(out.to_server.is_empty());
}
