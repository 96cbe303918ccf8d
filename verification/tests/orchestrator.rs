use encosmo::ids::ConnectionId;
use encosmo::logs::LogEvent;
use encosmo::messages::Message;
use encosmo::packets::Packet;
use encosmo::server::{Directive, Server};
use encosmo::server_components::{Position, ServerComponentKind, Translate};

fn translate_update(eid: u32, dx: i32, dy: i32) -> Packet {
    Packet::UpdateComponent(eid, ServerComponentKind::Translate(Translate { dx, dy }))
}

#[test]
fn accept_registers_and_binds() {
    let mut server = Server::new(2);
    let c = ConnectionId(1);
    let (eid, msgs) = server.accept(c);
    assert_eq!(eid, 0);
    assert_eq!(server.connections, vec![c]);
    assert_eq!(server.player_entities.lookup_by_connection(c), Some(eid));
    assert_eq!(
        msgs,
        vec![
            Message::PlayerConnected(c),
            Message::BroadcastPacket(Packet::PlayerEntityId(c, eid)),
        ]
    );
}

#[test]
fn owner_update_is_honored() {
    let mut server = Server::new(2);
    let c = ConnectionId(1);
    let (eid, _) = server.accept(c);
    let out = server.process_message(Message::Packet(c, translate_update(eid, 16, 0)));
    assert_eq!(out, vec![Directive::Log(LogEvent::ComponentUpdated(eid))]);
    let idx = server.world.find_entity(eid).unwrap();
    assert_eq!(server.world.get(idx).translate, Some(Translate { dx: 16, dy: 0 }));
}

#[test]
fn foreign_update_is_rejected_and_logged() {
    let mut server = Server::new(2);
    let c1 = ConnectionId(1);
    let c2 = ConnectionId(2);
    let (e1, _) = server.accept(c1);
    let (_e2, _) = server.accept(c2);
    // the second connection tries to move the first one's entity
    let out = server.process_message(Message::Packet(c2, translate_update(e1, 5, 5)));
    assert_eq!(out, vec![Directive::Log(LogEvent::OwnershipViolation(c2, e1))]);
    // the stored component did not change
    let idx = server.world.find_entity(e1).unwrap();
    assert_eq!(server.world.get(idx).translate, Some(Translate { dx: 0, dy: 0 }));
}

#[test]
fn update_for_unknown_entity_is_logged() {
    let mut server = Server::new(2);
    let c = ConnectionId(1);
    let _ = server.accept(c);
    let out = server.process_message(Message::Packet(c, translate_update(99, 1, 1)));
    assert_eq!(out, vec![Directive::Log(LogEvent::UnknownEntity(99))]);
}

#[test]
fn position_update_from_client_is_refused() {
    let mut server = Server::new(2);
    let c = ConnectionId(1);
    let (eid, _) = server.accept(c);
    let p = Packet::UpdateComponent(eid, ServerComponentKind::Position(Position { x: 1, y: 1 }));
    let out = server.process_message(Message::Packet(c, p));
    assert_eq!(out, vec![Directive::Log(LogEvent::NonUpdatableComponent(eid))]);
}

#[test]
fn name_arbitration_same_name() {
    let mut server = Server::new(2);
    let c1 = ConnectionId(1);
    let c2 = ConnectionId(2);
    server.accept(c1);
    server.accept(c2);
    let out1 = server.process_message(Message::SetName(c1, "zed".to_owned()));
    assert_eq!(out1.len(), 2);
    assert_eq!(out1[0], Directive::SendTo(c1, Message::SetName(c1, "zed".to_owned())));
    assert_eq!(
        out1[1],
        Directive::Broadcast(Message::SendPacket(Packet::Name(c1, "zed".to_owned())))
    );
    // the same name from another connection is refused
    let out2 = server.process_message(Message::SetName(c2, "zed".to_owned()));
    assert_eq!(out2, vec![Directive::SendTo(c2, Message::NameTaken(c2, "zed".to_owned()))]);
}

#[test]
fn name_arbitration_distinct_names() {
    let mut server = Server::new(2);
    let c1 = ConnectionId(1);
    let c2 = ConnectionId(2);
    server.accept(c1);
    server.accept(c2);
    let out1 = server.process_message(Message::SetName(c1, "ada".to_owned()));
    let out2 = server.process_message(Message::SetName(c2, "joy".to_owned()));
    assert_eq!(
        out1[1],
        Directive::Broadcast(Message::SendPacket(Packet::Name(c1, "ada".to_owned())))
    );
    assert_eq!(
        out2[1],
        Directive::Broadcast(Message::SendPacket(Packet::Name(c2, "joy".to_owned())))
    );
}

#[test]
fn renaming_frees_the_old_name() {
    let mut server = Server::new(2);
    let c1 = ConnectionId(1);
    let c2 = ConnectionId(2);
    server.accept(c1);
    server.accept(c2);
    server.process_message(Message::SetName(c1, "zed".to_owned()));
    server.process_message(Message::SetName(c1, "ada".to_owned()));
    // c1 moved on, so zed is free again
    let out = server.process_message(Message::SetName(c2, "zed".to_owned()));
    assert_eq!(
        out[1],
        Directive::Broadcast(Message::SendPacket(Packet::Name(c2, "zed".to_owned())))
    );
}

#[test]
fn disconnect_cleans_every_table() {
    let mut server = Server::new(2);
    let c = ConnectionId(1);
    let (eid, _) = server.accept(c);
    server.process_message(Message::SetName(c, "zed".to_owned()));
    let out = server.process_message(Message::PlayerDisconnected(c));
    assert_eq!(out, vec![Directive::Broadcast(Message::PlayerDisconnected(c))]);
    // the connections table no longer holds the connection
    assert!(server.connections.is_empty());
    // the registry no longer binds it
    assert_eq!(server.player_entities.lookup_by_connection(c), None);
    assert_eq!(server.player_entities.lookup_by_entity(eid), None);
    // the player entity is gone and the name is free again
    assert_eq!(server.world.find_entity(eid), None);
    let c2 = ConnectionId(2);
    server.accept(c2);
    let granted = server.process_message(Message::SetName(c2, "zed".to_owned()));
    assert_eq!(granted.len(), 2);
}

#[test]
fn tick_ends_with_tick_broadcast() {
    let mut server = Server::new(2);
    let c = ConnectionId(1);
    let (_, msgs) = server.accept(c);
    let out = server.tick(msgs);
    assert_eq!(out.last(), Some(&Directive::Broadcast(Message::Tick)));
    assert!(out.contains(&Directive::Broadcast(Message::PlayerConnected(c))));
}

#[test]
fn broadcast_request_is_wrapped() {
    let mut server = Server::new(2);
    let out = server.process_message(Message::BroadcastPacket(Packet::Logout));
    assert_eq!(out, vec![Directive::Broadcast(Message::SendPacket(Packet::Logout))]);
}

#[test]
fn update_without_the_component_is_logged() {
    let mut server = Server::new(2);
    let c = ConnectionId(1);
    // an owned entity that carries no translate component at all
    let e = server.world.create_entity(Some(Position { x: 0, y: 0 }), None, None, None);
    server.connections.push(c);
    server.player_entities.bind(c, e);
    let out = server.process_message(Message::Packet(c, translate_update(e, 1, 1)));
    assert_eq!(out, vec![Directive::Log(LogEvent::MissingComponent(e))]);
}
