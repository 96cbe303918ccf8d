use encosmo::entities::create_player;
use encosmo::ids::ConnectionId;
use encosmo::mailbox::Mailbox;
use encosmo::packets::Packet;
use encosmo::registry::OwnershipRegistry;
use encosmo::server_components::{
    Position, ServerComponentKind, Translate, UpdatableComponent,
};
use encosmo::systems::MoveSystem;
use encosmo::world::World;

#[test]
fn player_entities_get_sequential_ids() {
    let mut world = World::new();
    let a = create_player(&mut world, ConnectionId(1));
    let b = create_player(&mut world, ConnectionId(2));
    assert_eq!(a, 0);
    assert_eq!(b, 1);
    assert_eq!(world.entity_count(), 2);
    let rec = world.get(0);
    assert_eq!(rec.position, Some(Position { x: 0, y: 0 }));
    assert_eq!(rec.translate, Some(Translate { dx: 0, dy: 0 }));
    assert_eq!(rec.player.unwrap().0, ConnectionId(1));
}

#[test]
fn find_entity_by_id() {
    let mut world = World::new();
    let a = create_player(&mut world, ConnectionId(1));
    assert_eq!(world.find_entity(a), Some(0));
    assert_eq!(world.find_entity(77), None);
}

#[test]
fn movement_consumes_translate() {
    // one moving entity, one still, one with no translate at all
    let mut world = World::new();
    let a = create_player(&mut world, ConnectionId(1));
    let b = create_player(&mut world, ConnectionId(2));
    world.set_translate_at(0, Translate { dx: 16, dy: -4 });
    world.create_entity(Some(Position { x: 3, y: 3 }), None, None, None);
    let mut mover = MoveSystem;
    let packets = mover.run(&mut world);
    // the moved entity: position advanced, translate reset to zero
    assert_eq!(world.get(0).position, Some(Position { x: 16, y: -4 }));
    assert_eq!(world.get(0).translate, Some(Translate { dx: 0, dy: 0 }));
    // the still entity and the translate-less entity are untouched
    assert_eq!(world.get(1).position, Some(Position { x: 0, y: 0 }));
    assert_eq!(world.get(2).position, Some(Position { x: 3, y: 3 }));
    let _ = b;
    // exactly one replication packet, naming the entity and the new position
    assert_eq!(
        packets,
        vec![Packet::UpdateComponent(a, ServerComponentKind::Position(Position { x: 16, y: -4 }))]
    );
}

#[test]
fn movement_wraps_at_coordinate_edge() {
    let mut world = World::new();
    create_player(&mut world, ConnectionId(1));
    world.set_position_at(0, Position { x: i32::MAX, y: 0 });
    world.set_translate_at(0, Translate { dx: 1, dy: 0 });
    let mut mover = MoveSystem;
    mover.run(&mut world);
    assert_eq!(world.get(0).position, Some(Position { x: i32::MIN, y: 0 }));
}

#[test]
fn update_component_overwrites() {
    let mut t = Translate { dx: 1, dy: 2 };
    t.update_component(&Translate { dx: 9, dy: 8 });
    assert_eq!(t, Translate { dx: 9, dy: 8 });
}

#[test]
fn registry_is_a_bijection() {
    let mut reg = OwnershipRegistry::new();
    reg.bind(ConnectionId(10), 0);
    reg.bind(ConnectionId(20), 1);
    assert_eq!(reg.lookup_by_connection(ConnectionId(10)), Some(0));
    assert_eq!(reg.lookup_by_connection(ConnectionId(20)), Some(1));
    assert_eq!(reg.lookup_by_connection(ConnectionId(30)), None);
    assert_eq!(reg.lookup_by_entity(0), Some(ConnectionId(10)));
    assert_eq!(reg.lookup_by_entity(1), Some(ConnectionId(20)));
    assert_eq!(reg.lookup_by_entity(2), None);
}

#[test]
fn registry_unbind_releases_both_sides() {
    let mut reg = OwnershipRegistry::new();
    reg.bind(ConnectionId(10), 0);
    assert_eq!(reg.unbind(ConnectionId(10)), Some(0));
    assert_eq!(reg.lookup_by_connection(ConnectionId(10)), None);
    assert_eq!(reg.lookup_by_entity(0), None);
    assert_eq!(reg.unbind(ConnectionId(10)), None);
}

#[test]
fn mailbox_applies_backpressure() {
    let mut mb: Mailbox<u32> = Mailbox::new(2);
    assert!(mb.try_send(1).is_ok());
    assert!(mb.try_send(2).is_ok());
    // full: the item comes back instead of being dropped, the box is unchanged
    assert_eq!(mb.try_send(3), Err(3));
    assert_eq!(mb.len(), 2);
    // once drained, the retry succeeds
    assert_eq!(mb.drain(), vec![1, 2]);
    assert!(mb.try_send(3).is_ok());
    assert_eq!(mb.recv(), Some(3));
    assert_eq!(mb.recv(), None);
}

#[test]
fn mailbox_delivers_in_order() {
    let mut mb: Mailbox<u32> = Mailbox::new(100);
    for v in [5, 6, 7] {
        mb.try_send(v).unwrap();
    }
    assert_eq!(mb.recv(), Some(5));
    assert_eq!(mb.recv(), Some(6));
    assert_eq!(mb.recv(), Some(7));
}
