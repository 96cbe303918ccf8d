use vstd::prelude::*;
use vstd::wrapping::i32_specs;
use crate::packets::Packet;
use crate::server_components::{Position, ServerComponentKind, Translate};
use crate::world::{EntityRecord, World};

verus! {

/// Whether the movement pass acts on a record: it must hold both a position
/// and a displacement, and the displacement must not already be zero.
pub open spec fn spec_needs_move(r: EntityRecord) -> bool {
    &&& r.position is Some
    &&& r.translate is Some
    &&& !(r.translate->0.dx == 0 && r.translate->0.dy == 0)
}

/// The position a displacement leads to, with two's-complement wrap-around
/// at the edge of the coordinate range.
pub open spec fn spec_translated(p: Position, t: Translate) -> Position {
    Position { x: i32_specs::wrapping_add(p.x, t.dx), y: i32_specs::wrapping_add(p.y, t.dy) }
}

/// What one movement pass leaves of a record: where both components stand,
/// the displacement is consumed — added to the position, then zeroed.
pub open spec fn spec_moved(r: EntityRecord) -> EntityRecord {
    if r.position is Some && r.translate is Some {
        EntityRecord {
            position: Some(spec_translated(r.position->0, r.translate->0)),
            translate: Some(Translate { dx: 0, dy: 0 }),
            ..r
        }
    } else {
        r
    }
}

/// The replication traffic of one movement pass: for every record it acts
/// on, in store order, a packet naming the entity and its new position.
pub open spec fn spec_movement_packets(rs: Seq<EntityRecord>) -> Seq<Packet>
    decreases rs.len(),
{
    if rs.len() == 0 {
        Seq::empty()
    } else {
        let head: Seq<Packet> = if spec_needs_move(rs[0]) {
            seq![
                Packet::UpdateComponent(
                    rs[0].id,
                    ServerComponentKind::Position(
                        spec_translated(rs[0].position->0, rs[0].translate->0),
                    ),
                ),
            ]
        } else {
            Seq::empty()
        };
        head + spec_movement_packets(rs.drop_first())
    }
}

proof fn lemma_movement_packets_snoc(rs: Seq<EntityRecord>, r: EntityRecord)
    ensures
        spec_movement_packets(rs.push(r)) == spec_movement_packets(rs) + (if spec_needs_move(r) {
            seq![
                Packet::UpdateComponent(
                    r.id,
                    ServerComponentKind::Position(spec_translated(r.position->0, r.translate->0)),
                ),
            ]
        } else {
            Seq::<Packet>::empty()
        }),
    decreases rs.len(),
{
    let tail: Seq<Packet> = if spec_needs_move(r) {
        seq![
            Packet::UpdateComponent(
                r.id,
                ServerComponentKind::Position(spec_translated(r.position->0, r.translate->0)),
            ),
        ]
    } else {
        Seq::<Packet>::empty()
    };
    if rs.len() == 0 {
        reveal_with_fuel(spec_movement_packets, 2);
        assert(rs.push(r)[0] == r);
        assert(rs.push(r).drop_first() =~= rs);
        assert(spec_movement_packets(rs.push(r)) =~= tail);
        assert(spec_movement_packets(rs) + tail =~= tail);
    } else {
        assert(rs.push(r)[0] == rs[0]);
        assert(rs.push(r).drop_first() =~= rs.drop_first().push(r));
        lemma_movement_packets_snoc(rs.drop_first(), r);
        let head: Seq<Packet> = if spec_needs_move(rs[0]) {
            seq![
                Packet::UpdateComponent(
                    rs[0].id,
                    ServerComponentKind::Position(
                        spec_translated(rs[0].position->0, rs[0].translate->0),
                    ),
                ),
            ]
        } else {
            Seq::<Packet>::empty()
        };
        assert(head + (spec_movement_packets(rs.drop_first()) + tail) =~= (head
            + spec_movement_packets(rs.drop_first())) + tail);
    }
}

/// The one per-tick transformation pass of this scope.  For every entity
/// holding both a position and a non-zero displacement it adds the
/// displacement to the position, resets the displacement to zero, and queues
/// an outbound packet naming the entity and the new position for broadcast.
pub struct MoveSystem;

impl MoveSystem {
    /// One pass over the whole store.  Every record it acts on is left in
    /// its consumed form; every other record is untouched; the returned
    /// packets replicate exactly the positions that changed, in store order.
    pub fn run(&mut self, world: &mut World) -> (out: Vec<Packet>)
        requires
            old(world).well_formed(),
        ensures
            *final(self) == *old(self),
            final(world).well_formed(),
            final(world).next_entity_id() == old(world).next_entity_id(),
            final(world).records().len() == old(world).records().len(),
            forall|i: int|
                0 <= i < old(world).records().len() ==> final(world).records()[i] == spec_moved(
                    old(world).records()[i],
                ),
            out@ == spec_movement_packets(old(world).records()),
    {
        let mut out: Vec<Packet> = Vec::new();
        let n = world.entity_count();
        let mut i: usize = 0;
        while i < n
            invariant
                world.well_formed(),
                n == world.records().len(),
                world.records().len() == old(world).records().len(),
                world.next_entity_id() == old(world).next_entity_id(),
                i <= n,
                forall|j: int|
                    0 <= j < i ==> world.records()[j] == spec_moved(old(world).records()[j]),
                forall|j: int| i <= j < n ==> world.records()[j] == old(world).records()[j],
                out@ == spec_movement_packets(old(world).records().take(i as int)),
            decreases n - i,
        {
            let ghost prev = old(world).records()[i as int];
            let rec = world.get(i);
            let id = rec.id;
            let pos = rec.position;
            let tr = rec.translate;
            match (pos, tr) {
                (Some(p), Some(t)) => {
                    if t.dx != 0 || t.dy != 0 {
                        let np = Position {
                            x: p.x.wrapping_add(t.dx),
                            y: p.y.wrapping_add(t.dy),
                        };
                        world.set_position_at(i, np);
                        world.set_translate_at(i, Translate { dx: 0, dy: 0 });
                        out.push(Packet::UpdateComponent(id, ServerComponentKind::Position(np)));
                        assert(world.records()[i as int] == spec_moved(prev));
                    } else {
                        assert(world.records()[i as int] == spec_moved(prev));
                    }
                },
                _ => {
                    assert(world.records()[i as int] == spec_moved(prev));
                },
            }
            proof {
                lemma_movement_packets_snoc(old(world).records().take(i as int), prev);
                assert(old(world).records().take(i as int).push(prev) =~= old(
                    world,
                ).records().take(i as int + 1));
            }
            i += 1;
        }
        proof {
            assert(old(world).records().take(n as int) =~= old(world).records());
        }
        out
    }
}

} // verus!
