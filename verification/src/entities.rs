use vstd::prelude::*;
use crate::ids::{ConnectionId, EntityId};
use crate::server_components::{GameObjectDetails, PlayerDetails, Position, Translate};
use crate::world::{EntityRecord, World};

verus! {

/// The shape of a fresh player record: at the origin, with a zero
/// displacement, owned by the given connection, and carrying provisional
/// display details until a name is granted.
pub open spec fn spec_player_record(r: EntityRecord, id: ConnectionId, e: EntityId) -> bool {
    &&& r.id == e
    &&& r.position == Some(Position { x: 0, y: 0 })
    &&& r.translate == Some(Translate { dx: 0, dy: 0 })
    &&& r.player == Some(PlayerDetails(id))
    &&& r.details matches Some(d) && d.name@ == "unnamed"@ && d.description@
        == "a newly arrived player"@
}

/// Creates the player entity of a freshly accepted connection: it starts at
/// the origin with a zero displacement, is marked as that player's entity,
/// and carries provisional display details until a name is granted.
pub fn create_player(world: &mut World, id: ConnectionId) -> (e: EntityId)
    requires
        old(world).well_formed(),
        old(world).next_entity_id() < EntityId::MAX,
    ensures
        final(world).well_formed(),
        e == old(world).next_entity_id(),
        final(world).next_entity_id() == e + 1,
        final(world).records().len() == old(world).records().len() + 1,
        forall|i: int|
            0 <= i < old(world).records().len() ==> final(world).records()[i] == old(
                world,
            ).records()[i],
        spec_player_record(final(world).records().last(), id, e),
{
    let details = GameObjectDetails {
        name: "unnamed".to_owned(),
        description: "a newly arrived player".to_owned(),
    };
    world.create_entity(
        Some(Position::default()),
        Some(Translate::default()),
        Some(PlayerDetails(id)),
        Some(details),
    )
}

} // verus!
