use vstd::prelude::*;
use crate::ids::EntityId;
use crate::server_components::{GameObjectDetails, PlayerDetails, Position, Translate};

verus! {

/// One entity: its identity plus at most one instance of each component
/// kind.  Components are plain data; behavior lives in the systems.
#[derive(Clone, Debug)]
pub struct EntityRecord {
    pub id: EntityId,
    pub position: Option<Position>,
    pub translate: Option<Translate>,
    pub player: Option<PlayerDetails>,
    pub details: Option<GameObjectDetails>,
}

/// The shared component store: entity identity to component values, with
/// identities handed out in creation order and never reused.
pub struct World {
    next_id: EntityId,
    entities: Vec<EntityRecord>,
}

impl World {
    /// Every record the world holds, in creation order.
    pub closed spec fn records(self) -> Seq<EntityRecord> {
        self.entities@
    }

    /// The identity the next created entity will receive.
    pub closed spec fn next_entity_id(self) -> EntityId {
        self.next_id
    }

    /// Identities are unique and below the allocation cursor.
    pub open spec fn well_formed(self) -> bool {
        &&& forall|i: int, j: int|
            0 <= i < j < self.records().len() ==> self.records()[i].id != self.records()[j].id
        &&& forall|i: int|
            0 <= i < self.records().len() ==> self.records()[i].id < self.next_entity_id()
    }

    pub open spec fn has_entity(self, e: EntityId) -> bool {
        exists|i: int| 0 <= i < self.records().len() && self.records()[i].id == e
    }

    pub fn new() -> (w: World)
        ensures
            w.well_formed(),
            w.records() == Seq::<EntityRecord>::empty(),
            w.next_entity_id() == 0,
    {
        World { next_id: 0, entities: Vec::new() }
    }

    pub fn entity_count(&self) -> (n: usize)
        ensures
            n == self.records().len(),
    {
        self.entities.len()
    }

    /// The identity the next created entity would receive.
    pub fn next_id(&self) -> (n: EntityId)
        ensures
            n == self.next_entity_id(),
    {
        self.next_id
    }

    pub fn get(&self, i: usize) -> (r: &EntityRecord)
        requires
            i < self.records().len(),
        ensures
            *r == self.records()[i as int],
    {
        &self.entities[i]
    }

    /// Where the record of the given entity stands, if the world holds one.
    pub fn find_entity(&self, e: EntityId) -> (r: Option<usize>)
        ensures
            r matches Some(i) ==> i < self.records().len() && self.records()[i as int].id == e,
            r is None ==> !self.has_entity(e),
    {
        let n = self.entities.len();
        let mut i: usize = 0;
        while i < n
            invariant
                n == self.records().len(),
                i <= n,
                forall|j: int| 0 <= j < i ==> self.records()[j].id != e,
            decreases n - i,
        {
            if self.entities[i].id == e {
                return Some(i);
            }
            i += 1;
        }
        None
    }

    /// Creates an entity holding the given components.  The world hands out
    /// the next identity and keeps every existing record as it stands.
    pub fn create_entity(
        &mut self,
        position: Option<Position>,
        translate: Option<Translate>,
        player: Option<PlayerDetails>,
        details: Option<GameObjectDetails>,
    ) -> (e: EntityId)
        requires
            old(self).well_formed(),
            old(self).next_entity_id() < EntityId::MAX,
        ensures
            final(self).well_formed(),
            e == old(self).next_entity_id(),
            final(self).next_entity_id() == e + 1,
            final(self).records() == old(self).records().push(
                EntityRecord { id: e, position, translate, player, details },
            ),
    {
        let e = self.next_id;
        self.next_id = self.next_id + 1;
        self.entities.push(EntityRecord { id: e, position, translate, player, details });
        e
    }

    /// Replaces the position component of the record at `i`.
    pub fn set_position_at(&mut self, i: usize, p: Position)
        requires
            i < old(self).records().len(),
        ensures
            final(self).records() == old(self).records().update(
                i as int,
                (EntityRecord { position: Some(p), ..old(self).records()[i as int] }),
            ),
            final(self).next_entity_id() == old(self).next_entity_id(),
            old(self).well_formed() ==> final(self).well_formed(),
    {
        let rec = &mut self.entities[i];
        rec.position = Some(p);
    }

    /// Replaces the translate component of the record at `i`.
    pub fn set_translate_at(&mut self, i: usize, t: Translate)
        requires
            i < old(self).records().len(),
        ensures
            final(self).records() == old(self).records().update(
                i as int,
                (EntityRecord { translate: Some(t), ..old(self).records()[i as int] }),
            ),
            final(self).next_entity_id() == old(self).next_entity_id(),
            old(self).well_formed() ==> final(self).well_formed(),
    {
        let rec = &mut self.entities[i];
        rec.translate = Some(t);
    }

    /// Destroys the entity whose record stands at `i`; the records after it
    /// move up one place.
    pub fn remove_at(&mut self, i: usize)
        requires
            old(self).well_formed(),
            i < old(self).records().len(),
        ensures
            final(self).well_formed(),
            final(self).records() == old(self).records().remove(i as int),
            final(self).next_entity_id() == old(self).next_entity_id(),
    {
        self.entities.remove(i);
    }
}

} // verus!
