use vstd::prelude::*;
use crate::ids::{ConnectionId, EntityId};

verus! {

/// Declares `bimap::BiHashMap` so that registries can hold one; the value
/// itself stays opaque and is read only through the trusted accessors below.
#[verifier::external_type_specification]
#[verifier::external_body]
#[verifier::reject_recursive_types(L)]
#[verifier::reject_recursive_types(R)]
#[verifier::reject_recursive_types(LS)]
#[verifier::reject_recursive_types(RS)]
pub struct ExBiHashMap<L, R, LS, RS>(bimap::BiHashMap<L, R, LS, RS>);

/// The pairs a connection-to-entity bimap holds, read as a map from the
/// connection's bits to the entity id bound to it.
pub uninterp spec fn bimap_pairs(m: bimap::BiHashMap<u128, u32>) -> Map<u128, u32>;

/// Relies on `BiHashMap::insert`: inserting a pair whose two sides are both
/// absent adds exactly that pair and removes nothing.
#[verifier::external_body]
fn bimap_insert(m: &mut bimap::BiHashMap<u128, u32>, l: u128, r: u32)
    requires
        !bimap_pairs(*old(m)).dom().contains(l),
        forall|c: u128| bimap_pairs(*old(m)).dom().contains(c) ==> bimap_pairs(*old(m))[c] != r,
    ensures
        bimap_pairs(*final(m)) == bimap_pairs(*old(m)).insert(l, r),
{
    m.insert(l, r);
}

/// Relies on `BiHashMap::get_by_left`: the right value of the pair with the
/// given left value, if the bimap holds one.
#[verifier::external_body]
fn bimap_get_by_left(m: &bimap::BiHashMap<u128, u32>, l: u128) -> (r: Option<u32>)
    ensures
        r == (if bimap_pairs(*m).dom().contains(l) {
            Some(bimap_pairs(*m)[l])
        } else {
            None::<u32>
        }),
{
    m.get_by_left(&l).copied()
}

/// Relies on `BiHashMap::get_by_right`: the left value of the pair with the
/// given right value, if the bimap holds one; no pair holds it otherwise.
#[verifier::external_body]
fn bimap_get_by_right(m: &bimap::BiHashMap<u128, u32>, r: u32) -> (l: Option<u128>)
    ensures
        l matches Some(c) ==> bimap_pairs(*m).dom().contains(c) && bimap_pairs(*m)[c] == r,
        l is None ==> forall|c: u128| bimap_pairs(*m).dom().contains(c) ==> bimap_pairs(*m)[c] != r,
{
    m.get_by_right(&r).copied()
}

/// Relies on `BiHashMap::remove_by_left`: removes the pair with the given
/// left value, if any, and returns it.
#[verifier::external_body]
fn bimap_remove_by_left(m: &mut bimap::BiHashMap<u128, u32>, l: u128) -> (r: Option<(u128, u32)>)
    ensures
        bimap_pairs(*final(m)) == bimap_pairs(*old(m)).remove(l),
        r == (if bimap_pairs(*old(m)).dom().contains(l) {
            Some((l, bimap_pairs(*old(m))[l]))
        } else {
            None::<(u128, u32)>
        }),
{
    m.remove_by_left(&l)
}

/// Bidirectional mapping between a connection's identity and the one entity
/// that connection controls.  The simulation layer consults it before any
/// component write: a request tagged with a connection may touch only the
/// entity bound to that connection.
pub struct OwnershipRegistry {
    map: bimap::BiHashMap<u128, u32>,
}

impl OwnershipRegistry {
    /// The bindings, keyed by the connection's bits.
    pub closed spec fn bindings(&self) -> Map<u128, u32> {
        bimap_pairs(self.map)
    }

    /// No two connections are ever bound to the same entity.
    pub open spec fn well_formed(&self) -> bool {
        forall|c1: u128, c2: u128|
            self.bindings().dom().contains(c1) && self.bindings().dom().contains(c2)
                && self.bindings()[c1] == self.bindings()[c2] ==> c1 == c2
    }

    /// Relies on `BiHashMap::new`: a new bimap holds no pairs.
    #[verifier::external_body]
    pub fn new() -> (r: OwnershipRegistry)
        ensures
            r.bindings().dom() == Set::<u128>::empty(),
            r.well_formed(),
    {
        OwnershipRegistry { map: bimap::BiHashMap::new() }
    }

    /// Establishes exclusive control of `entity` by `conn`; called once, at
    /// player-entity creation, with both sides still unbound.
    pub fn bind(&mut self, conn: ConnectionId, entity: EntityId)
        requires
            old(self).well_formed(),
            !old(self).bindings().dom().contains(conn.0),
            forall|c: u128| old(self).bindings().dom().contains(c) ==> old(self).bindings()[c]
                != entity,
        ensures
            final(self).well_formed(),
            final(self).bindings() == old(self).bindings().insert(conn.0, entity),
    {
        bimap_insert(&mut self.map, conn.0, entity);
    }

    /// The entity the given connection controls, if it controls one.
    pub fn lookup_by_connection(&self, conn: ConnectionId) -> (r: Option<EntityId>)
        ensures
            r == (if self.bindings().dom().contains(conn.0) {
                Some(self.bindings()[conn.0])
            } else {
                None::<EntityId>
            }),
    {
        bimap_get_by_left(&self.map, conn.0)
    }

    /// The connection controlling the given entity, if one does.
    pub fn lookup_by_entity(&self, entity: EntityId) -> (r: Option<ConnectionId>)
        ensures
            r matches Some(c) ==> self.bindings().dom().contains(c.0) && self.bindings()[c.0]
                == entity,
            r is None ==> forall|c: u128| self.bindings().dom().contains(c) ==> self.bindings()[c]
                != entity,
    {
        match bimap_get_by_right(&self.map, entity) {
            Some(bits) => Some(ConnectionId(bits)),
            None => None,
        }
    }

    /// Severs the connection's binding on disconnect; the entity it
    /// controlled, if any, comes back.
    pub fn unbind(&mut self, conn: ConnectionId) -> (r: Option<EntityId>)
        requires
            old(self).well_formed(),
        ensures
            final(self).well_formed(),
            final(self).bindings() == old(self).bindings().remove(conn.0),
            r == (if old(self).bindings().dom().contains(conn.0) {
                Some(old(self).bindings()[conn.0])
            } else {
                None::<EntityId>
            }),
    {
        let out = match bimap_remove_by_left(&mut self.map, conn.0) {
            Some((_, e)) => Some(e),
            None => None,
        };
        proof {
            assert forall|c1: u128, c2: u128|
                self.bindings().dom().contains(c1) && self.bindings().dom().contains(c2)
                    && self.bindings()[c1] == self.bindings()[c2] implies c1 == c2 by {
                assert(old(self).bindings()[c1] == self.bindings()[c1]);
                assert(old(self).bindings()[c2] == self.bindings()[c2]);
            }
        }
        out
    }
}

} // verus!
