use vstd::prelude::*;
use crate::ids::ConnectionId;

verus! {

/// Server components are not exclusive to the server, as the name might
/// suggest.  They are computed on the server side and consumed on the client
/// side: the position of an entity, for example, is advanced by the server's
/// movement pass and replicated to every client that needs to draw it.
#[derive(Clone, Copy, PartialEq, Eq, Structural, Debug)]
pub enum ServerComponentKind {
    Position(Position),
    Translate(Translate),
}

/// A component that a client may ask the server to overwrite wholesale.
pub trait UpdatableComponent: Sized {
    fn update_component(&mut self, new_component: &Self)
        ensures
            *final(self) == *new_component,
    ;
}

/// Where an entity stands in the world.
#[derive(Clone, Copy, PartialEq, Eq, Structural, Debug)]
pub struct Position {
    pub x: i32,
    pub y: i32,
}

impl Default for Position {
    fn default() -> (p: Position)
        ensures
            p == (Position { x: 0, y: 0 }),
    {
        Position { x: 0, y: 0 }
    }
}

/// A one-tick displacement: applied to the entity's position by the movement
/// pass and then reset to zero, so that each request moves the entity once.
#[derive(Clone, Copy, PartialEq, Eq, Structural, Debug)]
pub struct Translate {
    pub dx: i32,
    pub dy: i32,
}

impl Default for Translate {
    fn default() -> (t: Translate)
        ensures
            t == (Translate { dx: 0, dy: 0 }),
    {
        Translate { dx: 0, dy: 0 }
    }
}

impl UpdatableComponent for Translate {
    fn update_component(&mut self, new_component: &Self) {
        *self = *new_component;
    }
}

/// Display details of an entity: its name and a short description.
#[derive(Clone, PartialEq, Debug)]
pub struct GameObjectDetails {
    pub name: String,
    pub description: String,
}

/// Marks an entity as the player entity of one connection.
#[derive(Clone, Copy, PartialEq, Eq, Structural, Debug)]
pub struct PlayerDetails(pub ConnectionId);

} // verus!
