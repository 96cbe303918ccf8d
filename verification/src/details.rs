use vstd::prelude::*;
use crate::ids::ConnectionId;

verus! {

/// Global primitive details about one player: the connection's identity and
/// the display name, once the orchestrator has granted one.
#[derive(Clone, Debug)]
pub struct Details {
    pub id: ConnectionId,
    pub name: Option<String>,
}

impl Details {
    pub fn new(id: ConnectionId) -> (d: Details)
        ensures
            d.id == id,
            d.name is None,
    {
        Details { id, name: None }
    }
}

} // verus!
