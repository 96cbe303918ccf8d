use vstd::prelude::*;
use crate::entities::{create_player, spec_player_record};
use crate::ids::{ConnectionId, EntityId};
use crate::logs::LogEvent;
use crate::messages::Message;
use crate::packets::Packet;
use crate::registry::OwnershipRegistry;
use crate::server_components::Translate;
use crate::world::{EntityRecord, World};

verus! {

/// One effect the orchestrator asks its surroundings to perform: deliver a
/// message to every connection, deliver one to a single connection's inbox,
/// or render a log line.
#[derive(Clone, PartialEq, Debug)]
pub enum Directive {
    Broadcast(Message),
    SendTo(ConnectionId, Message),
    Log(LogEvent),
}

/// The server orchestrator's authoritative state: the table of live
/// connections, the claimed display names, the shared world, and the
/// ownership registry.  The sockets, channels and the tick timer stay with
/// the binary around it; this core owns every decision.
pub struct Server {
    pub tick_rate: u8,
    pub connections: Vec<ConnectionId>,
    pub names: Vec<(ConnectionId, String)>,
    pub world: World,
    pub player_entities: OwnershipRegistry,
}

/// Whether the claim table `ns` says connection `c` holds the name `n`.
pub open spec fn claim_in(ns: Seq<(ConnectionId, String)>, c: ConnectionId, n: Seq<char>) -> bool {
    exists|i: int| 0 <= i < ns.len() && ns[i].0 == c && ns[i].1@ == n
}

/// Whether the claim table `ns` says some connection holds the name `n`.
pub open spec fn taken_in(ns: Seq<(ConnectionId, String)>, n: Seq<char>) -> bool {
    exists|i: int| 0 <= i < ns.len() && ns[i].1@ == n
}

impl Server {
    pub open spec fn has_connection(self, c: ConnectionId) -> bool {
        self.connections@.contains(c)
    }

    /// Whether connection `c` currently holds the display name `n`.
    pub open spec fn has_claim(self, c: ConnectionId, n: Seq<char>) -> bool {
        claim_in(self.names@, c, n)
    }

    /// Whether any connection currently holds the display name `n`.
    pub open spec fn name_taken(self, n: Seq<char>) -> bool {
        taken_in(self.names@, n)
    }

    pub open spec fn well_formed(self) -> bool {
        &&& self.world.well_formed()
        &&& self.player_entities.well_formed()
        &&& forall|i: int, j: int|
            0 <= i < j < self.connections@.len() ==> self.connections@[i] != self.connections@[j]
        &&& forall|c: u128|
            self.player_entities.bindings().dom().contains(c)
                ==> self.player_entities.bindings()[c] < self.world.next_entity_id()
        &&& forall|c: u128|
            self.player_entities.bindings().dom().contains(c) ==> self.connections@.contains(
                ConnectionId(c),
            )
        &&& forall|i: int, j: int|
            0 <= i < j < self.names@.len() ==> self.names@[i].0 != self.names@[j].0
        &&& forall|i: int, j: int|
            0 <= i < j < self.names@.len() ==> self.names@[i].1@ != self.names@[j].1@
    }

    /// A fresh server: no connections, no names, an empty world, an empty
    /// registry, and the configured tick rate.
    pub fn new(tick_rate: u8) -> (s: Server)
        ensures
            s.well_formed(),
            s.tick_rate == tick_rate,
            s.connections@ == Seq::<ConnectionId>::empty(),
            s.names@ == Seq::<(ConnectionId, String)>::empty(),
            s.world.records() == Seq::<EntityRecord>::empty(),
            s.player_entities.bindings().dom() == Set::<u128>::empty(),
    {
        Server {
            tick_rate,
            connections: Vec::new(),
            names: Vec::new(),
            world: World::new(),
            player_entities: OwnershipRegistry::new(),
        }
    }

    /// A connection was accepted: register it, create its player entity,
    /// bind it as that entity's owner, and hand back the messages the accept
    /// path owes the server inbox — the lifecycle announcement and the
    /// entity-id assignment to broadcast.
    pub fn accept(&mut self, id: ConnectionId) -> (r: (EntityId, Vec<Message>))
        requires
            old(self).well_formed(),
            !old(self).has_connection(id),
            old(self).world.next_entity_id() < EntityId::MAX,
        ensures
            final(self).well_formed(),
            final(self).tick_rate == old(self).tick_rate,
            final(self).connections@ == old(self).connections@.push(id),
            final(self).names@ == old(self).names@,
            r.0 == old(self).world.next_entity_id(),
            final(self).world.records().len() == old(self).world.records().len() + 1,
            forall|i: int|
                0 <= i < old(self).world.records().len() ==> final(self).world.records()[i] == old(
                    self,
                ).world.records()[i],
            spec_player_record(final(self).world.records().last(), id, r.0),
            final(self).player_entities.bindings() == old(self).player_entities.bindings().insert(
                id.0,
                r.0,
            ),
            r.1@ == seq![
                Message::PlayerConnected(id),
                Message::BroadcastPacket(Packet::PlayerEntityId(id, r.0)),
            ],
    {
        self.connections.push(id);
        let eid = create_player(&mut self.world, id);
        proof {
            assert forall|c: u128|
                old(self).player_entities.bindings().dom().contains(c) implies old(
                self,
            ).player_entities.bindings()[c] != eid by {}
        }
        self.player_entities.bind(id, eid);
        let mut msgs: Vec<Message> = Vec::new();
        msgs.push(Message::PlayerConnected(id));
        msgs.push(Message::BroadcastPacket(Packet::PlayerEntityId(id, eid)));
        proof {
            assert(msgs@ =~= seq![
                Message::PlayerConnected(id),
                Message::BroadcastPacket(Packet::PlayerEntityId(id, eid)),
            ]);
            let pre = old(self).connections@;
            let post_c = self.connections@;
            assert(post_c == pre.push(id));
            assert forall|i: int, j: int| 0 <= i < j < post_c.len() implies post_c[i]
                != post_c[j] by {
                if j == pre.len() {
                    assert(post_c[j] == id);
                    if post_c[i] == id {
                        assert(pre[i] == id);
                        assert(pre.contains(id));
                    }
                }
            }
            assert forall|c: u128|
                self.player_entities.bindings().dom().contains(c) implies post_c.contains(
                ConnectionId(c),
            ) by {
                if c == id.0 {
                    assert(ConnectionId(c) == id);
                    assert(post_c[pre.len() as int] == id);
                } else {
                    assert(old(self).player_entities.bindings().dom().contains(c));
                    assert(pre.contains(ConnectionId(c)));
                    let k = choose|k: int| 0 <= k < pre.len() && pre[k] == ConnectionId(c);
                    assert(post_c[k] == ConnectionId(c));
                }
            }
        }
        (eid, msgs)
    }
}

/// What an honored or rejected component update leaves of the server (the
/// ownership rule of the simulation layer): a request from `from` naming
/// entity `eid` is honored exactly when the registry binds `from` to `eid`;
/// every rejection leaves the world untouched and logs why.
pub open spec fn spec_update_component(
    pre: Server,
    from: ConnectionId,
    eid: EntityId,
    t: Translate,
    post: Server,
    out: Seq<Directive>,
) -> bool {
    &&& post.tick_rate == pre.tick_rate
    &&& post.connections@ == pre.connections@
    &&& post.names@ == pre.names@
    &&& post.player_entities.bindings() == pre.player_entities.bindings()
    &&& {
        let b = pre.player_entities.bindings();
        if !(b.dom().contains(from.0) && b[from.0] == eid) {
            &&& post.world == pre.world
            &&& out == seq![
                Directive::Log(
                    if exists|c: u128| b.dom().contains(c) && b[c] == eid {
                        LogEvent::OwnershipViolation(from, eid)
                    } else {
                        LogEvent::UnknownEntity(eid)
                    },
                ),
            ]
        } else if pre.world.has_entity(eid) {
            exists|i: int|
                {
                    &&& 0 <= i < pre.world.records().len()
                    &&& pre.world.records()[i].id == eid
                    &&& if pre.world.records()[i].translate is Some {
                        &&& post.world.records() == pre.world.records().update(
                            i,
                            (EntityRecord {
                                translate: Some(t),
                                ..pre.world.records()[i]
                            }),
                        )
                        &&& post.world.next_entity_id() == pre.world.next_entity_id()
                        &&& out == seq![Directive::Log(LogEvent::ComponentUpdated(eid))]
                    } else {
                        &&& post.world == pre.world
                        &&& out == seq![Directive::Log(LogEvent::MissingComponent(eid))]
                    }
                }
        } else {
            &&& post.world == pre.world
            &&& out == seq![Directive::Log(LogEvent::UnknownEntity(eid))]
        }
    }
}

impl Server {
    /// Applies one client-requested component write, under the ownership
    /// invariant: only the connection bound to an entity may mutate it; a
    /// request for any other entity is dropped and logged, never honored and
    /// never fatal.
    fn update_component(&mut self, from: ConnectionId, eid: EntityId, t: Translate) -> (out: Vec<
        Directive,
    >)
        requires
            old(self).well_formed(),
        ensures
            final(self).well_formed(),
            spec_update_component(*old(self), from, eid, t, *final(self), out@),
    {
        let mut out: Vec<Directive> = Vec::new();
        let owned = self.player_entities.lookup_by_connection(from);
        let honored = match owned {
            Some(e) => e == eid,
            None => false,
        };
        if !honored {
            match self.player_entities.lookup_by_entity(eid) {
                Some(_) => out.push(Directive::Log(LogEvent::OwnershipViolation(from, eid))),
                None => out.push(Directive::Log(LogEvent::UnknownEntity(eid))),
            }
            proof {
                let b = old(self).player_entities.bindings();
                if exists|c: u128| b.dom().contains(c) && b[c] == eid {
                    assert(out@ =~= seq![Directive::Log(LogEvent::OwnershipViolation(from, eid))]);
                } else {
                    assert(out@ =~= seq![Directive::Log(LogEvent::UnknownEntity(eid))]);
                }
            }
            return out;
        }
        match self.world.find_entity(eid) {
            None => {
                out.push(Directive::Log(LogEvent::UnknownEntity(eid)));
            },
            Some(i) => {
                let has_translate = self.world.get(i).translate.is_some();
                if has_translate {
                    self.world.set_translate_at(i, t);
                    out.push(Directive::Log(LogEvent::ComponentUpdated(eid)));
                } else {
                    out.push(Directive::Log(LogEvent::MissingComponent(eid)));
                }
            },
        }
        out
    }
}

/// What name arbitration leaves of the server.  Names are granted centrally
/// because uniqueness needs the global view: a name already claimed by any
/// connection is refused with a NameTaken response to the requester alone; a
/// free name replaces the requester's previous claim, is confirmed to it,
/// and is broadcast to everyone.
pub open spec fn spec_set_name(
    pre: Server,
    c: ConnectionId,
    name: String,
    post: Server,
    out: Seq<Directive>,
) -> bool {
    &&& post.tick_rate == pre.tick_rate
    &&& post.connections@ == pre.connections@
    &&& post.world == pre.world
    &&& post.player_entities.bindings() == pre.player_entities.bindings()
    &&& if pre.name_taken(name@) {
        &&& post.names@ == pre.names@
        &&& out == seq![Directive::SendTo(c, Message::NameTaken(c, name))]
    } else {
        &&& forall|c2: ConnectionId, n: Seq<char>|
            #![trigger post.has_claim(c2, n)]
            post.has_claim(c2, n) <==> ((c2 == c && n == name@) || (pre.has_claim(c2, n) && c2
                != c))
        &&& out.len() == 2
        &&& out[0] matches Directive::SendTo(c2, m) && c2 == c && (m matches Message::SetName(
            c3,
            s,
        ) && c3 == c && s@ == name@)
        &&& out[1] matches Directive::Broadcast(m) && (m matches Message::SendPacket(p) && (
        p matches Packet::Name(c4, s2) && c4 == c && s2@ == name@))
    }
}

impl Server {
    fn name_is_taken(&self, name: &String) -> (b: bool)
        ensures
            b == self.name_taken(name@),
    {
        let n = self.names.len();
        let mut i: usize = 0;
        while i < n
            invariant
                n == self.names@.len(),
                i <= n,
                forall|j: int| 0 <= j < i ==> self.names@[j].1@ != name@,
            decreases n - i,
        {
            if self.names[i].1.eq(name) {
                assert(self.names@[i as int].1@ == name@);
                return true;
            }
            i += 1;
        }
        false
    }

    fn claim_index(&self, c: ConnectionId) -> (r: Option<usize>)
        ensures
            r matches Some(i) ==> i < self.names@.len() && self.names@[i as int].0 == c,
            r is None ==> forall|j: int| 0 <= j < self.names@.len() ==> self.names@[j].0 != c,
    {
        let n = self.names.len();
        let mut i: usize = 0;
        while i < n
            invariant
                n == self.names@.len(),
                i <= n,
                forall|j: int| 0 <= j < i ==> self.names@[j].0 != c,
            decreases n - i,
        {
            if self.names[i].0.0 == c.0 {
                assert(self.names@[i as int].0 == c);
                return Some(i);
            }
            i += 1;
        }
        None
    }

    /// Arbitrates one name request, tagged with the requesting connection.
    fn set_name(&mut self, c: ConnectionId, name: String) -> (out: Vec<Directive>)
        requires
            old(self).well_formed(),
        ensures
            final(self).well_formed(),
            spec_set_name(*old(self), c, name, *final(self), out@),
    {
        let mut out: Vec<Directive> = Vec::new();
        if self.name_is_taken(&name) {
            out.push(Directive::SendTo(c, Message::NameTaken(c, name)));
            assert(out@ =~= seq![Directive::SendTo(c, Message::NameTaken(c, name))]);
            return out;
        }
        let ghost pre = *old(self);
        // Release the requester's previous claim, if any; the table keeps at
        // most one claim per connection.
        match self.claim_index(c) {
            Some(i) => {
                let ghost k = i as int;
                self.names.remove(i);
                proof {
                    pre.names@.remove_ensures(k);
                    assert(self.names@ == pre.names@.remove(k));
                    assert forall|x: int, y: int| 0 <= x < y < self.names@.len() implies (
                        self.names@[x].0 != self.names@[y].0 && self.names@[x].1@
                            != self.names@[y].1@) by {
                        let px: int = if x < k { x } else { x + 1 };
                        let py: int = if y < k { y } else { y + 1 };
                        assert(self.names@[x] == pre.names@[px]);
                        assert(self.names@[y] == pre.names@[py]);
                    }
                    assert forall|c2: ConnectionId, n: Seq<char>|
                        #![trigger claim_in(self.names@, c2, n)]
                        claim_in(self.names@, c2, n) <==> (claim_in(pre.names@, c2, n) && c2
                            != c) by {
                        if claim_in(self.names@, c2, n) {
                            let j = choose|j: int|
                                0 <= j < self.names@.len() && self.names@[j].0 == c2
                                    && self.names@[j].1@ == n;
                            let pj: int = if j < k { j } else { j + 1 };
                            assert(self.names@[j] == pre.names@[pj]);
                            assert(claim_in(pre.names@, c2, n));
                            if c2 == c {
                                // two claims of the same key would collide
                                assert(pre.names@[pj].0 == c && pre.names@[k].0 == c);
                                assert(pj == k);
                                assert(false);
                            }
                        }
                        if claim_in(pre.names@, c2, n) && c2 != c {
                            let j = choose|j: int|
                                0 <= j < pre.names@.len() && pre.names@[j].0 == c2
                                    && pre.names@[j].1@ == n;
                            assert(j != k);
                            let mj: int = if j < k { j } else { j - 1 };
                            assert(self.names@[mj] == pre.names@[j]);
                            assert(claim_in(self.names@, c2, n));
                        }
                    }
                }
            },
            None => {
                proof {
                    assert forall|c2: ConnectionId, n: Seq<char>|
                        #![trigger claim_in(self.names@, c2, n)]
                        claim_in(self.names@, c2, n) <==> (claim_in(pre.names@, c2, n) && c2
                            != c) by {
                        if claim_in(self.names@, c2, n) {
                            let j = choose|j: int|
                                0 <= j < self.names@.len() && self.names@[j].0 == c2
                                    && self.names@[j].1@ == n;
                            assert(self.names@[j].0 != c);
                        }
                    }
                }
            },
        }
        let ghost mid = self.names@;
        self.names.push((c, name.clone()));
        out.push(Directive::SendTo(c, Message::SetName(c, name.clone())));
        out.push(Directive::Broadcast(Message::SendPacket(Packet::Name(c, name))));
        proof {
            let post_ns = self.names@;
            assert(post_ns.len() == mid.len() + 1);
            assert(post_ns[mid.len() as int].0 == c && post_ns[mid.len() as int].1@ == name@);
            assert(forall|i: int| 0 <= i < mid.len() ==> post_ns[i] == mid[i]);
            assert forall|c2: ConnectionId, n: Seq<char>|
                #![trigger claim_in(post_ns, c2, n)]
                claim_in(post_ns, c2, n) <==> ((c2 == c && n == name@) || (claim_in(
                    pre.names@,
                    c2,
                    n,
                ) && c2 != c)) by {
                if claim_in(post_ns, c2, n) {
                    let j = choose|j: int|
                        0 <= j < post_ns.len() && post_ns[j].0 == c2 && post_ns[j].1@ == n;
                    if j < mid.len() {
                        assert(mid[j].0 == c2 && mid[j].1@ == n);
                        assert(claim_in(mid, c2, n));
                    }
                }
                if c2 == c && n == name@ {
                    assert(claim_in(post_ns, c2, n));
                }
                if claim_in(pre.names@, c2, n) && c2 != c {
                    assert(claim_in(mid, c2, n));
                    let j = choose|j: int| 0 <= j < mid.len() && mid[j].0 == c2 && mid[j].1@ == n;
                    assert(post_ns[j].0 == c2 && post_ns[j].1@ == n);
                    assert(claim_in(post_ns, c2, n));
                }
            }
            // The table stays well formed: the pushed key was just released
            // and the pushed name was free.
            assert forall|i: int, j: int| 0 <= i < j < post_ns.len() implies post_ns[i].0
                != post_ns[j].0 by {
                if j == mid.len() {
                    if post_ns[i].0 == c {
                        assert(claim_in(mid, c, mid[i].1@));
                    }
                }
            }
            assert forall|i: int, j: int| 0 <= i < j < post_ns.len() implies post_ns[i].1@
                != post_ns[j].1@ by {
                if j == mid.len() {
                    if post_ns[i].1@ == name@ {
                        assert(claim_in(mid, mid[i].0, name@));
                        assert(claim_in(pre.names@, mid[i].0, name@));
                        let w = choose|w: int|
                            0 <= w < pre.names@.len() && pre.names@[w].0 == mid[i].0
                                && pre.names@[w].1@ == name@;
                        assert(taken_in(pre.names@, name@));
                        assert(false);
                    }
                }
            }
        }
        out
    }
}

/// Removing one claim removes exactly that connection's claim and keeps the
/// table well formed.
proof fn lemma_claims_remove(ns: Seq<(ConnectionId, String)>, k: int)
    requires
        0 <= k < ns.len(),
        forall|i: int, j: int| 0 <= i < j < ns.len() ==> ns[i].0 != ns[j].0,
        forall|i: int, j: int| 0 <= i < j < ns.len() ==> ns[i].1@ != ns[j].1@,
    ensures
        forall|i: int, j: int| 0 <= i < j < ns.remove(k).len() ==> ns.remove(k)[i].0 != ns.remove(k)[j].0,
        forall|i: int, j: int| 0 <= i < j < ns.remove(k).len() ==> ns.remove(k)[i].1@ != ns.remove(k)[j].1@,
        forall|c2: ConnectionId, n: Seq<char>|
            #![trigger claim_in(ns.remove(k), c2, n)]
            claim_in(ns.remove(k), c2, n) <==> (claim_in(ns, c2, n) && c2 != ns[k].0),
{
    ns.remove_ensures(k);
    let rem = ns.remove(k);
    assert forall|x: int, y: int| 0 <= x < y < rem.len() implies (rem[x].0 != rem[y].0 && rem[x].1@
        != rem[y].1@) by {
        let px: int = if x < k {
            x
        } else {
            x + 1
        };
        let py: int = if y < k {
            y
        } else {
            y + 1
        };
        assert(rem[x] == ns[px]);
        assert(rem[y] == ns[py]);
    }
    assert forall|c2: ConnectionId, n: Seq<char>|
        #![trigger claim_in(rem, c2, n)]
        claim_in(rem, c2, n) <==> (claim_in(ns, c2, n) && c2 != ns[k].0) by {
        if claim_in(rem, c2, n) {
            let j = choose|j: int| 0 <= j < rem.len() && rem[j].0 == c2 && rem[j].1@ == n;
            let pj: int = if j < k {
                j
            } else {
                j + 1
            };
            assert(rem[j] == ns[pj]);
            assert(claim_in(ns, c2, n));
            if c2 == ns[k].0 {
                assert(pj == k);
                assert(false);
            }
        }
        if claim_in(ns, c2, n) && c2 != ns[k].0 {
            let j = choose|j: int| 0 <= j < ns.len() && ns[j].0 == c2 && ns[j].1@ == n;
            assert(j != k);
            let mj: int = if j < k {
                j
            } else {
                j - 1
            };
            assert(rem[mj] == ns[j]);
            assert(claim_in(rem, c2, n));
        }
    }
}

/// What the disconnect path leaves of the server: the connection is gone
/// from the table, its display name is released, the registry no longer
/// binds it, its player entity is destroyed, and everyone learns of the
/// departure.
pub open spec fn spec_disconnect(
    pre: Server,
    id: ConnectionId,
    post: Server,
    out: Seq<Directive>,
) -> bool {
    &&& post.tick_rate == pre.tick_rate
    &&& !post.connections@.contains(id)
    &&& forall|c: ConnectionId|
        c != id ==> (post.connections@.contains(c) <==> pre.connections@.contains(c))
    &&& post.player_entities.bindings() == pre.player_entities.bindings().remove(id.0)
    &&& forall|c2: ConnectionId, n: Seq<char>|
        #![trigger post.has_claim(c2, n)]
        post.has_claim(c2, n) <==> (pre.has_claim(c2, n) && c2 != id)
    &&& {
        let b = pre.player_entities.bindings();
        if b.dom().contains(id.0) && pre.world.has_entity(b[id.0]) {
            &&& post.world.next_entity_id() == pre.world.next_entity_id()
            &&& exists|i: int|
                0 <= i < pre.world.records().len() && pre.world.records()[i].id == b[id.0]
                    && post.world.records() == pre.world.records().remove(i)
        } else {
            post.world == pre.world
        }
    }
    &&& out == seq![Directive::Broadcast(Message::PlayerDisconnected(id))]
}

impl Server {
    fn connection_index(&self, id: ConnectionId) -> (r: Option<usize>)
        ensures
            r matches Some(i) ==> i < self.connections@.len() && self.connections@[i as int] == id,
            r is None ==> !self.connections@.contains(id),
    {
        let n = self.connections.len();
        let mut i: usize = 0;
        while i < n
            invariant
                n == self.connections@.len(),
                i <= n,
                forall|j: int| 0 <= j < i ==> self.connections@[j] != id,
            decreases n - i,
        {
            if self.connections[i].0 == id.0 {
                assert(self.connections@[i as int] == id);
                return Some(i);
            }
            i += 1;
        }
        None
    }

    /// The disconnect path, reached from every connection-actor termination:
    /// nothing of the departed connection may linger.
    pub fn handle_disconnect(&mut self, id: ConnectionId) -> (out: Vec<Directive>)
        requires
            old(self).well_formed(),
        ensures
            final(self).well_formed(),
            spec_disconnect(*old(self), id, *final(self), out@),
    {
        let ghost pre = *old(self);
        // Drop the connection record.
        match self.connection_index(id) {
            Some(i) => {
                let ghost k = i as int;
                self.connections.remove(i);
                proof {
                    pre.connections@.remove_ensures(k);
                    assert forall|x: int, y: int|
                        0 <= x < y < self.connections@.len() implies self.connections@[x]
                        != self.connections@[y] by {
                        let px: int = if x < k {
                            x
                        } else {
                            x + 1
                        };
                        let py: int = if y < k {
                            y
                        } else {
                            y + 1
                        };
                        assert(self.connections@[x] == pre.connections@[px]);
                        assert(self.connections@[y] == pre.connections@[py]);
                    }
                    assert forall|c: ConnectionId|
                        #![trigger self.connections@.contains(c)]
                        true implies (self.connections@.contains(c) <==> (
                        pre.connections@.contains(c) && c != id)) by {
                        if self.connections@.contains(c) {
                            let j = choose|j: int|
                                0 <= j < self.connections@.len() && self.connections@[j] == c;
                            let pj: int = if j < k {
                                j
                            } else {
                                j + 1
                            };
                            assert(self.connections@[j] == pre.connections@[pj]);
                            assert(pre.connections@.contains(c));
                            if c == id {
                                assert(pre.connections@[pj] == id && pre.connections@[k] == id);
                                assert(pj == k);
                                assert(false);
                            }
                        }
                        if pre.connections@.contains(c) && c != id {
                            let j = choose|j: int|
                                0 <= j < pre.connections@.len() && pre.connections@[j] == c;
                            assert(j != k);
                            let mj: int = if j < k {
                                j
                            } else {
                                j - 1
                            };
                            assert(self.connections@[mj] == pre.connections@[j]);
                            assert(self.connections@.contains(c));
                        }
                    }
                }
            },
            None => {},
        }
        // Release the display name.
        match self.claim_index(id) {
            Some(i) => {
                let ghost ns = self.names@;
                let ghost k = i as int;
                self.names.remove(i);
                proof {
                    lemma_claims_remove(ns, k);
                    assert(ns[k].0 == id);
                }
            },
            None => {
                proof {
                    assert forall|c2: ConnectionId, n: Seq<char>|
                        #![trigger claim_in(self.names@, c2, n)]
                        claim_in(self.names@, c2, n) implies c2 != id by {
                        let j = choose|j: int|
                            0 <= j < self.names@.len() && self.names@[j].0 == c2
                                && self.names@[j].1@ == n;
                        assert(self.names@[j].0 != id);
                    }
                }
            },
        }
        // Unbind the owned entity and tear it down.
        let bound = self.player_entities.unbind(id);
        match bound {
            Some(e) => {
                match self.world.find_entity(e) {
                    Some(i) => {
                        self.world.remove_at(i);
                    },
                    None => {},
                }
            },
            None => {},
        }
        let mut out: Vec<Directive> = Vec::new();
        out.push(Directive::Broadcast(Message::PlayerDisconnected(id)));
        proof {
            assert(out@ =~= seq![Directive::Broadcast(Message::PlayerDisconnected(id))]);
            assert forall|c: u128|
                self.player_entities.bindings().dom().contains(c) implies self.connections@.contains(
                ConnectionId(c),
            ) by {
                assert(pre.player_entities.bindings().dom().contains(c) && c != id.0);
                assert(pre.connections@.contains(ConnectionId(c)));
                assert(ConnectionId(c) != id);
            }
        }
        out
    }
}

/// Everything one server dispatch step promises, case by case over the
/// drained message.  Lifecycle events are fanned out (a disconnect also runs
/// the cleanup path), client component updates go through the ownership
/// check, broadcast requests are wrapped for every outbox, name requests are
/// arbitrated; anything else is not server-bound and is ignored.
pub open spec fn spec_server_step(
    pre: Server,
    msg: Message,
    post: Server,
    out: Seq<Directive>,
) -> bool {
    match msg {
        Message::PlayerConnected(c) => post == pre && out == seq![
            Directive::Broadcast(Message::PlayerConnected(c)),
        ],
        Message::PlayerDisconnected(c) => spec_disconnect(pre, c, post, out),
        Message::Packet(from, Packet::UpdateComponent(eid, k)) => match k {
            crate::server_components::ServerComponentKind::Translate(t) => spec_update_component(
                pre,
                from,
                eid,
                t,
                post,
                out,
            ),
            _ => post == pre && out == seq![
                Directive::Log(LogEvent::NonUpdatableComponent(eid)),
            ],
        },
        Message::BroadcastPacket(p) => post == pre && out == seq![
            Directive::Broadcast(Message::SendPacket(p)),
        ],
        Message::SetName(c, name) => spec_set_name(pre, c, name, post, out),
        _ => post == pre && out == Seq::<Directive>::empty(),
    }
}

impl Server {
    /// Processes one message drained from the server inbox.
    pub fn process_message(&mut self, msg: Message) -> (out: Vec<Directive>)
        requires
            old(self).well_formed(),
        ensures
            final(self).well_formed(),
            spec_server_step(*old(self), msg, *final(self), out@),
    {
        match msg {
            Message::PlayerConnected(c) => {
                let mut out: Vec<Directive> = Vec::new();
                out.push(Directive::Broadcast(Message::PlayerConnected(c)));
                assert(out@ =~= seq![Directive::Broadcast(Message::PlayerConnected(c))]);
                out
            },
            Message::PlayerDisconnected(c) => self.handle_disconnect(c),
            Message::Packet(from, p) => {
                match p {
                    Packet::UpdateComponent(eid, k) => {
                        match k {
                            crate::server_components::ServerComponentKind::Translate(t) => self
                                .update_component(from, eid, t),
                            _ => {
                                let mut out: Vec<Directive> = Vec::new();
                                out.push(Directive::Log(LogEvent::NonUpdatableComponent(eid)));
                                assert(out@ =~= seq![
                                    Directive::Log(LogEvent::NonUpdatableComponent(eid)),
                                ]);
                                out
                            },
                        }
                    },
                    _ => Vec::new(),
                }
            },
            Message::BroadcastPacket(p) => {
                let mut out: Vec<Directive> = Vec::new();
                out.push(Directive::Broadcast(Message::SendPacket(p)));
                assert(out@ =~= seq![Directive::Broadcast(Message::SendPacket(p))]);
                out
            },
            Message::SetName(c, name) => self.set_name(c, name),
            _ => Vec::new(),
        }
    }
}

/// A trace of one inbox drain: message `i` is processed against `states[i]`
/// and leaves `states[i + 1]`, emitting `outs[i]`.  The messages are
/// processed strictly in order, each against the state the one before left.
pub open spec fn spec_dispatch_trace(
    states: Seq<Server>,
    msgs: Seq<Message>,
    outs: Seq<Seq<Directive>>,
) -> bool {
    &&& states.len() == msgs.len() + 1
    &&& outs.len() == msgs.len()
    &&& forall|i: int|
        0 <= i < msgs.len() ==> #[trigger] spec_server_step(states[i], msgs[i], states[i + 1], outs[i])
}

/// Wraps each replication packet for the broadcast channel.
pub open spec fn spec_broadcasts(ps: Seq<Packet>) -> Seq<Directive> {
    ps.map_values(|p: Packet| Directive::Broadcast(Message::SendPacket(p)))
}

impl Server {
    /// One full server cycle.  The drained messages are processed strictly
    /// in order against the shared state; the systems then run over the
    /// post-mutation world, so that every in-tick write happens before the
    /// pass; the emitted replication packets are wrapped for broadcast; and
    /// the cycle ends with the Tick broadcast that makes every connection
    /// flush its outbox.
    pub fn tick(&mut self, msgs: Vec<Message>) -> (out: Vec<Directive>)
        requires
            old(self).well_formed(),
        ensures
            final(self).well_formed(),
            exists|states: Seq<Server>, outs: Seq<Seq<Directive>>|
                #![trigger spec_dispatch_trace(states, msgs@, outs)]
                {
                    &&& spec_dispatch_trace(states, msgs@, outs)
                    &&& states[0] == *old(self)
                    &&& {
                        let mid = states[msgs@.len() as int];
                        &&& final(self).tick_rate == mid.tick_rate
                        &&& final(self).connections@ == mid.connections@
                        &&& final(self).names@ == mid.names@
                        &&& final(self).player_entities.bindings()
                            == mid.player_entities.bindings()
                        &&& final(self).world.next_entity_id() == mid.world.next_entity_id()
                        &&& final(self).world.records().len() == mid.world.records().len()
                        &&& forall|i: int|
                            0 <= i < mid.world.records().len() ==> final(self).world.records()[i]
                                == crate::systems::spec_moved(mid.world.records()[i])
                        &&& out@ == outs.flatten() + spec_broadcasts(
                            crate::systems::spec_movement_packets(mid.world.records()),
                        ) + seq![Directive::Broadcast(Message::Tick)]
                    }
                },
    {
        let ghost pre = *old(self);
        let ghost all = msgs@;
        let mut rest = msgs;
        let mut out: Vec<Directive> = Vec::new();
        let ghost mut states: Seq<Server> = seq![pre];
        let ghost mut outs: Seq<Seq<Directive>> = Seq::empty();
        proof {
            assert(out@ =~= outs.flatten()) by {
                assert(outs.flatten() =~= Seq::<Directive>::empty());
            }
        }
        while rest.len() > 0
            invariant
                self.well_formed(),
                rest@.len() <= all.len(),
                rest@ == all.skip(all.len() - rest@.len()),
                states.len() == all.len() - rest@.len() + 1,
                states[0] == pre,
                states.last() == *self,
                spec_dispatch_trace(states, all.take(all.len() - rest@.len()), outs),
                out@ == outs.flatten(),
            decreases rest@.len(),
        {
            let ghost k = all.len() - rest@.len();
            let ghost sofar = *self;
            let ghost prev_states = states;
            let ghost prev_outs = outs;
            let m = rest.remove(0);
            proof {
                assert(all.skip(k)[0] == all[k]);
                assert(rest@ =~= all.skip(k + 1));
            }
            let mut so = self.process_message(m);
            let ghost so0 = so@;
            out.append(&mut so);
            proof {
                states = prev_states.push(*self);
                outs = prev_outs.push(so0);
                assert(m == all[k]);
                assert(all.take(k).push(m) =~= all.take(k + 1));
                let cur = all.take(k + 1);
                assert forall|i: int| 0 <= i < cur.len() implies #[trigger] spec_server_step(
                    states[i],
                    cur[i],
                    states[i + 1],
                    outs[i],
                ) by {
                    if i < k {
                        assert(spec_server_step(
                            prev_states[i],
                            all.take(k)[i],
                            prev_states[i + 1],
                            prev_outs[i],
                        ));
                        assert(states[i] == prev_states[i]);
                        assert(states[i + 1] == prev_states[i + 1]);
                        assert(cur[i] == all.take(k)[i]);
                    } else {
                        assert(states[i] == prev_states.last());
                        assert(prev_states.last() == sofar);
                        assert(spec_server_step(sofar, m, *self, so0));
                    }
                }
                prev_outs.lemma_flatten_push(so0);
                assert(out@ =~= outs.flatten());
            }
        }
        proof {
            assert(all.take(all.len() as int) =~= all);
        }
        let ghost mid = *self;
        let ghost trace_states = states;
        let ghost trace_outs = outs;
        let ghost o1 = out@;
        // Run the systems over the post-mutation world, then wrap their
        // replication traffic for broadcast.
        let mut mover = crate::systems::MoveSystem;
        let packets = mover.run(&mut self.world);
        let ghost pk = packets@;
        let mut packets = packets;
        let mut j: usize = 0;
        let m_total = packets.len();
        while j < m_total
            invariant
                m_total == pk.len(),
                j <= m_total,
                packets@ == pk.skip(j as int),
                out@ == o1 + spec_broadcasts(pk.take(j as int)),
            decreases m_total - j,
        {
            let p = packets.remove(0);
            proof {
                assert(pk.skip(j as int)[0] == pk[j as int]);
                assert(packets@ =~= pk.skip(j as int + 1));
            }
            out.push(Directive::Broadcast(Message::SendPacket(p)));
            proof {
                assert(p == pk[j as int]);
                assert(spec_broadcasts(pk.take(j as int + 1)) =~= spec_broadcasts(
                    pk.take(j as int),
                ).push(Directive::Broadcast(Message::SendPacket(p))));
                assert(out@ =~= o1 + spec_broadcasts(pk.take(j as int + 1)));
            }
            j += 1;
        }
        out.push(Directive::Broadcast(Message::Tick));
        proof {
            assert(pk.take(pk.len() as int) =~= pk);
            assert(spec_dispatch_trace(trace_states, all, trace_outs));
            assert(trace_states[all.len() as int] == mid);
            assert(out@ =~= trace_outs.flatten() + spec_broadcasts(pk) + seq![
                Directive::Broadcast(Message::Tick),
            ]);
        }
        out
    }
}

/// Name arbitration.  Two name requests processed in sequence: if both ask
/// for the same free name from different connections, exactly the first
/// succeeds (its grant is broadcast) and the second is turned down with a
/// NameTaken response to it alone; if they ask for distinct free names, both
/// succeed.
pub proof fn lemma_name_arbitration(
    s0: Server,
    c1: ConnectionId,
    n1: String,
    s1: Server,
    out1: Seq<Directive>,
    c2: ConnectionId,
    n2: String,
    s2: Server,
    out2: Seq<Directive>,
)
    requires
        c1 != c2,
        !s0.name_taken(n1@),
        spec_set_name(s0, c1, n1, s1, out1),
        spec_set_name(s1, c2, n2, s2, out2),
    ensures
        out1.len() == 2 && (out1[1] matches Directive::Broadcast(m) && (
        m matches Message::SendPacket(p) && (p matches Packet::Name(c, nm) && c == c1 && nm@
            == n1@))),
        n2@ == n1@ ==> out2 == seq![Directive::SendTo(c2, Message::NameTaken(c2, n2))],
        n2@ != n1@ && !s0.name_taken(n2@) ==> out2.len() == 2 && (out2[1]
            matches Directive::Broadcast(m) && (m matches Message::SendPacket(p) && (
        p matches Packet::Name(c, nm) && c == c2 && nm@ == n2@))),
{
    assert(s1.has_claim(c1, n1@));
    if n2@ == n1@ {
        let j = choose|j: int|
            0 <= j < s1.names@.len() && s1.names@[j].0 == c1 && s1.names@[j].1@ == n1@;
        assert(s1.names@[j].1@ == n2@);
        assert(s1.name_taken(n2@));
    }
    if n2@ != n1@ && !s0.name_taken(n2@) {
        assert(!s1.name_taken(n2@)) by {
            if s1.name_taken(n2@) {
                let j = choose|j: int| 0 <= j < s1.names@.len() && s1.names@[j].1@ == n2@;
                let holder = s1.names@[j].0;
                assert(s1.has_claim(holder, n2@));
                assert(s0.has_claim(holder, n2@));
                let w = choose|w: int|
                    0 <= w < s0.names@.len() && s0.names@[w].0 == holder && s0.names@[w].1@ == n2@;
                assert(s0.name_taken(n2@));
            }
        }
    }
}

} // verus!
