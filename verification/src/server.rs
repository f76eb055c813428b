//! The server: binds connections to players, records their intents and
//! moves them tick by tick.

use vstd::prelude::*;
use crate::movement::integrate;
use crate::protocol::{ClientMovementIntent, Player, Snapshot};
use crate::registry::{
    lemma_mapping_key, lemma_mapping_len, lemma_mapping_same_keys, slot, Registry,
};
use crate::replication::mirrors;
use crate::vector::Vec2;
use crate::world::{
    arrivals, departed, framed, joined, moved, run, simulated, steered, PlayerState, Received, World,
};

verus! {

/// Why an authorized connection got no player.
#[derive(Clone, Copy, Debug, PartialEq, Eq, Structural)]
pub enum ConnectError {
    /// The transport gave no identifier for the connection.
    Unresolved,
    /// A player with this `network_id` exists already.
    AlreadyConnected,
}

/// The authoritative store of players. It is the only writer of positions.
pub struct Server {
    players: Registry<PlayerState>,
}

impl View for Server {
    type V = World;

    /// The players that exist, each with its position and last intent.
    closed spec fn view(&self) -> World {
        self.players@
    }
}

impl Server {
    /// No two players share a `network_id`.
    pub closed spec fn wf(&self) -> bool {
        self.players.wf()
    }

    /// What `connect` answers in a given world.
    pub open spec fn binding(world: World, connection: Option<u64>) -> Result<Player, ConnectError> {
        match connection {
            None => Err(ConnectError::Unresolved),
            Some(network_id) => if world.contains_key(network_id) {
                Err(ConnectError::AlreadyConnected)
            } else {
                Ok(Player { network_id })
            },
        }
    }

    /// A server without players.
    pub fn new() -> (server: Server)
        ensures
            server.wf(),
            server@ == Map::<u64, PlayerState>::empty(),
    {
        Server { players: Registry::new() }
    }

    /// Handles the authorization of a connection. The `network_id` of the new
    /// player is the transport's identifier of the connection; the player
    /// starts at the origin with no movement. Without an identifier, or with
    /// one that a player has already, nothing is created.
    pub fn connect(&mut self, connection: Option<u64>) -> (bound: Result<Player, ConnectError>)
        requires
            old(self).wf(),
        ensures
            final(self).wf(),
            bound == Self::binding(old(self)@, connection),
            final(self)@ == match bound {
                Ok(player) => joined(old(self)@, player.network_id),
                Err(_) => old(self)@,
            },
    {
        match connection {
            None => Err(ConnectError::Unresolved),
            Some(network_id) => {
                match self.players.find(network_id) {
                    Some(_) => Err(ConnectError::AlreadyConnected),
                    None => {
                        let origin = Vec2 { x: 0, y: 0 };
                        self.players.push(network_id, PlayerState { position: origin, input: origin });
                        Ok(Player { network_id })
                    },
                }
            },
        }
    }

    /// Handles the end of a connection: its player ceases to exist. Says
    /// whether there was one.
    pub fn disconnect(&mut self, network_id: u64) -> (existed: bool)
        requires
            old(self).wf(),
        ensures
            final(self).wf(),
            existed == old(self)@.contains_key(network_id),
            final(self)@ == departed(old(self)@, network_id),
    {
        match self.players.find(network_id) {
            Some(i) => {
                self.players.remove(i);
                true
            },
            None => {
                false
            },
        }
    }

    /// Records an intent of `sender`, in place of the one recorded before.
    /// An intent of a sender without a player is dropped. Says whether it was
    /// recorded.
    pub fn receive(&mut self, sender: u64, intent: ClientMovementIntent) -> (recorded: bool)
        requires
            old(self).wf(),
        ensures
            final(self).wf(),
            recorded == old(self)@.contains_key(sender),
            final(self)@ == steered(old(self)@, sender, intent.0),
    {
        match self.players.find(sender) {
            Some(i) => {
                let position = self.players.get(i).value.position;
                self.players.set(i, PlayerState { position, input: intent.0 });
                true
            },
            None => false,
        }
    }

    /// Advances the simulation by `delta_micros` microseconds: every player
    /// moves by its last intent, at the shared speed.
    pub fn tick(&mut self, delta_micros: u32)
        requires
            old(self).wf(),
        ensures
            final(self).wf(),
            final(self)@ == simulated(old(self)@, delta_micros),
    {
        let ghost before = self.players.entries();
        let count = self.players.len();
        let mut i: usize = 0;
        while i < count
            invariant
                self.players.wf(),
                i <= count,
                count == before.len(),
                self.players.entries().len() == before.len(),
                forall|k: int|
                    0 <= k < i ==> (#[trigger] self.players.entries()[k]).key == before[k].key
                        && self.players.entries()[k].value == moved(before[k].value, delta_micros),
                forall|k: int| i <= k < before.len() ==> #[trigger] self.players.entries()[k] == before[k],
            decreases count - i,
        {
            let player = self.players.get(i).value;
            let position = integrate(player.position, player.input, delta_micros);
            self.players.set(i, PlayerState { position, input: player.input });
            i += 1;
        }
        proof {
            lemma_mapping_same_keys(before, self.players.entries());
        }
    }

    /// Runs one frame of the tick loop: drains the inbox, intent by intent
    /// in the order of arrival, and then advances the simulation by
    /// `delta_micros` microseconds.
    pub fn frame(&mut self, inbox: &Vec<Received>, delta_micros: u32)
        requires
            old(self).wf(),
        ensures
            final(self).wf(),
            final(self)@ == framed(old(self)@, inbox@, delta_micros),
    {
        let mut i: usize = 0;
        while i < inbox.len()
            invariant
                self.wf(),
                i <= inbox.len(),
                self@ == run(old(self)@, arrivals(inbox@.take(i as int))),
            decreases inbox.len() - i,
        {
            proof {
                let done = arrivals(inbox@.take(i as int));
                let next = arrivals(inbox@.take(i + 1));
                assert(next.drop_last() =~= done);
            }
            self.receive(inbox[i].sender, inbox[i].intent);
            i += 1;
        }
        assert(inbox@.take(i as int) =~= inbox@);
        self.tick(delta_micros);
    }

    /// The number of players.
    pub fn len(&self) -> (count: usize)
        requires
            self.wf(),
        ensures
            self@.dom().finite(),
            count == self@.dom().len(),
    {
        proof {
            lemma_mapping_len(self.players.entries());
        }
        self.players.len()
    }

    /// The authoritative position of a player, if it exists.
    pub fn position(&self, network_id: u64) -> (position: Option<Vec2>)
        requires
            self.wf(),
        ensures
            position == if self@.contains_key(network_id) {
                Some(self@[network_id].position)
            } else {
                None
            },
    {
        match self.players.find(network_id) {
            Some(i) => Some(self.players.get(i).value.position),
            None => None,
        }
    }

    /// The intent in force for a player, if it exists.
    pub fn input(&self, network_id: u64) -> (input: Option<Vec2>)
        requires
            self.wf(),
        ensures
            input == if self@.contains_key(network_id) {
                Some(self@[network_id].input)
            } else {
                None
            },
    {
        match self.players.find(network_id) {
            Some(i) => Some(self.players.get(i).value.input),
            None => None,
        }
    }

    /// What is mirrored to the clients: every player with its position, each
    /// `network_id` once. The intents are not part of it.
    pub fn snapshots(&self) -> (mirrored: Vec<Snapshot>)
        requires
            self.wf(),
        ensures
            mirrors(mirrored@, self@),
            mirrored.len() == self@.dom().len(),
    {
        let count = self.players.len();
        let mut mirrored: Vec<Snapshot> = Vec::new();
        let mut i: usize = 0;
        while i < count
            invariant
                i <= count,
                count == self.players.entries().len(),
                mirrored.len() == i,
                forall|k: int|
                    0 <= k < i ==> (#[trigger] mirrored[k]).player.network_id
                        == self.players.entries()[k].key && mirrored[k].position
                        == self.players.entries()[k].value.position,
            decreases count - i,
        {
            let entry = self.players.get(i);
            mirrored.push(
                Snapshot { player: Player { network_id: entry.key }, position: entry.value.position },
            );
            i += 1;
        }
        proof {
            let entries = self.players.entries();
            lemma_mapping_len(entries);
            assert forall|network_id: u64| self@.contains_key(network_id) implies exists|k: int|
                0 <= k < mirrored.len() && (#[trigger] mirrored[k]).player.network_id
                    == network_id by {
                lemma_mapping_key(entries, network_id);
                let k = slot(entries, network_id);
                assert(mirrored[k].player.network_id == entries[k].key);
            }
        }
        mirrored
    }
}

} // verus!
