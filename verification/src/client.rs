//! A client: learns its identity, shows every replicated player, tells its
//! own player from the others and turns local input into intents.

use vstd::prelude::*;
use crate::presentation::{
    blank, local_player, observed, phase, role, told, Phase, Presentation, Role,
};
use crate::protocol::{ClientMovementIntent, LocalPlayer, Player, Snapshot, YourClientId};
use crate::registry::{lemma_mapping_key, lemma_mapping_len, slot, Registry};
use crate::vector::Vec2;

verus! {

/// What a client shows for one player.
#[derive(Clone, Copy, Debug, PartialEq, Eq, Structural)]
pub struct VisualPlayer {
    pub player_id: u64,
    pub position: Vec2,
    pub role: Role,
}

/// What an arriving player state asks of the presentation.
#[derive(Clone, Copy, Debug, PartialEq, Eq, Structural)]
pub struct Sighting {
    /// The player was not shown before: its visual is to be created.
    pub first: bool,
    /// The treatment of the player's visual.
    pub role: Role,
}

/// The client's side of the protocol. It reads replicated state and writes
/// nothing but its own intents.
pub struct Client {
    identity: Option<u64>,
    visuals: Registry<Vec2>,
}

impl View for Client {
    type V = Presentation;

    closed spec fn view(&self) -> Presentation {
        Presentation { identity: self.identity, visuals: self.visuals@ }
    }
}

/// `shown` is what is on the screen of `client`: every player seen so far,
/// once, at its latest position and in its role.
pub open spec fn shows(shown: Seq<VisualPlayer>, client: Presentation) -> bool {
    &&& forall|i: int, j: int| 0 <= i < j < shown.len() ==> shown[i].player_id != shown[j].player_id
    &&& forall|i: int|
        0 <= i < shown.len() ==> client.visuals.contains_key((#[trigger] shown[i]).player_id)
            && shown[i].position == client.visuals[shown[i].player_id] && shown[i].role == role(
            client,
            shown[i].player_id,
        )
    &&& forall|network_id: u64|
        client.visuals.contains_key(network_id) ==> exists|i: int|
            0 <= i < shown.len() && (#[trigger] shown[i]).player_id == network_id
}

/// At every moment at most one player on screen is dressed as the local
/// one, and it is the player that carries the local marker.
pub proof fn lemma_one_local_on_screen(shown: Seq<VisualPlayer>, client: Presentation, i: int, j: int)
    requires
        shows(shown, client),
        0 <= i < shown.len(),
        0 <= j < shown.len(),
        shown[i].role == Role::Local,
        shown[j].role == Role::Local,
    ensures
        i == j,
        local_player(client) == Some(shown[i].player_id),
{
}

impl Client {
    /// No player is shown twice.
    pub closed spec fn wf(&self) -> bool {
        self.visuals.wf()
    }

    /// A client that knows and shows nothing yet.
    pub fn new() -> (client: Client)
        ensures
            client.wf(),
            client@ == blank(),
    {
        Client { identity: None, visuals: Registry::new() }
    }

    fn role_of(&self, network_id: u64) -> (found: Role)
        ensures
            found == role(self@, network_id),
    {
        match self.identity {
            Some(own) => if own == network_id {
                Role::Local
            } else {
                Role::Remote
            },
            None => Role::Remote,
        }
    }

    /// Takes the server's word on this client's identity. The first
    /// announcement fixes the identity; later ones are ignored. Returns the
    /// player that is already shown and now turns out to be the local one,
    /// if there is such a player.
    pub fn receive_id(&mut self, announcement: YourClientId) -> (marked: Option<Player>)
        requires
            old(self).wf(),
        ensures
            final(self).wf(),
            final(self)@ == told(old(self)@, announcement.0),
            marked == if old(self)@.identity is None && old(self)@.visuals.contains_key(
                announcement.0,
            ) {
                Some(Player { network_id: announcement.0 })
            } else {
                None
            },
    {
        match self.identity {
            Some(_) => None,
            None => {
                self.identity = Some(announcement.0);
                match self.visuals.find(announcement.0) {
                    Some(_) => Some(Player { network_id: announcement.0 }),
                    None => None,
                }
            },
        }
    }

    /// Takes the replicated state of a player. A player seen for the first
    /// time gets a visual; one seen before is shown at the new position.
    pub fn observe(&mut self, snapshot: Snapshot) -> (sighting: Sighting)
        requires
            old(self).wf(),
        ensures
            final(self).wf(),
            final(self)@ == observed(old(self)@, snapshot),
            sighting.first == !old(self)@.visuals.contains_key(snapshot.player.network_id),
            sighting.role == role(old(self)@, snapshot.player.network_id),
    {
        let network_id = snapshot.player.network_id;
        let role = self.role_of(network_id);
        match self.visuals.find(network_id) {
            Some(i) => {
                self.visuals.set(i, snapshot.position);
                Sighting { first: false, role }
            },
            None => {
                self.visuals.push(network_id, snapshot.position);
                Sighting { first: true, role }
            },
        }
    }

    /// This client's own `network_id`, once it has learned it.
    pub fn identity(&self) -> (identity: Option<u64>)
        ensures
            identity == self@.identity,
    {
        self.identity
    }

    /// Whether some player is marked as the local one.
    pub fn phase(&self) -> (current: Phase)
        requires
            self.wf(),
        ensures
            current == phase(self@),
    {
        match self.identity {
            Some(own) => match self.visuals.find(own) {
                Some(_) => Phase::Identified,
                None => Phase::Unidentified,
            },
            None => Phase::Unidentified,
        }
    }

    /// The player that carries the local marker, if one does.
    pub fn local_player(&self) -> (marked: Option<Player>)
        requires
            self.wf(),
        ensures
            marked == match local_player(self@) {
                Some(network_id) => Some(Player { network_id }),
                None => None,
            },
    {
        match self.identity {
            Some(own) => match self.visuals.find(own) {
                Some(_) => Some(Player { network_id: own }),
                None => None,
            },
            None => None,
        }
    }

    /// The local marker of a player: present on the local player, absent on
    /// every other and on players that are not shown.
    pub fn marker(&self, player: Player) -> (marker: Option<LocalPlayer>)
        requires
            self.wf(),
        ensures
            marker is Some <==> local_player(self@) == Some(player.network_id),
    {
        match self.identity {
            Some(own) => if own == player.network_id {
                match self.visuals.find(own) {
                    Some(_) => Some(LocalPlayer),
                    None => None,
                }
            } else {
                None
            },
            None => None,
        }
    }

    /// Turns one sample of local input into the intent to send. An
    /// identified client sends one intent per sample; an unidentified one
    /// sends nothing.
    pub fn intent(&self, sample: Vec2) -> (outgoing: Option<ClientMovementIntent>)
        requires
            self.wf(),
        ensures
            outgoing == if phase(self@) == Phase::Identified {
                Some(ClientMovementIntent(sample))
            } else {
                None
            },
    {
        match self.phase() {
            Phase::Identified => Some(ClientMovementIntent(sample)),
            Phase::Unidentified => None,
        }
    }

    /// The position shown for a player, if the player is shown.
    pub fn position(&self, network_id: u64) -> (position: Option<Vec2>)
        requires
            self.wf(),
        ensures
            position == if self@.visuals.contains_key(network_id) {
                Some(self@.visuals[network_id])
            } else {
                None
            },
    {
        match self.visuals.find(network_id) {
            Some(i) => Some(self.visuals.get(i).value),
            None => None,
        }
    }

    /// Everything on screen: each shown player once, with its position and
    /// treatment.
    pub fn visuals(&self) -> (shown: Vec<VisualPlayer>)
        requires
            self.wf(),
        ensures
            shows(shown@, self@),
            shown.len() == self@.visuals.dom().len(),
    {
        let count = self.visuals.len();
        let mut shown: Vec<VisualPlayer> = Vec::new();
        let mut i: usize = 0;
        while i < count
            invariant
                i <= count,
                count == self.visuals.entries().len(),
                shown.len() == i,
                forall|k: int|
                    0 <= k < i ==> (#[trigger] shown[k]).player_id == self.visuals.entries()[k].key
                        && shown[k].position == self.visuals.entries()[k].value && shown[k].role
                        == role(self@, shown[k].player_id),
            decreases count - i,
        {
            let entry = self.visuals.get(i);
            let role = self.role_of(entry.key);
            shown.push(VisualPlayer { player_id: entry.key, position: entry.value, role });
            i += 1;
        }
        proof {
            let entries = self.visuals.entries();
            lemma_mapping_len(entries);
            assert forall|network_id: u64| self@.visuals.contains_key(network_id) implies exists|
                k: int,
            |
                0 <= k < shown.len() && (#[trigger] shown[k]).player_id == network_id by {
                lemma_mapping_key(entries, network_id);
                let k = slot(entries, network_id);
                assert(shown[k].player_id == entries[k].key);
            }
        }
        shown
    }
}

} // verus!
