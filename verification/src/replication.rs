//! The replication boundary: what of the server's world is mirrored to the
//! clients, and what a client makes of it.

use vstd::prelude::*;
use crate::presentation::{latest_position, lemma_replay_shows_latest, replay, Presentation};
use crate::protocol::Snapshot;
use crate::vector::Vec2;
use crate::world::World;

verus! {

/// `mirrored` is what the clients are shown of `world`: every player once,
/// at its position.
pub open spec fn mirrors(mirrored: Seq<Snapshot>, world: World) -> bool {
    &&& forall|i: int, j: int|
        0 <= i < j < mirrored.len() ==> mirrored[i].player.network_id
            != mirrored[j].player.network_id
    &&& forall|i: int|
        0 <= i < mirrored.len() ==> world.contains_key((#[trigger] mirrored[i]).player.network_id)
            && mirrored[i].position == world[mirrored[i].player.network_id].position
    &&& forall|network_id: u64|
        world.contains_key(network_id) ==> exists|i: int|
            0 <= i < mirrored.len() && (#[trigger] mirrored[i]).player.network_id == network_id
}

/// If every state that `log` delivers for a player shows the same position,
/// and it delivers at least one, that position is the latest.
proof fn lemma_latest_of_agreeing(log: Seq<Snapshot>, network_id: u64, position: Vec2)
    requires
        forall|i: int|
            0 <= i < log.len() && (#[trigger] log[i]).player.network_id == network_id
                ==> log[i].position == position,
        exists|i: int| 0 <= i < log.len() && (#[trigger] log[i]).player.network_id == network_id,
    ensures
        latest_position(log, network_id) == Some(position),
    decreases log.len(),
{
    let last = log.len() - 1;
    if log[last].player.network_id != network_id {
        let earlier = log.drop_last();
        let i = choose|i: int| 0 <= i < log.len() && (#[trigger] log[i]).player.network_id == network_id;
        assert(earlier[i] == log[i]);
        lemma_latest_of_agreeing(earlier, network_id, position);
    }
}

/// What the server mirrors reaches the client. A client that has taken in
/// everything mirrored of a world shows each player of that world where the
/// server has it.
pub proof fn lemma_mirror_reaches_the_client(client: Presentation, mirrored: Seq<Snapshot>, world: World)
    requires
        mirrors(mirrored, world),
    ensures
        forall|id: u64| #[trigger]
            world.contains_key(id) ==> replay(client, mirrored).visuals.contains_key(id) && replay(
                client,
                mirrored,
            ).visuals[id] == world[id].position,
{
    lemma_replay_shows_latest(client, mirrored);
    let shown = replay(client, mirrored).visuals;
    assert forall|id: u64| #[trigger] world.contains_key(id) implies shown.contains_key(id)
        && shown[id] == world[id].position by {
        lemma_latest_of_agreeing(mirrored, id, world[id].position);
    }
}

} // verus!
