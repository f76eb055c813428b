//! A client's picture of the world as a mathematical object: what the client
//! knows of its own identity, which players it shows and where, and how each
//! event changes that.

use vstd::prelude::*;
use crate::protocol::{Snapshot, YourClientId};
use crate::vector::Vec2;

verus! {

/// What a client holds.
pub struct Presentation {
    /// The client's own `network_id`, once it has learned it.
    pub identity: Option<u64>,
    /// The position shown for each player seen so far, by `network_id`.
    pub visuals: Map<u64, Vec2>,
}

/// The two states of a client.
#[derive(Clone, Copy, Debug, PartialEq, Eq, Structural)]
pub enum Phase {
    /// No player is marked as the local one, and input produces no intents.
    Unidentified,
    /// Exactly one player is marked as the local one.
    Identified,
}

/// How a player is presented.
#[derive(Clone, Copy, Debug, PartialEq, Eq, Structural)]
pub enum Role {
    /// The player that this client controls.
    Local,
    /// Any other player.
    Remote,
}

/// A notification that reaches the client's frame loop.
pub enum ClientEvent {
    /// The server told this client its `network_id`.
    Identity(YourClientId),
    /// The state of a player arrived, for the first time or anew.
    Replicated(Snapshot),
}

impl Role {
    pub open spec fn spec_smoothed(self) -> bool {
        self == Role::Remote
    }

    /// Whether the shown position glides toward the replicated one instead
    /// of jumping to it. Only remote players are smoothed.
    #[verifier::when_used_as_spec(spec_smoothed)]
    pub fn smoothed(self) -> (smoothed: bool)
        ensures
            smoothed == self.spec_smoothed(),
    {
        match self {
            Role::Local => false,
            Role::Remote => true,
        }
    }
}

/// A client that has seen nothing yet.
pub open spec fn blank() -> Presentation {
    Presentation { identity: None, visuals: Map::empty() }
}

/// The player that carries the local marker: the shown player whose
/// `network_id` is the client's own.
pub open spec fn local_player(client: Presentation) -> Option<u64> {
    match client.identity {
        Some(network_id) => if client.visuals.contains_key(network_id) {
            Some(network_id)
        } else {
            None
        },
        None => None,
    }
}

/// The state of the client.
pub open spec fn phase(client: Presentation) -> Phase {
    if local_player(client) is Some {
        Phase::Identified
    } else {
        Phase::Unidentified
    }
}

/// How the player `network_id` is presented.
pub open spec fn role(client: Presentation, network_id: u64) -> Role {
    if client.identity == Some(network_id) {
        Role::Local
    } else {
        Role::Remote
    }
}

/// The client after it was told its identity. The identity is assigned once:
/// a client that knows it keeps what it knows.
pub open spec fn told(client: Presentation, network_id: u64) -> Presentation {
    match client.identity {
        Some(_) => client,
        None => Presentation { identity: Some(network_id), visuals: client.visuals },
    }
}

/// The client after the state of a player arrived: the player is shown at
/// the position received, whatever was shown before.
pub open spec fn observed(client: Presentation, snapshot: Snapshot) -> Presentation {
    Presentation {
        identity: client.identity,
        visuals: client.visuals.insert(snapshot.player.network_id, snapshot.position),
    }
}

/// The client after one event.
pub open spec fn step(client: Presentation, event: ClientEvent) -> Presentation {
    match event {
        ClientEvent::Identity(announcement) => told(client, announcement.0),
        ClientEvent::Replicated(snapshot) => observed(client, snapshot),
    }
}

/// The client after a sequence of events, first to last.
pub open spec fn run(client: Presentation, events: Seq<ClientEvent>) -> Presentation
    decreases events.len(),
{
    if events.len() == 0 {
        client
    } else {
        step(run(client, events.drop_last()), events.last())
    }
}

/// The client after a sequence of player states arrived, first to last.
pub open spec fn replay(client: Presentation, log: Seq<Snapshot>) -> Presentation
    decreases log.len(),
{
    if log.len() == 0 {
        client
    } else {
        observed(replay(client, log.drop_last()), log.last())
    }
}

/// The position that `log` delivers last for the player `network_id`.
pub open spec fn latest_position(log: Seq<Snapshot>, network_id: u64) -> Option<Vec2>
    decreases log.len(),
{
    if log.len() == 0 {
        None
    } else if log.last().player.network_id == network_id {
        Some(log.last().position)
    } else {
        latest_position(log.drop_last(), network_id)
    }
}

/// One state delivered `count` times in a row.
pub open spec fn repeated(snapshot: Snapshot, count: nat) -> Seq<Snapshot> {
    Seq::new(count, |i: int| snapshot)
}

/// `log` with each state delivered once and then `extra[i]` times more.
pub open spec fn redelivered(log: Seq<Snapshot>, extra: Seq<nat>) -> Seq<Snapshot>
    recommends
        extra.len() == log.len(),
    decreases log.len(),
{
    if log.len() == 0 {
        Seq::empty()
    } else {
        redelivered(log.drop_last(), extra.drop_last()) + repeated(log.last(), extra.last() + 1)
    }
}

/// Running two sequences of events one after the other is running their
/// concatenation.
pub proof fn lemma_run_concat(client: Presentation, first: Seq<ClientEvent>, second: Seq<ClientEvent>)
    ensures
        run(client, first + second) == run(run(client, first), second),
    decreases second.len(),
{
    if second.len() > 0 {
        assert((first + second).drop_last() =~= first + second.drop_last());
        lemma_run_concat(client, first, second.drop_last());
    }
}

/// The local player is permanent: once a player carries the marker, no
/// event takes it away or moves it to another player.
pub proof fn lemma_local_player_is_permanent(client: Presentation, events: Seq<ClientEvent>)
    requires
        local_player(client) is Some,
    ensures
        local_player(run(client, events)) == local_player(client),
        run(client, events).identity == client.identity,
    decreases events.len(),
{
    if events.len() > 0 {
        lemma_local_player_is_permanent(client, events.drop_last());
    }
}

/// Local-player singleton. Over the whole life of a client the marker is
/// assigned once: whichever player carries it at some moment is the one that
/// carries it at every later moment, so no second player ever carries it.
pub proof fn lemma_local_player_assigned_once(
    client: Presentation,
    events: Seq<ClientEvent>,
    earlier: int,
    later: int,
)
    requires
        0 <= earlier <= later <= events.len(),
        local_player(run(client, events.take(earlier))) is Some,
    ensures
        local_player(run(client, events.take(later))) == local_player(
            run(client, events.take(earlier)),
        ),
{
    let head = events.take(earlier);
    let tail = events.subrange(earlier, later);
    assert(events.take(later) =~= head + tail);
    lemma_run_concat(client, head, tail);
    lemma_local_player_is_permanent(run(client, head), tail);
}

/// A client that was never told its identity marks no player.
pub proof fn lemma_unidentified_without_identity(client: Presentation, log: Seq<Snapshot>)
    requires
        client.identity is None,
    ensures
        replay(client, log).identity is None,
        phase(replay(client, log)) == Phase::Unidentified,
    decreases log.len(),
{
    if log.len() > 0 {
        lemma_unidentified_without_identity(client, log.drop_last());
    }
}

/// What a replay shows: for each player that `log` mentions, the position
/// delivered last; for every other player, what was shown before.
pub proof fn lemma_replay_shows_latest(client: Presentation, log: Seq<Snapshot>)
    ensures
        replay(client, log).identity == client.identity,
        forall|id: u64| #[trigger]
            replay(client, log).visuals.contains_key(id) <==> (client.visuals.contains_key(id)
                || latest_position(log, id) is Some),
        forall|id: u64|
            latest_position(log, id) is Some ==> #[trigger] replay(client, log).visuals[id]
                == latest_position(log, id).unwrap(),
        forall|id: u64|
            latest_position(log, id) is None ==> #[trigger] replay(client, log).visuals[id]
                == client.visuals[id],
    decreases log.len(),
{
    if log.len() > 0 {
        lemma_replay_shows_latest(client, log.drop_last());
    }
}

/// Only the latest values show. Two logs that deliver the same last position
/// for every player leave the client with the same picture, whatever else
/// they deliver before: states may be dropped, merged or repeated on the way.
pub proof fn lemma_only_latest_values_show(client: Presentation, one: Seq<Snapshot>, other: Seq<Snapshot>)
    requires
        forall|id: u64| latest_position(one, id) == latest_position(other, id),
    ensures
        replay(client, one) == replay(client, other),
{
    lemma_replay_shows_latest(client, one);
    lemma_replay_shows_latest(client, other);
    assert(replay(client, one).visuals =~= replay(client, other).visuals);
}

/// Replaying two logs one after the other is replaying their concatenation.
pub proof fn lemma_replay_concat(client: Presentation, first: Seq<Snapshot>, second: Seq<Snapshot>)
    ensures
        replay(client, first + second) == replay(replay(client, first), second),
    decreases second.len(),
{
    if second.len() > 0 {
        assert((first + second).drop_last() =~= first + second.drop_last());
        lemma_replay_concat(client, first, second.drop_last());
    }
}

/// Delivering one state any number of times more shows what delivering it
/// once shows.
pub proof fn lemma_repeat_is_once(client: Presentation, snapshot: Snapshot, extra: nat)
    ensures
        replay(client, repeated(snapshot, extra + 1)) == observed(client, snapshot),
    decreases extra,
{
    let many = repeated(snapshot, extra + 1);
    let once = observed(client, snapshot);
    if extra == 0 {
        assert(replay(client, many.drop_last()) == client);
    } else {
        assert(many.drop_last() =~= repeated(snapshot, ((extra - 1) as nat) + 1));
        lemma_repeat_is_once(client, snapshot, (extra - 1) as nat);
        assert(observed(once, snapshot).visuals =~= once.visuals);
    }
}

/// Idempotence of observation. However often each state of a log is
/// delivered again, the client ends up showing what one delivery of each
/// shows: the last value wins and nothing accumulates.
pub proof fn lemma_redelivery_changes_nothing(client: Presentation, log: Seq<Snapshot>, extra: Seq<nat>)
    requires
        extra.len() == log.len(),
    ensures
        replay(client, redelivered(log, extra)) == replay(client, log),
    decreases log.len(),
{
    if log.len() > 0 {
        let head = redelivered(log.drop_last(), extra.drop_last());
        let tail = repeated(log.last(), extra.last() + 1);
        lemma_redelivery_changes_nothing(client, log.drop_last(), extra.drop_last());
        lemma_replay_concat(client, head, tail);
        lemma_repeat_is_once(replay(client, head), log.last(), extra.last());
    }
}

/// Replaying a whole log a second time changes nothing either.
pub proof fn lemma_replay_twice_is_once(client: Presentation, log: Seq<Snapshot>)
    ensures
        replay(replay(client, log), log) == replay(client, log),
{
    let once = replay(client, log);
    lemma_replay_shows_latest(client, log);
    lemma_replay_shows_latest(once, log);
    assert(replay(once, log).visuals =~= once.visuals);
}

} // verus!
