//! The server's world as a mathematical object: which players exist, where
//! they stand and where they are heading, and how each event changes that.

use vstd::prelude::*;
use crate::movement::{advance, in_range, travel};
use crate::protocol::ClientMovementIntent;
use crate::vector::Vec2;

verus! {

/// What the server holds for one player: the authoritative position and the
/// last movement intent received from the owning client.
#[derive(Clone, Copy, Debug, PartialEq, Eq, Structural)]
pub struct PlayerState {
    pub position: Vec2,
    pub input: Vec2,
}

/// The players that exist, by `network_id`. A map has one entry per key, so
/// no two players of a world share a `network_id`.
pub type World = Map<u64, PlayerState>;

/// A notification that reaches the server's tick loop.
pub enum ServerEvent {
    /// A connection was authorized; it carries the transport's identifier of
    /// the connection, if that could be resolved.
    Authorized(Option<u64>),
    /// The connection with this `network_id` ended.
    Closed(u64),
    /// The client with this `network_id` reported an intent.
    Intent(u64, ClientMovementIntent),
    /// The simulation advances by this many microseconds.
    Tick(u32),
}

/// An intent as it lies in the server's inbox, with the `network_id` of the
/// client that sent it.
#[derive(Clone, Copy, Debug, PartialEq, Eq, Structural)]
pub struct Received {
    pub sender: u64,
    pub intent: ClientMovementIntent,
}

/// A player as created: at the origin, standing still.
pub open spec fn spawned() -> PlayerState {
    PlayerState { position: Vec2::zero(), input: Vec2::zero() }
}

/// The world after the connection `network_id` was authorized. A player that
/// exists already is left as it is.
pub open spec fn joined(world: World, network_id: u64) -> World {
    if world.contains_key(network_id) {
        world
    } else {
        world.insert(network_id, spawned())
    }
}

/// The world after the connection `network_id` ended.
pub open spec fn departed(world: World, network_id: u64) -> World {
    world.remove(network_id)
}

/// The world after an intent of `sender` arrived: it replaces the sender's
/// previous intent. An intent of a sender without a player changes nothing.
pub open spec fn steered(world: World, sender: u64, direction: Vec2) -> World {
    if world.contains_key(sender) {
        world.insert(sender, PlayerState { position: world[sender].position, input: direction })
    } else {
        world
    }
}

/// One player after a tick: moved by its last intent, which stays in force.
pub open spec fn moved(player: PlayerState, delta_micros: u32) -> PlayerState {
    PlayerState {
        position: advance(player.position, player.input, delta_micros),
        input: player.input,
    }
}

/// The world after a tick of `delta_micros`: every player has moved.
pub open spec fn simulated(world: World, delta_micros: u32) -> World {
    Map::new(|id: u64| world.contains_key(id), |id: u64| moved(world[id], delta_micros))
}

/// The world after one event.
pub open spec fn step(world: World, event: ServerEvent) -> World {
    match event {
        ServerEvent::Authorized(Some(network_id)) => joined(world, network_id),
        ServerEvent::Authorized(None) => world,
        ServerEvent::Closed(network_id) => departed(world, network_id),
        ServerEvent::Intent(sender, intent) => steered(world, sender, intent.0),
        ServerEvent::Tick(delta_micros) => simulated(world, delta_micros),
    }
}

/// The world after a sequence of events, first to last.
pub open spec fn run(world: World, events: Seq<ServerEvent>) -> World
    decreases events.len(),
{
    if events.len() == 0 {
        world
    } else {
        step(run(world, events.drop_last()), events.last())
    }
}

/// The arrival of the intents of an inbox, in the order of the inbox.
pub open spec fn arrivals(inbox: Seq<Received>) -> Seq<ServerEvent> {
    Seq::new(inbox.len(), |i: int| ServerEvent::Intent(inbox[i].sender, inbox[i].intent))
}

/// The world after one frame of the tick loop: the intents received since
/// the last tick are applied first, then the simulation advances.
pub open spec fn framed(world: World, inbox: Seq<Received>, delta_micros: u32) -> World {
    simulated(run(world, arrivals(inbox)), delta_micros)
}

/// `count` ticks of `delta_micros` each, with nothing in between.
pub open spec fn ticks(count: nat, delta_micros: u32) -> Seq<ServerEvent> {
    Seq::new(count, |i: int| ServerEvent::Tick(delta_micros))
}

/// Every event is an intent: nothing else happened since the last tick.
pub open spec fn only_intents(events: Seq<ServerEvent>) -> bool {
    forall|i: int| 0 <= i < events.len() ==> events[i] is Intent
}

/// The direction of the last intent that `sender` has among `events`.
pub open spec fn latest_intent(events: Seq<ServerEvent>, sender: u64) -> Option<Vec2>
    decreases events.len(),
{
    if events.len() == 0 {
        None
    } else {
        match events.last() {
            ServerEvent::Intent(from, intent) if from == sender => Some(intent.0),
            _ => latest_intent(events.drop_last(), sender),
        }
    }
}

/// Whether the connection `network_id` is active after `events`, given
/// whether it was active before them: the last authorization or end of that
/// connection decides.
pub open spec fn connected(before: bool, events: Seq<ServerEvent>, network_id: u64) -> bool
    decreases events.len(),
{
    if events.len() == 0 {
        before
    } else {
        match events.last() {
            ServerEvent::Authorized(Some(id)) if id == network_id => true,
            ServerEvent::Closed(id) if id == network_id => false,
            _ => connected(before, events.drop_last(), network_id),
        }
    }
}

/// No event authorizes the connection `network_id`.
pub open spec fn never_authorizes(events: Seq<ServerEvent>, network_id: u64) -> bool {
    forall|i: int| 0 <= i < events.len() ==> events[i] != ServerEvent::Authorized(Some(network_id))
}

/// Last write wins. Of the intents that arrive between two ticks, in any
/// number and from any senders, only the last one of a player has an effect
/// on that player: it alone is the input of the next tick, earlier ones leave
/// no trace, and no position changes before the tick.
pub proof fn lemma_last_intent_wins(world: World, events: Seq<ServerEvent>, id: u64, delta_micros: u32)
    requires
        only_intents(events),
        world.contains_key(id),
    ensures
        run(world, events).dom() == world.dom(),
        run(world, events)[id].position == world[id].position,
        run(world, events)[id].input == match latest_intent(events, id) {
            Some(direction) => direction,
            None => world[id].input,
        },
        simulated(run(world, events), delta_micros)[id].position == advance(
            world[id].position,
            match latest_intent(events, id) {
                Some(direction) => direction,
                None => world[id].input,
            },
            delta_micros,
        ),
    decreases events.len(),
{
    if events.len() > 0 {
        lemma_last_intent_wins(world, events.drop_last(), id, delta_micros);
    }
}

/// Of the intents in an inbox only the last one of each player decides where
/// the frame moves that player; a player without an intent in the inbox
/// moves by the intent it had.
pub proof fn lemma_frame_uses_last_intent(world: World, inbox: Seq<Received>, id: u64, delta_micros: u32)
    requires
        world.contains_key(id),
    ensures
        framed(world, inbox, delta_micros).dom() == world.dom(),
        framed(world, inbox, delta_micros)[id] == moved(
            PlayerState {
                position: world[id].position,
                input: match latest_intent(arrivals(inbox), id) {
                    Some(direction) => direction,
                    None => world[id].input,
                },
            },
            delta_micros,
        ),
{
    lemma_last_intent_wins(world, arrivals(inbox), id, delta_micros);
}

/// A part of a way that stays in range stays in range.
proof fn lemma_partial_way(start: int, stride: int, part: nat, whole: nat)
    requires
        part <= whole,
        in_range(start),
        in_range(start + whole * stride),
    ensures
        in_range(start + part * stride),
{
    assert(stride >= 0 ==> 0 <= part * stride <= whole * stride) by (nonlinear_arith)
        requires
            part <= whole,
    ;
    assert(stride <= 0 ==> whole * stride <= part * stride <= 0) by (nonlinear_arith)
        requires
            part <= whole,
    ;
}

/// A steady course. While no intent arrives, every tick moves a player by
/// the same travel, so that `count` ticks move it `count` times as far as
/// one tick, as long as the way stays inside the coordinate range.
pub proof fn lemma_steady_course(world: World, id: u64, delta_micros: u32, count: nat)
    requires
        world.contains_key(id),
        in_range(world[id].position.x + count * travel(world[id].input.x as int, delta_micros as int)),
        in_range(world[id].position.y + count * travel(world[id].input.y as int, delta_micros as int)),
    ensures
        run(world, ticks(count, delta_micros)).dom() == world.dom(),
        run(world, ticks(count, delta_micros))[id].input == world[id].input,
        run(world, ticks(count, delta_micros))[id].position.x == world[id].position.x + count * travel(
            world[id].input.x as int,
            delta_micros as int,
        ),
        run(world, ticks(count, delta_micros))[id].position.y == world[id].position.y + count * travel(
            world[id].input.y as int,
            delta_micros as int,
        ),
    decreases count,
{
    let stride_x = travel(world[id].input.x as int, delta_micros as int);
    let stride_y = travel(world[id].input.y as int, delta_micros as int);
    if count == 0 {
        assert(0 * stride_x == 0 && 0 * stride_y == 0);
    } else {
        let earlier = (count - 1) as nat;
        lemma_partial_way(world[id].position.x as int, stride_x, earlier, count);
        lemma_partial_way(world[id].position.y as int, stride_y, earlier, count);
        lemma_steady_course(world, id, delta_micros, earlier);
        assert(ticks(count, delta_micros).drop_last() =~= ticks(earlier, delta_micros));
        assert(count * stride_x == earlier * stride_x + stride_x) by (nonlinear_arith)
            requires
                count == earlier + 1,
        ;
        assert(count * stride_y == earlier * stride_y + stride_y) by (nonlinear_arith)
            requires
                count == earlier + 1,
        ;
    }
}

/// A player exists exactly while its connection is active: it is created
/// when the connection is authorized and destroyed when the connection ends,
/// and neither intents nor ticks create or destroy players.
pub proof fn lemma_players_follow_connections(world: World, events: Seq<ServerEvent>, network_id: u64)
    ensures
        run(world, events).contains_key(network_id) == connected(
            world.contains_key(network_id),
            events,
            network_id,
        ),
    decreases events.len(),
{
    if events.len() > 0 {
        lemma_players_follow_connections(world, events.drop_last(), network_id);
    }
}

/// Disconnect cleanliness. Once a connection has ended, its player is gone
/// and stays gone whatever follows, until that connection is authorized anew:
/// no tick moves it and no intent revives it.
pub proof fn lemma_disconnect_is_clean(world: World, network_id: u64, events: Seq<ServerEvent>)
    requires
        never_authorizes(events, network_id),
    ensures
        !run(departed(world, network_id), events).contains_key(network_id),
    decreases events.len(),
{
    if events.len() > 0 {
        lemma_disconnect_is_clean(world, network_id, events.drop_last());
    }
}

} // verus!
