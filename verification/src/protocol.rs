//! What crosses the boundary between server and clients: the replicated
//! player, the messages, and the delivery class of each message.

use vstd::prelude::*;
use crate::vector::Vec2;

verus! {

/// Identifies a player entity. Owned by the server and mirrored to every
/// client; `network_id` is fixed for the life of the owning connection.
#[derive(Clone, Copy, Debug, PartialEq, Eq, Structural)]
pub struct Player {
    pub network_id: u64,
}

/// Client to server: the movement direction the client wishes for this tick.
#[derive(Clone, Copy, Debug, PartialEq, Eq, Structural)]
pub struct ClientMovementIntent(pub Vec2);

/// Marks the one player entity that this client controls. It exists on the
/// client only and is never sent.
#[derive(Clone, Copy, Debug, PartialEq, Eq, Structural)]
pub struct LocalPlayer;

/// Server to one client: the `network_id` assigned to that client's connection.
#[derive(Clone, Copy, Debug, PartialEq, Eq, Structural)]
pub struct YourClientId(pub u64);

/// The mirrored part of a player: its identity and authoritative position.
/// The server's record of the last intent is not part of it.
#[derive(Clone, Copy, Debug, PartialEq, Eq, Structural)]
pub struct Snapshot {
    pub player: Player,
    pub position: Vec2,
}

/// The messages of the protocol.
#[derive(Clone, Copy, Debug, PartialEq, Eq, Structural)]
pub enum MessageKind {
    MovementIntent,
    ClientId,
}

/// Delivery guarantee of a channel.
#[derive(Clone, Copy, Debug, PartialEq, Eq, Structural)]
pub enum Channel {
    /// Unordered and lossy: a lost message is superseded by the next one.
    Unreliable,
    /// Reliable and in order.
    Ordered,
}

/// Which side sends a message.
#[derive(Clone, Copy, Debug, PartialEq, Eq, Structural)]
pub enum Flow {
    ClientToServer,
    ServerToClient,
}

impl MessageKind {
    pub open spec fn spec_channel(self) -> Channel {
        match self {
            MessageKind::MovementIntent => Channel::Unreliable,
            MessageKind::ClientId => Channel::Ordered,
        }
    }

    pub open spec fn spec_flow(self) -> Flow {
        match self {
            MessageKind::MovementIntent => Flow::ClientToServer,
            MessageKind::ClientId => Flow::ServerToClient,
        }
    }

    /// The channel a message of this kind travels on. Intents tolerate loss,
    /// since the next tick replaces them; the identity is told exactly once
    /// and therefore reliably.
    #[verifier::when_used_as_spec(spec_channel)]
    pub fn channel(self) -> (channel: Channel)
        ensures
            channel == self.spec_channel(),
    {
        match self {
            MessageKind::MovementIntent => Channel::Unreliable,
            MessageKind::ClientId => Channel::Ordered,
        }
    }

    /// The side that sends a message of this kind.
    #[verifier::when_used_as_spec(spec_flow)]
    pub fn flow(self) -> (flow: Flow)
        ensures
            flow == self.spec_flow(),
    {
        match self {
            MessageKind::MovementIntent => Flow::ClientToServer,
            MessageKind::ClientId => Flow::ServerToClient,
        }
    }
}

impl YourClientId {
    /// The identity announcement for a freshly bound player, with the
    /// `network_id` of the one connection it is addressed to.
    pub fn announce(player: Player) -> (sent: (u64, YourClientId))
        ensures
            sent == (player.network_id, YourClientId(player.network_id)),
    {
        (player.network_id, YourClientId(player.network_id))
    }
}

} // verus!
