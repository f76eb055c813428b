//! Authoritative movement synchronisation between one server and its clients.
//!
//! Each client controls one player. The server alone writes a player's
//! position: clients send movement intents, the server applies the latest
//! intent of each player on every tick, and every client sees every player
//! through a mirrored copy of the server's state. This crate holds the state
//! machines of that protocol and the proofs of their laws, free of any
//! transport, replication or presentation framework.
//!
//! - [`server`] binds connections to players and runs the simulation;
//!   [`world`] is its mathematical model, with the laws on intents, ticks
//!   and disconnects.
//! - [`client`] tracks a client's identity and what it shows;
//!   [`presentation`] is its model, with the laws on the local player and on
//!   repeated observation.
//! - [`replication`] says what of the server's world reaches the clients.
//! - [`protocol`] holds the replicated player, the messages and their
//!   delivery classes; [`movement`] the position update law; [`lifecycle`]
//!   startup and shutdown.
//!
//! Positions and directions are fixed-point vectors ([`vector::Vec2`]) with
//! [`vector::UNIT`] steps to the world unit, so that the simulation is exact
//! and the same on every machine.

pub mod client;
pub mod lifecycle;
pub mod movement;
pub mod presentation;
pub mod protocol;
pub mod replication;
pub mod server;
pub mod vector;
pub mod world;

mod registry;
