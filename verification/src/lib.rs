//! Authoritative, event-sourced core of a small real-time multiplayer
//! kitchen game: entity state, a reducer over replicated events, player
//! steering and collision in milli-unit fixed point, and a periodic
//! order-generation tick. Server and clients apply the same event log and
//! converge on the same world.

pub mod entities;
pub mod math;
pub mod physics;
pub mod world;
