//! Server-authoritative networking core of a real-time multiplayer 2D game:
//! wire framing, session registry, tick synchronisation, the round and
//! intermission state machine with map voting, and the statistics board.
pub mod codec;
pub mod protocol;
pub mod ticks;
pub mod registry;
pub mod stats;
pub mod game_state;
pub mod server;
pub mod client;
