//! The values exchanged between client and server. Floating-point quantities
//! of the simulation travel as their IEEE-754 single-precision bit patterns:
//! the networking core carries them and never computes with them.
use vstd::prelude::*;
use crate::game_state::ServerGameState;
use crate::stats::ClientStatistics;

verus! {

/// The way a pawn faces or moves.
#[derive(Debug, Clone, Copy, PartialEq, Eq, Structural)]
pub enum Direction {
    Left,
    Right,
    Up,
    Down,
}

/// The playable characters; each comes with its own movement and attack attributes.
#[derive(Debug, Clone, Copy, PartialEq, Eq, Structural)]
pub enum PawnType {
    Knight,
    Ninja,
    Soldier,
    Human,
    Schoolgirl,
}

/// A discrete input symbol sent by a client on the tick channel.
#[derive(Debug, Clone, Copy, PartialEq, Eq, Structural)]
pub enum GameInput {
    MoveJump,
    MoveDuck,
    MoveRight,
    MoveLeft,
    Attack,
    Defend,
    Join,
    Exit,
}

/// The identifiers of the maps that can be played and voted for.
#[derive(Debug, Clone, Copy, PartialEq, Eq, Structural)]
pub enum MapName {
    FlatGround,
    Islands,
}

/// Which page of the pause window is shown.
#[derive(Debug, Clone, Copy, PartialEq, Eq, Structural)]
pub enum PauseWindowState {
    Main,
    Settings,
}

/// The screen the client shows.
#[derive(Debug, Clone, Copy, PartialEq, Eq, Structural)]
pub enum UiMode {
    Game,
    MainMenu,
    GameMenu,
    PauseWindow,
}

/// The kinds of attack a pawn can make.
#[derive(Debug, Clone, Copy, PartialEq, Eq, Structural)]
pub enum AttackType {
    Directional(Direction),
    Super,
    Quick,
}

/// Lasting effects that limit what a pawn can do.
#[derive(Debug, Clone, Copy, PartialEq, Eq, Structural)]
pub enum EffectType {
    Slowdown,
    Stunned,
}

/// Whether an animated map element heads towards its destination or back.
#[derive(Debug, Clone, Copy, PartialEq, Eq, Structural)]
pub enum MovementState {
    In,
    Out,
}

/// The collision layers of the simulation.
#[derive(Debug, Clone, Copy, PartialEq, Eq, Structural)]
pub enum CollisionGroup {
    MapObject,
    ForeignCharacter,
    AttackObj,
}

impl CollisionGroup {
    /// The layer's bit in a collision mask.
    pub fn bits(&self) -> (r: u32)
        ensures
            r == match *self {
                CollisionGroup::MapObject => 1u32,
                CollisionGroup::ForeignCharacter => 4u32,
                CollisionGroup::AttackObj => 8u32,
            },
    {
        match self {
            CollisionGroup::MapObject => 1,
            CollisionGroup::ForeignCharacter => 4,
            CollisionGroup::AttackObj => 8,
        }
    }
}

/// Position and rotation of an entity, as single-precision bit patterns.
#[derive(Debug, Clone, Copy, PartialEq, Eq, Structural)]
pub struct Transform {
    pub x: u32,
    pub y: u32,
    pub rotation: u32,
}

/// Linear and angular velocity of an entity, as single-precision bit patterns.
#[derive(Debug, Clone, Copy, PartialEq, Eq, Structural)]
pub struct Velocity {
    pub x: u32,
    pub y: u32,
    pub angular: u32,
}

/// What a client needs to know of a pawn to draw and simulate it.
#[derive(Debug, Clone, Copy, PartialEq, Eq, Structural)]
pub struct Pawn {
    pub uuid: u128,
    /// Health points, as a single-precision bit pattern.
    pub health: u32,
    pub jumps_remaining: u8,
    pub direction: Direction,
    pub pawn_type: PawnType,
}

/// The state of one pawn at one simulation step.
#[derive(Debug, Clone, Copy, PartialEq, Eq, Structural)]
pub struct PawnUpdate {
    pub position: Transform,
    pub velocity: Velocity,
    pub player: Pawn,
    /// The simulation step the snapshot was taken on.
    pub tick_count: u64,
}

impl PawnUpdate {
    pub fn new(position: Transform, velocity: Velocity, player: Pawn, tick_count: u64) -> (r:
        PawnUpdate)
        ensures
            r == (PawnUpdate { position, velocity, player, tick_count }),
    {
        PawnUpdate { position, velocity, player, tick_count }
    }
}

/// The new place of an animated map element.
#[derive(Debug, Clone, Copy, PartialEq, Eq, Structural)]
pub struct MapObjectUpdate {
    pub transform: Transform,
    pub id: u128,
}

/// The two kinds of snapshot that share the tick envelope.
#[derive(Debug, Clone, Copy, PartialEq, Eq, Structural)]
pub enum TickUpdateType {
    Pawn(PawnUpdate),
    MapObject(MapObjectUpdate),
}

/// One snapshot sent by the server on the tick channel.
#[derive(Debug, Clone, Copy, PartialEq, Eq, Structural)]
pub struct ServerTickUpdate {
    pub tick_update_type: TickUpdateType,
}

impl ServerTickUpdate {
    pub fn new(tick_update_type: TickUpdateType) -> (r: ServerTickUpdate)
        ensures
            r.tick_update_type == tick_update_type,
    {
        ServerTickUpdate { tick_update_type }
    }
}

/// What the server tells a client during the handshake: the identity it was
/// given and the port of the server's tick socket.
#[derive(Debug, Clone, Copy, PartialEq, Eq, Structural)]
pub struct ServerMetadata {
    pub client_uuid: u128,
    pub game_socket_port: u16,
}

impl ServerMetadata {
    pub fn new(client_uuid: u128, game_socket_port: u16) -> (r: ServerMetadata)
        ensures
            r.client_uuid == client_uuid,
            r.game_socket_port == game_socket_port,
    {
        ServerMetadata { client_uuid, game_socket_port }
    }
}

/// The server's own connection facts: the port of its tick socket.
#[derive(Debug, Clone, Copy, PartialEq, Eq, Structural)]
pub struct ConnectionMetadata {
    pub game_socket_port: u16,
}

impl ConnectionMetadata {
    pub fn new(game_socket_port: u16) -> (r: ConnectionMetadata)
        ensures
            r.game_socket_port == game_socket_port,
    {
        ConnectionMetadata { game_socket_port }
    }

    /// The handshake reply for the client that was given `id`.
    pub fn into_server_metadata(&self, id: u128) -> (r: ServerMetadata)
        ensures
            r.client_uuid == id,
            r.game_socket_port == self.game_socket_port,
    {
        ServerMetadata { client_uuid: id, game_socket_port: self.game_socket_port }
    }
}

/// What a client tells the server during the handshake: the port its tick
/// socket listens on and its display name.
#[derive(Debug, Clone, PartialEq, Eq)]
pub struct ClientMetadata {
    pub game_socket_port: u16,
    pub username: String,
}

impl ClientMetadata {
    pub fn new(game_socket_port: u16, username: String) -> (r: ClientMetadata)
        ensures
            r.game_socket_port == game_socket_port,
            r.username@ == username@,
    {
        ClientMetadata { game_socket_port, username }
    }

    /// The handshake reply that pairs this client's port with `id`.
    pub fn into_server_metadata(&self, id: u128) -> (r: ServerMetadata)
        ensures
            r.client_uuid == id,
            r.game_socket_port == self.game_socket_port,
    {
        ServerMetadata { client_uuid: id, game_socket_port: self.game_socket_port }
    }
}

/// Control messages from a client.
#[derive(Debug, Clone, Copy, PartialEq, Eq, Structural)]
pub enum ClientRequest {
    /// A vote for the next map during an intermission.
    Vote(MapName),
    /// A round-trip probe carrying the client's timestamp.
    RTTMeasurement(i64),
    /// A request for the full state of every pawn.
    ClientPawnSync,
    /// A request to play another character.
    PawnTypeChange(PawnType),
}

/// A control message together with the id of the client that sent it.
#[derive(Debug, Clone, Copy, PartialEq, Eq, Structural)]
pub struct RemoteClientRequest {
    pub id: u128,
    pub request: ClientRequest,
}

/// A batch of inputs sent on the tick channel, tagged with the sender's id.
#[derive(Debug, Clone, PartialEq, Eq)]
pub struct RemoteClientGameRequest {
    pub id: u128,
    pub inputs: Vec<GameInput>,
}

/// Control messages from the server.
#[derive(Debug, Clone, PartialEq, Eq)]
pub enum ServerRequest {
    /// The client with this id left.
    PlayerDisconnect(u128),
    /// The game entered this state.
    ServerGameStateControl(ServerGameState),
    /// These clients' statistics changed.
    PlayersStatisticsChange(Vec<ClientStatistics>),
    /// The answer to a round-trip probe, carrying the probe's timestamp.
    RTTMeasurement(i64),
    /// The client with this id voted for this map.
    PlayerVote(u128, MapName),
    /// The client with this id now plays this character.
    PawnTypeChange(u128, PawnType),
    /// The full state of every pawn.
    ClientPawnSync(Vec<PawnUpdate>),
}

/// The envelope of a control message from the server.
#[derive(Debug, Clone, PartialEq, Eq)]
pub struct RemoteServerRequest {
    pub request: ServerRequest,
}

} // verus!
