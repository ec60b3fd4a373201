//! The packets exchanged between the server and its remote clients.
use vstd::prelude::*;
use crate::protocol::{ChatMessage, LoginError, MessageContent};

verus! {

/// Fundamental connection control signals from the server to the client.
///
/// These differ from protocol-level messages as they are used to manage the
/// remote socket lifecycle, notifying the far-end about state changes instead
/// of relaying peer data.
#[derive(Debug, Clone)]
pub enum ServerCommand {
    /// Indicates the handshake was valid and the connection is active.
    Welcome(u64),
    /// Indicates that the login was refused, and why.
    LoginError(LoginError),
    /// The names of the users currently logged in.
    ActiveUsers { usernames: Vec<String> },
    /// Another user joined the chat room.
    Joined(String),
    /// Another user left the chat room.
    Left(String),
    /// Liveness probe carrying the server's timestamp, to be answered with a pong.
    Ping(i64),
    /// Indicates the server is actively dropping the client's connection.
    Disconnect,
}

/// The unified message type that the server blasts outwards to the client.
#[derive(Debug, Clone)]
pub enum ServerMessage {
    /// A system-level administrative message (e.g. Welcome/Disconnect).
    Command(ServerCommand),
    /// Relayed application-level data from another user acting as a peer.
    Chat(ChatMessage),
}

/// The wire-level envelope dispatched from the Server strictly to the Client.
///
/// Contains the payload alongside synchronization data like timestamps.
#[derive(Debug, Clone)]
pub struct ServerRemotePacket {
    /// UTC timestamp (milliseconds since the Unix epoch) of the packet's creation.
    pub timestamp: i64,
    /// The encapsulated data destined for the client.
    pub message: ServerMessage,
}

/// What a client asks of the server.
#[derive(Debug, Clone)]
pub enum ClientMessage {
    /// Log in under this username.
    Login(String),
    /// Send this message to the chat room.
    Chat(MessageContent),
    /// Answer to a ping, echoing its timestamp.
    Pong(i64),
}

/// The wire-level envelope received by the Server explicitly from the Client.
///
/// Clients transmit this structure upwards to relay application data
/// into the server's routing core.
#[derive(Debug, Clone)]
pub struct ClientRemotePacket {
    /// Untrusted. Just used for roundtrip time measurement.
    pub timestamp: i64,
    /// What the client asks of the server.
    pub message: ClientMessage,
}

/// The current time, in milliseconds since the Unix epoch.
///
/// Trusted: calls chrono's `Utc::now().timestamp_millis()`. The result depends
/// on the clock, so nothing is stated of it.
#[verifier::external_body]
fn unix_millis_now() -> i64 {
    chrono::Utc::now().timestamp_millis()
}

impl ServerRemotePacket {
    /// Instantiates a new packet attached to the current UTC Unix timestamp.
    pub fn new(message: ServerMessage) -> (p: Self)
        ensures
            p.message == message,
    {
        ServerRemotePacket { timestamp: unix_millis_now(), message }
    }
}

impl ClientRemotePacket {
    /// Instantiates a new packet attached to the current UTC Unix timestamp.
    pub fn new(message: ClientMessage) -> (p: Self)
        ensures
            p.message == message,
    {
        ClientRemotePacket { timestamp: unix_millis_now(), message }
    }
}

} // verus!
