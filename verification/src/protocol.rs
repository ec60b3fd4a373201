//! Protocol
//! Internal messages between client and server
//!
//! This module defines the core message structures that form the logical
//! communication layer between the local server engine and connected clients.
use vstd::prelude::*;
use vstd::string::StringExecFns;

verus! {

/// Message destination.
///
/// Dictates the target audience for a specific broadcast or message mechanism.
/// Only broadcast messages exist for now.
#[derive(Debug, Clone, Copy, PartialEq, Eq, Structural)]
pub enum MessageDestination {
    /// Broadcast the message to all currently connected clients.
    AllUsers,
}

/// Message content
///
/// Actual message payload. Only text messages exist for now.
#[derive(Debug, Clone)]
pub enum MessageContent {
    /// UTF-8 encoded text
    Text(String),
}

/// A standard multi-purpose message representing data flow between entities.
///
/// This provides the entire context needed for the server to handle routing
/// without requiring the connection logic to peek inside the payload content.
#[derive(Debug, Clone)]
pub struct ChatMessage {
    pub author_id: u64,
    pub author_username: String,
    /// Where this message should be delivered.
    pub destination: MessageDestination,
    /// The inner payload data.
    pub content: MessageContent,
}

/// A top-level logical request sourced from a client and directed to the server.
///
/// Request acts as the core intent enum, enabling the client to state what
/// actions it is hoping the server will take on its behalf (like joining, leaving, or sending).
#[derive(Debug, Clone)]
pub enum Request {
    /// Signals the intent to connect and start listening for updates.
    Connect { username: String },
    /// Requests the list of currently connected active users.
    GetActiveUsers,
    /// Signals the intent to disconnect from the server and terminate the session.
    Disconnect,
    /// Requests the server to route a specific `Message`.
    Message(ChatMessage),
}

/// An envelope wrapping a client's [`Request`] with contextual origin tracking.
#[derive(Debug, Clone)]
pub struct ClientRequest {
    /// The unique id of the client that emitted this request.
    pub client_id: u64,
    /// The address of the client, in its textual form (`ip:port`).
    pub client_addr: String,
    /// The underlying action the client wishes to perform.
    pub request: Request,
}

/// Why the server refused a login.
#[derive(Debug, Clone, Copy, PartialEq, Eq, Structural)]
pub enum LoginError {
    UsernameTaken,
    InvalidUsername,
    EmptyUsername,
}

/// The text shown to a user for a refused login.
pub open spec fn login_error_text(e: LoginError) -> Seq<char> {
    match e {
        LoginError::UsernameTaken => "Username is already taken"@,
        LoginError::InvalidUsername => "Invalid username format"@,
        LoginError::EmptyUsername => "Username cannot be empty"@,
    }
}

impl LoginError {
    /// The human-readable description of the error.
    pub fn message(&self) -> (s: String)
        ensures
            s@ == login_error_text(*self),
    {
        match self {
            LoginError::UsernameTaken => String::from_str("Username is already taken"),
            LoginError::InvalidUsername => String::from_str("Invalid username format"),
            LoginError::EmptyUsername => String::from_str("Username cannot be empty"),
        }
    }
}

/// A top-level logical response from the server directed towards connected clients.
///
/// This enum groups together different types of instructions and information
/// that the server pushes downwards to the clients, such as system events or peer data.
#[derive(Debug, Clone)]
pub enum Response {
    /// Indicates that the connection was successfully registered.
    /// Provides the client with its assigned user id.
    Welcome(u64),
    /// Indicates that the login was rejected.
    LoginReject { client_id: u64, error: LoginError },
    /// Tells the client about the current active usernames.
    ActiveUsers { usernames: Vec<String> },
    /// Indicates that a user joined the chat room.
    Joined { username: String },
    /// Indicates that a user left the chat room.
    Left { username: String },
    /// Instructs the client at this address (`ip:port`) to close the connection.
    Disconnect(String),
    /// A routed message originating from another peer on the network.
    Message(ChatMessage),
}

} // verus!
