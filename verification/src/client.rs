//! Client thread
//! The rules of the worker that serves one client connection: what it asks of
//! the server core for each packet of its client, and what it passes on to its
//! client of what the server core broadcasts.
use vstd::prelude::*;
use crate::protocol::{ChatMessage, ClientRequest, LoginError, MessageDestination, Request, Response};
use crate::remote::packet::{ClientMessage, ServerCommand, ServerMessage};
use crate::text::{decimal, decimal_chars, push_str_chars, string_from_chars};

verus! {

/// Represents the core identity of a client (ID and address).
#[derive(Debug, Clone)]
pub struct ClientIdentity {
    /// Unique ID
    pub id: u64,
    /// Client address, in its textual form (`ip:port`).
    pub addr: String,
}

impl ClientIdentity {
    /// Wraps a request of this client in its envelope.
    pub fn wrap_request(self, request: Request) -> (r: ClientRequest)
        ensures
            r == (ClientRequest { client_id: self.id, client_addr: self.addr, request }),
    {
        ClientRequest { client_id: self.id, client_addr: self.addr, request }
    }
}

/// The state of one client connection: who the client is, and the name it
/// logged in under, if it did.
#[derive(Debug)]
pub struct Client {
    pub identity: ClientIdentity,
    /// Client username chosen on login
    pub username: Option<String>,
}

/// Whether a join or leave notice about `name` is passed on to a client
/// logged in as `own`: only to logged-in clients, and not about themselves.
pub open spec fn notice_passed_on(own: Option<String>, name: String) -> bool {
    own matches Some(n) && n@ != name@
}

/// The request of client `id`, logged in as `own` if at all, for a packet
/// `m` from its client: a login only before the first one, a chat message
/// only after a login, signed with the login name; a pong is not forwarded.
pub open spec fn request_for_packet(
    id: ClientIdentity,
    own: Option<String>,
    m: ClientMessage,
) -> Option<ClientRequest> {
    match m {
        ClientMessage::Login(name) => if own is Some {
            None
        } else {
            Some(
                ClientRequest {
                    client_id: id.id,
                    client_addr: id.addr,
                    request: Request::Connect { username: name },
                },
            )
        },
        ClientMessage::Chat(content) => match own {
            Some(u) => Some(
                ClientRequest {
                    client_id: id.id,
                    client_addr: id.addr,
                    request: Request::Message(
                        ChatMessage {
                            author_id: id.id,
                            author_username: u,
                            destination: MessageDestination::AllUsers,
                            content,
                        },
                    ),
                },
            ),
            None => None,
        },
        ClientMessage::Pong(_) => None,
    }
}

/// The login name after a packet `m` from the client: a first login takes
/// the name it asks for.
pub open spec fn username_after_packet(own: Option<String>, m: ClientMessage) -> Option<String> {
    match m {
        ClientMessage::Login(name) => if own is Some {
            own
        } else {
            Some(name)
        },
        _ => own,
    }
}

/// The login name after a response `r` broadcast by the core: a refusal of
/// this client's login forgets the name.
pub open spec fn username_after_response(
    id: ClientIdentity,
    own: Option<String>,
    r: Response,
) -> Option<String> {
    match r {
        Response::LoginReject { client_id, .. } => if client_id == id.id {
            None
        } else {
            own
        },
        _ => own,
    }
}

/// What client `id`, logged in as `own` if at all, is sent of a response `r`.
pub open spec fn message_for_response(
    id: ClientIdentity,
    own: Option<String>,
    r: Response,
) -> Option<ServerMessage> {
    match r {
        Response::Welcome(cid) => if cid == id.id {
            Some(ServerMessage::Command(ServerCommand::Welcome(cid)))
        } else {
            None
        },
        Response::LoginReject { client_id, error } => if client_id == id.id {
            Some(ServerMessage::Command(ServerCommand::LoginError(error)))
        } else {
            None
        },
        Response::ActiveUsers { usernames } => Some(
            ServerMessage::Command(ServerCommand::ActiveUsers { usernames }),
        ),
        Response::Joined { username } => if notice_passed_on(own, username) {
            Some(ServerMessage::Command(ServerCommand::Joined(username)))
        } else {
            None
        },
        Response::Left { username } => if notice_passed_on(own, username) {
            Some(ServerMessage::Command(ServerCommand::Left(username)))
        } else {
            None
        },
        Response::Disconnect(addr) => if addr@ == id.addr@ {
            Some(ServerMessage::Command(ServerCommand::Disconnect))
        } else {
            None
        },
        Response::Message(m) => if own is Some {
            Some(ServerMessage::Chat(m))
        } else {
            None
        },
    }
}

/// One login at a time: while a login is pending a second one is not
/// forwarded, and once the core refuses it the client may log in again.
pub proof fn lemma_refused_login_can_be_retried(
    id: ClientIdentity,
    name: String,
    error: LoginError,
    retry: String,
)
    ensures
        ({
            let pending = username_after_packet(None, ClientMessage::Login(name));
            let refused = username_after_response(
                id,
                pending,
                Response::LoginReject { client_id: id.id, error },
            );
            &&& request_for_packet(id, None, ClientMessage::Login(name)) is Some
            &&& pending == Some(name)
            &&& request_for_packet(id, pending, ClientMessage::Login(retry)) is None
            &&& refused is None
            &&& request_for_packet(id, refused, ClientMessage::Login(retry)) == Some(
                ClientRequest {
                    client_id: id.id,
                    client_addr: id.addr,
                    request: Request::Connect { username: retry },
                },
            )
        }),
{
}

/// A chat message broadcast by the core reaches every logged-in client,
/// whoever wrote it (its author sees it too), and no client that has not
/// logged in.
pub proof fn lemma_chat_reaches_every_logged_in_client(
    id: ClientIdentity,
    own: Option<String>,
    m: ChatMessage,
)
    ensures
        own is Some ==> message_for_response(id, own, Response::Message(m)) == Some(
            ServerMessage::Chat(m),
        ),
        own is None ==> message_for_response(id, own, Response::Message(m)) is None,
        username_after_response(id, own, Response::Message(m)) == own,
{
}

/// Something that happens to a connection besides a packet from the client
/// or a response from the server core.
#[derive(Debug, Clone, Copy, PartialEq, Eq, Structural)]
pub enum SessionEvent {
    /// The client closed the connection.
    PeerClosed,
    /// A packet from the client could not be read.
    ReadFailed,
    /// A packet could not be written to the client.
    WriteFailed,
    /// A request could not be passed on to the server core.
    ForwardFailed,
    /// The server core's broadcast channel closed.
    BroadcastClosed,
    /// Broadcast responses were missed because the worker fell behind.
    BroadcastLagged,
}

/// How the worker of a connection goes on after a `SessionEvent`.
#[derive(Debug, Clone, Copy, PartialEq, Eq, Structural)]
pub enum SessionStep {
    /// Go on serving the connection.
    Continue,
    /// Stop, send the closing request to the server core, and end without error.
    Close,
    /// Stop at once with the error, without telling the server core.
    Fail,
}

/// The worker's step after `e`: a closed connection or a failed write or
/// forward closes the session; a read error or a closed broadcast channel
/// fails it; a lag is only noted.
pub open spec fn spec_session_step(e: SessionEvent) -> SessionStep {
    match e {
        SessionEvent::PeerClosed => SessionStep::Close,
        SessionEvent::WriteFailed => SessionStep::Close,
        SessionEvent::ForwardFailed => SessionStep::Close,
        SessionEvent::ReadFailed => SessionStep::Fail,
        SessionEvent::BroadcastClosed => SessionStep::Fail,
        SessionEvent::BroadcastLagged => SessionStep::Continue,
    }
}

/// How the worker goes on after `e`.
pub fn session_step(e: SessionEvent) -> (s: SessionStep)
    ensures
        s == spec_session_step(e),
{
    match e {
        SessionEvent::PeerClosed => SessionStep::Close,
        SessionEvent::WriteFailed => SessionStep::Close,
        SessionEvent::ForwardFailed => SessionStep::Close,
        SessionEvent::ReadFailed => SessionStep::Fail,
        SessionEvent::BroadcastClosed => SessionStep::Fail,
        SessionEvent::BroadcastLagged => SessionStep::Continue,
    }
}

impl Client {
    /// A fresh session for a client that has not logged in.
    pub fn new(identity: ClientIdentity) -> (s: Self)
        ensures
            s.identity == identity,
            s.username is None,
    {
        Client { identity, username: None }
    }

    /// How the session is named in the server's log: `Client {id} [{addr}]`.
    pub fn label(&self) -> (s: String)
        ensures
            s@ == "Client "@ + decimal(self.identity.id as nat) + seq![' ', '['] + self.identity.addr@
                + seq![']'],
    {
        let mut v: Vec<char> = Vec::new();
        push_str_chars(&mut v, "Client ");
        let digits = decimal_chars(self.identity.id);
        let ghost base = v@;
        let mut i: usize = 0;
        while i < digits.len()
            invariant
                i <= digits.len(),
                v@ == base + digits@.take(i as int),
            decreases digits.len() - i,
        {
            v.push(digits[i]);
            assert(digits@.take(i + 1) =~= digits@.take(i as int).push(digits@[i as int]));
            i = i + 1;
        }
        assert(digits@.take(digits.len() as int) =~= digits@);
        v.push(' ');
        v.push('[');
        push_str_chars(&mut v, self.identity.addr.as_str());
        v.push(']');
        assert(v@ =~= "Client "@ + decimal(self.identity.id as nat) + seq![' ', '['] + self.identity.addr@
            + seq![']']);
        string_from_chars(v.as_slice())
    }

    fn own_request(&self, request: Request) -> (r: ClientRequest)
        ensures
            r == (ClientRequest {
                client_id: self.identity.id,
                client_addr: self.identity.addr,
                request,
            }),
    {
        ClientRequest {
            client_id: self.identity.id,
            client_addr: self.identity.addr.clone(),
            request,
        }
    }

    /// The request sent to the server core when the connection starts: the
    /// list of active users.
    pub fn opening_request(&self) -> (r: ClientRequest)
        ensures
            r == (ClientRequest {
                client_id: self.identity.id,
                client_addr: self.identity.addr,
                request: Request::GetActiveUsers,
            }),
    {
        self.own_request(Request::GetActiveUsers)
    }

    /// The request sent to the server core when the connection ends.
    pub fn closing_request(&self) -> (r: ClientRequest)
        ensures
            r == (ClientRequest {
                client_id: self.identity.id,
                client_addr: self.identity.addr,
                request: Request::Disconnect,
            }),
    {
        self.own_request(Request::Disconnect)
    }

    /// Handles a packet from the client and returns the request to forward to
    /// the server core, if any.
    ///
    /// A login is forwarded only before the first one; a chat message only
    /// after a login, signed with the login name; a pong is not forwarded.
    pub fn on_packet(&mut self, message: ClientMessage) -> (r: Option<ClientRequest>)
        ensures
            final(self).identity == old(self).identity,
            final(self).username == username_after_packet(old(self).username, message),
            r == request_for_packet(old(self).identity, old(self).username, message),
    {
        match message {
            ClientMessage::Login(username) => {
                if self.username.is_some() {
                    None
                } else {
                    self.username = Some(username.clone());
                    Some(self.own_request(Request::Connect { username }))
                }
            },
            ClientMessage::Chat(message_content) => {
                match &self.username {
                    Some(username) => {
                        let request = Request::Message(
                            ChatMessage {
                                author_id: self.identity.id,
                                author_username: username.clone(),
                                destination: MessageDestination::AllUsers,
                                content: message_content,
                            },
                        );
                        Some(self.own_request(request))
                    },
                    None => None,
                }
            },
            ClientMessage::Pong(_) => None,
        }
    }

    /// Handles a response broadcast by the server core and returns the
    /// message to send to the client, if any.
    ///
    /// Welcomes, refusals and disconnections reach only the client they are
    /// addressed to; a refusal also forgets the pending login. The user list
    /// reaches everyone; chat messages reach logged-in clients; join and leave
    /// notices reach logged-in clients other than the one they are about.
    pub fn on_response(&mut self, response: Response) -> (r: Option<ServerMessage>)
        ensures
            final(self).identity == old(self).identity,
            final(self).username == username_after_response(old(self).identity, old(self).username, response),
            r == message_for_response(old(self).identity, old(self).username, response),
    {
        match response {
            Response::Welcome(client_id) => {
                if client_id == self.identity.id {
                    Some(ServerMessage::Command(ServerCommand::Welcome(client_id)))
                } else {
                    None
                }
            },
            Response::LoginReject { client_id, error } => {
                if client_id == self.identity.id {
                    self.username = None;
                    Some(ServerMessage::Command(ServerCommand::LoginError(error)))
                } else {
                    None
                }
            },
            Response::ActiveUsers { usernames } => {
                Some(ServerMessage::Command(ServerCommand::ActiveUsers { usernames }))
            },
            Response::Joined { username } => {
                if self.passes_notice(&username) {
                    Some(ServerMessage::Command(ServerCommand::Joined(username)))
                } else {
                    None
                }
            },
            Response::Left { username } => {
                if self.passes_notice(&username) {
                    Some(ServerMessage::Command(ServerCommand::Left(username)))
                } else {
                    None
                }
            },
            Response::Disconnect(client_addr) => {
                if client_addr == self.identity.addr {
                    Some(ServerMessage::Command(ServerCommand::Disconnect))
                } else {
                    None
                }
            },
            Response::Message(chat_message) => {
                match chat_message.destination {
                    MessageDestination::AllUsers => {
                        if self.username.is_some() {
                            Some(ServerMessage::Chat(chat_message))
                        } else {
                            None
                        }
                    },
                }
            },
        }
    }

    fn passes_notice(&self, name: &String) -> (b: bool)
        ensures
            b == notice_passed_on(self.username, *name),
    {
        match &self.username {
            Some(own) => !(*own == *name),
            None => false,
        }
    }
}

} // verus!
