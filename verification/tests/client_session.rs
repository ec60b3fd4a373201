use chat_cafe::client::{session_step, Client, ClientIdentity, SessionEvent, SessionStep};
use chat_cafe::protocol::{
    ChatMessage, LoginError, MessageContent, MessageDestination, Request, Response,
};
use chat_cafe::remote::packet::{ClientMessage, ServerCommand, ServerMessage};

fn client(id: u64) -> Client {
    Client::new(ClientIdentity { id, addr: format!("10.0.0.1:{}", 6000 + id) })
}

fn text(s: &str) -> MessageContent {
    MessageContent::Text(s.to_string())
}

#[test]
fn wrap_request_keeps_the_identity() {
    let id = ClientIdentity { id: 3, addr: "10.0.0.1:6003".to_string() };
    let r = id.wrap_request(Request::GetActiveUsers);
    assert_eq!(r.client_id, 3);
    assert_eq!(r.client_addr, "10.0.0.1:6003");
    assert!(matches!(r.request, Request::GetActiveUsers));
}

#[test]
fn opening_and_closing_requests() {
    let c = client(2);
    let open = c.opening_request();
    assert!(matches!(open.request, Request::GetActiveUsers));
    assert_eq!(open.client_id, 2);
    let close = c.closing_request();
    assert!(matches!(close.request, Request::Disconnect));
    assert_eq!(close.client_addr, "10.0.0.1:6002");
}

#[test]
fn chat_before_login_is_ignored() {
    let mut c = client(1);
    assert!(c.on_packet(ClientMessage::Chat(text("hi"))).is_none());
    assert!(c.username.is_none());
}

#[test]
fn login_is_forwarded_once_and_chat_is_signed() {
    let mut c = client(1);
    let r = c.on_packet(ClientMessage::Login("ann".to_string())).unwrap();
    assert!(matches!(&r.request, Request::Connect { username } if username == "ann"));
    assert_eq!(c.username.as_deref(), Some("ann"));
    assert!(c.on_packet(ClientMessage::Login("bea".to_string())).is_none());
    assert_eq!(c.username.as_deref(), Some("ann"));
    let r = c.on_packet(ClientMessage::Chat(text("hello"))).unwrap();
    match r.request {
        Request::Message(m) => {
            assert_eq!(m.author_id, 1);
            assert_eq!(m.author_username, "ann");
            assert!(matches!(m.destination, MessageDestination::AllUsers));
            assert!(matches!(m.content, MessageContent::Text(t) if t == "hello"));
        }
        other => panic!("expected a message request, got {:?}", other),
    }
    assert!(c.on_packet(ClientMessage::Pong(17)).is_none());
}

#[test]
fn refused_login_is_forgotten_and_passed_on() {
    let mut c = client(5);
    c.on_packet(ClientMessage::Login("ann".to_string()));
    // a refusal for someone else changes nothing
    let other = Response::LoginReject { client_id: 6, error: LoginError::UsernameTaken };
    assert!(c.on_response(other).is_none());
    assert!(c.username.is_some());
    let own = Response::LoginReject { client_id: 5, error: LoginError::UsernameTaken };
    let out = c.on_response(own).unwrap();
    assert!(matches!(
        out,
        ServerMessage::Command(ServerCommand::LoginError(LoginError::UsernameTaken))
    ));
    assert!(c.username.is_none());
    // a new login is forwarded again
    assert!(c.on_packet(ClientMessage::Login("cat".to_string())).is_some());
}

#[test]
fn welcome_and_disconnect_reach_only_their_client() {
    let mut c = client(5);
    assert!(c.on_response(Response::Welcome(4)).is_none());
    assert!(matches!(
        c.on_response(Response::Welcome(5)),
        Some(ServerMessage::Command(ServerCommand::Welcome(5)))
    ));
    assert!(c.on_response(Response::Disconnect("10.0.0.1:6004".to_string())).is_none());
    assert!(matches!(
        c.on_response(Response::Disconnect("10.0.0.1:6005".to_string())),
        Some(ServerMessage::Command(ServerCommand::Disconnect))
    ));
}

#[test]
fn notices_and_messages_need_a_login() {
    let mut c = client(5);
    let msg = ChatMessage {
        author_id: 9,
        author_username: "zed".to_string(),
        destination: MessageDestination::AllUsers,
        content: text("yo"),
    };
    assert!(c.on_response(Response::Joined { username: "zed".to_string() }).is_none());
    assert!(c.on_response(Response::Message(msg.clone())).is_none());
    assert!(matches!(
        c.on_response(Response::ActiveUsers { usernames: vec![] }),
        Some(ServerMessage::Command(ServerCommand::ActiveUsers { .. }))
    ));
    c.on_packet(ClientMessage::Login("ann".to_string()));
    assert!(matches!(
        c.on_response(Response::Joined { username: "zed".to_string() }),
        Some(ServerMessage::Command(ServerCommand::Joined(u))) if u == "zed"
    ));
    assert!(c.on_response(Response::Joined { username: "ann".to_string() }).is_none());
    assert!(matches!(
        c.on_response(Response::Left { username: "zed".to_string() }),
        Some(ServerMessage::Command(ServerCommand::Left(u))) if u == "zed"
    ));
    assert!(c.on_response(Response::Left { username: "ann".to_string() }).is_none());
    assert!(matches!(c.on_response(Response::Message(msg)), Some(ServerMessage::Chat(_))));
}

#[test]
fn session_label_names_id_and_address() {
    assert_eq!(client(7).label(), "Client 7 [10.0.0.1:6007]");
    let big = Client::new(ClientIdentity { id: u64::MAX, addr: "[::1]:1".to_string() });
    assert_eq!(big.label(), "Client 18446744073709551615 [[::1]:1]");
}

#[test]
fn session_steps_after_connection_events() {
    assert_eq!(session_step(SessionEvent::PeerClosed), SessionStep::Close);
    assert_eq!(session_step(SessionEvent::WriteFailed), SessionStep::Close);
    assert_eq!(session_step(SessionEvent::ForwardFailed), SessionStep::Close);
    assert_eq!(session_step(SessionEvent::ReadFailed), SessionStep::Fail);
    assert_eq!(session_step(SessionEvent::BroadcastClosed), SessionStep::Fail);
    assert_eq!(session_step(SessionEvent::BroadcastLagged), SessionStep::Continue);
}
