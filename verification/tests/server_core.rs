use chat_cafe::client::{Client, ClientIdentity};
use chat_cafe::protocol::{
    ChatMessage, ClientRequest, LoginError, MessageContent, MessageDestination, Request, Response,
};
use chat_cafe::remote::packet::{ClientMessage, ServerCommand, ServerMessage};
use chat_cafe::server::{Server, ServerAction};

fn request(id: u64, request: Request) -> ClientRequest {
    ClientRequest { client_id: id, client_addr: format!("127.0.0.1:{}", 4000 + id), request }
}

fn connect(id: u64, name: &str) -> ClientRequest {
    request(id, Request::Connect { username: name.to_string() })
}

fn broadcasts(actions: Vec<ServerAction>) -> Vec<Response> {
    actions
        .into_iter()
        .filter_map(|a| match a {
            ServerAction::Broadcast(r) => Some(r),
            _ => None,
        })
        .collect()
}

fn sorted(mut v: Vec<String>) -> Vec<String> {
    v.sort();
    v
}

#[test]
fn accepted_login_records_welcomes_announces_and_lists() {
    let mut server = Server::new();
    let actions = server.handle_request(connect(7, "alice"));
    assert_eq!(actions.len(), 4);
    match &actions[0] {
        ServerAction::RecordLogin { username, ip } => {
            assert_eq!(username, "alice");
            assert_eq!(ip, "127.0.0.1:4007");
        }
        other => panic!("expected a login record, got {:?}", other),
    }
    assert!(matches!(actions[1], ServerAction::Broadcast(Response::Welcome(7))));
    match &actions[2] {
        ServerAction::Broadcast(Response::Joined { username }) => assert_eq!(username, "alice"),
        other => panic!("expected a join notice, got {:?}", other),
    }
    match &actions[3] {
        ServerAction::Broadcast(Response::ActiveUsers { usernames }) => {
            assert_eq!(usernames, &vec!["alice".to_string()])
        }
        other => panic!("expected the user list, got {:?}", other),
    }
    assert_eq!(server.active_usernames(), vec!["alice".to_string()]);
}

#[test]
fn login_with_blank_name_is_refused() {
    let mut server = Server::new();
    for name in ["", "   ", "\t\u{3000}"] {
        let actions = broadcasts(server.handle_request(connect(1, name)));
        assert_eq!(actions.len(), 1);
        assert!(matches!(
            actions[0],
            Response::LoginReject { client_id: 1, error: LoginError::EmptyUsername }
        ));
    }
    assert!(server.active_usernames().is_empty());
}

#[test]
fn login_with_taken_name_in_other_case_is_refused() {
    let mut server = Server::new();
    server.handle_request(connect(1, "Alice"));
    let actions = broadcasts(server.handle_request(connect(2, "aLICE")));
    assert_eq!(actions.len(), 1);
    assert!(matches!(
        actions[0],
        Response::LoginReject { client_id: 2, error: LoginError::UsernameTaken }
    ));
    assert_eq!(server.active_usernames(), vec!["Alice".to_string()]);
    // Only ASCII letters are folded: a different non-ASCII letter is another name.
    let actions = broadcasts(server.handle_request(connect(3, "ÄLICE")));
    assert!(matches!(actions[0], Response::Welcome(3)));
}

#[test]
fn disconnect_announces_departure_and_lists_the_rest() {
    let mut server = Server::new();
    server.handle_request(connect(1, "alice"));
    server.handle_request(connect(2, "bob"));
    let actions = server.handle_request(request(1, Request::Disconnect));
    assert_eq!(actions.len(), 3);
    match &actions[0] {
        ServerAction::RecordLogout { username } => assert_eq!(username, "alice"),
        other => panic!("expected a logout record, got {:?}", other),
    }
    match &actions[1] {
        ServerAction::Broadcast(Response::Left { username }) => assert_eq!(username, "alice"),
        other => panic!("expected a leave notice, got {:?}", other),
    }
    match &actions[2] {
        ServerAction::Broadcast(Response::ActiveUsers { usernames }) => {
            assert_eq!(usernames, &vec!["bob".to_string()])
        }
        other => panic!("expected the user list, got {:?}", other),
    }
    // A client that never logged in only gets the list broadcast.
    let actions = broadcasts(server.handle_request(request(9, Request::Disconnect)));
    assert_eq!(actions.len(), 1);
    assert!(matches!(&actions[0], Response::ActiveUsers { usernames } if usernames == &vec!["bob".to_string()]));
}

#[test]
fn login_then_disconnect_restores_the_users() {
    let mut server = Server::new();
    server.handle_request(connect(1, "alice"));
    let before = sorted(server.active_usernames());
    server.handle_request(connect(2, "bob"));
    server.handle_request(request(2, Request::Disconnect));
    assert_eq!(sorted(server.active_usernames()), before);
    // and the name is free again
    let actions = broadcasts(server.handle_request(connect(3, "BOB")));
    assert!(matches!(actions[0], Response::Welcome(3)));
}

#[test]
fn chat_message_is_relayed_unchanged() {
    let mut server = Server::new();
    let message = ChatMessage {
        author_id: 4,
        author_username: "dora".to_string(),
        destination: MessageDestination::AllUsers,
        content: MessageContent::Text("hello".to_string()),
    };
    let actions = broadcasts(server.handle_request(request(4, Request::Message(message))));
    assert_eq!(actions.len(), 1);
    match &actions[0] {
        Response::Message(m) => {
            assert_eq!(m.author_id, 4);
            assert_eq!(m.author_username, "dora");
            assert!(matches!(&m.content, MessageContent::Text(t) if t == "hello"));
        }
        other => panic!("expected the message, got {:?}", other),
    }
}

#[test]
fn get_active_users_lists_everyone() {
    let mut server = Server::new();
    server.handle_request(connect(1, "alice"));
    server.handle_request(connect(2, "bob"));
    let actions = broadcasts(server.handle_request(request(5, Request::GetActiveUsers)));
    match &actions[0] {
        Response::ActiveUsers { usernames } => {
            assert_eq!(sorted(usernames.clone()), vec!["alice".to_string(), "bob".to_string()])
        }
        other => panic!("expected the user list, got {:?}", other),
    }
}

/// Delivers a request to the core and every broadcast to each worker, and
/// returns what each worker passes on to its client.
fn deliver(
    server: &mut Server,
    workers: &mut [&mut Client],
    req: ClientRequest,
) -> Vec<Vec<ServerMessage>> {
    let responses = broadcasts(server.handle_request(req));
    let mut out: Vec<Vec<ServerMessage>> = workers.iter().map(|_| Vec::new()).collect();
    for r in responses {
        for (i, w) in workers.iter_mut().enumerate() {
            if let Some(m) = w.on_response(r.clone()) {
                out[i].push(m);
            }
        }
    }
    out
}

fn users_of(m: &ServerMessage) -> Vec<String> {
    match m {
        ServerMessage::Command(ServerCommand::ActiveUsers { usernames }) => sorted(usernames.clone()),
        other => panic!("expected ActiveUsers, got {:?}", other),
    }
}

#[test]
fn join_alert_scenario() {
    let mut server = Server::new();
    let mut alice = Client::new(ClientIdentity { id: 0, addr: "127.0.0.1:5000".to_string() });

    // Alice connects: she receives the empty list.
    let opening = alice.opening_request();
    let got = deliver(&mut server, &mut [&mut alice], opening);
    assert_eq!(got[0].len(), 1);
    assert!(users_of(&got[0][0]).is_empty());

    // Alice logs in: Welcome, then the list with her name; no notice about herself.
    let login = alice.on_packet(ClientMessage::Login("alice".to_string())).unwrap();
    let got = deliver(&mut server, &mut [&mut alice], login);
    assert_eq!(got[0].len(), 2);
    assert!(matches!(got[0][0], ServerMessage::Command(ServerCommand::Welcome(0))));
    assert_eq!(users_of(&got[0][1]), vec!["alice".to_string()]);

    // Bob connects: both receive the list with Alice.
    let mut bob = Client::new(ClientIdentity { id: 1, addr: "127.0.0.1:5001".to_string() });
    let opening = bob.opening_request();
    let got = deliver(&mut server, &mut [&mut alice, &mut bob], opening);
    assert_eq!(users_of(&got[0][0]), vec!["alice".to_string()]);
    assert_eq!(users_of(&got[1][0]), vec!["alice".to_string()]);

    // Bob logs in: he gets Welcome and the list; Alice gets the join notice and the list.
    let login = bob.on_packet(ClientMessage::Login("bob".to_string())).unwrap();
    let got = deliver(&mut server, &mut [&mut alice, &mut bob], login);
    assert_eq!(got[1].len(), 2);
    assert!(matches!(got[1][0], ServerMessage::Command(ServerCommand::Welcome(1))));
    assert_eq!(users_of(&got[1][1]), vec!["alice".to_string(), "bob".to_string()]);
    assert_eq!(got[0].len(), 2);
    assert!(matches!(&got[0][0], ServerMessage::Command(ServerCommand::Joined(u)) if u == "bob"));
    assert_eq!(users_of(&got[0][1]), vec!["alice".to_string(), "bob".to_string()]);
}
