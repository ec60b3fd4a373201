use chat_cafe::protocol::{ChatMessage, LoginError, MessageContent, MessageDestination};
use chat_cafe::remote::packet::{ServerCommand, ServerMessage};
use chat_cafe::remote::packet::ServerRemotePacket;
use chat_cafe::tui::app::{ChatApp, State};
use chat_cafe::tui::layout::{FooterStyle, SizeConstraint};
use chat_cafe::tui::screen::{chat_room_screen, login_screen, KeyColor};
use chat_cafe::tui::render::{describe_message, login_prompt, Role};

fn texts(m: &ServerMessage, app: &ChatApp) -> Option<Vec<(String, Role)>> {
    describe_message(&app.history, m).map(|v| v.into_iter().map(|s| (s.text, s.role)).collect())
}

fn chat(id: u64, name: &str, body: &str) -> ServerMessage {
    ServerMessage::Chat(ChatMessage {
        author_id: id,
        author_username: name.to_string(),
        destination: MessageDestination::AllUsers,
        content: MessageContent::Text(body.to_string()),
    })
}

#[test]
fn chat_lines_name_the_sender() {
    let mut app = ChatApp::new();
    app.history.own_id = Some(2);
    assert_eq!(
        texts(&chat(1, "ann", "hey"), &app),
        Some(vec![("[ann]: ".to_string(), Role::PeerName), ("hey".to_string(), Role::Text)])
    );
    assert_eq!(
        texts(&chat(2, "me", "yo"), &app),
        Some(vec![("[You]: ".to_string(), Role::OwnName), ("yo".to_string(), Role::Text)])
    );
}

#[test]
fn server_notices() {
    let mut app = ChatApp::new();
    let welcome = ServerMessage::Command(ServerCommand::Welcome(1));
    assert_eq!(
        texts(&welcome, &app),
        Some(vec![
            ("[SERVER]: ".to_string(), Role::ServerTag),
            ("Welcome to the chat! You are ".to_string(), Role::Text),
            ("You".to_string(), Role::OwnName),
        ])
    );
    app.history.own_username = Some("zoe".to_string());
    assert_eq!(texts(&welcome, &app).unwrap()[2].0, "zoe");
    let joined = ServerMessage::Command(ServerCommand::Joined("bob".to_string()));
    assert_eq!(texts(&joined, &app).unwrap()[2].0, " joined the chat!");
    let left = ServerMessage::Command(ServerCommand::Left("bob".to_string()));
    assert_eq!(texts(&left, &app).unwrap()[1], ("bob".to_string(), Role::PeerName));
    let err = ServerMessage::Command(ServerCommand::LoginError(LoginError::EmptyUsername));
    assert_eq!(
        texts(&err, &app),
        Some(vec![
            ("[SERVER ERROR]: ".to_string(), Role::ErrorTag),
            ("Username cannot be empty".to_string(), Role::Text),
        ])
    );
    let bye = ServerMessage::Command(ServerCommand::Disconnect);
    assert_eq!(texts(&bye, &app).unwrap()[1].0, "Disconnected.");
    assert!(texts(&ServerMessage::Command(ServerCommand::Ping(1)), &app).is_none());
    assert!(texts(
        &ServerMessage::Command(ServerCommand::ActiveUsers { usernames: vec![] }),
        &app
    )
    .is_none());
}

#[test]
fn login_prompt_shows_the_last_error() {
    let mut app = ChatApp::new();
    assert_eq!(
        login_prompt(&app.history),
        ("\u{25b6} Enter a unique username to join:".to_string(), false)
    );
    app.history.login_error = Some(LoginError::UsernameTaken);
    assert_eq!(
        login_prompt(&app.history),
        ("\u{2717} Error: Username is already taken".to_string(), true)
    );
    assert_eq!(LoginError::InvalidUsername.message(), "Invalid username format");
}

#[test]
fn login_screen_plan() {
    let app = ChatApp::new();
    let s = login_screen(&app.history);
    assert_eq!(s.margin, 1);
    assert_eq!(s.rows, vec![SizeConstraint::Length(9), SizeConstraint::Min(1), SizeConstraint::Length(1)]);
    assert_eq!(s.columns, vec![SizeConstraint::Percentage(50), SizeConstraint::Percentage(50)]);
    assert_eq!(s.form_rows, vec![SizeConstraint::Length(3), SizeConstraint::Length(3), SizeConstraint::Min(0)]);
    assert_eq!(s.instruction, "\u{25b6} Enter a unique username to join:");
    assert!(!s.instruction_is_error);
    assert_eq!(s.prompt_title, " Choose Username ");
    assert_eq!(s.users_title, "Connected Users");
    let footer: String = s.footer.iter().map(|f| f.text.as_str()).collect();
    assert_eq!(footer, "Enter join  |  Ctrl+Q quit");
    assert!(matches!(s.footer[0].style, FooterStyle::Key(KeyColor::Peach)));
    assert!(matches!(s.footer[3].style, FooterStyle::Key(KeyColor::Red)));
}

#[test]
fn chat_room_screen_plan() {
    let mut app = ChatApp::new();
    app.state = State::ChatRoom;
    app.history.own_id = Some(1);
    for m in [
        ServerMessage::Command(ServerCommand::Welcome(1)),
        ServerMessage::Command(ServerCommand::Ping(5)),
        ServerMessage::Command(ServerCommand::Joined("zed".to_string())),
        ServerMessage::Command(ServerCommand::ActiveUsers { usernames: vec![] }),
    ] {
        app.on_server_packet(ServerRemotePacket { timestamp: 7, message: m });
    }
    let s = chat_room_screen(&app, 80);
    assert_eq!(s.header, " CHAT CAFE");
    assert_eq!(
        s.layout.rows,
        vec![SizeConstraint::Length(1), SizeConstraint::Min(1), SizeConstraint::Length(3), SizeConstraint::Length(1)]
    );
    assert_eq!(s.layout.users_column, Some(25));
    assert_eq!(s.lines.len(), 2);
    assert_eq!(s.lines[1].timestamp_millis, 7);
    let joined: String = s.lines[1].segments.iter().map(|g| g.text.as_str()).collect();
    assert_eq!(joined, "[SERVER]: zed joined the chat!");
    assert_eq!(s.selected, Some(1));
    assert_eq!(s.users_title, "Users");
    let footer: String = s.footer.iter().map(|f| f.text.as_str()).collect();
    assert_eq!(footer, "Enter send  |  Ctrl+Q exit");
    assert_eq!(chat_room_screen(&ChatApp::new(), 40).selected, None);
    assert_eq!(chat_room_screen(&ChatApp::new(), 40).layout.users_column, None);
}
