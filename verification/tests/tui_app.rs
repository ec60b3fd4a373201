use chat_cafe::protocol::{ChatMessage, LoginError, MessageContent, MessageDestination};
use chat_cafe::remote::packet::{ClientMessage, ServerCommand, ServerMessage, ServerRemotePacket};
use chat_cafe::tui::app::{ChatApp, State};
use chat_cafe::tui::event::{app_event, AppEvent, Key, TerminalEvent};

fn typed(app: &mut ChatApp, s: &str) {
    for c in s.chars() {
        app.handle_event(AppEvent::InputChar(c));
    }
}

fn packet(message: ServerMessage) -> ServerRemotePacket {
    ServerRemotePacket { timestamp: 1_700_000_000_000, message }
}

fn chat_room(users: &[&str], own: &str) -> ChatApp {
    let mut app = ChatApp::new();
    app.state = State::ChatRoom;
    app.history.own_username = Some(own.to_string());
    app.history.active_usernames = users.iter().map(|u| u.to_string()).collect();
    app
}

#[test]
fn typing_and_backspace() {
    let mut app = ChatApp::new();
    typed(&mut app, "ab");
    assert_eq!(app.input_buffer, "ab");
    assert!(!app.is_finished());
    let out = app.handle_event(AppEvent::Backspace);
    assert!(out.redraw && out.send.is_none());
    assert_eq!(app.input_buffer, "a");
    app.handle_event(AppEvent::Backspace);
    app.handle_event(AppEvent::Backspace);
    assert_eq!(app.input_buffer, "");
}

#[test]
fn enter_on_login_screen_sends_login() {
    let mut app = ChatApp::new();
    let out = app.handle_event(AppEvent::Enter);
    assert!(out.send.is_none() && !out.redraw);
    typed(&mut app, "zoe");
    let out = app.handle_event(AppEvent::Enter);
    assert!(matches!(out.send, Some(ClientMessage::Login(ref n)) if n == "zoe"));
    assert!(out.redraw);
    assert_eq!(app.input_buffer, "");
    assert_eq!(app.history.own_username.as_deref(), Some("zoe"));
    assert_eq!(app.state, State::Login);
}

#[test]
fn welcome_opens_chat_room_and_enter_sends_text() {
    let mut app = ChatApp::new();
    typed(&mut app, "zoe");
    app.handle_event(AppEvent::Enter);
    let reply = app.on_server_packet(packet(ServerMessage::Command(ServerCommand::Welcome(3))));
    assert!(reply.is_none());
    assert_eq!(app.state, State::ChatRoom);
    assert_eq!(app.history.own_id, Some(3));
    assert_eq!(app.history.messages.len(), 1);
    typed(&mut app, "hi all");
    let out = app.handle_event(AppEvent::Enter);
    assert!(matches!(out.send, Some(ClientMessage::Chat(MessageContent::Text(ref t))) if t == "hi all"));
}

#[test]
fn login_error_forgets_name_and_ping_is_answered() {
    let mut app = ChatApp::new();
    typed(&mut app, "zoe");
    app.handle_event(AppEvent::Enter);
    app.on_server_packet(packet(ServerMessage::Command(ServerCommand::LoginError(
        LoginError::UsernameTaken,
    ))));
    assert_eq!(app.history.login_error, Some(LoginError::UsernameTaken));
    assert!(app.history.own_username.is_none());
    assert_eq!(app.state, State::Login);
    let reply = app.on_server_packet(packet(ServerMessage::Command(ServerCommand::Ping(42))));
    assert!(matches!(reply, Some(ClientMessage::Pong(42))));
    assert_eq!(app.history.messages.len(), 1);
    app.on_server_packet(packet(ServerMessage::Command(ServerCommand::ActiveUsers {
        usernames: vec!["a".to_string(), "b".to_string()],
    })));
    assert_eq!(app.history.active_usernames, vec!["a".to_string(), "b".to_string()]);
    app.on_server_packet(packet(ServerMessage::Chat(ChatMessage {
        author_id: 1,
        author_username: "a".to_string(),
        destination: MessageDestination::AllUsers,
        content: MessageContent::Text("x".to_string()),
    })));
    assert_eq!(app.history.messages.len(), 3);
    assert_eq!(app.history.messages[2].timestamp_millis, 1_700_000_000_000);
    app.on_connection_closed();
    assert_eq!(app.state, State::Quit);
}

#[test]
fn quit_asks_for_confirmation() {
    let mut app = ChatApp::new();
    typed(&mut app, "q");
    let out = app.handle_event(AppEvent::Quit);
    assert!(out.redraw);
    assert!(app.is_confirming_quit);
    // other keys are swallowed while asking
    let out = app.handle_event(AppEvent::InputChar('x'));
    assert!(!out.redraw);
    assert_eq!(app.input_buffer, "q");
    let out = app.handle_event(AppEvent::InputChar('n'));
    assert!(out.redraw);
    assert!(!app.is_confirming_quit);
    assert_eq!(app.state, State::Login);
    app.handle_event(AppEvent::Quit);
    let out = app.handle_event(AppEvent::Cancel);
    assert!(out.redraw && !app.is_confirming_quit);
    app.handle_event(AppEvent::Quit);
    let out = app.handle_event(AppEvent::InputChar('Y'));
    assert!(!out.redraw);
    assert_eq!(app.state, State::Quit);
    assert!(app.is_finished());
}

#[test]
fn tab_completes_mentions_in_alphabetical_order() {
    let mut app = chat_room(&["bob", "Bobby", "alice", "me", "BOB-X"], "me");
    typed(&mut app, "hi @bo");
    assert!(!app.completion_would_fail());
    app.handle_event(AppEvent::Tab);
    assert_eq!(app.input_buffer, "hi @BOB-X ");
    app.handle_event(AppEvent::Tab);
    assert_eq!(app.input_buffer, "hi @Bobby ");
    app.handle_event(AppEvent::Tab);
    assert_eq!(app.input_buffer, "hi @bob ");
    app.handle_event(AppEvent::Tab);
    assert_eq!(app.input_buffer, "hi @BOB-X ");
    // typing ends the completion
    typed(&mut app, "x");
    assert!(app.autocomplete_state.is_none());
    app.handle_event(AppEvent::Tab);
    assert_eq!(app.input_buffer, "hi @BOB-X x");
}

#[test]
fn tab_leaves_input_alone_without_mention_or_match() {
    let mut app = chat_room(&["bob", "me"], "me");
    typed(&mut app, "hello bo");
    app.handle_event(AppEvent::Tab);
    assert_eq!(app.input_buffer, "hello bo");
    let mut app = chat_room(&["bob", "me"], "me");
    typed(&mut app, "@me");
    app.handle_event(AppEvent::Tab);
    assert_eq!(app.input_buffer, "@me");
    assert!(app.autocomplete_state.is_none());
    let mut app = chat_room(&["bob"], "me");
    typed(&mut app, "@");
    app.handle_event(AppEvent::Tab);
    assert_eq!(app.input_buffer, "@bob ");
    // on the login screen completion does nothing
    let mut app = ChatApp::new();
    app.history.active_usernames = vec!["bob".to_string()];
    typed(&mut app, "@b");
    app.handle_event(AppEvent::Tab);
    assert_eq!(app.input_buffer, "@b");
}

#[test]
fn completion_after_wide_space_would_fail() {
    let mut app = chat_room(&["bob"], "me");
    typed(&mut app, "hi\u{3000}@b");
    assert!(app.completion_would_fail());
    let mut app = chat_room(&["bob"], "me");
    typed(&mut app, "hi\t@b");
    assert!(!app.completion_would_fail());
    app.handle_event(AppEvent::Tab);
    assert_eq!(app.input_buffer, "hi\t@bob ");
}

#[test]
fn completion_start_is_a_byte_offset() {
    let mut app = chat_room(&["bob", "bea", "me"], "me");
    typed(&mut app, "é @b");
    app.handle_event(AppEvent::Tab);
    assert_eq!(app.input_buffer, "é @bea ");
    // "é" takes two bytes, the space one: the word starts at byte 3
    assert_eq!(app.autocomplete_state, Some(("b".to_string(), 1, 3)));
    app.handle_event(AppEvent::Tab);
    assert_eq!(app.input_buffer, "é @bob ");
    assert_eq!(app.autocomplete_state, Some(("b".to_string(), 2, 3)));
}

#[test]
fn completion_start_inside_a_character_would_fail() {
    let mut app = chat_room(&["bob"], "me");
    typed(&mut app, "é @b");
    app.autocomplete_state = Some(("b".to_string(), 0, 1));
    assert!(app.completion_would_fail());
    // past the end of the input nothing is cut
    app.autocomplete_state = Some(("b".to_string(), 0, 40));
    assert!(!app.completion_would_fail());
    app.handle_event(AppEvent::Tab);
    assert_eq!(app.input_buffer, "é @b@bob ");
}

#[test]
fn terminal_events_map_to_app_events() {
    let key = |key, control, alt| TerminalEvent::Key { key, press: true, control, alt };
    assert_eq!(app_event(key(Key::Char('q'), true, false)), AppEvent::Quit);
    assert_eq!(app_event(key(Key::Char('Q'), true, false)), AppEvent::Quit);
    assert_eq!(app_event(key(Key::Char('c'), true, false)), AppEvent::Quit);
    assert_eq!(app_event(key(Key::Char('C'), true, false)), AppEvent::Quit);
    assert_eq!(app_event(key(Key::Char('k'), true, false)), AppEvent::Ignored);
    assert_eq!(app_event(key(Key::Char('x'), false, true)), AppEvent::Ignored);
    assert_eq!(app_event(key(Key::Char('x'), false, false)), AppEvent::InputChar('x'));
    assert_eq!(app_event(key(Key::Esc, false, false)), AppEvent::Cancel);
    assert_eq!(app_event(key(Key::Enter, false, false)), AppEvent::Enter);
    assert_eq!(app_event(key(Key::Backspace, false, false)), AppEvent::Backspace);
    assert_eq!(app_event(key(Key::Tab, false, false)), AppEvent::Tab);
    assert_eq!(app_event(key(Key::Other, false, false)), AppEvent::Ignored);
    assert_eq!(
        app_event(TerminalEvent::Key { key: Key::Enter, press: false, control: false, alt: false }),
        AppEvent::Ignored
    );
    assert_eq!(app_event(TerminalEvent::Resize), AppEvent::Resize);
    assert_eq!(app_event(TerminalEvent::Other), AppEvent::Ignored);
}
