//! What the chat screens say: the text of each line of the chat history and
//! of the login form, with the role that decides how each piece is styled.
use vstd::prelude::*;
use vstd::string::StringExecFns;
use crate::protocol::{login_error_text, ChatMessage, MessageContent};
use crate::remote::packet::{ServerCommand, ServerMessage};
use crate::text::{push_str_chars, string_from_chars};
use crate::tui::app::ChatHistory;

verus! {

/// How a piece of text is styled.
#[derive(Debug, Clone, Copy, PartialEq, Eq, Structural)]
pub enum Role {
    /// The `[SERVER]` tag of a notice.
    ServerTag,
    /// The `[SERVER ERROR]` tag of an error notice.
    ErrorTag,
    /// Plain text.
    Text,
    /// The own user name.
    OwnName,
    /// Another user's name.
    PeerName,
}

/// A piece of a line of text, and how it is styled.
#[derive(Debug)]
pub struct Segment {
    pub text: String,
    pub role: Role,
}

/// The pieces of a line, by value.
pub open spec fn segments_view(v: Seq<Segment>) -> Seq<(Seq<char>, Role)> {
    v.map_values(|s: Segment| (s.text@, s.role))
}

/// The name the chat shows for the own user: the login name, or "You".
pub open spec fn own_display_name(h: ChatHistory) -> Seq<char> {
    match h.own_username {
        Some(n) => n@,
        None => "You"@,
    }
}

/// The line shown for a received message, after its time stamp; user lists
/// and pings are not shown.
pub open spec fn message_line(h: ChatHistory, m: ServerMessage) -> Option<Seq<(Seq<char>, Role)>> {
    match m {
        ServerMessage::Command(c) => match c {
            ServerCommand::Welcome(_) => Some(
                seq![
                    ("[SERVER]: "@, Role::ServerTag),
                    ("Welcome to the chat! You are "@, Role::Text),
                    (own_display_name(h), Role::OwnName),
                ],
            ),
            ServerCommand::LoginError(reason) => Some(
                seq![("[SERVER ERROR]: "@, Role::ErrorTag), (login_error_text(reason), Role::Text)],
            ),
            ServerCommand::ActiveUsers { .. } => None,
            ServerCommand::Joined(u) => Some(
                seq![
                    ("[SERVER]: "@, Role::ServerTag),
                    (u@, Role::PeerName),
                    (" joined the chat!"@, Role::Text),
                ],
            ),
            ServerCommand::Left(u) => Some(
                seq![
                    ("[SERVER]: "@, Role::ServerTag),
                    (u@, Role::PeerName),
                    (" left the chat."@, Role::Text),
                ],
            ),
            ServerCommand::Ping(_) => None,
            ServerCommand::Disconnect => Some(
                seq![("[SERVER]: "@, Role::ServerTag), ("Disconnected."@, Role::Text)],
            ),
        },
        ServerMessage::Chat(cm) => {
            let own = h.own_id == Some(cm.author_id);
            let name = if own { "You"@ } else { cm.author_username@ };
            let body = match cm.content {
                MessageContent::Text(t) => t@,
            };
            Some(
                seq![
                    (seq!['['] + name + seq![']', ':', ' '], if own { Role::OwnName } else { Role::PeerName }),
                    (body, Role::Text),
                ],
            )
        },
    }
}

fn segment(text: &str, role: Role) -> (s: Segment)
    ensures
        s.text@ == text@,
        s.role == role,
{
    Segment { text: String::from_str(text), role }
}

/// The line shown for a received message, after its time stamp, or `None`
/// for messages that are not shown.
pub fn describe_message(history: &ChatHistory, message: &ServerMessage) -> (r: Option<Vec<Segment>>)
    ensures
        match message_line(*history, *message) {
            None => r is None,
            Some(l) => r matches Some(v) && segments_view(v@) == l,
        },
{
    let mut v: Vec<Segment> = Vec::new();
    match message {
        ServerMessage::Command(c) => match c {
            ServerCommand::Welcome(_) => {
                v.push(segment("[SERVER]: ", Role::ServerTag));
                v.push(segment("Welcome to the chat! You are ", Role::Text));
                let name = match &history.own_username {
                    Some(n) => n.as_str(),
                    None => "You",
                };
                v.push(segment(name, Role::OwnName));
            },
            ServerCommand::LoginError(reason) => {
                v.push(segment("[SERVER ERROR]: ", Role::ErrorTag));
                v.push(Segment { text: reason.message(), role: Role::Text });
            },
            ServerCommand::ActiveUsers { .. } => {
                return None;
            },
            ServerCommand::Joined(u) => {
                v.push(segment("[SERVER]: ", Role::ServerTag));
                v.push(segment(u.as_str(), Role::PeerName));
                v.push(segment(" joined the chat!", Role::Text));
            },
            ServerCommand::Left(u) => {
                v.push(segment("[SERVER]: ", Role::ServerTag));
                v.push(segment(u.as_str(), Role::PeerName));
                v.push(segment(" left the chat.", Role::Text));
            },
            ServerCommand::Ping(_) => {
                return None;
            },
            ServerCommand::Disconnect => {
                v.push(segment("[SERVER]: ", Role::ServerTag));
                v.push(segment("Disconnected.", Role::Text));
            },
        },
        ServerMessage::Chat(ChatMessage { author_id, author_username, content, .. }) => {
            let own = match history.own_id {
                Some(id) => id == *author_id,
                None => false,
            };
            let mut tag: Vec<char> = Vec::new();
            tag.push('[');
            if own {
                push_str_chars(&mut tag, "You");
            } else {
                push_str_chars(&mut tag, author_username.as_str());
            }
            tag.push(']');
            tag.push(':');
            tag.push(' ');
            let role = if own {
                Role::OwnName
            } else {
                Role::PeerName
            };
            let ghost name = if own { "You"@ } else { author_username@ };
            assert(tag@ =~= seq!['['] + name + seq![']', ':', ' ']);
            v.push(Segment { text: string_from_chars(tag.as_slice()), role });
            let body = match content {
                MessageContent::Text(t) => t.as_str(),
            };
            v.push(segment(body, Role::Text));
            assert(own == (history.own_id == Some(*author_id)));
        },
    }
    assert(segments_view(v@) =~= message_line(*history, *message)->Some_0);
    Some(v)
}

/// The instruction above the login form: the reason of the last refusal, or
/// the invitation to choose a name. The flag tells an error.
pub fn login_prompt(history: &ChatHistory) -> (r: (String, bool))
    ensures
        match history.login_error {
            Some(e) => r.0@ == "\u{2717} Error: "@ + login_error_text(e) && r.1,
            None => r.0@ == "\u{25b6} Enter a unique username to join:"@ && !r.1,
        },
{
    match history.login_error {
        Some(e) => {
            let mut v: Vec<char> = Vec::new();
            push_str_chars(&mut v, "\u{2717} Error: ");
            let m = e.message();
            push_str_chars(&mut v, m.as_str());
            (string_from_chars(v.as_slice()), true)
        },
        None => (String::from_str("\u{25b6} Enter a unique username to join:"), false),
    }
}

} // verus!
