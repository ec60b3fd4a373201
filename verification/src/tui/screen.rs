//! What each screen of the client shows, and how it divides the terminal:
//! the titles, the lines with the roles that decide their styles, the
//! constraints of each split, and the key-binding footer.
use vstd::prelude::*;
use vstd::string::StringExecFns;
use crate::protocol::login_error_text;
use crate::tui::app::{ChatApp, ChatHistory, ReceivedMessage};
use crate::tui::layout::{
    chat_room_layout, footer_spans, footer_view, make_keybindings_footer, saturating_sub,
    wrap_line_count, ChatRoomLayout, FooterSpan, SizeConstraint,
};
use crate::tui::prompt::{prompt_height, prompt_text, InputPrompt};
use crate::tui::render::{describe_message, login_prompt, message_line, segments_view, Role, Segment};

verus! {

/// The colour of a key in the footer.
#[derive(Debug, Clone, Copy, PartialEq, Eq, Structural)]
pub enum KeyColor {
    /// The key that sends or joins.
    Peach,
    /// The key that quits.
    Red,
}

/// The login screen.
pub struct LoginScreen {
    /// The margin kept free around the whole screen.
    pub margin: u16,
    /// The rows inside the margin: the title art, the body, the footer.
    pub rows: Vec<SizeConstraint>,
    /// The columns of the body: the form, the list of connected users.
    pub columns: Vec<SizeConstraint>,
    /// The rows of the form: the instruction, the input prompt, the rest.
    pub form_rows: Vec<SizeConstraint>,
    /// The instruction above the prompt, and whether it reports an error.
    pub instruction: String,
    pub instruction_is_error: bool,
    /// The title of the input prompt.
    pub prompt_title: String,
    /// The title of the list of connected users.
    pub users_title: String,
    /// The key-binding footer.
    pub footer: Vec<FooterSpan<KeyColor>>,
}

/// The login screen for `history`.
pub fn login_screen(history: &ChatHistory) -> (s: LoginScreen)
    ensures
        s.margin == 1,
        s.rows@ == seq![SizeConstraint::Length(9), SizeConstraint::Min(1), SizeConstraint::Length(1)],
        s.columns@ == seq![SizeConstraint::Percentage(50), SizeConstraint::Percentage(50)],
        s.form_rows@ == seq![SizeConstraint::Length(3), SizeConstraint::Length(3), SizeConstraint::Min(0)],
        match history.login_error {
            Some(e) => s.instruction@ == "\u{2717} Error: "@ + login_error_text(e) && s.instruction_is_error,
            None => s.instruction@ == "\u{25b6} Enter a unique username to join:"@ && !s.instruction_is_error,
        },
        s.prompt_title@ == " Choose Username "@,
        s.users_title@ == "Connected Users"@,
        footer_view(s.footer@) == footer_spans(seq![("Enter", "join", KeyColor::Peach), ("Ctrl+Q", "quit", KeyColor::Red)]),
{
    let (instruction, instruction_is_error) = login_prompt(history);
    let bindings = [("Enter", "join", KeyColor::Peach), ("Ctrl+Q", "quit", KeyColor::Red)];
    let footer = make_keybindings_footer(&bindings);
    assert(bindings@ =~= seq![("Enter", "join", KeyColor::Peach), ("Ctrl+Q", "quit", KeyColor::Red)]);
    LoginScreen {
        margin: 1,
        rows: vec![SizeConstraint::Length(9), SizeConstraint::Min(1), SizeConstraint::Length(1)],
        columns: vec![SizeConstraint::Percentage(50), SizeConstraint::Percentage(50)],
        form_rows: vec![SizeConstraint::Length(3), SizeConstraint::Length(3), SizeConstraint::Min(0)],
        instruction,
        instruction_is_error,
        prompt_title: String::from_str(" Choose Username "),
        users_title: String::from_str("Connected Users"),
        footer,
    }
}

/// A line of the chat history: the time the server sent it (milliseconds
/// since the Unix epoch), and its pieces.
pub struct HistoryLine {
    pub timestamp_millis: i64,
    pub segments: Vec<Segment>,
}

/// A history line by value.
pub open spec fn line_view(l: HistoryLine) -> (i64, Seq<(Seq<char>, Role)>) {
    (l.timestamp_millis, segments_view(l.segments@))
}

/// The lines shown for the received messages `msgs`, in their order;
/// messages that are not shown (see `message_line`) are left out.
pub open spec fn history_lines(h: ChatHistory, msgs: Seq<ReceivedMessage>) -> Seq<(i64, Seq<(Seq<char>, Role)>)>
    decreases msgs.len(),
{
    if msgs.len() == 0 {
        seq![]
    } else {
        let rest = history_lines(h, msgs.drop_last());
        match message_line(h, msgs.last().message) {
            Some(l) => rest.push((msgs.last().timestamp_millis, l)),
            None => rest,
        }
    }
}

/// The height of the input prompt for `input` on a screen `screen_width`
/// wide: the prompt is wrapped at the width inside its borders.
pub open spec fn input_height(input: Seq<char>, screen_width: u16) -> u16 {
    let w = saturating_sub(screen_width, 2);
    if w == 0 {
        prompt_height(1)
    } else {
        prompt_height(wrap_line_count(prompt_text(input), w as nat) as usize)
    }
}

/// The chat room screen.
pub struct ChatRoomScreen {
    /// The header on the top row.
    pub header: String,
    /// The rows, and the users column when there is room for it.
    pub layout: ChatRoomLayout,
    /// The lines of the history.
    pub lines: Vec<HistoryLine>,
    /// The line shown as selected: the last one, so that the history
    /// scrolls to it.
    pub selected: Option<usize>,
    /// The title of the users column.
    pub users_title: String,
    /// The key-binding footer.
    pub footer: Vec<FooterSpan<KeyColor>>,
}

/// The chat room screen for `app` on a screen `screen_width` wide.
pub fn chat_room_screen(app: &ChatApp, screen_width: u16) -> (s: ChatRoomScreen)
    ensures
        s.header@ == " CHAT CAFE"@,
        s.layout.rows@ == seq![
            SizeConstraint::Length(1),
            SizeConstraint::Min(1),
            SizeConstraint::Length(input_height(app.input_buffer@, screen_width)),
            SizeConstraint::Length(1),
        ],
        s.layout.users_column == if screen_width >= 60 {
            Some(25u16)
        } else {
            None::<u16>
        },
        s.layout.body_columns@ == seq![SizeConstraint::Min(0), SizeConstraint::Length(25)],
        s.lines@.map_values(|l: HistoryLine| line_view(l)) == history_lines(app.history, app.history.messages@),
        s.selected == if s.lines@.len() > 0 {
            Some((s.lines@.len() - 1) as usize)
        } else {
            None::<usize>
        },
        s.users_title@ == "Users"@,
        footer_view(s.footer@) == footer_spans(seq![("Enter", "send", KeyColor::Peach), ("Ctrl+Q", "exit", KeyColor::Red)]),
{
    let w: usize = if screen_width >= 2 { (screen_width - 2) as usize } else { 0 };
    let height = InputPrompt::new(app.input_buffer.as_str()).lines_required(w);
    let layout = chat_room_layout(screen_width, height);
    let history = &app.history;
    let mut lines: Vec<HistoryLine> = Vec::new();
    let mut i: usize = 0;
    while i < history.messages.len()
        invariant
            i <= history.messages@.len(),
            lines@.map_values(|l: HistoryLine| line_view(l)) == history_lines(
                *history,
                history.messages@.take(i as int),
            ),
        decreases history.messages@.len() - i,
    {
        let m = &history.messages[i];
        proof {
            assert(history.messages@.take(i + 1).drop_last() =~= history.messages@.take(i as int));
            assert(history.messages@.take(i + 1).last() == *m);
        }
        let ghost before = lines@.map_values(|l: HistoryLine| line_view(l));
        match describe_message(history, &m.message) {
            Some(segments) => {
                let line = HistoryLine { timestamp_millis: m.timestamp_millis, segments };
                lines.push(line);
                assert(lines@.map_values(|l: HistoryLine| line_view(l)) =~= before.push(
                    line_view(line),
                ));
            },
            None => {},
        }
        i = i + 1;
    }
    assert(history.messages@.take(history.messages@.len() as int) =~= history.messages@);
    let selected = if lines.len() > 0 {
        Some(lines.len() - 1)
    } else {
        None
    };
    let bindings = [("Enter", "send", KeyColor::Peach), ("Ctrl+Q", "exit", KeyColor::Red)];
    let footer = make_keybindings_footer(&bindings);
    assert(bindings@ =~= seq![("Enter", "send", KeyColor::Peach), ("Ctrl+Q", "exit", KeyColor::Red)]);
    ChatRoomScreen {
        header: String::from_str(" CHAT CAFE"),
        layout,
        lines,
        selected,
        users_title: String::from_str("Users"),
        footer,
    }
}

} // verus!
