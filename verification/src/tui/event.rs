//! Terminal input, abstracted into application events.
use vstd::prelude::*;

verus! {

/// Represents a high-level application event abstracted from raw terminal input.
///
/// This enum simplifies raw key strokes and terminal events into semantically
/// meaningful actions that the application loop can easily process.
#[derive(Debug, Clone, Copy, PartialEq, Eq, Structural)]
pub enum AppEvent {
    /// An ignored or unhandled terminal event.
    Ignored,
    /// A signal to quit the application (`Ctrl-C` or `Ctrl-Q`).
    Quit,
    /// A cancel/escape event (e.g., `Esc`).
    Cancel,
    /// A standard character input typed by the user.
    InputChar(char),
    /// A backspace keystroke to delete the last character.
    Backspace,
    /// A tab keystroke, asking to complete a `@mention`.
    Tab,
    /// An enter/return keystroke to submit a message.
    Enter,
    /// A terminal resize event requiring a UI redraw.
    Resize,
}

/// The key of a key event, as far as the client tells keys apart.
#[derive(Debug, Clone, Copy, PartialEq, Eq, Structural)]
pub enum Key {
    Char(char),
    Backspace,
    Enter,
    Esc,
    Tab,
    Other,
}

/// A terminal event, as far as the client tells events apart.
#[derive(Debug, Clone, Copy, PartialEq, Eq, Structural)]
pub enum TerminalEvent {
    /// A key event: the key, whether it is a press (rather than a release or
    /// a repeat), and whether Control or Alt was held.
    Key { key: Key, press: bool, control: bool, alt: bool },
    /// The terminal was resized.
    Resize,
    /// Any other terminal event (mouse, focus, paste).
    Other,
}

/// The keys that quit when pressed with Control held: `C` and `Q`, in
/// either case.
pub open spec fn is_quit_key(key: Key) -> bool {
    key == Key::Char('c') || key == Key::Char('C') || key == Key::Char('q') || key == Key::Char('Q')
}

/// The application event for a terminal event.
pub open spec fn spec_app_event(ev: TerminalEvent) -> AppEvent {
    match ev {
        TerminalEvent::Key { key, press, control, alt } => if !press {
            AppEvent::Ignored
        } else if control && is_quit_key(key) {
            AppEvent::Quit
        } else {
            match key {
                Key::Char(c) => if control || alt {
                    AppEvent::Ignored
                } else {
                    AppEvent::InputChar(c)
                },
                Key::Backspace => AppEvent::Backspace,
                Key::Enter => AppEvent::Enter,
                Key::Esc => AppEvent::Cancel,
                Key::Tab => AppEvent::Tab,
                Key::Other => AppEvent::Ignored,
            }
        },
        TerminalEvent::Resize => AppEvent::Resize,
        TerminalEvent::Other => AppEvent::Ignored,
    }
}

/// A character typed without Control or Alt is input, whatever it is (the
/// letters of `quick` included); with Control held, `C` and `Q` quit.
pub proof fn lemma_plain_characters_are_typed(c: char, alt: bool)
    ensures
        spec_app_event(TerminalEvent::Key { key: Key::Char(c), press: true, control: false, alt: false })
            == AppEvent::InputChar(c),
        c == 'c' || c == 'C' || c == 'q' || c == 'Q' ==> spec_app_event(
            TerminalEvent::Key { key: Key::Char(c), press: true, control: true, alt },
        ) == AppEvent::Quit,
{
}

/// Maps a terminal event to an application event: `Ctrl-C` and `Ctrl-Q` quit,
/// `Esc` cancels, characters typed with Control or Alt held are ignored.
pub fn app_event(ev: TerminalEvent) -> (e: AppEvent)
    ensures
        e == spec_app_event(ev),
{
    match ev {
        TerminalEvent::Key { key, press, control, alt } => {
            if !press {
                AppEvent::Ignored
            } else if control && (key == Key::Char('c') || key == Key::Char('C') || key == Key::Char(
                'q',
            ) || key == Key::Char('Q')) {
                AppEvent::Quit
            } else {
                match key {
                    Key::Char(c) => {
                        if control || alt {
                            AppEvent::Ignored
                        } else {
                            AppEvent::InputChar(c)
                        }
                    },
                    Key::Backspace => AppEvent::Backspace,
                    Key::Enter => AppEvent::Enter,
                    Key::Esc => AppEvent::Cancel,
                    Key::Tab => AppEvent::Tab,
                    Key::Other => AppEvent::Ignored,
                }
            }
        },
        TerminalEvent::Resize => AppEvent::Resize,
        TerminalEvent::Other => AppEvent::Ignored,
    }
}

} // verus!
