//! The popup that asks for confirmation before the client quits.
use vstd::prelude::*;
use vstd::string::StringExecFns;

verus! {

/// The exit confirmation popup.
pub struct ConfirmExitPopup;

/// How a piece of the popup's text is styled.
#[derive(Debug, Clone, Copy, PartialEq, Eq, Structural)]
pub enum PopupStyle {
    /// The question.
    Text,
    /// The key that confirms, in green.
    AcceptKey,
    /// The key that declines, in red.
    RejectKey,
    /// The dim description of a key.
    Hint,
}

/// A piece of a line of the popup, and how it is styled.
#[derive(Debug)]
pub struct PopupSegment {
    pub text: String,
    pub style: PopupStyle,
}

/// The lines of the popup, by value.
pub open spec fn popup_view(v: Seq<Vec<PopupSegment>>) -> Seq<Seq<(Seq<char>, PopupStyle)>> {
    v.map_values(|l: Vec<PopupSegment>| l@.map_values(|s: PopupSegment| (s.text@, s.style)))
}

/// What the popup says: an empty line, the question, an empty line, and the
/// two answers with their keys.
pub open spec fn popup_lines() -> Seq<Seq<(Seq<char>, PopupStyle)>> {
    seq![
        seq![],
        seq![("Are you sure you want to exit?"@, PopupStyle::Text)],
        seq![],
        seq![
            ("  [Y] "@, PopupStyle::AcceptKey),
            ("Yes, Exit   "@, PopupStyle::Hint),
            ("[N] "@, PopupStyle::RejectKey),
            ("No, Stay  "@, PopupStyle::Hint),
        ],
    ]
}

fn segment(text: &str, style: PopupStyle) -> (s: PopupSegment)
    ensures
        s.text@ == text@,
        s.style == style,
{
    PopupSegment { text: String::from_str(text), style }
}

impl ConfirmExitPopup {
    /// The width and height of the popup, centered in the screen.
    pub fn size() -> (s: (u16, u16))
        ensures
            s == (46u16, 8u16),
    {
        (46, 8)
    }

    /// The title of the popup's red frame.
    pub fn title() -> (t: String)
        ensures
            t@ == " Confirm Exit "@,
    {
        String::from_str(" Confirm Exit ")
    }

    /// The lines of the popup, centered in its frame.
    pub fn lines() -> (l: Vec<Vec<PopupSegment>>)
        ensures
            popup_view(l@) == popup_lines(),
    {
        let question = vec![segment("Are you sure you want to exit?", PopupStyle::Text)];
        let answers = vec![
            segment("  [Y] ", PopupStyle::AcceptKey),
            segment("Yes, Exit   ", PopupStyle::Hint),
            segment("[N] ", PopupStyle::RejectKey),
            segment("No, Stay  ", PopupStyle::Hint),
        ];
        let l = vec![Vec::new(), question, Vec::new(), answers];
        assert(popup_view(l@) =~= popup_lines()) by {
            assert(popup_view(l@)[0] =~= popup_lines()[0]);
            assert(popup_view(l@)[1] =~= popup_lines()[1]);
            assert(popup_view(l@)[2] =~= popup_lines()[2]);
            assert(popup_view(l@)[3] =~= popup_lines()[3]);
        }
        l
    }
}

} // verus!
