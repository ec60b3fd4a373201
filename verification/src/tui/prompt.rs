//! The input prompt.
use vstd::prelude::*;
use crate::text::{chars_of, push_str_chars, string_from_chars};
use crate::tui::layout::{wrap_line_count, wrap_text};

verus! {

/// The text that the prompt shows for an input: `"> "`, the input, and a
/// block cursor.
pub open spec fn prompt_text(input: Seq<char>) -> Seq<char> {
    seq!['>', ' '] + input + seq!['\u{2588}']
}

/// The number of lines that a wrapped text of `lines` lines is given: between
/// one and five (the count taken as a `u16`), plus two for the borders.
pub open spec fn prompt_height(lines: usize) -> u16 {
    let l = lines as u16;
    if l < 1 {
        3
    } else if l > 5 {
        7
    } else {
        (l + 2) as u16
    }
}

/// The input prompt of the login form and the chat room.
pub struct InputPrompt<'a> {
    input_buffer: &'a str,
}

impl<'a> InputPrompt<'a> {
    /// A prompt for this input.
    pub fn new(input_buffer: &'a str) -> (p: Self)
        ensures
            p.input() == input_buffer@,
    {
        InputPrompt { input_buffer }
    }

    /// The input shown.
    pub closed spec fn input(&self) -> Seq<char> {
        self.input_buffer@
    }

    /// The text that the prompt shows.
    pub fn text(&self) -> (t: String)
        ensures
            t@ == prompt_text(self.input()),
    {
        let mut v: Vec<char> = Vec::new();
        v.push('>');
        v.push(' ');
        push_str_chars(&mut v, self.input_buffer);
        v.push('\u{2588}');
        assert(v@ =~= prompt_text(self.input()));
        string_from_chars(v.as_slice())
    }

    /// The height that the prompt needs at this width, borders included.
    pub fn lines_required(&self, width: usize) -> (h: u16)
        ensures
            width == 0 ==> h == prompt_height(1),
            width > 0 ==> h == prompt_height(wrap_line_count(prompt_text(self.input()), width as nat) as usize),
    {
        let t = self.text();
        let (_, lines) = wrap_text(t.as_str(), width);
        let l = lines as u16;
        if l < 1 {
            3
        } else if l > 5 {
            7
        } else {
            l + 2
        }
    }
}

} // verus!
