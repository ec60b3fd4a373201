//! The chat client's state, and how it changes with the user's key strokes
//! and with the packets that the server sends.
use vstd::prelude::*;
use crate::protocol::{LoginError, MessageContent};
use crate::remote::packet::{ClientMessage, ServerCommand, ServerMessage, ServerRemotePacket};
use crate::text::{
    chars_of, char_is_white_space, has_prefix, is_white_space, sort_views, sorted_strings,
    str_starts_with, string_from_chars, string_pop, string_push, to_lowercase, truncated,
    truncation_point, unicode_lowercase, utf8_len, views, prefix_byte_len,
};
use crate::tui::event::AppEvent;

verus! {

/// The screen the client shows.
#[derive(Debug, Clone, Copy, PartialEq, Eq, Structural)]
pub enum State {
    Quit,
    Login,
    ChatRoom,
}

/// A packet received from the server, with the time at which the server sent
/// it (milliseconds since the Unix epoch).
#[derive(Debug)]
pub struct ReceivedMessage {
    pub timestamp_millis: i64,
    pub message: ServerMessage,
}

/// Chat history
#[derive(Debug)]
pub struct ChatHistory {
    pub messages: Vec<ReceivedMessage>,
    pub own_id: Option<u64>,
    pub own_username: Option<String>,
    pub login_error: Option<LoginError>,
    pub active_usernames: Vec<String>,
}

/// Everything the chat client remembers, apart from its connection and its
/// terminal.
#[derive(Debug)]
pub struct ChatApp {
    pub state: State,
    pub input_buffer: String,
    pub history: ChatHistory,
    pub is_confirming_quit: bool,
    /// The completion in progress: the typed prefix, how many completions
    /// were offered so far, and the byte offset where the `@` word starts.
    pub autocomplete_state: Option<(String, usize, usize)>,
}

/// What the application loop has to do after an event.
#[derive(Debug)]
pub struct EventOutcome {
    /// A message to send to the server.
    pub send: Option<ClientMessage>,
    /// Whether the screen is to be drawn again.
    pub redraw: bool,
}

/// The part of the client state that key strokes change, by value.
pub struct ModelView {
    pub state: State,
    pub input: Seq<char>,
    pub confirming: bool,
    pub autocomplete: Option<(Seq<char>, usize, usize)>,
}

/// The completion state by value: the typed prefix, the number of
/// completions offered so far, and the byte offset where the `@` word starts.
pub open spec fn completion_view(a: Option<(String, usize, usize)>) -> Option<(Seq<char>, usize, usize)> {
    match a {
        Some(t) => Some((t.0@, t.1, t.2)),
        None => None,
    }
}

/// The character index where the last word of `s` starts: just after the
/// last white-space character, or 0.
pub open spec fn word_start(s: Seq<char>) -> int
    decreases s.len(),
{
    if s.len() == 0 {
        0
    } else if is_white_space(s.last()) {
        s.len() as int
    } else {
        word_start(s.drop_last())
    }
}

/// Whether the user name `u` completes `prefix` for a user named `own`: its
/// lower-case form starts with that of the prefix, and it is not `own`.
pub open spec fn completes(u: Seq<char>, prefix: Seq<char>, own: Seq<char>) -> bool {
    has_prefix(unicode_lowercase(u), unicode_lowercase(prefix)) && u != own
}

/// The names of `users` that complete `prefix`, in their order.
pub open spec fn candidates(users: Seq<Seq<char>>, prefix: Seq<char>, own: Seq<char>) -> Seq<
    Seq<char>,
>
    decreases users.len(),
{
    if users.len() == 0 {
        seq![]
    } else {
        let rest = candidates(users.drop_last(), prefix, own);
        if completes(users.last(), prefix, own) {
            rest.push(users.last())
        } else {
            rest
        }
    }
}

/// The own user name, or the empty name when there is none.
pub open spec fn own_name(h: ChatHistory) -> Seq<char> {
    match h.own_username {
        Some(n) => n@,
        None => seq![],
    }
}

/// The completion to work on: the one in progress, or else the one that the
/// last word of the input starts, when that word begins with `@`.
pub open spec fn completion_start(m: ChatApp) -> Option<(Seq<char>, usize, usize)> {
    match completion_view(m.autocomplete_state) {
        Some(t) => Some(t),
        None => {
            let s = m.input_buffer@;
            if s.len() == 0 || is_white_space(s.last()) {
                None
            } else {
                let ws = word_start(s);
                if s[ws] != '@' {
                    None
                } else {
                    Some((s.skip(ws + 1), 0usize, utf8_len(s.take(ws)) as usize))
                }
            }
        },
    }
}

/// The input and completion state after a completion request: the input is
/// cut at the completion's start (a byte offset, as `String::truncate` cuts)
/// and `@`, the next name in alphabetical order that completes the prefix,
/// and a space are appended.
pub open spec fn completion_result(m: ChatApp) -> (Seq<char>, Option<(Seq<char>, usize, usize)>) {
    let s = m.input_buffer@;
    if m.state != State::ChatRoom {
        (s, completion_view(m.autocomplete_state))
    } else {
        match completion_start(m) {
            None => (s, None),
            Some(t) => {
                let c = sort_views(candidates(views(m.history.active_usernames@), t.0, own_name(m.history)));
                if c.len() == 0 {
                    (s, None)
                } else {
                    let base = match truncated(s, t.2 as nat) {
                        Some(b) => b,
                        None => s,
                    };
                    (
                        base + seq!['@'] + c[(t.1 as int) % (c.len() as int)] + seq![' '],
                        Some((t.0, (t.1 + 1) as usize, t.2)),
                    )
                }
            },
        }
    }
}

/// Whether a completion request would make the client fail: the last word
/// starts right after a white-space character that takes more than one byte,
/// which cannot be cut there; or, for a completion in progress with names to
/// offer, its counter is exhausted or its start falls inside a character.
pub open spec fn completion_fails(m: ChatApp) -> bool {
    let s = m.input_buffer@;
    &&& m.state == State::ChatRoom
    &&& match m.autocomplete_state {
        None => s.len() > 0 && !is_white_space(s.last()) && word_start(s) > 0 && (s[word_start(s)
            - 1] as int) >= 0x80,
        Some(t) => (t.1 == usize::MAX || truncated(s, t.2 as nat) is None) && candidates(
            views(m.history.active_usernames@),
            t.0@,
            own_name(m.history),
        ).len() > 0,
    }
}

/// Whether the client can handle `e` without failing.
pub open spec fn event_is_safe(m: ChatApp, e: AppEvent) -> bool {
    m.is_confirming_quit || e != AppEvent::Tab || !completion_fails(m)
}

/// The key-stroke state of `m`, by value.
pub open spec fn model_view(m: ChatApp) -> ModelView {
    ModelView {
        state: m.state,
        input: m.input_buffer@,
        confirming: m.is_confirming_quit,
        autocomplete: completion_view(m.autocomplete_state),
    }
}

/// The key-stroke state after the client handles `e`.
pub open spec fn view_after_event(m: ChatApp, e: AppEvent) -> ModelView {
    let v = model_view(m);
    if v.confirming {
        match e {
            AppEvent::InputChar(c) => if c == 'y' || c == 'Y' {
                ModelView { state: State::Quit, ..v }
            } else if c == 'n' || c == 'N' {
                ModelView { confirming: false, ..v }
            } else {
                v
            },
            AppEvent::Cancel => ModelView { confirming: false, ..v },
            _ => v,
        }
    } else {
        let v1 = if e == AppEvent::Tab || e == AppEvent::Ignored || e == AppEvent::Resize {
            v
        } else {
            ModelView { autocomplete: None, ..v }
        };
        match e {
            AppEvent::Quit => ModelView { confirming: true, ..v1 },
            AppEvent::InputChar(c) => ModelView { input: v.input.push(c), ..v1 },
            AppEvent::Backspace => ModelView {
                input: if v.input.len() > 0 {
                    v.input.drop_last()
                } else {
                    v.input
                },
                ..v1
            },
            AppEvent::Tab => {
                let r = completion_result(m);
                ModelView { input: r.0, autocomplete: r.1, ..v1 }
            },
            AppEvent::Enter => if v.input.len() > 0 {
                ModelView { input: seq![], ..v1 }
            } else {
                v1
            },
            _ => v1,
        }
    }
}

/// Whether the client submits its input with `e`: Enter with a non-empty input.
pub open spec fn submits(m: ChatApp, e: AppEvent) -> bool {
    !m.is_confirming_quit && e == AppEvent::Enter && m.input_buffer@.len() > 0
}

/// What the client sends to the server after `e`: a submitted input is a
/// login on the login screen and a chat message in the chat room.
pub open spec fn sent_after_event(m: ChatApp, e: AppEvent) -> Option<ClientMessage> {
    if submits(m, e) {
        match m.state {
            State::Login => Some(ClientMessage::Login(m.input_buffer)),
            State::ChatRoom => Some(ClientMessage::Chat(MessageContent::Text(m.input_buffer))),
            State::Quit => None,
        }
    } else {
        None
    }
}

/// Whether the screen is drawn again after `e`.
pub open spec fn redraws_after_event(m: ChatApp, e: AppEvent) -> bool {
    if m.is_confirming_quit {
        match e {
            AppEvent::InputChar(c) => c == 'n' || c == 'N',
            AppEvent::Cancel => true,
            AppEvent::Resize => true,
            _ => false,
        }
    } else {
        match e {
            AppEvent::Ignored => false,
            AppEvent::Cancel => false,
            AppEvent::Enter => m.input_buffer@.len() > 0,
            _ => true,
        }
    }
}

/// The history after `e`: a login submitted on the login screen is
/// remembered as the own user name.
pub open spec fn history_after_event(m: ChatApp, e: AppEvent) -> ChatHistory {
    if submits(m, e) && m.state == State::Login {
        ChatHistory { own_username: Some(m.input_buffer), ..m.history }
    } else {
        m.history
    }
}

/// Backspace right after typing a character gives back the input as it was.
pub proof fn lemma_backspace_undoes_typing(m: ChatApp, typed: ChatApp, c: char)
    requires
        !m.is_confirming_quit,
        model_view(typed) == view_after_event(m, AppEvent::InputChar(c)),
    ensures
        view_after_event(typed, AppEvent::Backspace).input == m.input_buffer@,
{
    assert(typed.input_buffer@ == m.input_buffer@.push(c));
    assert(typed.input_buffer@.drop_last() =~= m.input_buffer@);
}

/// Quitting asks first: the quit key changes nothing but the question; `y`
/// then quits, and `n` goes back to where the client was, input untouched.
pub proof fn lemma_quit_is_confirmed(m: ChatApp, asked: ChatApp, answered: ChatApp, c: char)
    requires
        !m.is_confirming_quit,
        model_view(asked) == view_after_event(m, AppEvent::Quit),
        model_view(answered) == view_after_event(asked, AppEvent::InputChar(c)),
    ensures
        asked.state == m.state,
        asked.input_buffer@ == m.input_buffer@,
        asked.is_confirming_quit,
        c == 'y' || c == 'Y' ==> answered.state == State::Quit,
        c == 'n' || c == 'N' ==> {
            &&& !answered.is_confirming_quit
            &&& answered.state == m.state
            &&& answered.input_buffer@ == m.input_buffer@
        },
{
}

proof fn lemma_candidates_from_users(users: Seq<Seq<char>>, prefix: Seq<char>, own: Seq<char>)
    ensures
        forall|j: int|
            0 <= j < candidates(users, prefix, own).len() ==> users.contains(
                #[trigger] candidates(users, prefix, own)[j],
            ) && completes(candidates(users, prefix, own)[j], prefix, own),
    decreases users.len(),
{
    if users.len() > 0 {
        let rest = users.drop_last();
        lemma_candidates_from_users(rest, prefix, own);
        let c = candidates(users, prefix, own);
        assert forall|j: int| 0 <= j < c.len() implies users.contains(#[trigger] c[j]) && completes(
            c[j],
            prefix,
            own,
        ) by {
            if j < candidates(rest, prefix, own).len() {
                assert(c[j] == candidates(rest, prefix, own)[j]);
                let k = choose|k: int| 0 <= k < rest.len() && rest[k] == c[j];
                assert(users[k] == rest[k]);
            } else {
                assert(c[j] == users.last());
                assert(users[users.len() - 1] == users.last());
            }
        }
    }
}

/// A completion puts in a name that is really there: a connected user other
/// than oneself whose name, in lower case, starts with the typed prefix in
/// lower case; the text before the `@` word stays as it was.
pub proof fn lemma_completion_offers_user(m: ChatApp)
    requires
        m.state == State::ChatRoom,
        completion_result(m).1 is Some,
    ensures
        ({
            let t = completion_start(m)->Some_0;
            let s = m.input_buffer@;
            let base = match truncated(s, t.2 as nat) {
                Some(b) => b,
                None => s,
            };
            exists|name: Seq<char>|
                #![trigger views(m.history.active_usernames@).contains(name)]
                views(m.history.active_usernames@).contains(name) && completes(
                    name,
                    t.0,
                    own_name(m.history),
                ) && completion_result(m).0 == base + seq!['@'] + name + seq![' ']
        }),
{
    broadcast use vstd::multiset::group_multiset_axioms;
    broadcast use vstd::seq_lib::group_seq_properties;

    let t = completion_start(m)->Some_0;
    let users = views(m.history.active_usernames@);
    let cands = candidates(users, t.0, own_name(m.history));
    let c = sort_views(cands);
    crate::text::lemma_sort_views(cands);
    lemma_candidates_from_users(users, t.0, own_name(m.history));
    let k = (t.1 as int) % (c.len() as int);
    let name = c[k];
    assert(c.contains(name));
    assert(c.to_multiset().count(name) > 0);
    assert(cands.to_multiset().count(name) > 0);
    assert(cands.contains(name));
    let j = choose|j: int| 0 <= j < cands.len() && cands[j] == name;
    assert(users.contains(cands[j]) && completes(cands[j], t.0, own_name(m.history)));
}

/// Enter with something typed submits it and empties the input, on every
/// screen: on the login screen the text is sent as a login, in the chat room
/// as a chat message, and the prompt starts afresh either way.
pub proof fn lemma_enter_submits_and_empties_input(m: ChatApp)
    requires
        !m.is_confirming_quit,
        m.input_buffer@.len() > 0,
    ensures
        view_after_event(m, AppEvent::Enter).input == Seq::<char>::empty(),
        view_after_event(m, AppEvent::Enter).state == m.state,
        m.state == State::ChatRoom ==> sent_after_event(m, AppEvent::Enter) == Some(
            ClientMessage::Chat(MessageContent::Text(m.input_buffer)),
        ),
        m.state == State::Login ==> sent_after_event(m, AppEvent::Enter) == Some(
            ClientMessage::Login(m.input_buffer),
        ),
{
}

/// The names offered for a prefix are exactly the listed names, other than
/// one's own, whose lower-case form starts with the lower-case form of the
/// prefix.
pub proof fn lemma_candidates_are_the_matching_names(
    users: Seq<Seq<char>>,
    prefix: Seq<char>,
    own: Seq<char>,
    u: Seq<char>,
)
    ensures
        candidates(users, prefix, own).contains(u) <==> {
            &&& users.contains(u)
            &&& u != own
            &&& has_prefix(unicode_lowercase(u), unicode_lowercase(prefix))
        },
    decreases users.len(),
{
    if users.len() > 0 {
        let rest = users.drop_last();
        lemma_candidates_are_the_matching_names(rest, prefix, own, u);
        let c = candidates(users, prefix, own);
        let cr = candidates(rest, prefix, own);
        assert(users =~= rest.push(users.last()));
        if users.contains(u) && !rest.contains(u) {
            assert(u == users.last()) by {
                let k = choose|k: int| 0 <= k < users.len() && users[k] == u;
                if k < rest.len() {
                    assert(rest[k] == u);
                }
            }
        }
        if rest.contains(u) {
            let k = choose|k: int| 0 <= k < rest.len() && rest[k] == u;
            assert(users[k] == u);
        }
        if completes(users.last(), prefix, own) {
            assert(c == cr.push(users.last()));
            if cr.contains(u) {
                let k = choose|k: int| 0 <= k < cr.len() && cr[k] == u;
                assert(c[k] == u);
            }
            if c.contains(u) && u != users.last() {
                let k = choose|k: int| 0 <= k < c.len() && c[k] == u;
                assert(k < cr.len());
                assert(cr[k] == u);
            }
            if u == users.last() {
                assert(c[c.len() - 1] == u);
            }
        }
    }
}

/// Completion ignores case on both sides: prefixes with the same lower-case
/// form are offered the same names, in the same order.
pub proof fn lemma_completion_ignores_case(
    users: Seq<Seq<char>>,
    p: Seq<char>,
    q: Seq<char>,
    own: Seq<char>,
)
    requires
        unicode_lowercase(p) == unicode_lowercase(q),
    ensures
        candidates(users, p, own) == candidates(users, q, own),
    decreases users.len(),
{
    if users.len() > 0 {
        lemma_completion_ignores_case(users.drop_last(), p, q, own);
    }
}

/// The character index where the last word of `v` starts.
fn last_word_start(v: &Vec<char>) -> (i: usize)
    ensures
        i == word_start(v@),
        i <= v.len(),
        v@.len() > 0 && !is_white_space(v@.last()) ==> i < v.len(),
{
    let mut i = v.len();
    proof {
        assert(v@.take(i as int) =~= v@);
    }
    while i > 0 && !char_is_white_space(v[i - 1])
        invariant
            i <= v.len(),
            word_start(v@.take(i as int)) == word_start(v@),
        decreases i,
    {
        proof {
            assert(v@.take(i as int).drop_last() =~= v@.take(i - 1));
        }
        i = i - 1;
    }
    proof {
        if i > 0 {
            assert(v@.take(i as int).last() == v@[i - 1]);
        }
    }
    i
}

/// Copies of the strings of `v`.
fn clone_strings(v: &Vec<String>) -> (r: Vec<String>)
    ensures
        r@ == v@,
{
    let mut r: Vec<String> = Vec::new();
    let mut i: usize = 0;
    while i < v.len()
        invariant
            i <= v.len(),
            r@ == v@.take(i as int),
        decreases v.len() - i,
    {
        r.push(v[i].clone());
        assert(v@.take(i + 1) =~= v@.take(i as int).push(v@[i as int]));
        i = i + 1;
    }
    assert(v@.take(v.len() as int) =~= v@);
    r
}

/// The names of `users` that complete `prefix` for a user named `own`.
fn matching_names(users: &Vec<String>, prefix: &String, own: &str) -> (r: Vec<String>)
    ensures
        views(r@) == candidates(views(users@), prefix@, own@),
{
    let lower_prefix = to_lowercase(prefix.as_str());
    let mut r: Vec<String> = Vec::new();
    let mut i: usize = 0;
    while i < users.len()
        invariant
            i <= users.len(),
            lower_prefix@ == unicode_lowercase(prefix@),
            views(r@) == candidates(views(users@.take(i as int)), prefix@, own@),
        decreases users.len() - i,
    {
        let u = &users[i];
        let lower = to_lowercase(u.as_str());
        proof {
            assert(views(users@.take(i + 1)).drop_last() =~= views(users@.take(i as int)));
            assert(views(users@.take(i + 1)).last() == u@);
        }
        let differs = !crate::text::str_eq(u.as_str(), own);
        if str_starts_with(lower.as_str(), lower_prefix.as_str()) && differs {
            let ghost before = views(r@);
            r.push(u.clone());
            assert(views(r@) =~= before.push(u@));
        }
        i = i + 1;
    }
    assert(users@.take(users.len() as int) =~= users@);
    r
}

impl ChatApp {
    /// The state of a client that has just connected: the login screen, with
    /// an empty input and nothing received yet.
    pub fn new() -> (m: Self)
        ensures
            m.state == State::Login,
            m.input_buffer@ == Seq::<char>::empty(),
            m.history.messages@ == Seq::<ReceivedMessage>::empty(),
            m.history.own_id is None,
            m.history.own_username is None,
            m.history.login_error is None,
            m.history.active_usernames@ == Seq::<String>::empty(),
            !m.is_confirming_quit,
            m.autocomplete_state is None,
    {
        ChatApp {
            state: State::Login,
            input_buffer: String::new(),
            history: ChatHistory {
                messages: Vec::new(),
                own_id: None,
                own_username: None,
                login_error: None,
                active_usernames: Vec::new(),
            },
            is_confirming_quit: false,
            autocomplete_state: None,
        }
    }

    /// Handles a packet from the server and returns the reply to send, if any.
    ///
    /// A ping is answered with a pong and not kept; any other packet is kept
    /// in the history, after a welcome (which opens the chat room), a login
    /// refusal (which forgets the chosen name) or a user list has been noted.
    pub fn on_server_packet(&mut self, packet: ServerRemotePacket) -> (reply: Option<ClientMessage>)
        ensures
            match packet.message {
                ServerMessage::Command(ServerCommand::Ping(ts)) => {
                    &&& reply == Some(ClientMessage::Pong(ts))
                    &&& *final(self) == *old(self)
                },
                _ => {
                    &&& reply is None
                    &&& final(self).history.messages@ == old(self).history.messages@.push(
                        ReceivedMessage { timestamp_millis: packet.timestamp, message: packet.message },
                    )
                    &&& final(self).input_buffer == old(self).input_buffer
                    &&& final(self).is_confirming_quit == old(self).is_confirming_quit
                    &&& final(self).autocomplete_state == old(self).autocomplete_state
                    &&& match packet.message {
                        ServerMessage::Command(ServerCommand::Welcome(id)) => {
                            &&& final(self).state == State::ChatRoom
                            &&& final(self).history.own_id == Some(id)
                            &&& final(self).history.login_error is None
                            &&& final(self).history.own_username == old(self).history.own_username
                            &&& final(self).history.active_usernames == old(self).history.active_usernames
                        },
                        ServerMessage::Command(ServerCommand::LoginError(reason)) => {
                            &&& final(self).state == old(self).state
                            &&& final(self).history.own_id == old(self).history.own_id
                            &&& final(self).history.login_error == Some(reason)
                            &&& final(self).history.own_username is None
                            &&& final(self).history.active_usernames == old(self).history.active_usernames
                        },
                        ServerMessage::Command(ServerCommand::ActiveUsers { usernames }) => {
                            &&& final(self).state == old(self).state
                            &&& final(self).history.own_id == old(self).history.own_id
                            &&& final(self).history.login_error == old(self).history.login_error
                            &&& final(self).history.own_username == old(self).history.own_username
                            &&& final(self).history.active_usernames@ == usernames@
                        },
                        _ => {
                            &&& final(self).state == old(self).state
                            &&& final(self).history.own_id == old(self).history.own_id
                            &&& final(self).history.login_error == old(self).history.login_error
                            &&& final(self).history.own_username == old(self).history.own_username
                            &&& final(self).history.active_usernames == old(self).history.active_usernames
                        },
                    }
                },
            },
    {
        match &packet.message {
            ServerMessage::Command(cmd) => {
                match cmd {
                    ServerCommand::Welcome(id) => {
                        self.history.own_id = Some(*id);
                        self.history.login_error = None;
                        self.state = State::ChatRoom;
                    },
                    ServerCommand::LoginError(reason) => {
                        self.history.login_error = Some(*reason);
                        self.history.own_username = None;
                    },
                    ServerCommand::ActiveUsers { usernames } => {
                        self.history.active_usernames = clone_strings(usernames);
                    },
                    ServerCommand::Ping(timestamp) => {
                        return Some(ClientMessage::Pong(*timestamp));
                    },
                    _ => {},
                }
            },
            ServerMessage::Chat(_) => {},
        }
        self.history.messages.push(
            ReceivedMessage { timestamp_millis: packet.timestamp, message: packet.message },
        );
        None
    }

    /// Whether the application loop is to end: the client has quit.
    pub fn is_finished(&self) -> (b: bool)
        ensures
            b == (self.state == State::Quit),
    {
        self.state == State::Quit
    }

    /// The server closed the connection: the client quits.
    pub fn on_connection_closed(&mut self)
        ensures
            final(self).state == State::Quit,
            final(self).input_buffer == old(self).input_buffer,
            final(self).history == old(self).history,
            final(self).is_confirming_quit == old(self).is_confirming_quit,
            final(self).autocomplete_state == old(self).autocomplete_state,
    {
        self.state = State::Quit;
    }

    /// Whether a completion request would make the client fail (see
    /// `completion_fails`); the caller is to stop rather than handle it.
    pub fn completion_would_fail(&self) -> (b: bool)
        ensures
            b == completion_fails(*self),
    {
        if self.state != State::ChatRoom {
            return false;
        }
        match &self.autocomplete_state {
            None => {
                let v = chars_of(self.input_buffer.as_str());
                if v.len() == 0 || char_is_white_space(v[v.len() - 1]) {
                    return false;
                }
                let ws = last_word_start(&v);
                if ws == 0 {
                    return false;
                }
                let cp = crate::text::code_point(v[ws - 1]);
                assert(cp == (self.input_buffer@[word_start(self.input_buffer@) - 1] as int));
                cp >= 0x80
            },
            Some(t) => {
                let v = chars_of(self.input_buffer.as_str());
                let cut = truncation_point(&v, t.2);
                if t.1 != usize::MAX && cut.is_some() {
                    return false;
                }
                let own: &str = match &self.history.own_username {
                    Some(n) => n.as_str(),
                    None => "",
                };
                proof {
                    reveal_strlit("");
                    assert(own@ == own_name(self.history));
                }
                let names = matching_names(&self.history.active_usernames, &t.0, own);
                assert(views(names@).len() == names@.len());
                names.len() > 0
            },
        }
    }

    /// Completes the `@mention` that ends the input, or offers the next
    /// completion when one is in progress.
    pub fn handle_autocomplete(&mut self)
        requires
            !completion_fails(*old(self)),
        ensures
            final(self).input_buffer@ == completion_result(*old(self)).0,
            completion_view(final(self).autocomplete_state) == completion_result(*old(self)).1,
            final(self).state == old(self).state,
            final(self).history == old(self).history,
            final(self).is_confirming_quit == old(self).is_confirming_quit,
    {
        if self.state != State::ChatRoom {
            return;
        }
        let ghost m0 = *self;
        let chars = chars_of(self.input_buffer.as_str());
        let taken = self.autocomplete_state.take();
        let (prefix, match_idx, start_idx) = match taken {
            Some(state) => state,
            None => {
                if chars.len() == 0 || char_is_white_space(chars[chars.len() - 1]) {
                    return;
                }
                let word_start = last_word_start(&chars);
                if chars[word_start] != '@' {
                    return;
                }
                let mut p: Vec<char> = Vec::new();
                let mut j = word_start + 1;
                while j < chars.len()
                    invariant
                        word_start < j <= chars.len(),
                        p@ == chars@.subrange(word_start + 1, j as int),
                    decreases chars.len() - j,
                {
                    p.push(chars[j]);
                    assert(chars@.subrange(word_start + 1, j + 1) =~= chars@.subrange(
                        word_start + 1,
                        j as int,
                    ).push(chars@[j as int]));
                    j = j + 1;
                }
                assert(p@ =~= chars@.skip(word_start + 1));
                let start = prefix_byte_len(&chars, word_start);
                proof {
                    crate::text::lemma_truncated_at_prefix(chars@, word_start as int);
                }
                (string_from_chars(p.as_slice()), 0, start)
            },
        };
        assert(completion_start(m0) == Some((prefix@, match_idx, start_idx)));
        let own: &str = match &self.history.own_username {
            Some(n) => n.as_str(),
            None => "",
        };
        proof {
            reveal_strlit("");
            assert(own@ == own_name(m0.history));
        }
        let names = matching_names(&self.history.active_usernames, &prefix, own);
        if names.len() == 0 {
            return;
        }
        let matches = sorted_strings(&names);
        proof {
            crate::text::lemma_sort_views(views(names@));
        }
        let n = matches.len();
        let suggestion = &matches[match_idx % n];
        let sugg_chars = chars_of(suggestion.as_str());
        let mut out: Vec<char> = Vec::new();
        let keep = match truncation_point(&chars, start_idx) {
            Some(k) => k,
            None => {
                return;
            },
        };
        let mut j: usize = 0;
        while j < keep
            invariant
                keep <= chars.len(),
                j <= keep,
                out@ == chars@.take(j as int),
            decreases keep - j,
        {
            out.push(chars[j]);
            assert(chars@.take(j + 1) =~= chars@.take(j as int).push(chars@[j as int]));
            j = j + 1;
        }
        out.push('@');
        let ghost mid = out@;
        let mut k: usize = 0;
        while k < sugg_chars.len()
            invariant
                k <= sugg_chars.len(),
                out@ == mid + sugg_chars@.take(k as int),
            decreases sugg_chars.len() - k,
        {
            out.push(sugg_chars[k]);
            assert(sugg_chars@.take(k + 1) =~= sugg_chars@.take(k as int).push(sugg_chars@[k as int]));
            k = k + 1;
        }
        out.push(' ');
        proof {
            assert(sugg_chars@.take(sugg_chars.len() as int) =~= sugg_chars@);
            assert(views(matches@)[(match_idx % n) as int] == suggestion@);
        }
        self.input_buffer = string_from_chars(out.as_slice());
        self.autocomplete_state = Some((prefix, match_idx + 1, start_idx));
    }

    /// Handles one application event and says what the loop has to do next.
    pub fn handle_event(&mut self, event: AppEvent) -> (out: EventOutcome)
        requires
            event_is_safe(*old(self), event),
        ensures
            model_view(*final(self)) == view_after_event(*old(self), event),
            final(self).history == history_after_event(*old(self), event),
            out.send == sent_after_event(*old(self), event),
            out.redraw == redraws_after_event(*old(self), event),
    {
        if self.is_confirming_quit {
            match event {
                AppEvent::InputChar(c) => {
                    if c == 'y' || c == 'Y' {
                        self.state = State::Quit;
                        return EventOutcome { send: None, redraw: false };
                    } else if c == 'n' || c == 'N' {
                        self.is_confirming_quit = false;
                        return EventOutcome { send: None, redraw: true };
                    }
                    return EventOutcome { send: None, redraw: false };
                },
                AppEvent::Cancel => {
                    self.is_confirming_quit = false;
                    return EventOutcome { send: None, redraw: true };
                },
                AppEvent::Resize => {
                    return EventOutcome { send: None, redraw: true };
                },
                _ => {
                    return EventOutcome { send: None, redraw: false };
                },
            }
        }
        match event {
            AppEvent::Tab | AppEvent::Ignored | AppEvent::Resize => {},
            _ => {
                self.autocomplete_state = None;
            },
        }
        match event {
            AppEvent::Ignored => EventOutcome { send: None, redraw: false },
            AppEvent::Quit => {
                self.is_confirming_quit = true;
                EventOutcome { send: None, redraw: true }
            },
            AppEvent::Cancel => EventOutcome { send: None, redraw: false },
            AppEvent::InputChar(c) => {
                string_push(&mut self.input_buffer, c);
                EventOutcome { send: None, redraw: true }
            },
            AppEvent::Backspace => {
                string_pop(&mut self.input_buffer);
                EventOutcome { send: None, redraw: true }
            },
            AppEvent::Tab => {
                self.handle_autocomplete();
                EventOutcome { send: None, redraw: true }
            },
            AppEvent::Enter => {
                if self.input_buffer.as_str().is_empty() {
                    return EventOutcome { send: None, redraw: false };
                }
                let text = self.input_buffer.clone();
                self.input_buffer = String::new();
                let send = match self.state {
                    State::Login => {
                        self.history.own_username = Some(text.clone());
                        Some(ClientMessage::Login(text))
                    },
                    State::ChatRoom => Some(ClientMessage::Chat(MessageContent::Text(text))),
                    State::Quit => None,
                };
                EventOutcome { send, redraw: true }
            },
            AppEvent::Resize => EventOutcome { send: None, redraw: true },
        }
    }
}

} // verus!
