//! Server
//! Core of the chat server: the rules by which it answers client requests.
use std::collections::HashMap;
use vstd::prelude::*;
use vstd::std_specs::hash::spec_values_iter;
use vstd::std_specs::iter::IteratorSpec;
use crate::protocol::{ChatMessage, ClientRequest, LoginError, Request, Response};
use crate::text::{eq_ignore_ascii_case, is_blank, str_eq_ignore_ascii_case, str_is_blank};

verus! {

broadcast use vstd::std_specs::hash::group_hash_axioms;

/// Something the server core asks its surroundings to do after a request.
#[derive(Debug)]
pub enum ServerAction {
    /// Send this response on the broadcast channel to every client worker.
    Broadcast(Response),
    /// Record in the database that `username` logged in from `ip`.
    RecordLogin { username: String, ip: String },
    /// Record in the database that `username` logged out.
    RecordLogout { username: String },
}

/// Server Core: the usernames of the logged-in clients, by client id.
#[derive(Debug)]
pub struct Server {
    active_users: HashMap<u64, String>,
}

/// Some logged-in client has a name equal to `name` when ASCII case is ignored.
pub open spec fn name_taken(users: Map<u64, String>, name: Seq<char>) -> bool {
    exists|k: u64| #[trigger] users.contains_key(k) && eq_ignore_ascii_case(users[k]@, name)
}

/// The invariant of the logged-in users: no name is blank, and no two names
/// are equal when ASCII case is ignored.
pub open spec fn users_wf(users: Map<u64, String>) -> bool {
    &&& forall|k: u64| #[trigger] users.contains_key(k) ==> !is_blank(users[k]@)
    &&& forall|k1: u64, k2: u64|
        #[trigger] users.contains_key(k1) && #[trigger] users.contains_key(k2) && k1 != k2
            ==> !eq_ignore_ascii_case(users[k1]@, users[k2]@)
}

/// Whether a login under `name` is accepted.
pub open spec fn login_accepted(users: Map<u64, String>, name: Seq<char>) -> bool {
    !is_blank(name) && !name_taken(users, name)
}

/// The logged-in users after the server core handles `req`.
pub open spec fn next_users(users: Map<u64, String>, req: ClientRequest) -> Map<u64, String> {
    match req.request {
        Request::Connect { username } => if login_accepted(users, username@) {
            users.insert(req.client_id, username)
        } else {
            users
        },
        Request::Disconnect => users.remove(req.client_id),
        _ => users,
    }
}

/// `usernames` lists the names of `users`, each once, in some order.
pub open spec fn lists_users(usernames: Seq<String>, users: Map<u64, String>) -> bool {
    usernames.len() == users.dom().len() && usernames.to_set() == users.values()
}

/// `a` broadcasts the list of the names of `users`.
pub open spec fn broadcasts_user_list(a: ServerAction, users: Map<u64, String>) -> bool {
    &&& a is Broadcast
    &&& a->Broadcast_0 is ActiveUsers
    &&& lists_users(a->Broadcast_0->ActiveUsers_usernames@, users)
}

/// The actions that the server core takes for `req`, given the users before
/// (`users`) and after (`next`) it.
pub open spec fn request_actions(
    users: Map<u64, String>,
    req: ClientRequest,
    actions: Seq<ServerAction>,
) -> bool {
    let id = req.client_id;
    let next = next_users(users, req);
    match req.request {
        Request::Connect { username } => if is_blank(username@) {
            actions == seq![
                ServerAction::Broadcast(
                    Response::LoginReject { client_id: id, error: LoginError::EmptyUsername },
                ),
            ]
        } else if name_taken(users, username@) {
            actions == seq![
                ServerAction::Broadcast(
                    Response::LoginReject { client_id: id, error: LoginError::UsernameTaken },
                ),
            ]
        } else {
            &&& actions.len() == 4
            &&& actions[0] == ServerAction::RecordLogin { username, ip: req.client_addr }
            &&& actions[1] == ServerAction::Broadcast(Response::Welcome(id))
            &&& actions[2] == ServerAction::Broadcast(Response::Joined { username })
            &&& broadcasts_user_list(actions[3], next)
        },
        Request::GetActiveUsers => actions.len() == 1 && broadcasts_user_list(actions[0], users),
        Request::Disconnect => if users.contains_key(id) {
            &&& actions.len() == 3
            &&& actions[0] == ServerAction::RecordLogout { username: users[id] }
            &&& actions[1] == ServerAction::Broadcast(Response::Left { username: users[id] })
            &&& broadcasts_user_list(actions[2], next)
        } else {
            actions.len() == 1 && broadcasts_user_list(actions[0], next)
        },
        Request::Message(m) => actions == seq![ServerAction::Broadcast(Response::Message(m))],
    }
}

/// Every request keeps the invariant of the logged-in users: names stay
/// non-blank and distinct when ASCII case is ignored.
pub proof fn lemma_users_stay_distinct(users: Map<u64, String>, req: ClientRequest)
    requires
        users_wf(users),
    ensures
        users_wf(next_users(users, req)),
{
}

/// A client that logs in under a fresh name and then disconnects leaves the
/// logged-in users as they were.
pub proof fn lemma_login_then_disconnect(
    users: Map<u64, String>,
    id: u64,
    addr: String,
    name: String,
)
    requires
        !users.contains_key(id),
        login_accepted(users, name@),
    ensures
        ({
            let connect = ClientRequest {
                client_id: id,
                client_addr: addr,
                request: Request::Connect { username: name },
            };
            let leave = ClientRequest { client_id: id, client_addr: addr, request: Request::Disconnect };
            next_users(next_users(users, connect), leave) == users
        }),
{
    assert(users.insert(id, name).remove(id) =~= users);
}

/// Once a name is accepted, a login under the same name in any ASCII case is
/// refused as taken, and a refused login changes nothing.
pub proof fn lemma_name_is_reserved(
    users: Map<u64, String>,
    id: u64,
    addr: String,
    name: String,
    other: Seq<char>,
)
    requires
        login_accepted(users, name@),
        eq_ignore_ascii_case(name@, other),
    ensures
        ({
            let connect = ClientRequest {
                client_id: id,
                client_addr: addr,
                request: Request::Connect { username: name },
            };
            let after = next_users(users, connect);
            &&& name_taken(after, other)
            &&& !login_accepted(after, other)
        }),
{
    let after = users.insert(id, name);
    assert(after.contains_key(id) && eq_ignore_ascii_case(after[id]@, other));
}

/// A login refused for any reason leaves the logged-in users unchanged, and a
/// login is refused exactly when the name is blank or already taken.
pub proof fn lemma_refused_login_changes_nothing(
    users: Map<u64, String>,
    id: u64,
    addr: String,
    name: String,
)
    requires
        is_blank(name@) || name_taken(users, name@),
    ensures
        next_users(
            users,
            ClientRequest { client_id: id, client_addr: addr, request: Request::Connect { username: name } },
        ) == users,
{
}

/// A non-blank name that equals no logged-in name, even with ASCII case
/// ignored, is accepted: the client is added under it, and the core records
/// the login, welcomes the client, announces it and lists the users.
pub proof fn lemma_fresh_name_is_accepted(
    users: Map<u64, String>,
    id: u64,
    addr: String,
    name: String,
    actions: Seq<ServerAction>,
)
    requires
        !is_blank(name@),
        forall|k: u64| #[trigger] users.contains_key(k) ==> !eq_ignore_ascii_case(users[k]@, name@),
        request_actions(
            users,
            ClientRequest { client_id: id, client_addr: addr, request: Request::Connect { username: name } },
            actions,
        ),
    ensures
        login_accepted(users, name@),
        next_users(
            users,
            ClientRequest { client_id: id, client_addr: addr, request: Request::Connect { username: name } },
        ) == users.insert(id, name),
        actions.len() == 4,
        actions[0] == (ServerAction::RecordLogin { username: name, ip: addr }),
        actions[1] == ServerAction::Broadcast(Response::Welcome(id)),
        actions[2] == ServerAction::Broadcast(Response::Joined { username: name }),
        broadcasts_user_list(actions[3], users.insert(id, name)),
{
}

impl Server {
    /// The invariant of a server: its logged-in users are well formed.
    #[verifier::type_invariant]
    spec fn inv(self) -> bool {
        users_wf(self.active_users@)
    }
}

impl View for Server {
    type V = Map<u64, String>;

    closed spec fn view(&self) -> Map<u64, String> {
        self.active_users@
    }
}

impl Server {
    /// A server core with no logged-in users.
    pub fn new() -> (s: Self)
        ensures
            s@ == Map::<u64, String>::empty(),
            users_wf(s@),
    {
        Server { active_users: HashMap::new() }
    }

    /// The names of the logged-in users, each once, in the order in which
    /// the map is walked. The logged-in users are always well formed, so the
    /// names are distinct.
    pub fn active_usernames(&self) -> (names: Vec<String>)
        ensures
            lists_users(names@, self@),
            users_wf(self@),
    {
        proof {
            use_type_invariant(self);
        }
        let mut names: Vec<String> = Vec::new();
        let ghost walk = spec_values_iter(&self.active_users).remaining();
        for v in it: self.active_users.values()
            invariant
                it.seq() == walk,
                names@ == it.seq().take(it.index() as int).unref(),
        {
            let ghost before = names@;
            names.push(v.clone());
            proof {
                assert(it.seq().take(it.index() + 1).unref() =~= before.push(*v));
            }
        }
        assert(walk.take(walk.len() as int) =~= walk);
        names
    }

    /// Whether a logged-in user has the name `username`, ASCII case ignored.
    fn is_taken(&self, username: &String) -> (taken: bool)
        ensures
            taken == name_taken(self@, username@),
    {
        let mut taken = false;
        let ghost walk = spec_values_iter(&self.active_users).remaining();
        for v in it: self.active_users.values()
            invariant
                it.seq() == walk,
                taken == exists|j: int|
                    0 <= j < it.index() && eq_ignore_ascii_case((*it.seq()[j])@, username@),
        {
            if str_eq_ignore_ascii_case(v.as_str(), username.as_str()) {
                taken = true;
            }
        }
        proof {
            let vals = walk.unref();
            assert(vals.to_set() == self@.values());
            if taken {
                let j = choose|j: int|
                    0 <= j < walk.len() && eq_ignore_ascii_case((*walk[j])@, username@);
                assert(vals[j] == *walk[j]);
                assert(vals.to_set().contains(vals[j]));
                let k = choose|k: u64| self@.contains_key(k) && self@[k] == vals[j];
                assert(self@.contains_key(k) && eq_ignore_ascii_case(self@[k]@, username@));
            } else {
                assert forall|k: u64| #[trigger] self@.contains_key(k) implies !eq_ignore_ascii_case(
                    self@[k]@,
                    username@,
                ) by {
                    assert(self@.values().contains(self@[k]));
                    assert(vals.to_set().contains(self@[k]));
                    let j = choose|j: int| 0 <= j < vals.len() && vals[j] == self@[k];
                    assert(*walk[j] == vals[j]);
                }
            }
        }
        taken
    }

    /// Handles one request from a client worker and returns what is to be
    /// done about it, in order.
    pub fn handle_request(&mut self, req: ClientRequest) -> (actions: Vec<ServerAction>)
        ensures
            final(self)@ == next_users(old(self)@, req),
            request_actions(old(self)@, req, actions@),
            users_wf(final(self)@),
    {
        proof {
            use_type_invariant(&*self);
        }
        let ClientRequest { client_id, client_addr, request } = req;
        let mut actions: Vec<ServerAction> = Vec::new();
        match request {
            Request::Connect { username } => {
                let taken = self.is_taken(&username);
                if str_is_blank(username.as_str()) {
                    actions.push(
                        ServerAction::Broadcast(
                            Response::LoginReject { client_id, error: LoginError::EmptyUsername },
                        ),
                    );
                } else if taken {
                    actions.push(
                        ServerAction::Broadcast(
                            Response::LoginReject { client_id, error: LoginError::UsernameTaken },
                        ),
                    );
                } else {
                    let mut users: HashMap<u64, String> = HashMap::new();
                    std::mem::swap(&mut users, &mut self.active_users);
                    users.insert(client_id, username.clone());
                    std::mem::swap(&mut users, &mut self.active_users);
                    actions.push(
                        ServerAction::RecordLogin { username: username.clone(), ip: client_addr },
                    );
                    actions.push(ServerAction::Broadcast(Response::Welcome(client_id)));
                    actions.push(
                        ServerAction::Broadcast(Response::Joined { username: username.clone() }),
                    );
                    let usernames = self.active_usernames();
                    actions.push(ServerAction::Broadcast(Response::ActiveUsers { usernames }));
                }
            },
            Request::GetActiveUsers => {
                let usernames = self.active_usernames();
                actions.push(ServerAction::Broadcast(Response::ActiveUsers { usernames }));
            },
            Request::Disconnect => {
                let mut users: HashMap<u64, String> = HashMap::new();
                std::mem::swap(&mut users, &mut self.active_users);
                let removed = users.remove(&client_id);
                std::mem::swap(&mut users, &mut self.active_users);
                if let Some(username) = removed {
                    actions.push(ServerAction::RecordLogout { username: username.clone() });
                    actions.push(ServerAction::Broadcast(Response::Left { username }));
                }
                let usernames = self.active_usernames();
                actions.push(ServerAction::Broadcast(Response::ActiveUsers { usernames }));
            },
            Request::Message(ChatMessage { author_id, author_username, destination, content }) => {
                actions.push(
                    ServerAction::Broadcast(
                        Response::Message(
                            ChatMessage { author_id, author_username, destination, content },
                        ),
                    ),
                );
            },
        }
        actions
    }
}

} // verus!
