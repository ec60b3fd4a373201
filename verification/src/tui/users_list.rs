//! The list of connected users shown beside the chat.
use vstd::prelude::*;
use vstd::string::StringExecFns;
use crate::text::{decimal, decimal_chars, push_str_chars, string_from_chars};

verus! {

/// The list of active users, with an optional own name to mark and a title.
pub struct ActiveUsersList<'a> {
    active_usernames: &'a [String],
    own_username: Option<&'a str>,
    title: &'a str,
}

/// One line of the list: a user name, and whether it is the own one.
pub struct UserEntry {
    pub name: String,
    pub is_own: bool,
}

/// How a piece of a list item is styled.
#[derive(Debug, Clone, Copy, PartialEq, Eq, Structural)]
pub enum ItemStyle {
    /// The bullet before the own name.
    OwnBullet,
    /// The bullet before another user's name.
    PeerBullet,
    /// The own name.
    OwnName,
    /// Another user's name.
    PeerName,
    /// The dim italic " (you)" mark after the own name.
    YouMark,
    /// The dim notice shown when nobody is listed.
    Notice,
}

/// A piece of a list item, and how it is styled.
#[derive(Debug)]
pub struct ItemSegment {
    pub text: String,
    pub style: ItemStyle,
}

/// The pieces of an item, by value.
pub open spec fn item_view(v: Seq<ItemSegment>) -> Seq<(Seq<char>, ItemStyle)> {
    v.map_values(|s: ItemSegment| (s.text@, s.style))
}

/// The item shown for user `name`: a bullet and the name, marked " (you)"
/// when it is the own name.
pub open spec fn user_item(name: Seq<char>, is_own: bool) -> Seq<(Seq<char>, ItemStyle)> {
    if is_own {
        seq![("• "@, ItemStyle::OwnBullet), (name, ItemStyle::OwnName), (" (you)"@, ItemStyle::YouMark)]
    } else {
        seq![("• "@, ItemStyle::PeerBullet), (name, ItemStyle::PeerName)]
    }
}

/// The item shown when nobody is listed.
pub open spec fn empty_notice() -> Seq<(Seq<char>, ItemStyle)> {
    seq![("No other users online. Be the first to join!"@, ItemStyle::Notice)]
}

impl<'a> ActiveUsersList<'a> {
    /// A list of these users, titled "Users", with no own name marked.
    pub fn new(active_usernames: &'a [String]) -> (l: Self)
        ensures
            l.usernames() == active_usernames@,
            l.own() is None,
            l.title_text() == "Users"@,
    {
        ActiveUsersList { active_usernames, own_username: None, title: "Users" }
    }

    /// The users listed.
    pub closed spec fn usernames(&self) -> Seq<String> {
        self.active_usernames@
    }

    /// The own name to mark, if any.
    pub closed spec fn own(&self) -> Option<Seq<char>> {
        match self.own_username {
            Some(n) => Some(n@),
            None => None,
        }
    }

    /// The title of the list.
    pub closed spec fn title_text(&self) -> Seq<char> {
        self.title@
    }

    /// The same list, marking `username` as the own name.
    pub fn own_username(self, username: Option<&'a str>) -> (l: Self)
        ensures
            l.usernames() == self.usernames(),
            l.title_text() == self.title_text(),
            l.own() == match username {
                Some(n) => Some(n@),
                None => None::<Seq<char>>,
            },
    {
        ActiveUsersList { active_usernames: self.active_usernames, own_username: username, title: self.title }
    }

    /// The same list, under another title.
    pub fn title(self, title: &'a str) -> (l: Self)
        ensures
            l.usernames() == self.usernames(),
            l.own() == self.own(),
            l.title_text() == title@,
    {
        ActiveUsersList { active_usernames: self.active_usernames, own_username: self.own_username, title }
    }

    /// The heading of the list: the title and the number of users, as
    /// `" {title} ({count}) "`.
    pub fn heading(&self) -> (h: String)
        ensures
            h@ == seq![' '] + self.title_text() + seq![' ', '('] + decimal(self.usernames().len())
                + seq![')', ' '],
    {
        let mut v: Vec<char> = Vec::new();
        v.push(' ');
        push_str_chars(&mut v, self.title);
        v.push(' ');
        v.push('(');
        let digits = decimal_chars(self.active_usernames.len() as u64);
        let mut i: usize = 0;
        let ghost base = v@;
        while i < digits.len()
            invariant
                i <= digits.len(),
                v@ == base + digits@.take(i as int),
            decreases digits.len() - i,
        {
            v.push(digits[i]);
            assert(digits@.take(i + 1) =~= digits@.take(i as int).push(digits@[i as int]));
            i = i + 1;
        }
        v.push(')');
        v.push(' ');
        assert(digits@.take(digits.len() as int) =~= digits@);
        assert(v@ =~= seq![' '] + self.title_text() + seq![' ', '('] + decimal(
            self.usernames().len(),
        ) + seq![')', ' ']);
        string_from_chars(v.as_slice())
    }

    /// The lines of the list: each user, in order, marked when it is the own
    /// name. An empty result stands for the "no other users" notice.
    pub fn entries(&self) -> (r: Vec<UserEntry>)
        ensures
            r@.len() == self.usernames().len(),
            forall|i: int|
                0 <= i < r@.len() ==> #[trigger] r@[i].name == self.usernames()[i] && r@[i].is_own
                    == (self.own() == Some(self.usernames()[i]@)),
    {
        let mut r: Vec<UserEntry> = Vec::new();
        let mut i: usize = 0;
        while i < self.active_usernames.len()
            invariant
                i <= self.active_usernames@.len(),
                r@.len() == i,
                forall|j: int|
                    0 <= j < i ==> #[trigger] r@[j].name == self.usernames()[j] && r@[j].is_own
                        == (self.own() == Some(self.usernames()[j]@)),
            decreases self.active_usernames@.len() - i,
        {
            let user = &self.active_usernames[i];
            let is_own = match self.own_username {
                Some(own) => crate::text::str_eq(own, user.as_str()),
                None => false,
            };
            assert(self.usernames()[i as int] == *user);
            assert(is_own == (self.own() == Some(user@)));
            let ghost before = r@;
            r.push(UserEntry { name: user.clone(), is_own });
            assert(forall|j: int| 0 <= j < i ==> r@[j] == before[j]);
            i = i + 1;
        }
        r
    }

    /// The items of the list, in order: one per user (see `user_item`), or
    /// the notice when nobody is listed.
    pub fn items(&self) -> (r: Vec<Vec<ItemSegment>>)
        ensures
            self.usernames().len() == 0 ==> r@.len() == 1 && item_view(r@[0]@) == empty_notice(),
            self.usernames().len() > 0 ==> {
                &&& r@.len() == self.usernames().len()
                &&& forall|i: int|
                    0 <= i < r@.len() ==> item_view(#[trigger] r@[i]@) == user_item(
                        self.usernames()[i]@,
                        self.own() == Some(self.usernames()[i]@),
                    )
            },
    {
        let entries = self.entries();
        let mut r: Vec<Vec<ItemSegment>> = Vec::new();
        if entries.len() == 0 {
            let notice = vec![
                ItemSegment {
                    text: String::from_str("No other users online. Be the first to join!"),
                    style: ItemStyle::Notice,
                },
            ];
            assert(item_view(notice@) =~= empty_notice());
            r.push(notice);
            return r;
        }
        assert forall|j: int| 0 <= j < entries@.len() implies #[trigger] entries@[j].name
            == self.usernames()[j] && entries@[j].is_own == (self.own() == Some(
            self.usernames()[j]@,
        )) by {
            assert(entries@[j].name == self.usernames()[j]);
        }
        let mut i: usize = 0;
        while i < entries.len()
            invariant
                i <= entries@.len(),
                entries@.len() == self.usernames().len(),
                forall|j: int|
                    0 <= j < entries@.len() ==> #[trigger] entries@[j].name == self.usernames()[j]
                        && entries@[j].is_own == (self.own() == Some(self.usernames()[j]@)),
                r@.len() == i,
                forall|j: int|
                    0 <= j < i ==> item_view(#[trigger] r@[j]@) == user_item(
                        self.usernames()[j]@,
                        self.own() == Some(self.usernames()[j]@),
                    ),
            decreases entries@.len() - i,
        {
            let e = &entries[i];
            let mut item: Vec<ItemSegment> = Vec::new();
            if e.is_own {
                item.push(ItemSegment { text: String::from_str("• "), style: ItemStyle::OwnBullet });
                item.push(ItemSegment { text: e.name.clone(), style: ItemStyle::OwnName });
                item.push(ItemSegment { text: String::from_str(" (you)"), style: ItemStyle::YouMark });
            } else {
                item.push(ItemSegment { text: String::from_str("• "), style: ItemStyle::PeerBullet });
                item.push(ItemSegment { text: e.name.clone(), style: ItemStyle::PeerName });
            }
            assert(item_view(item@) =~= user_item(e.name@, e.is_own));
            let ghost before = r@;
            r.push(item);
            assert(forall|j: int| 0 <= j < i ==> r@[j] == before[j]);
            i = i + 1;
        }
        r
    }
}

} // verus!
