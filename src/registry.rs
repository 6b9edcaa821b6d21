//! The three shared registries: where each user's connection is, who the
//! users are and which channels they joined, and who is in each channel.

use crate::name_set::{with, without, NameSet};
use vstd::hash_map::StringHashMap;
use vstd::prelude::*;

verus! {

/// Maps a username to the connection that events for that user go to.
pub struct ConnectionRegistry {
    routes: StringHashMap<u64>,
}

impl View for ConnectionRegistry {
    type V = Map<Seq<char>, u64>;

    closed spec fn view(&self) -> Map<Seq<char>, u64> {
        self.routes@
    }
}

impl ConnectionRegistry {
    /// No connection is registered.
    pub fn new() -> (r: ConnectionRegistry)
        ensures
            r@ == Map::<Seq<char>, u64>::empty(),
    {
        ConnectionRegistry { routes: StringHashMap::new() }
    }

    /// Routes `username` to `conn`, replacing any earlier entry.
    pub fn register(&mut self, username: String, conn: u64)
        ensures
            final(self)@ == old(self)@.insert(username@, conn),
    {
        self.routes.insert(username, conn);
    }

    /// Drops the entry of `username` if it still routes to `conn`, the
    /// connection that is closing; an entry of a later login stays.
    pub fn remove(&mut self, username: &String, conn: u64)
        ensures
            final(self)@ == (if old(self)@.contains_key(username@) && old(self)@[username@] == conn {
                old(self)@.remove(username@)
            } else {
                old(self)@
            }),
    {
        let owned = match self.routes.get(username.as_str()) {
            Some(c) => *c == conn,
            None => false,
        };
        if owned {
            self.routes.remove(username.as_str());
        }
    }

    /// The connection of `username`, if one is registered.
    pub fn route(&self, username: &String) -> (r: Option<u64>)
        ensures
            r == (if self@.contains_key(username@) {
                Some(self@[username@])
            } else {
                None::<u64>
            }),
    {
        match self.routes.get(username.as_str()) {
            Some(c) => Some(*c),
            None => None,
        }
    }
}

/// A registered user: the password given at first login, and the channels
/// the user is in.
pub struct User {
    password: String,
    channels: NameSet,
}

/// The view of a `User`.
pub struct UserView {
    pub password: Seq<char>,
    pub channels: Seq<Seq<char>>,
}

impl View for User {
    type V = UserView;

    closed spec fn view(&self) -> UserView {
        UserView { password: self.password@, channels: self.channels@ }
    }
}

/// Maps a username to its user.
pub struct UserStore {
    users: StringHashMap<User>,
}

impl View for UserStore {
    type V = Map<Seq<char>, UserView>;

    closed spec fn view(&self) -> Map<Seq<char>, UserView> {
        self.users@.map_values(|u: User| u@)
    }
}

impl UserStore {
    /// No user lists a channel twice.
    pub open spec fn wf(&self) -> bool {
        forall|u: Seq<char>| #[trigger]
            self@.contains_key(u) ==> self@[u].channels.no_duplicates()
    }

    /// No user is registered.
    pub fn new() -> (r: UserStore)
        ensures
            r@ == Map::<Seq<char>, UserView>::empty(),
            r.wf(),
    {
        let r = UserStore { users: StringHashMap::new() };
        assert(r@ =~= Map::<Seq<char>, UserView>::empty());
        r
    }

    /// Whether `username` is registered.
    pub fn contains(&self, username: &String) -> (r: bool)
        ensures
            r == self@.contains_key(username@),
    {
        self.users.contains_key(username.as_str())
    }

    /// Registers an unknown `username` with `password` and no channels, and
    /// accepts it; accepts a known one iff `password` is its stored one.
    pub fn authenticate_or_register(&mut self, username: String, password: String) -> (r: bool)
        requires
            old(self).wf(),
        ensures
            final(self).wf(),
            r == (!old(self)@.contains_key(username@) || old(self)@[username@].password
                == password@),
            final(self)@ == (if old(self)@.contains_key(username@) {
                old(self)@
            } else {
                old(self)@.insert(
                    username@,
                    UserView { password: password@, channels: Seq::empty() },
                )
            }),
    {
        match self.users.get(username.as_str()) {
            Some(user) => user.password == password,
            None => {
                let user = User { password, channels: NameSet::new() };
                let ghost before = self.users@;
                self.users.insert(username, user);
                assert(self.users@.map_values(|u: User| u@) =~= before.map_values(|u: User| u@).insert(
                    username@,
                    user@,
                ));
                assert(user@.channels.no_duplicates());
                assert forall|u: Seq<char>| #[trigger]
                    self@.contains_key(u) implies self@[u].channels.no_duplicates() by {
                    if u != username@ {
                        assert(before.map_values(|u: User| u@).contains_key(u));
                        assert(old(self)@.contains_key(u));
                    }
                }
                true
            },
        }
    }

    /// Adds `channel` to, or takes it out of, the channels of `username`, if
    /// registered.
    fn update_channels(&mut self, username: &String, channel: &String, adding: bool)
        requires
            old(self).wf(),
        ensures
            final(self).wf(),
            final(self)@ == (if old(self)@.contains_key(username@) {
                old(self)@.insert(
                    username@,
                    UserView {
                        password: old(self)@[username@].password,
                        channels: if adding {
                            with(old(self)@[username@].channels, channel@)
                        } else {
                            without(old(self)@[username@].channels, channel@)
                        },
                    },
                )
            } else {
                old(self)@
            }),
    {
        match self.users.get(username.as_str()) {
            Some(user) => {
                let mut channels = user.channels.copy();
                let password = user.password.clone();
                assert(self@[username@] == user@);
                assert(self@.contains_key(username@));
                if adding {
                    channels.insert(channel.clone());
                } else {
                    channels.remove(channel);
                }
                let updated = User { password, channels };
                let ghost before = self.users@;
                self.users.insert(username.clone(), updated);
                assert(self.users@.map_values(|u: User| u@) =~= before.map_values(|u: User| u@).insert(
                    username@,
                    updated@,
                ));
                assert forall|u: Seq<char>| #[trigger]
                    self@.contains_key(u) implies self@[u].channels.no_duplicates() by {
                    if u != username@ {
                        assert(before.map_values(|u: User| u@).contains_key(u));
                        assert(old(self)@.contains_key(u));
                    }
                }
            },
            None => {},
        }
    }

    /// Adds `channel` to the channels of `username`; nothing happens if
    /// the user is unknown.
    pub fn add_channel(&mut self, username: &String, channel: &String)
        requires
            old(self).wf(),
        ensures
            final(self).wf(),
            final(self)@ == (if old(self)@.contains_key(username@) {
                old(self)@.insert(
                    username@,
                    UserView {
                        password: old(self)@[username@].password,
                        channels: with(old(self)@[username@].channels, channel@),
                    },
                )
            } else {
                old(self)@
            }),
    {
        self.update_channels(username, channel, true);
    }

    /// Takes `channel` out of the channels of `username`; nothing happens if
    /// the user is unknown.
    pub fn remove_channel(&mut self, username: &String, channel: &String)
        requires
            old(self).wf(),
        ensures
            final(self).wf(),
            final(self)@ == (if old(self)@.contains_key(username@) {
                old(self)@.insert(
                    username@,
                    UserView {
                        password: old(self)@[username@].password,
                        channels: without(old(self)@[username@].channels, channel@),
                    },
                )
            } else {
                old(self)@
            }),
    {
        self.update_channels(username, channel, false);
    }

    /// The channels of `username` in the order joined; none for an unknown
    /// user.
    pub fn joined_channels(&self, username: &String) -> (r: Vec<String>)
        ensures
            r.deep_view() == (if self@.contains_key(username@) {
                self@[username@].channels
            } else {
                Seq::<Seq<char>>::empty()
            }),
    {
        match self.users.get(username.as_str()) {
            Some(user) => {
                assert(self@[username@] == user@);
                user.channels.to_vec()
            },
            None => {
                let r: Vec<String> = Vec::new();
                assert(r.deep_view() =~= Seq::<Seq<char>>::empty());
                r
            },
        }
    }
}

/// Maps a channel name to its members. A channel comes into being at its
/// first join and stays, possibly empty.
pub struct ChannelRegistry {
    names: NameSet,
    members: StringHashMap<NameSet>,
}

impl View for ChannelRegistry {
    type V = Map<Seq<char>, Seq<Seq<char>>>;

    closed spec fn view(&self) -> Map<Seq<char>, Seq<Seq<char>>> {
        self.members@.map_values(|m: NameSet| m@)
    }
}

impl ChannelRegistry {
    /// The channel names, in the order the channels came into being.
    pub closed spec fn order(&self) -> Seq<Seq<char>> {
        self.names@
    }

    /// The order lists each channel once, and no channel lists a member
    /// twice.
    pub open spec fn wf(&self) -> bool {
        &&& self.order().no_duplicates()
        &&& forall|c: Seq<char>| #[trigger] self@.contains_key(c) <==> self.order().contains(c)
        &&& forall|c: Seq<char>| #[trigger] self@.contains_key(c) ==> self@[c].no_duplicates()
    }

    /// No channel exists.
    pub fn new() -> (r: ChannelRegistry)
        ensures
            r@ == Map::<Seq<char>, Seq<Seq<char>>>::empty(),
            r.order() == Seq::<Seq<char>>::empty(),
            r.wf(),
    {
        let r = ChannelRegistry { names: NameSet::new(), members: StringHashMap::new() };
        assert(r@ =~= Map::<Seq<char>, Seq<Seq<char>>>::empty());
        r
    }

    /// Adds `username` to `channel`, creating the channel if it is new.
    pub fn join(&mut self, channel: &String, username: &String)
        requires
            old(self).wf(),
        ensures
            final(self).wf(),
            final(self)@ == old(self)@.insert(
                channel@,
                with(
                    if old(self)@.contains_key(channel@) {
                        old(self)@[channel@]
                    } else {
                        Seq::empty()
                    },
                    username@,
                ),
            ),
            final(self).order() == with(old(self).order(), channel@),
    {
        let ghost before = self.members@;
        let mut set = match self.members.get(channel.as_str()) {
            Some(m) => {
                assert(self@.contains_key(channel@));
                m.copy()
            },
            None => {
                self.names.insert(channel.clone());
                NameSet::new()
            },
        };
        set.insert(username.clone());
        let ghost updated = set@;
        self.members.insert(channel.clone(), set);
        assert(self@ =~= before.map_values(|m: NameSet| m@).insert(channel@, updated));
        assert forall|c: Seq<char>| #[trigger] self@.contains_key(c) <==> self.order().contains(
            c,
        ) by {
            if c != channel@ {
                assert(before.map_values(|m: NameSet| m@).contains_key(c) == old(self)@.contains_key(c));
                assert(old(self)@.contains_key(c) == old(self).order().contains(c));
                if old(self).order().contains(c) {
                    let j = choose|j: int| 0 <= j < old(self).order().len() && old(self).order()[j] == c;
                    assert(self.order()[j] == c);
                }
                if self.order().contains(c) && !old(self).order().contains(c) {
                    let j = choose|j: int| 0 <= j < self.order().len() && self.order()[j] == c;
                    assert(j < old(self).order().len() ==> old(self).order()[j] == c);
                }
            } else {
                assert(self.order()[self.order().len() - 1] == c || old(self).order().contains(c));
            }
        }
        assert forall|c: Seq<char>| #[trigger] self@.contains_key(c) implies self@[c].no_duplicates() by {
            if c != channel@ {
                assert(old(self)@.contains_key(c));
            }
        }
    }

    /// Takes `username` out of `channel`; the channel stays, even if it is
    /// left empty. Nothing happens if the channel does not exist.
    pub fn leave(&mut self, channel: &String, username: &String)
        requires
            old(self).wf(),
        ensures
            final(self).wf(),
            final(self)@ == (if old(self)@.contains_key(channel@) {
                old(self)@.insert(channel@, without(old(self)@[channel@], username@))
            } else {
                old(self)@
            }),
            final(self).order() == old(self).order(),
    {
        let ghost before = self.members@;
        match self.members.get(channel.as_str()) {
            Some(m) => {
                assert(self@.contains_key(channel@));
                let mut set = m.copy();
                set.remove(username);
                let ghost updated = set@;
                self.members.insert(channel.clone(), set);
                assert(self@ =~= before.map_values(|m: NameSet| m@).insert(channel@, updated));
                assert forall|c: Seq<char>| #[trigger] self@.contains_key(c) <==> self.order().contains(
                    c,
                ) by {
                    if c != channel@ {
                        assert(old(self)@.contains_key(c) == old(self).order().contains(c));
                    }
                }
                assert forall|c: Seq<char>| #[trigger]
                    self@.contains_key(c) implies self@[c].no_duplicates() by {
                    if c != channel@ {
                        assert(old(self)@.contains_key(c));
                    }
                }
            },
            None => {},
        }
    }

    /// The members of `channel`, or `None` if it does not exist.
    pub fn members(&self, channel: &String) -> (r: Option<Vec<String>>)
        ensures
            match r {
                Some(v) => self@.contains_key(channel@) && v.deep_view() == self@[channel@],
                None => !self@.contains_key(channel@),
            },
    {
        match self.members.get(channel.as_str()) {
            Some(m) => Some(m.to_vec()),
            None => None,
        }
    }

    /// Whether `channel` exists and has `username` as a member.
    pub fn is_member(&self, channel: &String, username: &String) -> (r: bool)
        ensures
            r == (self@.contains_key(channel@) && self@[channel@].contains(username@)),
    {
        match self.members.get(channel.as_str()) {
            Some(m) => m.contains(username),
            None => false,
        }
    }

    /// The names of all channels, in the order they came into being.
    pub fn all_channel_names(&self) -> (r: Vec<String>)
        ensures
            r.deep_view() == self.order(),
    {
        self.names.to_vec()
    }
}

} // verus!
