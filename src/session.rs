//! The server context that holds the registries, the per-connection session
//! state machine, and the fan-out of events to the members of a channel.

use crate::messages::{Inbound, InboundView, Outbound, OutboundView};
use crate::name_set::{with, without};
use crate::registry::{ChannelRegistry, ConnectionRegistry, UserStore, UserView};
use vstd::prelude::*;

verus! {

/// The registries shared by all sessions of one server.
pub struct Server {
    pub connections: ConnectionRegistry,
    pub users: UserStore,
    pub channels: ChannelRegistry,
}

/// The view of a `Server`.
pub struct ServerView {
    /// username -> connection that events for the user go to
    pub conns: Map<Seq<char>, u64>,
    /// username -> password and joined channels
    pub users: Map<Seq<char>, UserView>,
    /// channel name -> members
    pub channels: Map<Seq<char>, Seq<Seq<char>>>,
    /// channel names, in the order the channels came into being
    pub order: Seq<Seq<char>>,
}

impl ServerView {
    /// No list holds a name twice, and `order` lists exactly the channels.
    pub open spec fn wf(self) -> bool {
        &&& forall|u: Seq<char>| #[trigger]
            self.users.contains_key(u) ==> self.users[u].channels.no_duplicates()
        &&& self.order.no_duplicates()
        &&& forall|c: Seq<char>| #[trigger] self.channels.contains_key(c) <==> self.order.contains(c)
        &&& forall|c: Seq<char>| #[trigger]
            self.channels.contains_key(c) ==> self.channels[c].no_duplicates()
    }
}

impl View for Server {
    type V = ServerView;

    open spec fn view(&self) -> ServerView {
        ServerView {
            conns: self.connections@,
            users: self.users@,
            channels: self.channels@,
            order: self.channels.order(),
        }
    }
}

impl Server {
    pub open spec fn wf(&self) -> bool {
        self@.wf()
    }

    /// A server with no users, channels or connections.
    pub fn new() -> (r: Server)
        ensures
            r.wf(),
            r@.conns == Map::<Seq<char>, u64>::empty(),
            r@.users == Map::<Seq<char>, UserView>::empty(),
            r@.channels == Map::<Seq<char>, Seq<Seq<char>>>::empty(),
            r@.order == Seq::<Seq<char>>::empty(),
    {
        Server {
            connections: ConnectionRegistry::new(),
            users: UserStore::new(),
            channels: ChannelRegistry::new(),
        }
    }
}

/// The state of one connection: its id, and the user logged in on it.
pub struct Session {
    conn: u64,
    username: Option<String>,
}

/// The view of a `Session`.
pub struct SessionView {
    pub conn: u64,
    pub user: Option<Seq<char>>,
}

impl View for Session {
    type V = SessionView;

    closed spec fn view(&self) -> SessionView {
        SessionView {
            conn: self.conn,
            user: match &self.username {
                Some(u) => Some(u@),
                None => None,
            },
        }
    }
}

/// An event and the connections it is to be pushed to, one push per entry.
pub struct Fanout {
    pub event: Outbound,
    pub targets: Vec<u64>,
}

/// What a request yields: the reply to the requester, and the event for the
/// members of a channel, if the request makes one.
pub struct Response {
    pub reply: Outbound,
    pub fanout: Option<Fanout>,
}

/// The view of a `Fanout`.
pub struct FanoutView {
    pub event: OutboundView,
    pub targets: Seq<u64>,
}

/// The view of a `Response`.
pub struct ResponseView {
    pub reply: OutboundView,
    pub fanout: Option<FanoutView>,
}

impl View for Fanout {
    type V = FanoutView;

    open spec fn view(&self) -> FanoutView {
        FanoutView { event: self.event@, targets: self.targets@ }
    }
}

impl View for Response {
    type V = ResponseView;

    open spec fn view(&self) -> ResponseView {
        ResponseView {
            reply: self.reply@,
            fanout: match &self.fanout {
                Some(f) => Some(f@),
                None => None,
            },
        }
    }
}

/// The connections of those of `names` that have one, in the order of
/// `names`.
pub open spec fn targets(names: Seq<Seq<char>>, conns: Map<Seq<char>, u64>) -> Seq<u64>
    decreases names.len(),
{
    if names.len() == 0 {
        Seq::empty()
    } else {
        let rest = targets(names.drop_last(), conns);
        if conns.contains_key(names.last()) {
            rest.push(conns[names.last()])
        } else {
            rest
        }
    }
}

/// The connections an event for channel `c` goes to: those of its members;
/// none if the channel does not exist.
pub open spec fn channel_targets(s: ServerView, c: Seq<char>) -> Seq<u64> {
    if s.channels.contains_key(c) {
        targets(s.channels[c], s.conns)
    } else {
        Seq::empty()
    }
}

/// The request as the state machine sees it: a decoded request, or the
/// decoder's diagnostic.
pub open spec fn request_view(msg: &Result<Inbound, String>) -> Result<InboundView, Seq<char>> {
    match msg {
        Ok(m) => Ok(m@),
        Err(e) => Err(e@),
    }
}

/// The outcome of one request: the registries and the session after it, and
/// the response.
pub struct Transition {
    pub server: ServerView,
    pub session: SessionView,
    pub response: ResponseView,
}

/// A transition that leaves the registries as they were.
pub open spec fn reply_only(
    s: ServerView,
    sess: SessionView,
    reply: OutboundView,
    fanout: Option<FanoutView>,
) -> Transition {
    Transition { server: s, session: sess, response: ResponseView { reply, fanout } }
}

/// `users` with `c` added to (or taken out of) the channels of `u`, if `u`
/// is registered.
pub open spec fn update_user(
    users: Map<Seq<char>, UserView>,
    u: Seq<char>,
    c: Seq<char>,
    adding: bool,
) -> Map<Seq<char>, UserView> {
    if users.contains_key(u) {
        users.insert(
            u,
            UserView {
                password: users[u].password,
                channels: if adding {
                    with(users[u].channels, c)
                } else {
                    without(users[u].channels, c)
                },
            },
        )
    } else {
        users
    }
}

/// Whether a login as `u` with password `p` is accepted: the user is new,
/// or `p` is the stored password.
pub open spec fn login_accepted(s: ServerView, u: Seq<char>, p: Seq<char>) -> bool {
    !s.users.contains_key(u) || s.users[u].password == p
}

/// Login: a new user is registered; on success the user's route goes to
/// this connection and the session is the user's; on failure it is
/// anonymous.
pub open spec fn step_login(
    s: ServerView,
    sess: SessionView,
    u: Seq<char>,
    p: Seq<char>,
) -> Transition {
    if login_accepted(s, u, p) {
        Transition {
            server: ServerView {
                conns: s.conns.insert(u, sess.conn),
                users: if s.users.contains_key(u) {
                    s.users
                } else {
                    s.users.insert(u, UserView { password: p, channels: Seq::empty() })
                },
                ..s
            },
            session: SessionView { user: Some(u), ..sess },
            response: ResponseView { reply: OutboundView::Success, fanout: None },
        }
    } else {
        reply_only(s, SessionView { user: None, ..sess }, OutboundView::AuthFail, None)
    }
}

/// A request of the logged-in user `u`.
pub open spec fn step_user(
    s: ServerView,
    sess: SessionView,
    u: Seq<char>,
    req: InboundView,
) -> Transition {
    match req {
        InboundView::Join { channel: c } => Transition {
            server: ServerView {
                users: update_user(s.users, u, c, true),
                channels: s.channels.insert(
                    c,
                    with(
                        if s.channels.contains_key(c) {
                            s.channels[c]
                        } else {
                            Seq::empty()
                        },
                        u,
                    ),
                ),
                order: with(s.order, c),
                ..s
            },
            session: sess,
            response: ResponseView {
                reply: OutboundView::Success,
                fanout: Some(
                    FanoutView {
                        event: OutboundView::Joined { channel: c, username: u },
                        targets: channel_targets(s, c),
                    },
                ),
            },
        },
        InboundView::Leave { channel: c } => Transition {
            server: ServerView {
                users: update_user(s.users, u, c, false),
                channels: if s.channels.contains_key(c) {
                    s.channels.insert(c, without(s.channels[c], u))
                } else {
                    s.channels
                },
                ..s
            },
            session: sess,
            response: ResponseView {
                reply: OutboundView::Success,
                fanout: Some(
                    FanoutView {
                        event: OutboundView::Left { channel: c, username: u },
                        targets: channel_targets(s, c),
                    },
                ),
            },
        },
        InboundView::ChannelInfo { channel: c } => reply_only(
            s,
            sess,
            if s.channels.contains_key(c) {
                OutboundView::ChannelInfo { members: s.channels[c] }
            } else {
                OutboundView::NoSuchChannel
            },
            None,
        ),
        InboundView::JoinedChannels => reply_only(
            s,
            sess,
            OutboundView::Channels {
                channels: if s.users.contains_key(u) {
                    s.users[u].channels
                } else {
                    Seq::empty()
                },
            },
            None,
        ),
        InboundView::AllChannels => reply_only(
            s,
            sess,
            OutboundView::Channels { channels: s.order },
            None,
        ),
        InboundView::Message { channel: c, text: t } => if s.channels.contains_key(c)
            && s.channels[c].contains(u) {
            reply_only(
                s,
                sess,
                OutboundView::Success,
                Some(
                    FanoutView {
                        event: OutboundView::Message { channel: c, username: u, text: t },
                        targets: channel_targets(s, c),
                    },
                ),
            )
        } else {
            reply_only(s, sess, OutboundView::NotInChannel, None)
        },
        // Logout and Login are handled before a user is looked at.
        _ => reply_only(s, sess, OutboundView::Success, None),
    }
}

/// What one request does, from the registries `s` and the session `sess`.
pub open spec fn step(
    s: ServerView,
    sess: SessionView,
    req: Result<InboundView, Seq<char>>,
) -> Transition {
    match req {
        Err(e) => reply_only(s, sess, OutboundView::FormatError { error: e }, None),
        Ok(InboundView::Logout) => reply_only(
            s,
            SessionView { user: None, ..sess },
            OutboundView::Success,
            None,
        ),
        Ok(InboundView::Login { username, password }) => step_login(s, sess, username, password),
        Ok(r) => match sess.user {
            Some(u) => step_user(s, sess, u, r),
            None => reply_only(s, sess, OutboundView::NotAuthed, None),
        },
    }
}

/// Collects the connections of the current members of `channel`, the
/// recipients of `message`. An unknown channel has none.
pub fn send_to_channel(server: &Server, channel: &String, message: Outbound) -> (r: Fanout)
    ensures
        r.event == message,
        r.targets@ == channel_targets(server@, channel@),
{
    let mut out: Vec<u64> = Vec::new();
    match server.channels.members(channel) {
        Some(names) => {
            let ghost ns = names.deep_view();
            let mut i: usize = 0;
            while i < names.len()
                invariant
                    i <= names@.len(),
                    ns == names.deep_view(),
                    out@ == targets(ns.take(i as int), server.connections@),
                decreases names@.len() - i,
            {
                assert(ns.take(i + 1).drop_last() =~= ns.take(i as int));
                assert(ns.take(i + 1).last() == names[i as int]@);
                match server.connections.route(&names[i]) {
                    Some(c) => out.push(c),
                    None => {},
                }
                i = i + 1;
            }
            assert(ns.take(i as int) =~= ns);
        },
        None => {},
    }
    Fanout { event: message, targets: out }
}

impl Session {
    /// A fresh, anonymous session on connection `conn`.
    pub fn new(conn: u64) -> (r: Session)
        ensures
            r@ == (SessionView { conn, user: None }),
    {
        Session { conn, username: None }
    }

    /// The connection this session belongs to.
    pub fn conn(&self) -> (r: u64)
        ensures
            r == self@.conn,
    {
        self.conn
    }

    /// The user logged in on this session, if any.
    pub fn username(&self) -> (r: Option<String>)
        ensures
            match r {
                Some(u) => self@.user == Some(u@),
                None => self@.user is None,
            },
    {
        match &self.username {
            Some(u) => Some(u.clone()),
            None => None,
        }
    }

    /// Handles one request: `Err` carries the diagnostic of a payload that
    /// could not be decoded.
    pub fn on_message(&mut self, server: &mut Server, msg: Result<Inbound, String>) -> (r: Response)
        requires
            old(server).wf(),
        ensures
            final(server).wf(),
            step(old(server)@, old(self)@, request_view(&msg)) == (Transition {
                server: final(server)@,
                session: final(self)@,
                response: r@,
            }),
    {
        let msg = match msg {
            Ok(m) => m,
            Err(error) => {
                return Response { reply: Outbound::FormatError { error }, fanout: None };
            },
        };
        match msg {
            Inbound::Logout => {
                self.username = None;
                Response { reply: Outbound::Success, fanout: None }
            },
            Inbound::Login { username, password } => {
                self.username = None;
                if server.users.authenticate_or_register(username.clone(), password) {
                    server.connections.register(username.clone(), self.conn);
                    self.username = Some(username);
                    Response { reply: Outbound::Success, fanout: None }
                } else {
                    Response { reply: Outbound::AuthFail, fanout: None }
                }
            },
            Inbound::Join { channel } => match &self.username {
                Some(u) => {
                    let fanout = send_to_channel(
                        server,
                        &channel,
                        Outbound::Joined { channel: channel.clone(), username: u.clone() },
                    );
                    server.users.add_channel(u, &channel);
                    server.channels.join(&channel, u);
                    Response { reply: Outbound::Success, fanout: Some(fanout) }
                },
                None => Response { reply: Outbound::NotAuthed, fanout: None },
            },
            Inbound::Leave { channel } => match &self.username {
                Some(u) => {
                    let fanout = send_to_channel(
                        server,
                        &channel,
                        Outbound::Left { channel: channel.clone(), username: u.clone() },
                    );
                    server.users.remove_channel(u, &channel);
                    server.channels.leave(&channel, u);
                    Response { reply: Outbound::Success, fanout: Some(fanout) }
                },
                None => Response { reply: Outbound::NotAuthed, fanout: None },
            },
            Inbound::ChannelInfo { channel } => match &self.username {
                Some(_) => match server.channels.members(&channel) {
                    Some(members) => Response {
                        reply: Outbound::ChannelInfo { members },
                        fanout: None,
                    },
                    None => Response { reply: Outbound::NoSuchChannel, fanout: None },
                },
                None => Response { reply: Outbound::NotAuthed, fanout: None },
            },
            Inbound::JoinedChannels => match &self.username {
                Some(u) => Response {
                    reply: Outbound::Channels { channels: server.users.joined_channels(u) },
                    fanout: None,
                },
                None => Response { reply: Outbound::NotAuthed, fanout: None },
            },
            Inbound::AllChannels => match &self.username {
                Some(_) => Response {
                    reply: Outbound::Channels { channels: server.channels.all_channel_names() },
                    fanout: None,
                },
                None => Response { reply: Outbound::NotAuthed, fanout: None },
            },
            Inbound::Message { channel, text } => match &self.username {
                Some(u) => {
                    if server.channels.is_member(&channel, u) {
                        let fanout = send_to_channel(
                            server,
                            &channel,
                            Outbound::Message { channel: channel.clone(), username: u.clone(), text },
                        );
                        Response { reply: Outbound::Success, fanout: Some(fanout) }
                    } else {
                        Response { reply: Outbound::NotInChannel, fanout: None }
                    }
                },
                None => Response { reply: Outbound::NotAuthed, fanout: None },
            },
        }
    }

    /// The connection closed: the user's route is dropped if it still leads
    /// here. Channels and the user stay.
    pub fn on_close(&self, server: &mut Server)
        ensures
            final(server).users@ == old(server).users@,
            final(server).channels@ == old(server).channels@,
            final(server).channels.order() == old(server).channels.order(),
            final(server)@.conns == (match self@.user {
                Some(u) => if old(server)@.conns.contains_key(u) && old(server)@.conns[u]
                    == self@.conn {
                    old(server)@.conns.remove(u)
                } else {
                    old(server)@.conns
                },
                None => old(server)@.conns,
            }),
    {
        match &self.username {
            Some(u) => server.connections.remove(u, self.conn),
            None => {},
        }
    }
}

} // verus!
