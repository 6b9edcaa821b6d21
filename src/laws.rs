//! Properties of the session state machine, proved over `step`.

use crate::messages::{InboundView, OutboundView};
use crate::name_set::{lemma_without_contains, with, without};
use crate::registry::UserView;
use crate::session::{login_accepted, step, targets, FanoutView, ServerView, SessionView};
use vstd::prelude::*;

verus! {

/// What `with` holds: the old elements and the added one.
pub proof fn lemma_with_contains(s: Seq<Seq<char>>, x: Seq<char>, y: Seq<char>)
    ensures
        with(s, x).contains(y) <==> (s.contains(y) || y == x),
{
    if !s.contains(x) {
        let p = s.push(x);
        assert(p[s.len() as int] == x);
        if s.contains(y) {
            let j = choose|j: int| 0 <= j < s.len() && s[j] == y;
            assert(p[j] == y);
        }
        if p.contains(y) && y != x {
            let j = choose|j: int| 0 <= j < p.len() && p[j] == y;
            assert(s[j] == y);
        }
    }
}

/// Taking out an absent name changes nothing.
pub proof fn lemma_without_absent(s: Seq<Seq<char>>, x: Seq<char>)
    requires
        !s.contains(x),
    ensures
        without(s, x) == s,
    decreases s.len(),
{
    if s.len() > 0 {
        let d = s.drop_last();
        assert(!d.contains(x)) by {
            if d.contains(x) {
                let j = choose|j: int| 0 <= j < d.len() && d[j] == x;
                assert(s[j] == x);
            }
        }
        lemma_without_absent(d, x);
        assert(s.last() != x);
        assert(d.push(s.last()) =~= s);
    }
}

/// The last of two successful logins as `u` owns the route of `u`: the
/// registry holds one connection for `u`, that of the later session.
pub proof fn law_last_login_wins(
    s: ServerView,
    a: SessionView,
    b: SessionView,
    u: Seq<char>,
    p: Seq<char>,
    q: Seq<char>,
)
    requires
        login_accepted(s, u, p),
        login_accepted(
            step(s, a, Ok(InboundView::Login { username: u, password: p })).server,
            u,
            q,
        ),
    ensures
        ({
            let s1 = step(s, a, Ok(InboundView::Login { username: u, password: p })).server;
            let s2 = step(s1, b, Ok(InboundView::Login { username: u, password: q })).server;
            s2.conns.contains_key(u) && s2.conns[u] == b.conn
        }),
{
}

/// Login as an unknown user always succeeds and registers the user with the
/// given password and no channels; as a known user it succeeds iff the
/// password matches, and never changes the stored user.
pub proof fn law_login(s: ServerView, sess: SessionView, u: Seq<char>, p: Seq<char>)
    ensures
        ({
            let t = step(s, sess, Ok(InboundView::Login { username: u, password: p }));
            &&& (t.response.reply == OutboundView::Success) <==> (!s.users.contains_key(u)
                || s.users[u].password == p)
            &&& (t.response.reply == OutboundView::Success || t.response.reply
                == OutboundView::AuthFail)
            &&& !s.users.contains_key(u) ==> t.server.users == s.users.insert(
                u,
                UserView { password: p, channels: Seq::empty() },
            )
            &&& s.users.contains_key(u) ==> t.server.users == s.users
            &&& t.session.user == (if t.response.reply == OutboundView::Success {
                Some(u)
            } else {
                None
            })
        }),
{
}

/// After a join of `c` by the logged-in user `u`, `u` is a member of `c`
/// and `c` is among the channels of `u`; after a leave, neither holds.
pub proof fn law_join_then_member(s: ServerView, sess: SessionView, u: Seq<char>, c: Seq<char>)
    requires
        sess.user == Some(u),
        s.users.contains_key(u),
    ensures
        ({
            let j = step(s, sess, Ok(InboundView::Join { channel: c }));
            &&& j.response.reply == OutboundView::Success
            &&& j.server.channels.contains_key(c) && j.server.channels[c].contains(u)
            &&& j.server.users.contains_key(u) && j.server.users[u].channels.contains(c)
        }),
        ({
            let l = step(s, sess, Ok(InboundView::Leave { channel: c }));
            &&& l.response.reply == OutboundView::Success
            &&& !(l.server.channels.contains_key(c) && l.server.channels[c].contains(u))
            &&& l.server.users.contains_key(u) && !l.server.users[u].channels.contains(c)
        }),
{
    let old_members = if s.channels.contains_key(c) {
        s.channels[c]
    } else {
        Seq::empty()
    };
    lemma_with_contains(old_members, u, u);
    lemma_with_contains(s.users[u].channels, c, c);
    lemma_without_contains(s.users[u].channels, c, c);
    if s.channels.contains_key(c) {
        lemma_without_contains(s.channels[c], u, u);
    }
}

/// Leaving a channel one is not in changes nothing and still succeeds.
pub proof fn law_leave_not_joined(s: ServerView, sess: SessionView, u: Seq<char>, c: Seq<char>)
    requires
        sess.user == Some(u),
        !(s.channels.contains_key(c) && s.channels[c].contains(u)),
        s.users.contains_key(u) ==> !s.users[u].channels.contains(c),
    ensures
        ({
            let l = step(s, sess, Ok(InboundView::Leave { channel: c }));
            &&& l.response.reply == OutboundView::Success
            &&& l.server == s
            &&& l.session == sess
        }),
{
    if s.channels.contains_key(c) {
        lemma_without_absent(s.channels[c], u);
        assert(s.channels.insert(c, s.channels[c]) =~= s.channels);
    }
    if s.users.contains_key(u) {
        lemma_without_absent(s.users[u].channels, c);
        let v = s.users[u];
        assert(UserView { password: v.password, channels: v.channels } == v);
        assert(s.users.insert(u, v) =~= s.users);
    }
}

/// A connection is among `targets(names, conns)` iff one of `names` is
/// routed to it.
pub proof fn law_targets_are_members(names: Seq<Seq<char>>, conns: Map<Seq<char>, u64>, x: u64)
    ensures
        targets(names, conns).contains(x) <==> exists|m: Seq<char>|
            #![trigger names.contains(m), conns[m]]
            names.contains(m) && conns.contains_key(m) && conns[m] == x,
    decreases names.len(),
{
    if names.len() > 0 {
        let d = names.drop_last();
        let r = targets(d, conns);
        let last = names.last();
        let t = targets(names, conns);
        law_targets_are_members(d, conns, x);
        assert(names[names.len() - 1] == last);
        assert(names.contains(last));
        if t.contains(x) {
            if r.contains(x) {
                let m = choose|m: Seq<char>| #![trigger d.contains(m), conns[m]]
                    d.contains(m) && conns.contains_key(m) && conns[m] == x;
                let j = choose|j: int| 0 <= j < d.len() && d[j] == m;
                assert(names[j] == m);
                assert(names.contains(m));
            } else {
                assert(conns.contains_key(last));
                let j = choose|j: int| 0 <= j < t.len() && t[j] == x;
                if j < r.len() {
                    assert(t[j] == r[j]);
                    assert(r.contains(x));
                }
                assert(conns[last] == x);
            }
        }
        if exists|m: Seq<char>| #![trigger names.contains(m), conns[m]]
            names.contains(m) && conns.contains_key(m) && conns[m] == x {
            let m = choose|m: Seq<char>| #![trigger names.contains(m), conns[m]]
                names.contains(m) && conns.contains_key(m) && conns[m] == x;
            let j = choose|j: int| 0 <= j < names.len() && names[j] == m;
            if j < d.len() {
                assert(d[j] == m);
                assert(d.contains(m));
                assert(r.contains(x));
                let k = choose|k: int| 0 <= k < r.len() && r[k] == x;
                if conns.contains_key(last) {
                    assert(t[k] == x);
                }
                assert(t.contains(x));
            } else {
                assert(m == last);
                assert(t[t.len() - 1] == x);
            }
        }
    }
}

/// The recipients are the members that have a connection, each once, in
/// the members' order, each mapped to its connection.
pub proof fn law_one_entry_per_routed_member(names: Seq<Seq<char>>, conns: Map<Seq<char>, u64>)
    ensures
        targets(names, conns) == names.filter(|m: Seq<char>| conns.contains_key(m)).map_values(
            |m: Seq<char>| conns[m],
        ),
    decreases names.len(),
{
    reveal(Seq::filter);
    if names.len() > 0 {
        let d = names.drop_last();
        law_one_entry_per_routed_member(d, conns);
        let f = d.filter(|m: Seq<char>| conns.contains_key(m));
        if conns.contains_key(names.last()) {
            assert(f.push(names.last()).map_values(|m: Seq<char>| conns[m]) =~= f.map_values(
                |m: Seq<char>| conns[m],
            ).push(conns[names.last()]));
        }
    } else {
        assert(names.filter(|m: Seq<char>| conns.contains_key(m)).map_values(|m: Seq<char>| conns[m])
            =~= Seq::<u64>::empty());
    }
}

/// A message by the logged-in user `u` to `c` succeeds iff `u` is a member
/// of `c`. On success the event goes to the connections of the members of
/// `c` as they are at the call, one entry per routed member, and nothing
/// changes; otherwise nothing is sent.
pub proof fn law_message(
    s: ServerView,
    sess: SessionView,
    u: Seq<char>,
    c: Seq<char>,
    text: Seq<char>,
)
    requires
        sess.user == Some(u),
    ensures
        ({
            let t = step(s, sess, Ok(InboundView::Message { channel: c, text }));
            &&& (t.response.reply == OutboundView::Success) <==> (s.channels.contains_key(c)
                && s.channels[c].contains(u))
            &&& t.response.reply == OutboundView::Success ==> t.response.fanout == Some(
                FanoutView {
                    event: OutboundView::Message { channel: c, username: u, text },
                    targets: targets(s.channels[c], s.conns),
                },
            )
            &&& t.response.reply != OutboundView::Success ==> t.response.reply
                == OutboundView::NotInChannel && t.response.fanout is None
            &&& t.server == s
        }),
{
}

/// Channel info on an unknown channel is `NoSuchChannel`; on a known one it
/// is exactly the channel's members.
pub proof fn law_channel_info(s: ServerView, sess: SessionView, u: Seq<char>, c: Seq<char>)
    requires
        sess.user == Some(u),
    ensures
        ({
            let t = step(s, sess, Ok(InboundView::ChannelInfo { channel: c }));
            &&& t.response.reply == (if s.channels.contains_key(c) {
                OutboundView::ChannelInfo { members: s.channels[c] }
            } else {
                OutboundView::NoSuchChannel
            })
            &&& t.server == s
        }),
{
}

/// Channels are never removed, and only a join of `c` brings `c` into
/// being: a channel nobody ever joined is unknown.
pub proof fn law_channels_come_from_joins(
    s: ServerView,
    sess: SessionView,
    req: Result<InboundView, Seq<char>>,
    c: Seq<char>,
)
    ensures
        s.channels.contains_key(c) ==> step(s, sess, req).server.channels.contains_key(c),
        !s.channels.contains_key(c) && step(s, sess, req).server.channels.contains_key(c)
            ==> req == Ok::<InboundView, Seq<char>>(InboundView::Join { channel: c }),
{
}

/// Before a successful login, every request but a login or logout is
/// answered `NotAuthed` and changes nothing.
pub proof fn law_anonymous(s: ServerView, sess: SessionView, req: InboundView)
    requires
        sess.user is None,
        !(req is Login),
        !(req is Logout),
    ensures
        ({
            let t = step(s, sess, Ok(req));
            &&& t.response.reply == OutboundView::NotAuthed
            &&& t.response.fanout is None
            &&& t.server == s
            &&& t.session == sess
        }),
{
}

/// A payload that could not be decoded is answered with the decoder's
/// diagnostic, and nothing changes.
pub proof fn law_format_error(s: ServerView, sess: SessionView, e: Seq<char>)
    ensures
        ({
            let t = step(s, sess, Err(e));
            &&& t.response.reply == OutboundView::FormatError { error: e }
            &&& t.response.fanout is None
            &&& t.server == s
            &&& t.session == sess
        }),
{
}

/// Membership is recorded on both sides: `u` is a member of channel `c`
/// iff `u` is a registered user whose channels include `c`.
pub open spec fn consistent(s: ServerView) -> bool {
    &&& forall|c: Seq<char>, u: Seq<char>|
        s.channels.contains_key(c) && #[trigger] s.channels[c].contains(u) ==> s.users.contains_key(u)
            && s.users[u].channels.contains(c)
    &&& forall|c: Seq<char>, u: Seq<char>|
        s.users.contains_key(u) && #[trigger] s.users[u].channels.contains(c)
            ==> s.channels.contains_key(c) && s.channels[c].contains(u)
}

/// The user of a session, if any, is registered.
pub open spec fn session_valid(s: ServerView, sess: SessionView) -> bool {
    sess.user matches Some(u) ==> s.users.contains_key(u)
}

/// Every request keeps membership recorded on both sides, and keeps every
/// session that was valid valid, the requesting one and any other.
pub proof fn law_membership_stays_consistent(
    s: ServerView,
    sess: SessionView,
    req: Result<InboundView, Seq<char>>,
    other: SessionView,
)
    requires
        consistent(s),
        session_valid(s, sess),
        session_valid(s, other),
    ensures
        consistent(step(s, sess, req).server),
        session_valid(step(s, sess, req).server, step(s, sess, req).session),
        session_valid(step(s, sess, req).server, other),
{
    let t = step(s, sess, req);
    let n = t.server;
    match (req, sess.user) {
        (Ok(InboundView::Join { channel: c }), Some(u)) => {
            let old_members = if s.channels.contains_key(c) {
                s.channels[c]
            } else {
                Seq::empty()
            };
            assert forall|c2: Seq<char>, u2: Seq<char>|
                n.channels.contains_key(c2) && #[trigger] n.channels[c2].contains(u2) implies n.users.contains_key(u2)
                && n.users[u2].channels.contains(c2) by {
                lemma_with_contains(old_members, u, u2);
                lemma_with_contains(s.users[u2].channels, c, c2);
            }
            assert forall|c2: Seq<char>, u2: Seq<char>|
                n.users.contains_key(u2) && #[trigger] n.users[u2].channels.contains(c2) implies n.channels.contains_key(c2)
                && n.channels[c2].contains(u2) by {
                lemma_with_contains(old_members, u, u2);
                lemma_with_contains(s.users[u2].channels, c, c2);
            }
        },
        (Ok(InboundView::Leave { channel: c }), Some(u)) => {
            assert forall|c2: Seq<char>, u2: Seq<char>|
                n.channels.contains_key(c2) && #[trigger] n.channels[c2].contains(u2) implies n.users.contains_key(u2)
                && n.users[u2].channels.contains(c2) by {
                if s.channels.contains_key(c) {
                    lemma_without_contains(s.channels[c], u, u2);
                }
                lemma_without_contains(s.users[u2].channels, c, c2);
            }
            assert forall|c2: Seq<char>, u2: Seq<char>|
                n.users.contains_key(u2) && #[trigger] n.users[u2].channels.contains(c2) implies n.channels.contains_key(c2)
                && n.channels[c2].contains(u2) by {
                if s.channels.contains_key(c) {
                    lemma_without_contains(s.channels[c], u, u2);
                }
                lemma_without_contains(s.users[u2].channels, c, c2);
            }
        },
        (Ok(InboundView::Login { username, password }), _) => {
            if login_accepted(s, username, password) && !s.users.contains_key(username) {
                assert forall|c2: Seq<char>, u2: Seq<char>|
                    n.users.contains_key(u2) && #[trigger] n.users[u2].channels.contains(c2) implies n.channels.contains_key(c2)
                    && n.channels[c2].contains(u2) by {
                    if u2 != username {
                        assert(s.users.contains_key(u2) && s.users[u2].channels.contains(c2));
                    } else {
                        assert(n.users[u2].channels =~= Seq::<Seq<char>>::empty());
                        assert(!n.users[u2].channels.contains(c2));
                    }
                }
            }
        },
        _ => {},
    }
}

} // verus!
