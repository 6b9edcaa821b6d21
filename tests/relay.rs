use chat_relay::messages::{Inbound, Outbound};
use chat_relay::name_set::NameSet;
use chat_relay::registry::{ChannelRegistry, ConnectionRegistry, UserStore};
use chat_relay::session::{send_to_channel, Response, Server, Session};

fn s(x: &str) -> String {
    x.to_string()
}

fn login(sess: &mut Session, server: &mut Server, u: &str, p: &str) -> Response {
    sess.on_message(server, Ok(Inbound::Login { username: s(u), password: s(p) }))
}

fn join(sess: &mut Session, server: &mut Server, c: &str) -> Response {
    sess.on_message(server, Ok(Inbound::Join { channel: s(c) }))
}

fn sorted(mut v: Vec<String>) -> Vec<String> {
    v.sort();
    v
}

#[test]
fn scenario_two_users_in_general() {
    let mut server = Server::new();
    let mut a = Session::new(1);
    let mut b = Session::new(2);
    let mut c = Session::new(3);

    assert_eq!(login(&mut a, &mut server, "alice", "pw1").reply, Outbound::Success);
    let r = join(&mut a, &mut server, "general");
    assert_eq!(r.reply, Outbound::Success);
    assert_eq!(server.channels.members(&s("general")), Some(vec![s("alice")]));

    assert_eq!(login(&mut b, &mut server, "bob", "pw2").reply, Outbound::Success);
    let r = join(&mut b, &mut server, "general");
    assert_eq!(r.reply, Outbound::Success);
    let f = r.fanout.unwrap();
    assert_eq!(f.event, Outbound::Joined { channel: s("general"), username: s("bob") });
    assert_eq!(f.targets, vec![1]);

    let r = a.on_message(&mut server, Ok(Inbound::Message { channel: s("general"), text: s("hi") }));
    assert_eq!(r.reply, Outbound::Success);
    let f = r.fanout.unwrap();
    assert_eq!(
        f.event,
        Outbound::Message { channel: s("general"), username: s("alice"), text: s("hi") }
    );
    assert_eq!(f.targets, vec![1, 2]);

    let r = c.on_message(&mut server, Ok(Inbound::Message { channel: s("general"), text: s("x") }));
    assert_eq!(r.reply, Outbound::NotAuthed);
    assert!(r.fanout.is_none());
}

#[test]
fn login_unknown_user_registers() {
    let mut server = Server::new();
    let mut a = Session::new(1);
    assert_eq!(login(&mut a, &mut server, "alice", "pw1").reply, Outbound::Success);
    assert!(server.users.contains(&s("alice")));
    assert_eq!(a.username(), Some(s("alice")));
    assert_eq!(server.connections.route(&s("alice")), Some(1));
}

#[test]
fn login_known_user_checks_password() {
    let mut server = Server::new();
    let mut a = Session::new(1);
    let mut b = Session::new(2);
    login(&mut a, &mut server, "alice", "pw1");
    let r = login(&mut b, &mut server, "alice", "wrong");
    assert_eq!(r.reply, Outbound::AuthFail);
    assert_eq!(b.username(), None);
    assert_eq!(server.connections.route(&s("alice")), Some(1));
    assert_eq!(login(&mut b, &mut server, "alice", "pw1").reply, Outbound::Success);
    assert_eq!(b.username(), Some(s("alice")));
}

#[test]
fn failed_login_logs_out() {
    let mut server = Server::new();
    let mut a = Session::new(1);
    login(&mut a, &mut server, "alice", "pw1");
    login(&mut a, &mut server, "bob", "pw2");
    let mut b = Session::new(2);
    login(&mut b, &mut server, "carol", "pw3");
    assert_eq!(login(&mut b, &mut server, "alice", "nope").reply, Outbound::AuthFail);
    assert_eq!(b.username(), None);
    let r = join(&mut b, &mut server, "general");
    assert_eq!(r.reply, Outbound::NotAuthed);
}

#[test]
fn last_login_wins_route() {
    let mut server = Server::new();
    let mut a = Session::new(1);
    let mut b = Session::new(2);
    login(&mut a, &mut server, "alice", "pw1");
    login(&mut b, &mut server, "alice", "pw1");
    assert_eq!(server.connections.route(&s("alice")), Some(2));
    join(&mut a, &mut server, "general");
    let r = a.on_message(&mut server, Ok(Inbound::Message { channel: s("general"), text: s("m") }));
    assert_eq!(r.fanout.unwrap().targets, vec![2]);
}

#[test]
fn join_then_leave_updates_both_sides() {
    let mut server = Server::new();
    let mut a = Session::new(7);
    login(&mut a, &mut server, "alice", "pw1");
    join(&mut a, &mut server, "general");
    assert!(server.channels.is_member(&s("general"), &s("alice")));
    assert_eq!(server.users.joined_channels(&s("alice")), vec![s("general")]);

    let r = a.on_message(&mut server, Ok(Inbound::Leave { channel: s("general") }));
    assert_eq!(r.reply, Outbound::Success);
    let f = r.fanout.unwrap();
    assert_eq!(f.event, Outbound::Left { channel: s("general"), username: s("alice") });
    assert_eq!(f.targets, vec![7]);
    assert!(!server.channels.is_member(&s("general"), &s("alice")));
    assert!(server.users.joined_channels(&s("alice")).is_empty());
    assert_eq!(server.channels.members(&s("general")), Some(vec![]));
}

#[test]
fn join_twice_keeps_one_membership() {
    let mut server = Server::new();
    let mut a = Session::new(1);
    login(&mut a, &mut server, "alice", "pw1");
    join(&mut a, &mut server, "general");
    let r = join(&mut a, &mut server, "general");
    assert_eq!(r.fanout.unwrap().targets, vec![1]);
    assert_eq!(server.channels.members(&s("general")), Some(vec![s("alice")]));
    assert_eq!(server.users.joined_channels(&s("alice")), vec![s("general")]);
}

#[test]
fn join_broadcast_precedes_own_membership() {
    let mut server = Server::new();
    let mut a = Session::new(1);
    login(&mut a, &mut server, "alice", "pw1");
    let r = join(&mut a, &mut server, "general");
    let f = r.fanout.unwrap();
    assert_eq!(f.event, Outbound::Joined { channel: s("general"), username: s("alice") });
    assert!(f.targets.is_empty());
}

#[test]
fn leave_unjoined_channel_changes_nothing() {
    let mut server = Server::new();
    let mut a = Session::new(1);
    login(&mut a, &mut server, "alice", "pw1");
    let r = a.on_message(&mut server, Ok(Inbound::Leave { channel: s("nowhere") }));
    assert_eq!(r.reply, Outbound::Success);
    assert_eq!(server.channels.members(&s("nowhere")), None);
    assert!(server.channels.all_channel_names().is_empty());
    assert!(server.users.joined_channels(&s("alice")).is_empty());
}

#[test]
fn message_requires_membership() {
    let mut server = Server::new();
    let mut a = Session::new(1);
    let mut b = Session::new(2);
    login(&mut a, &mut server, "alice", "pw1");
    login(&mut b, &mut server, "bob", "pw2");
    join(&mut a, &mut server, "general");
    let r = b.on_message(&mut server, Ok(Inbound::Message { channel: s("general"), text: s("x") }));
    assert_eq!(r.reply, Outbound::NotInChannel);
    assert!(r.fanout.is_none());
    let r = b.on_message(&mut server, Ok(Inbound::Message { channel: s("nowhere"), text: s("x") }));
    assert_eq!(r.reply, Outbound::NotInChannel);
}

#[test]
fn message_skips_members_without_connection() {
    let mut server = Server::new();
    let mut a = Session::new(1);
    let mut b = Session::new(2);
    login(&mut a, &mut server, "alice", "pw1");
    login(&mut b, &mut server, "bob", "pw2");
    join(&mut a, &mut server, "general");
    join(&mut b, &mut server, "general");
    b.on_close(&mut server);
    assert_eq!(server.connections.route(&s("bob")), None);
    let r = a.on_message(&mut server, Ok(Inbound::Message { channel: s("general"), text: s("hi") }));
    assert_eq!(r.fanout.unwrap().targets, vec![1]);
    assert!(server.channels.is_member(&s("general"), &s("bob")));
}

#[test]
fn close_of_displaced_connection_keeps_new_route() {
    let mut server = Server::new();
    let mut a = Session::new(1);
    let mut b = Session::new(2);
    login(&mut a, &mut server, "alice", "pw1");
    login(&mut b, &mut server, "alice", "pw1");
    a.on_close(&mut server);
    assert_eq!(server.connections.route(&s("alice")), Some(2));
    b.on_close(&mut server);
    assert_eq!(server.connections.route(&s("alice")), None);
}

#[test]
fn logout_keeps_route_and_blocks_requests() {
    let mut server = Server::new();
    let mut a = Session::new(1);
    login(&mut a, &mut server, "alice", "pw1");
    let r = a.on_message(&mut server, Ok(Inbound::Logout));
    assert_eq!(r.reply, Outbound::Success);
    assert_eq!(a.username(), None);
    assert_eq!(server.connections.route(&s("alice")), Some(1));
    let r = a.on_message(&mut server, Ok(Inbound::AllChannels));
    assert_eq!(r.reply, Outbound::NotAuthed);
}

#[test]
fn channel_info_unknown_and_known() {
    let mut server = Server::new();
    let mut a = Session::new(1);
    let mut b = Session::new(2);
    login(&mut a, &mut server, "alice", "pw1");
    login(&mut b, &mut server, "bob", "pw2");
    let r = a.on_message(&mut server, Ok(Inbound::ChannelInfo { channel: s("general") }));
    assert_eq!(r.reply, Outbound::NoSuchChannel);
    join(&mut a, &mut server, "general");
    join(&mut b, &mut server, "general");
    let r = a.on_message(&mut server, Ok(Inbound::ChannelInfo { channel: s("general") }));
    match r.reply {
        Outbound::ChannelInfo { members } => {
            assert_eq!(sorted(members), vec![s("alice"), s("bob")]);
        }
        other => panic!("unexpected reply {:?}", other),
    }
}

#[test]
fn channel_info_on_emptied_channel() {
    let mut server = Server::new();
    let mut a = Session::new(1);
    login(&mut a, &mut server, "alice", "pw1");
    join(&mut a, &mut server, "general");
    a.on_message(&mut server, Ok(Inbound::Leave { channel: s("general") }));
    let r = a.on_message(&mut server, Ok(Inbound::ChannelInfo { channel: s("general") }));
    assert_eq!(r.reply, Outbound::ChannelInfo { members: vec![] });
}

#[test]
fn joined_and_all_channels() {
    let mut server = Server::new();
    let mut a = Session::new(1);
    let mut b = Session::new(2);
    login(&mut a, &mut server, "alice", "pw1");
    login(&mut b, &mut server, "bob", "pw2");
    join(&mut a, &mut server, "one");
    join(&mut a, &mut server, "two");
    join(&mut b, &mut server, "three");
    let r = a.on_message(&mut server, Ok(Inbound::JoinedChannels));
    assert_eq!(r.reply, Outbound::Channels { channels: vec![s("one"), s("two")] });
    let r = b.on_message(&mut server, Ok(Inbound::AllChannels));
    match r.reply {
        Outbound::Channels { channels } => {
            assert_eq!(sorted(channels), vec![s("one"), s("three"), s("two")]);
        }
        other => panic!("unexpected reply {:?}", other),
    }
}

#[test]
fn anonymous_requests_are_not_authed() {
    let mut server = Server::new();
    let mut a = Session::new(1);
    let requests = vec![
        Inbound::Join { channel: s("c") },
        Inbound::Leave { channel: s("c") },
        Inbound::ChannelInfo { channel: s("c") },
        Inbound::JoinedChannels,
        Inbound::AllChannels,
        Inbound::Message { channel: s("c"), text: s("t") },
    ];
    for req in requests {
        let r = a.on_message(&mut server, Ok(req));
        assert_eq!(r.reply, Outbound::NotAuthed);
        assert!(r.fanout.is_none());
    }
    assert!(server.channels.all_channel_names().is_empty());
    assert_eq!(server.channels.members(&s("c")), None);
}

#[test]
fn format_error_carries_diagnostic() {
    let mut server = Server::new();
    let mut a = Session::new(1);
    let mut b = Session::new(2);
    login(&mut b, &mut server, "bob", "pw2");
    join(&mut b, &mut server, "general");
    let diag = s("unknown variant `Unknown`");
    let r = a.on_message(&mut server, Err(diag.clone()));
    assert_eq!(r.reply, Outbound::FormatError { error: diag });
    assert!(r.fanout.is_none());
    assert_eq!(a.username(), None);
    assert_eq!(b.username(), Some(s("bob")));
    assert_eq!(server.channels.members(&s("general")), Some(vec![s("bob")]));
}

#[test]
fn send_to_channel_unknown_channel_is_empty() {
    let server = Server::new();
    let f = send_to_channel(&server, &s("none"), Outbound::Success);
    assert!(f.targets.is_empty());
    assert_eq!(f.event, Outbound::Success);
}

#[test]
fn name_set_insert_remove() {
    let mut n = NameSet::new();
    n.insert(s("a"));
    n.insert(s("b"));
    n.insert(s("a"));
    assert_eq!(n.to_vec(), vec![s("a"), s("b")]);
    assert!(n.contains(&s("b")));
    n.remove(&s("a"));
    assert_eq!(n.to_vec(), vec![s("b")]);
    n.remove(&s("zzz"));
    assert_eq!(n.copy().to_vec(), vec![s("b")]);
    assert!(!n.contains(&s("a")));
}

#[test]
fn registries_directly() {
    let mut conns = ConnectionRegistry::new();
    conns.register(s("u"), 5);
    conns.register(s("u"), 6);
    assert_eq!(conns.route(&s("u")), Some(6));
    conns.remove(&s("u"), 5);
    assert_eq!(conns.route(&s("u")), Some(6));
    conns.remove(&s("u"), 6);
    assert_eq!(conns.route(&s("u")), None);

    let mut users = UserStore::new();
    assert!(users.authenticate_or_register(s("u"), s("p")));
    assert!(!users.authenticate_or_register(s("u"), s("q")));
    assert!(users.authenticate_or_register(s("u"), s("p")));
    users.add_channel(&s("u"), &s("c"));
    users.add_channel(&s("ghost"), &s("c"));
    assert!(!users.contains(&s("ghost")));
    assert_eq!(users.joined_channels(&s("u")), vec![s("c")]);
    users.remove_channel(&s("u"), &s("c"));
    assert!(users.joined_channels(&s("u")).is_empty());

    let mut chans = ChannelRegistry::new();
    chans.leave(&s("c"), &s("u"));
    assert_eq!(chans.members(&s("c")), None);
    chans.join(&s("c"), &s("u"));
    chans.join(&s("d"), &s("u"));
    assert_eq!(chans.all_channel_names(), vec![s("c"), s("d")]);
}
