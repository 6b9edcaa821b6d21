//! The requests a client sends and the events it receives, as tagged
//! variants, each with a view over sequences of characters.

use vstd::prelude::*;

verus! {

/// A decoded request from a client.
#[derive(Debug)]
pub enum Inbound {
    Logout,
    Login { username: String, password: String },
    Join { channel: String },
    Leave { channel: String },
    ChannelInfo { channel: String },
    JoinedChannels,
    AllChannels,
    Message { channel: String, text: String },
}

/// The view of an `Inbound`.
pub enum InboundView {
    Logout,
    Login { username: Seq<char>, password: Seq<char> },
    Join { channel: Seq<char> },
    Leave { channel: Seq<char> },
    ChannelInfo { channel: Seq<char> },
    JoinedChannels,
    AllChannels,
    Message { channel: Seq<char>, text: Seq<char> },
}

impl View for Inbound {
    type V = InboundView;

    open spec fn view(&self) -> InboundView {
        match self {
            Inbound::Logout => InboundView::Logout,
            Inbound::Login { username, password } => InboundView::Login {
                username: username@,
                password: password@,
            },
            Inbound::Join { channel } => InboundView::Join { channel: channel@ },
            Inbound::Leave { channel } => InboundView::Leave { channel: channel@ },
            Inbound::ChannelInfo { channel } => InboundView::ChannelInfo { channel: channel@ },
            Inbound::JoinedChannels => InboundView::JoinedChannels,
            Inbound::AllChannels => InboundView::AllChannels,
            Inbound::Message { channel, text } => InboundView::Message {
                channel: channel@,
                text: text@,
            },
        }
    }
}

/// A reply to a request, or an event pushed to the members of a channel.
#[derive(Debug, PartialEq, Eq)]
pub enum Outbound {
    Success,
    AuthFail,
    NotAuthed,
    NotInChannel,
    NoSuchChannel,
    Joined { channel: String, username: String },
    Left { channel: String, username: String },
    ChannelInfo { members: Vec<String> },
    Channels { channels: Vec<String> },
    Message { channel: String, username: String, text: String },
    FormatError { error: String },
}

/// The view of an `Outbound`.
pub enum OutboundView {
    Success,
    AuthFail,
    NotAuthed,
    NotInChannel,
    NoSuchChannel,
    Joined { channel: Seq<char>, username: Seq<char> },
    Left { channel: Seq<char>, username: Seq<char> },
    ChannelInfo { members: Seq<Seq<char>> },
    Channels { channels: Seq<Seq<char>> },
    Message { channel: Seq<char>, username: Seq<char>, text: Seq<char> },
    FormatError { error: Seq<char> },
}

impl View for Outbound {
    type V = OutboundView;

    open spec fn view(&self) -> OutboundView {
        match self {
            Outbound::Success => OutboundView::Success,
            Outbound::AuthFail => OutboundView::AuthFail,
            Outbound::NotAuthed => OutboundView::NotAuthed,
            Outbound::NotInChannel => OutboundView::NotInChannel,
            Outbound::NoSuchChannel => OutboundView::NoSuchChannel,
            Outbound::Joined { channel, username } => OutboundView::Joined {
                channel: channel@,
                username: username@,
            },
            Outbound::Left { channel, username } => OutboundView::Left {
                channel: channel@,
                username: username@,
            },
            Outbound::ChannelInfo { members } => OutboundView::ChannelInfo {
                members: members.deep_view(),
            },
            Outbound::Channels { channels } => OutboundView::Channels {
                channels: channels.deep_view(),
            },
            Outbound::Message { channel, username, text } => OutboundView::Message {
                channel: channel@,
                username: username@,
                text: text@,
            },
            Outbound::FormatError { error } => OutboundView::FormatError { error: error@ },
        }
    }
}

} // verus!
