//! The channel sidebar's decision logic: selecting a channel, and the strip
//! that adds a new channel. Adding is a small state machine: the strip sits
//! idle while the name and identifier are edited; a requested addition is
//! first confirmed against the server (the caller fetches the channel's
//! history), and only a confirmed channel is subscribed to and appended.

use vstd::prelude::*;

use crate::codec::ClientGatewayMessage;
use crate::config::Channel;
use crate::json::digits_to_u64;
use crate::json::parse_u64_digits;
use crate::model::ChannelId;
use crate::model::Message;
use crate::supervisor::Connection;
use crate::utils::rev_seq;
use crate::utils::reversed;

verus! {

/// Relies on std's `mem::replace`: hands back the previous value and leaves
/// the new one in its place.
pub assume_specification<T>[ core::mem::replace ](dest: &mut T, src: T) -> (r: T)
    ensures
        r == *old(dest),
        *final(dest) == src,
;

/// Something the user did in the channel list.
pub enum ChannelListMessage {
    SelectChannel(usize),
}

/// Something that happened in the channel edit strip.
#[derive(Debug, Clone, PartialEq, Eq)]
pub enum ChannelEditMessage {
    Expanded,
    Dismissed,
    NewChannelNameEdited(String),
    NewChannelIdEdited(String),
    ChannelAddRequested,
    ChannelExists(Vec<Message>),
    ChannelError(String),
}

/// The edit strip's state: idle (perhaps showing the last failure), or
/// waiting for the server to confirm that a requested channel exists.
#[derive(Debug)]
pub enum ChannelEditStripState {
    Idle { last_error: Option<String> },
    Confirming(Channel),
}

impl ChannelEditStripState {
    /// Whether the strip is idle and takes edits.
    pub fn is_idle(&self) -> (r: bool)
        ensures
            r == (self is Idle),
    {
        matches!(self, ChannelEditStripState::Idle { .. })
    }
}

impl Default for ChannelEditStripState {
    fn default() -> (r: Self)
        ensures
            r == (ChannelEditStripState::Idle { last_error: None::<String> }),
    {
        ChannelEditStripState::Idle { last_error: None }
    }
}

/// The strip that adds a channel: its state, whether its menu is open, and
/// the name and identifier being edited.
#[derive(Debug)]
pub struct ChannelEditStrip {
    pub state: ChannelEditStripState,
    pub expanded: bool,
    pub new_channel_name: String,
    pub new_channel_id: Option<ChannelId>,
}

impl Default for ChannelEditStrip {
    fn default() -> (r: Self)
        ensures
            r.state == (ChannelEditStripState::Idle { last_error: None::<String> }),
            !r.expanded,
            r.new_channel_name@ == Seq::<char>::empty(),
            r.new_channel_id is None,
    {
        ChannelEditStrip {
            state: ChannelEditStripState::Idle { last_error: None },
            expanded: false,
            new_channel_name: String::new(),
            new_channel_id: None,
        }
    }
}

/// What the caller must do after an update.
#[derive(Debug, PartialEq, Eq)]
pub enum ChannelEditAction {
    /// Nothing; the strip only changed its own state.
    Nothing,
    /// Ask the server for this channel's history, and feed the answer back as
    /// `ChannelExists` or `ChannelError`.
    CheckChannel(ChannelId),
}

/// How one edit-strip update relates everything after to everything before.
pub open spec fn edit_strip_transition(
    pre: ChannelEditStrip,
    post: ChannelEditStrip,
    msg: ChannelEditMessage,
    chans0: Seq<Channel>,
    chans1: Seq<Channel>,
    sel0: usize,
    sel1: usize,
    msgs0: Seq<Message>,
    msgs1: Seq<Message>,
    r: ChannelEditAction,
) -> bool {
    let env_same = chans1 == chans0 && sel1 == sel0 && msgs1 == msgs0;
    match (pre.state, msg) {
        (_, ChannelEditMessage::Expanded) => post == (ChannelEditStrip { expanded: true, ..pre })
            && env_same && r is Nothing,
        (_, ChannelEditMessage::Dismissed) => post == (ChannelEditStrip { expanded: false, ..pre })
            && env_same && r is Nothing,
        (
            ChannelEditStripState::Idle { .. },
            ChannelEditMessage::NewChannelNameEdited(s),
        ) => post == (ChannelEditStrip { new_channel_name: s, ..pre }) && env_same && r is Nothing,
        (ChannelEditStripState::Idle { .. }, ChannelEditMessage::NewChannelIdEdited(s)) => post == (
            ChannelEditStrip {
                new_channel_id: if s@.len() == 0 {
                    None
                } else {
                    match digits_to_u64(s@) {
                        Some(n) => Some(ChannelId(n)),
                        None => pre.new_channel_id,
                    }
                },
                ..pre
            }
        ) && env_same && r is Nothing,
        (ChannelEditStripState::Idle { .. }, ChannelEditMessage::ChannelAddRequested) => match pre
            .new_channel_id {
            None => post == pre && env_same && r is Nothing,
            Some(cid) => post.state == ChannelEditStripState::Confirming(
                Channel { id: cid, name: pre.new_channel_name },
            ) && post.expanded == pre.expanded && post.new_channel_name@ == Seq::<char>::empty()
                && post.new_channel_id is None && env_same && r == ChannelEditAction::CheckChannel(
                cid,
            ),
        },
        (
            ChannelEditStripState::Confirming(chan),
            ChannelEditMessage::ChannelExists(history),
        ) => post.state == (ChannelEditStripState::Idle { last_error: None::<String> })
            && !post.expanded && post.new_channel_name == pre.new_channel_name
            && post.new_channel_id == pre.new_channel_id && chans1 == chans0.push(chan) && sel1
            as int == chans1.len() - 1 && msgs1 == rev_seq(history@) && r is Nothing,
        (ChannelEditStripState::Confirming(_), ChannelEditMessage::ChannelError(e)) => post.state
            == (ChannelEditStripState::Idle { last_error: Some(e) }) && post.expanded
            == pre.expanded && post.new_channel_name == pre.new_channel_name && post.new_channel_id
            == pre.new_channel_id && env_same && r is Nothing,
        _ => post == pre && env_same && r is Nothing,
    }
}

impl ChannelEditStrip {
    /// One update of the strip. While idle, edits change the draft name and
    /// identifier, and a requested addition moves to confirming and asks the
    /// caller to check the channel. A confirmed channel is subscribed to on
    /// the gateway, appended to the account's channels and selected, and its
    /// history (newest frame first as fetched) is shown oldest first; a
    /// failed check returns to idle carrying the failure.
    pub fn update(
        &mut self,
        msg: ChannelEditMessage,
        channels: &mut Vec<Channel>,
        selected_channel: &mut usize,
        messages: &mut Vec<Message>,
        gateway_conn: &mut Connection,
    ) -> (r: ChannelEditAction)
        requires
            old(channels)@.len() < usize::MAX,
        ensures
            edit_strip_transition(
                *old(self),
                *final(self),
                msg,
                old(channels)@,
                final(channels)@,
                *old(selected_channel),
                *final(selected_channel),
                old(messages)@,
                final(messages)@,
                r,
            ),
    {
        match msg {
            ChannelEditMessage::Expanded => {
                self.expanded = true;
                ChannelEditAction::Nothing
            },
            ChannelEditMessage::Dismissed => {
                self.expanded = false;
                ChannelEditAction::Nothing
            },
            ChannelEditMessage::NewChannelNameEdited(s) => {
                if self.state.is_idle() {
                    self.new_channel_name = s;
                }
                ChannelEditAction::Nothing
            },
            ChannelEditMessage::NewChannelIdEdited(s) => {
                if self.state.is_idle() {
                    if s.as_str().is_empty() {
                        self.new_channel_id = None;
                    } else {
                        match parse_u64_digits(s.as_str()) {
                            Some(n) => {
                                self.new_channel_id = Some(ChannelId(n));
                            },
                            None => {},
                        }
                    }
                }
                ChannelEditAction::Nothing
            },
            ChannelEditMessage::ChannelAddRequested => {
                if !self.state.is_idle() {
                    return ChannelEditAction::Nothing;
                }
                match self.new_channel_id {
                    None => ChannelEditAction::Nothing,
                    Some(cid) => {
                        self.new_channel_id = None;
                        let name = self.new_channel_name.clone();
                        self.new_channel_name = String::new();
                        self.state = ChannelEditStripState::Confirming(
                            Channel { id: cid, name },
                        );
                        ChannelEditAction::CheckChannel(cid)
                    },
                }
            },
            ChannelEditMessage::ChannelExists(history) => {
                let confirmed = match &self.state {
                    ChannelEditStripState::Confirming(_) => true,
                    _ => false,
                };
                if !confirmed {
                    return ChannelEditAction::Nothing;
                }
                let prev = std::mem::replace(
                    &mut self.state,
                    ChannelEditStripState::Idle { last_error: None },
                );
                match prev {
                    ChannelEditStripState::Confirming(chan) => {
                        gateway_conn.send(
                            ClientGatewayMessage::Subscribe { channel_id: chan.id },
                        );
                        channels.push(chan);
                        self.expanded = false;
                        *selected_channel = channels.len() - 1;
                        *messages = reversed(history);
                        ChannelEditAction::Nothing
                    },
                    ChannelEditStripState::Idle { last_error } => {
                        proof {
                            assert(false);
                        }
                        self.state = ChannelEditStripState::Idle { last_error };
                        ChannelEditAction::Nothing
                    },
                }
            },
            ChannelEditMessage::ChannelError(e) => {
                match &self.state {
                    ChannelEditStripState::Confirming(_) => {
                        self.state = ChannelEditStripState::Idle { last_error: Some(e) };
                    },
                    _ => {},
                }
                ChannelEditAction::Nothing
            },
        }
    }
}

} // verus!
