//! The parts of the local configuration that the screens work on: an
//! account's followed channels. Loading and saving the configuration file is
//! the embedding application's business.

use vstd::prelude::*;

use crate::model::ChannelId;

verus! {

/// Per-account configuration: the channels the account follows, in the order
/// they were added.
#[derive(Debug, Default)]
pub struct Account {
    pub channels: Vec<Channel>,
}

/// One followed channel: its identifier and its display name.
#[derive(Debug, Clone, PartialEq, Eq)]
pub struct Channel {
    pub id: ChannelId,
    pub name: String,
}

} // verus!
