//! A chat message, as the bot reads it.

use vstd::prelude::*;

verus! {

/// A line that a user sent to a channel, with what the server says of its
/// sender.
#[derive(Debug, Clone)]
pub struct ChatMessage {
    /// The channel the message was sent to.
    pub channel: String,
    /// The login name of the sender.
    pub sender: String,
    /// The text of the message.
    pub data: String,
    /// The id of the sender, where the server gave one.
    pub user_id: Option<String>,
    /// The id of the message, where the server gave one.
    pub msg_id: Option<String>,
    /// Whether the sender moderates the channel.
    pub moderator: bool,
    /// Whether the sender owns the channel.
    pub broadcaster: bool,
    /// Whether the sender subscribes to the channel.
    pub subscriber: bool,
    /// Whether the sender is a VIP of the channel.
    pub vip: bool,
}

} // verus!
