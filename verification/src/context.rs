//! What a handler is called with.

use std::sync::Arc;
use vstd::prelude::*;
use crate::args::Arguments;
use crate::message::ChatMessage;
use crate::writer::WriteKind;

verus! {

/// The message that called a handler, and the arguments taken from it.
/// The message is shared with the other handlers that it calls.
#[derive(Debug)]
pub struct Context {
    pub msg: Arc<ChatMessage>,
    pub arguments: Arguments,
}

impl Context {
    /// The login name of the sender.
    pub fn sender(&self) -> (r: &str)
        ensures
            r@ == self.msg.sender@,
    {
        self.msg.sender.as_str()
    }

    /// The channel of the message.
    pub fn channel(&self) -> (r: &str)
        ensures
            r@ == self.msg.channel@,
    {
        self.msg.channel.as_str()
    }

    /// The id of the sender, which the message must have.
    pub fn user_id(&self) -> (r: &str)
        requires
            self.msg.user_id is Some,
        ensures
            r@ == self.msg.user_id.unwrap()@,
    {
        match &self.msg.user_id {
            Some(id) => id.as_str(),
            None => "",
        }
    }

    /// The id of the message, which the message must have.
    pub fn message_id(&self) -> (r: &str)
        requires
            self.msg.msg_id is Some,
        ensures
            r@ == self.msg.msg_id.unwrap()@,
    {
        match &self.msg.msg_id {
            Some(id) => id.as_str(),
            None => "",
        }
    }

    /// The request to say `data` in reply to the message, which must have
    /// an id.
    pub fn reply(&self, data: &str) -> (r: WriteKind)
        requires
            self.msg.msg_id is Some,
        ensures
            r matches WriteKind::Reply { id, target, data: d } && id@ == self.msg.msg_id.unwrap()@
                && target@ == self.msg.channel@ && d@ == data@,
    {
        WriteKind::reply(&self.msg, data)
    }

    /// The request to say `data` on the channel of the message.
    pub fn say(&self, data: &str) -> (r: WriteKind)
        ensures
            r matches WriteKind::Privmsg { target, data: d } && target@ == self.msg.channel@ && d@
                == data@,
    {
        WriteKind::privmsg(&self.msg, data)
    }
}

} // verus!
