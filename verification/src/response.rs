//! What a bot is seen to say, for the tests of handlers.

use vstd::prelude::*;
use vstd::string::StringExecFns;

verus! {

/// A text that a bot said on a channel, perhaps in reply to a message.
#[derive(Debug, Clone, PartialEq, Eq)]
pub struct Response {
    pub reply_parent_msg_id: Option<String>,
    pub channel: String,
    pub data: String,
}

/// What the id holds, as a text.
pub open spec fn id_view(id: Option<String>) -> Option<Seq<char>> {
    match id {
        Some(id) => Some(id@),
        None => None,
    }
}

/// What the id holds, as a text.
pub open spec fn id_str_view(id: Option<&str>) -> Option<Seq<char>> {
    match id {
        Some(id) => Some(id@),
        None => None,
    }
}

impl Response {
    /// The response with these parts.
    pub fn new(reply_parent_msg_id: Option<&str>, channel: &str, data: &str) -> (r: Response)
        ensures
            id_view(r.reply_parent_msg_id) == id_str_view(reply_parent_msg_id),
            r.channel@ == channel@,
            r.data@ == data@,
    {
        let id = match reply_parent_msg_id {
            Some(id) => Some(String::from_str(id)),
            None => None,
        };
        Response {
            reply_parent_msg_id: id,
            channel: String::from_str(channel),
            data: String::from_str(data),
        }
    }

    /// Starts a response from its text.
    pub fn builder(data: &str) -> (r: ResponseBuilder)
        ensures
            r.reply_parent_msg_id is None,
            r.channel is None,
            r.data@ == data@,
    {
        ResponseBuilder { reply_parent_msg_id: None, channel: None, data: String::from_str(data) }
    }
}

/// A response in the making.
#[derive(Debug)]
pub struct ResponseBuilder {
    pub reply_parent_msg_id: Option<String>,
    pub channel: Option<String>,
    pub data: String,
}

impl Default for ResponseBuilder {
    /// A response without text, on no channel, in reply to nothing.
    fn default() -> (r: ResponseBuilder)
        ensures
            r.reply_parent_msg_id is None,
            r.channel is None,
            r.data@.len() == 0,
    {
        ResponseBuilder { reply_parent_msg_id: None, channel: None, data: String::new() }
    }
}

/// The channel of a response that names none.
pub open spec fn default_channel() -> Seq<char> {
    "#test"@
}

impl ResponseBuilder {
    /// Names the message that the response replies to.
    pub fn reply_parent_msg_id(self, reply_parent_msg_id: &str) -> (r: ResponseBuilder)
        ensures
            id_view(r.reply_parent_msg_id) == Some(reply_parent_msg_id@),
            r.channel == self.channel,
            r.data == self.data,
    {
        ResponseBuilder {
            reply_parent_msg_id: Some(String::from_str(reply_parent_msg_id)),
            channel: self.channel,
            data: self.data,
        }
    }

    /// Names the channel of the response.
    pub fn channel(self, channel: &str) -> (r: ResponseBuilder)
        ensures
            id_view(r.channel) == Some(channel@),
            r.reply_parent_msg_id == self.reply_parent_msg_id,
            r.data == self.data,
    {
        ResponseBuilder {
            reply_parent_msg_id: self.reply_parent_msg_id,
            channel: Some(String::from_str(channel)),
            data: self.data,
        }
    }

    /// Gives the response another text.
    pub fn data(self, data: &str) -> (r: ResponseBuilder)
        ensures
            r.data@ == data@,
            r.reply_parent_msg_id == self.reply_parent_msg_id,
            r.channel == self.channel,
    {
        ResponseBuilder {
            reply_parent_msg_id: self.reply_parent_msg_id,
            channel: self.channel,
            data: String::from_str(data),
        }
    }

    /// The response; its channel is `#test` where none was named.
    pub fn build(self) -> (r: Response)
        ensures
            r.reply_parent_msg_id == self.reply_parent_msg_id,
            r.data == self.data,
            r.channel@ == match self.channel {
                Some(channel) => channel@,
                None => default_channel(),
            },
    {
        let channel = match self.channel {
            Some(channel) => channel,
            None => String::from_str("#test"),
        };
        Response { reply_parent_msg_id: self.reply_parent_msg_id, channel, data: self.data }
    }
}

} // verus!
