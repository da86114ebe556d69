//! Write requests, and the protocol lines they are sent as.

use twitch_message::encode::Formattable;
use vstd::prelude::*;
use vstd::string::StringExecFns;
use crate::message::ChatMessage;
use crate::text::{split_char, split_on, str_views, string_views, trim, trimmed};

verus! {

/// A request to write to the connection.
#[derive(Debug, Clone)]
#[non_exhaustive]
pub enum WriteKind {
    /// Join a channel.
    Join { channel: String },
    /// Leave a channel.
    Part { channel: String },
    /// Send a line as it is.
    Raw { raw: String },
    /// Say something on a channel.
    Privmsg { target: String, data: String },
    /// Say something on a channel in reply to the message with an id.
    Reply { id: String, target: String, data: String },
    /// End the session.
    Quit,
}

/// What is put before a channel's name: `#`, unless the name starts with
/// it.
pub open spec fn octo(channel: Seq<char>) -> Seq<char> {
    if channel.len() > 0 && channel[0] == '#' {
        Seq::empty()
    } else {
        seq!['#']
    }
}

/// The line that asks to join a channel.
pub open spec fn join_line(channel: Seq<char>) -> Seq<char> {
    "JOIN "@ + octo(channel) + channel + "\r\n"@
}

/// The line that asks to leave a channel.
pub open spec fn part_line(channel: Seq<char>) -> Seq<char> {
    "PART "@ + octo(channel) + channel + "\r\n"@
}

/// A line sent as it is.
pub open spec fn raw_line(raw: Seq<char>) -> Seq<char> {
    raw + "\r\n"@
}

/// The line that says `data` on a channel.
pub open spec fn privmsg_line(target: Seq<char>, data: Seq<char>) -> Seq<char> {
    "PRIVMSG "@ + octo(target) + target + " :"@ + data + "\r\n"@
}

/// The line that says `data` on a channel in reply to the message `id`.
pub open spec fn reply_line(id: Seq<char>, target: Seq<char>, data: Seq<char>) -> Seq<char> {
    "@reply-parent-msg-id="@ + id + " "@ + privmsg_line(target, data)
}

/// The line of a keepalive probe.
pub open spec fn ping_line(token: Seq<char>) -> Seq<char> {
    "PING "@ + token + "\r\n"@
}

/// The line that answers a keepalive probe.
pub open spec fn pong_line(token: Seq<char>) -> Seq<char> {
    "PONG :"@ + token + "\r\n"@
}

/// The line that ends the session.
pub open spec fn quit_line() -> Seq<char> {
    "QUIT\r\n"@
}

/// The lines that register a name with its token: a request for each
/// capability, then the token, then the name.
pub open spec fn register_lines(name: Seq<char>, token: Seq<char>) -> Seq<char> {
    "CAP REQ twitch.tv/commands\r\n"@ + "CAP REQ twitch.tv/membership\r\n"@
        + "CAP REQ twitch.tv/tags\r\n"@ + "PASS "@ + token + "\r\n"@ + "NICK "@ + name + "\r\n"@
}

/// Calls `twitch_message::encode::join` and formats what it returns: the
/// word `JOIN`, a space, the channel with `#` before it unless it has one,
/// and the line's end.
#[verifier::external_body]
fn encode_join(channel: &str) -> (line: String)
    ensures
        line@ == join_line(channel@),
{
    let mut line = String::new();
    let _ = twitch_message::encode::join(channel).format(&mut line);
    line
}

/// Calls `twitch_message::encode::part` and formats what it returns: the
/// word `PART`, a space, the channel with `#` before it unless it has one,
/// and the line's end.
#[verifier::external_body]
fn encode_part(channel: &str) -> (line: String)
    ensures
        line@ == part_line(channel@),
{
    let mut line = String::new();
    let _ = twitch_message::encode::part(channel).format(&mut line);
    line
}

/// Calls `twitch_message::encode::raw` and formats what it returns: the
/// text, and the line's end.
#[verifier::external_body]
fn encode_raw(raw: &str) -> (line: String)
    ensures
        line@ == raw_line(raw@),
{
    let mut line = String::new();
    let _ = twitch_message::encode::raw(raw).format(&mut line);
    line
}

/// Calls `twitch_message::encode::privmsg` and formats what it returns:
/// the word `PRIVMSG`, the channel with `#` before it unless it has one,
/// a colon before the text, and the line's end.
#[verifier::external_body]
fn encode_privmsg(target: &str, data: &str) -> (line: String)
    ensures
        line@ == privmsg_line(target@, data@),
{
    let mut line = String::new();
    let _ = twitch_message::encode::privmsg(target, data).format(&mut line);
    line
}

/// Calls `twitch_message::encode::reply` and formats what it returns: the
/// tag that names the message replied to, then the line of
/// `encode_privmsg`.
#[verifier::external_body]
fn encode_reply(id: &str, target: &str, data: &str) -> (line: String)
    ensures
        line@ == reply_line(id@, target@, data@),
{
    let mut line = String::new();
    let _ = twitch_message::encode::reply(id, target, data).format(&mut line);
    line
}

/// Calls `twitch_message::encode::ping` and formats what it returns: the
/// word `PING`, a space, the token, and the line's end.
#[verifier::external_body]
fn encode_ping(token: &str) -> (line: String)
    ensures
        line@ == ping_line(token@),
{
    let mut line = String::new();
    let _ = twitch_message::encode::ping(token).format(&mut line);
    line
}

/// Calls `twitch_message::encode::pong` and formats what it returns: the
/// word `PONG`, a space and a colon, the token, and the line's end.
#[verifier::external_body]
fn encode_pong(token: &str) -> (line: String)
    ensures
        line@ == pong_line(token@),
{
    let mut line = String::new();
    let _ = twitch_message::encode::pong(token).format(&mut line);
    line
}

/// Calls `twitch_message::encode::register` with every capability and
/// formats what it returns: a `CAP REQ` line for commands, membership and
/// tags in this order, a `PASS` line with the token, and a `NICK` line with
/// the name.
#[verifier::external_body]
fn encode_register(name: &str, token: &str) -> (lines: String)
    ensures
        lines@ == register_lines(name@, token@),
{
    let mut lines = String::new();
    let caps = twitch_message::encode::ALL_CAPABILITIES;
    let _ = twitch_message::encode::register(name, token, caps).format(&mut lines);
    lines
}

/// The token of the keepalive probes.
pub open spec fn keepalive_token() -> Seq<char> {
    "twitch_bot+0.1.0"@
}

/// The name in the answer to a keepalive probe.
pub open spec fn pong_token() -> Seq<char> {
    "tmi.twitch.tv"@
}

/// The line of a keepalive probe of this library.
pub fn keepalive_ping() -> (line: String)
    ensures
        line@ == ping_line(keepalive_token()),
{
    encode_ping("twitch_bot+0.1.0")
}

/// The line that answers a keepalive probe of the server.
pub fn keepalive_pong() -> (line: String)
    ensures
        line@ == pong_line(pong_token()),
{
    encode_pong("tmi.twitch.tv")
}

/// The lines that register a name with its token.
pub fn registration(name: &str, token: &str) -> (lines: String)
    ensures
        lines@ == register_lines(name@, token@),
{
    encode_register(name, token)
}

/// The lines that say a text on a channel: one for each piece of the text
/// between its line feeds, trimmed.
pub open spec fn privmsg_lines(target: Seq<char>, data: Seq<char>) -> Seq<Seq<char>> {
    split_on(data, '\n').map_values(|piece: Seq<char>| privmsg_line(target, trimmed(piece)))
}

/// The lines that say a text on a channel in reply to a message: one for
/// each piece of the text between its line feeds, trimmed.
pub open spec fn reply_lines(id: Seq<char>, target: Seq<char>, data: Seq<char>) -> Seq<
    Seq<char>,
> {
    split_on(data, '\n').map_values(|piece: Seq<char>| reply_line(id, target, trimmed(piece)))
}

/// The lines that a request is sent as, in order.
pub open spec fn frames_of(kind: WriteKind) -> Seq<Seq<char>> {
    match kind {
        WriteKind::Join { channel } => seq![join_line(channel@)],
        WriteKind::Part { channel } => seq![part_line(channel@)],
        WriteKind::Raw { raw } => seq![raw_line(raw@)],
        WriteKind::Privmsg { target, data } => privmsg_lines(target@, data@),
        WriteKind::Reply { id, target, data } => reply_lines(id@, target@, data@),
        WriteKind::Quit => seq![quit_line()],
    }
}

/// The one line that a request is shown as: its text is not cut at line
/// feeds.
pub open spec fn line_of(kind: WriteKind) -> Seq<char> {
    match kind {
        WriteKind::Join { channel } => join_line(channel@),
        WriteKind::Part { channel } => part_line(channel@),
        WriteKind::Raw { raw } => raw_line(raw@),
        WriteKind::Privmsg { target, data } => privmsg_line(target@, data@),
        WriteKind::Reply { id, target, data } => reply_line(id@, target@, data@),
        WriteKind::Quit => quit_line(),
    }
}

impl WriteKind {
    /// The request to join a channel.
    pub fn join_channel(channel: &str) -> (r: WriteKind)
        ensures
            r matches WriteKind::Join { channel: c } && c@ == channel@,
    {
        WriteKind::Join { channel: String::from_str(channel) }
    }

    /// The request to leave a channel.
    pub fn part_channel(channel: &str) -> (r: WriteKind)
        ensures
            r matches WriteKind::Part { channel: c } && c@ == channel@,
    {
        WriteKind::Part { channel: String::from_str(channel) }
    }

    /// The request to send a line as it is.
    pub fn send_raw(raw: &str) -> (r: WriteKind)
        ensures
            r matches WriteKind::Raw { raw: t } && t@ == raw@,
    {
        WriteKind::Raw { raw: String::from_str(raw) }
    }

    /// The request to say `data` on the channel of a message.
    pub fn privmsg(message: &ChatMessage, data: &str) -> (r: WriteKind)
        ensures
            r matches WriteKind::Privmsg { target, data: d } && target@ == message.channel@ && d@
                == data@,
    {
        WriteKind::Privmsg { target: message.channel.clone(), data: String::from_str(data) }
    }

    /// The request to say `data` in reply to a message, on its channel.
    /// The message must have an id.
    pub fn reply(message: &ChatMessage, data: &str) -> (r: WriteKind)
        requires
            message.msg_id is Some,
        ensures
            r matches WriteKind::Reply { id, target, data: d } && id@ == message.msg_id.unwrap()@
                && target@ == message.channel@ && d@ == data@,
    {
        let id = match &message.msg_id {
            Some(id) => id.clone(),
            None => String::new(),
        };
        WriteKind::Reply { id, target: message.channel.clone(), data: String::from_str(data) }
    }

    /// The request to end the session.
    pub fn quit() -> (r: WriteKind)
        ensures
            r is Quit,
    {
        WriteKind::Quit
    }

    /// Tells whether the request ends the session.
    pub fn is_quit(&self) -> (b: bool)
        ensures
            b == (*self is Quit),
    {
        match self {
            WriteKind::Quit => true,
            _ => false,
        }
    }

    /// The lines that the request is sent as, in order. The text of a
    /// message or a reply is cut at its line feeds, and each piece,
    /// trimmed, is sent as a line of its own.
    pub fn frames(&self) -> (lines: Vec<String>)
        ensures
            string_views(lines@) == frames_of(*self),
    {
        let mut lines: Vec<String> = Vec::new();
        match self {
            WriteKind::Join { channel } => {
                let line = encode_join(channel.as_str());
                assert(string_views(lines@.push(line)) =~= seq![line@]);
                lines.push(line);
            },
            WriteKind::Part { channel } => {
                let line = encode_part(channel.as_str());
                assert(string_views(lines@.push(line)) =~= seq![line@]);
                lines.push(line);
            },
            WriteKind::Raw { raw } => {
                let line = encode_raw(raw.as_str());
                assert(string_views(lines@.push(line)) =~= seq![line@]);
                lines.push(line);
            },
            WriteKind::Privmsg { target, data } => {
                let pieces = split_char(data.as_str(), '\n');
                let mut i: usize = 0;
                while i < pieces.len()
                    invariant
                        i <= pieces.len(),
                        str_views(pieces@) == split_on(data@, '\n'),
                        string_views(lines@) == privmsg_lines(target@, data@).take(i as int),
                    decreases pieces.len() - i,
                {
                    let line = encode_privmsg(target.as_str(), trim(pieces[i]));
                    proof {
                        let all = privmsg_lines(target@, data@);
                        assert(str_views(pieces@).len() == pieces@.len());
                        assert(str_views(pieces@)[i as int] == pieces@[i as int]@);
                        assert(all[i as int] == line@);
                        assert(string_views(lines@.push(line)) =~= string_views(lines@).push(
                            line@,
                        ));
                        assert(all.take(i as int + 1) =~= all.take(i as int).push(all[i as int]));
                    }
                    lines.push(line);
                    i = i + 1;
                }
                assert(privmsg_lines(target@, data@).take(i as int) =~= privmsg_lines(
                    target@,
                    data@,
                ));
            },
            WriteKind::Reply { id, target, data } => {
                let pieces = split_char(data.as_str(), '\n');
                let mut i: usize = 0;
                while i < pieces.len()
                    invariant
                        i <= pieces.len(),
                        str_views(pieces@) == split_on(data@, '\n'),
                        string_views(lines@) == reply_lines(id@, target@, data@).take(i as int),
                    decreases pieces.len() - i,
                {
                    let line = encode_reply(id.as_str(), target.as_str(), trim(pieces[i]));
                    proof {
                        let all = reply_lines(id@, target@, data@);
                        assert(str_views(pieces@).len() == pieces@.len());
                        assert(str_views(pieces@)[i as int] == pieces@[i as int]@);
                        assert(all[i as int] == line@);
                        assert(string_views(lines@.push(line)) =~= string_views(lines@).push(
                            line@,
                        ));
                        assert(all.take(i as int + 1) =~= all.take(i as int).push(all[i as int]));
                    }
                    lines.push(line);
                    i = i + 1;
                }
                assert(reply_lines(id@, target@, data@).take(i as int) =~= reply_lines(
                    id@,
                    target@,
                    data@,
                ));
            },
            WriteKind::Quit => {
                let line = String::from_str("QUIT\r\n");
                assert(string_views(lines@.push(line)) =~= seq![line@]);
                lines.push(line);
            },
        }
        lines
    }

    /// The request as one line, its text not cut at line feeds.
    pub fn to_line(&self) -> (line: String)
        ensures
            line@ == line_of(*self),
    {
        match self {
            WriteKind::Join { channel } => encode_join(channel.as_str()),
            WriteKind::Part { channel } => encode_part(channel.as_str()),
            WriteKind::Raw { raw } => encode_raw(raw.as_str()),
            WriteKind::Privmsg { target, data } => encode_privmsg(target.as_str(), data.as_str()),
            WriteKind::Reply { id, target, data } => encode_reply(
                id.as_str(),
                target.as_str(),
                data.as_str(),
            ),
            WriteKind::Quit => String::from_str("QUIT\r\n"),
        }
    }
}

} // verus!
