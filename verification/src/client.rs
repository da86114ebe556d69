//! The state machine of a connection.
//!
//! The caller owns the socket and the clock. It hands each event to
//! `Client::step`, performs the effects that come back in their order, and
//! goes on or stops as the step says.

use vstd::prelude::*;
use vstd::string::StringExecFns;
use crate::config::Config;
use crate::message::ChatMessage;
use crate::ping::PingTracker;
use crate::text::{
    distinct, lemma_with_once, lemma_without, list_contains, list_without, string_views,
    with_once, without,
};
use crate::writer::{
    frames_of, join_line, keepalive_ping, keepalive_pong, keepalive_token, ping_line, pong_line,
    pong_token, register_lines, registration, WriteKind,
};

verus! {

/// Why a connection ends, or a bot does not start.
#[non_exhaustive]
#[derive(Debug)]
pub enum Error {
    /// A write to the socket failed.
    CannotWrite,
    /// The registration could not be written.
    CannotRegister,
    /// A read from the socket failed, or the stream is closed.
    CannotRead,
    /// The handler could not be made.
    CannotInit { error: String },
}

impl Error {
    /// What the error says.
    pub open spec fn message(&self) -> Seq<char> {
        match self {
            Error::CannotWrite => "Cannot write to the socket"@,
            Error::CannotRegister => "Cannot register with the IRC server"@,
            Error::CannotRead => "Cannot read from the socket"@,
            Error::CannotInit { error } => "Cannot initialize handler: "@ + error@,
        }
    }

    /// What the error says.
    pub fn to_string(&self) -> (r: String)
        ensures
            r@ == self.message(),
    {
        match self {
            Error::CannotWrite => String::from_str("Cannot write to the socket"),
            Error::CannotRegister => String::from_str("Cannot register with the IRC server"),
            Error::CannotRead => String::from_str("Cannot read from the socket"),
            Error::CannotInit { error } => {
                let mut r = String::from_str("Cannot initialize handler: ");
                r.append(error.as_str());
                r
            },
        }
    }
}

/// A color, by its red, green and blue parts.
#[derive(Debug, Clone, Copy, PartialEq, Eq, Structural)]
pub struct Color(pub u8, pub u8, pub u8);

/// A badge, by its name and version.
#[derive(Debug, Clone)]
pub struct Badge {
    pub name: String,
    pub version: String,
}

/// The account of the bot, as the server gives it once the bot has
/// registered.
#[derive(Debug)]
pub struct Identity {
    pub user_id: String,
    pub name: String,
    pub display_name: Option<String>,
    pub color: Option<Color>,
    pub emote_sets: Vec<String>,
    pub global_badges: Vec<Badge>,
}

/// One of two values.
#[derive(Debug)]
pub enum Either<L, R> {
    Left(L),
    Right(R),
}

/// The delay before a new attempt where the policy names none, in
/// milliseconds.
pub const DEFAULT_RECONNECT_DELAY: u64 = 10_000;

/// What to do after a connection has failed.
#[derive(Debug)]
pub enum Reconnect {
    /// Try again after the default delay.
    Always,
    /// Give up.
    Never,
    /// Try again after this many milliseconds.
    After(u64),
}

impl Reconnect {
    /// The delay before the next attempt, in milliseconds; none where the
    /// policy gives up.
    pub fn delay(&self) -> (r: Option<u64>)
        ensures
            r == match *self {
                Reconnect::Never => None::<u64>,
                Reconnect::Always => Some(DEFAULT_RECONNECT_DELAY),
                Reconnect::After(d) => Some(d),
            },
    {
        match self {
            Reconnect::Never => None,
            Reconnect::Always => Some(DEFAULT_RECONNECT_DELAY),
            Reconnect::After(d) => Some(*d),
        }
    }
}

/// What to do once an attempt to connect and run has ended: nothing more
/// after a session that ended cleanly; after a failure, another attempt
/// after the delay of the policy, unless the policy gives up.
pub fn next_attempt(ended: Result<(), Reconnect>) -> (r: Option<u64>)
    ensures
        r == match ended {
            Ok(()) => None::<u64>,
            Err(Reconnect::Never) => None::<u64>,
            Err(Reconnect::Always) => Some(DEFAULT_RECONNECT_DELAY),
            Err(Reconnect::After(d)) => Some(d),
        },
{
    match ended {
        Ok(_) => None,
        Err(policy) => policy.delay(),
    }
}

/// What the server sent, as far as the connection reads it.
#[derive(Debug)]
pub enum Inbound {
    /// The server is ready, and names the bot.
    Ready { name: String },
    /// The server gives the account of the bot.
    GlobalUserState {
        user_id: String,
        display_name: Option<String>,
        color: Option<Color>,
        emote_sets: Vec<String>,
        global_badges: Vec<Badge>,
    },
    /// A user joined a channel.
    Join { user: String, channel: String },
    /// A user left a channel.
    Part { user: String, channel: String },
    /// A user said something on a channel.
    Privmsg(ChatMessage),
    /// Any other message.
    Other,
}

/// What happened while the connection waited.
#[derive(Debug)]
pub enum Event {
    /// Nothing, for the delay of the configuration.
    Timeout,
    /// A message was read.
    Message(Inbound),
    /// The read failed, or the stream is closed.
    ReadFailed,
    /// A write request came from the queue.
    Write(WriteKind),
    /// The queue is closed: no writer is left.
    WriterClosed,
}

/// What the caller is to do, one after the other.
#[derive(Debug)]
pub enum Effect {
    /// Write the line to the socket. A failure ends the connection with
    /// `Error::CannotWrite`.
    Send(String),
    /// Tell the handler that the bot is connected.
    Connected(Identity),
    /// Tell the handler that the bot joined the channel.
    Joined(String),
    /// Tell the handler that the bot left the channel.
    Parted(String),
    /// Hand the chat message to the handler.
    Privmsg(ChatMessage),
    /// Hand the message that was read to the handler.
    Message,
}

/// An effect, with the line of a write as a text.
pub enum EffectView {
    Send(Seq<char>),
    Connected(Identity),
    Joined(String),
    Parted(String),
    Privmsg(ChatMessage),
    Message,
}

impl View for Effect {
    type V = EffectView;

    open spec fn view(&self) -> EffectView {
        match self {
            Effect::Send(line) => EffectView::Send(line@),
            Effect::Connected(identity) => EffectView::Connected(*identity),
            Effect::Joined(channel) => EffectView::Joined(*channel),
            Effect::Parted(channel) => EffectView::Parted(*channel),
            Effect::Privmsg(message) => EffectView::Privmsg(*message),
            Effect::Message => EffectView::Message,
        }
    }
}

/// Whether the connection goes on.
#[derive(Debug)]
pub enum Flow {
    /// Wait for the next event.
    Continue,
    /// The session is over, and no new one is wanted.
    Finished,
    /// The connection failed.
    Failed(Error),
}

/// What a step asks of the caller.
#[derive(Debug)]
pub struct Step {
    pub effects: Vec<Effect>,
    pub flow: Flow,
}

/// The effects, with the lines of the writes as texts.
pub open spec fn effect_views(effects: Seq<Effect>) -> Seq<EffectView> {
    effects.map_values(|e: Effect| e@)
}

/// The effects that write the lines, in order.
pub open spec fn send_all(lines: Seq<Seq<char>>) -> Seq<EffectView> {
    lines.map_values(|l: Seq<char>| EffectView::Send(l))
}

/// The channels after the requests: each request to join adds its channel,
/// each request to leave takes its channel out.
pub open spec fn drained_channels(channels: Seq<Seq<char>>, pending: Seq<WriteKind>) -> Seq<
    Seq<char>,
>
    decreases pending.len(),
{
    if pending.len() == 0 {
        channels
    } else {
        let before = drained_channels(channels, pending.drop_last());
        match pending.last() {
            WriteKind::Join { channel } => with_once(before, channel@),
            WriteKind::Part { channel } => without(before, channel@),
            _ => before,
        }
    }
}

/// The requests that neither join nor leave a channel, in their order.
pub open spec fn drained_queue(pending: Seq<WriteKind>) -> Seq<WriteKind>
    decreases pending.len(),
{
    if pending.len() == 0 {
        pending
    } else {
        match pending.last() {
            WriteKind::Join { .. } => drained_queue(pending.drop_last()),
            WriteKind::Part { .. } => drained_queue(pending.drop_last()),
            _ => drained_queue(pending.drop_last()).push(pending.last()),
        }
    }
}

/// The index of the first request, from `from` on, that ends the session;
/// the length where there is none.
pub open spec fn quit_index(queue: Seq<WriteKind>, from: int) -> int
    decreases queue.len() - from,
{
    if from < 0 || from >= queue.len() {
        queue.len() as int
    } else if queue[from] is Quit {
        from
    } else {
        quit_index(queue, from + 1)
    }
}

/// Whether a request of the queue ends the session.
pub open spec fn has_quit(queue: Seq<WriteKind>) -> bool {
    quit_index(queue, 0) < queue.len()
}

/// How many requests of the queue are flushed: all up to and with the
/// first that ends the session.
pub open spec fn flush_count(queue: Seq<WriteKind>) -> int {
    if has_quit(queue) {
        quit_index(queue, 0) + 1
    } else {
        queue.len() as int
    }
}

/// The lines of the requests, in order.
pub open spec fn frames_of_all(queue: Seq<WriteKind>) -> Seq<Seq<char>>
    decreases queue.len(),
{
    if queue.len() == 0 {
        Seq::empty()
    } else {
        frames_of_all(queue.drop_last()) + frames_of(queue.last())
    }
}

/// The lines that ask to join each channel, in order.
pub open spec fn join_lines(channels: Seq<Seq<char>>) -> Seq<Seq<char>> {
    channels.map_values(|c: Seq<char>| join_line(c))
}

/// Adds the writes of the lines to the effects.
fn push_sends(effects: &mut Vec<Effect>, lines: Vec<String>)
    ensures
        effect_views(final(effects)@) == effect_views(old(effects)@) + send_all(
            string_views(lines@),
        ),
{
    let ghost before = effect_views(effects@);
    let mut i: usize = 0;
    assert(send_all(string_views(lines@)).take(0) =~= Seq::<EffectView>::empty());
    while i < lines.len()
        invariant
            i <= lines.len(),
            effect_views(effects@) == before + send_all(string_views(lines@)).take(i as int),
        decreases lines.len() - i,
    {
        let line = lines[i].clone();
        proof {
            let all = send_all(string_views(lines@));
            assert(all[i as int] == EffectView::Send(line@));
            assert(effect_views(effects@.push(Effect::Send(line))) =~= effect_views(effects@).push(
                EffectView::Send(line@),
            ));
            assert(all.take(i as int + 1) =~= all.take(i as int).push(all[i as int]));
        }
        effects.push(Effect::Send(line));
        i = i + 1;
    }
    assert(send_all(string_views(lines@)).take(i as int) =~= send_all(string_views(lines@)));
}

/// The state of a connection, and what outlives it: the channels the bot
/// has joined, and the writes that wait for the bot's identity.
#[derive(Debug)]
pub struct Client {
    pub config: Config,
    /// The channels the bot has joined, each once, in the order in which
    /// they were joined.
    pub channels: Vec<String>,
    /// The writes that wait until the identity of the bot is known.
    pub queue: Vec<WriteKind>,
    /// The login name of the bot, once the server has named it.
    pub name: Option<String>,
    /// Whether the identity of the bot is known.
    pub identified: bool,
    pub tracker: PingTracker,
}

/// What the name holds, as a text.
pub open spec fn name_view(name: Option<String>) -> Option<Seq<char>> {
    match name {
        Some(n) => Some(n@),
        None => None,
    }
}

/// The effects of a message that was read. The handler is told of what
/// concerns the bot, then gets the chat message if it is one, then the
/// message itself. Once the identity is known the queue is flushed; a
/// request that ends the session is the last thing done.
pub open spec fn effects_of_message(client: Client, inbound: Inbound) -> Seq<EffectView> {
    match inbound {
        Inbound::Ready { name } => seq![EffectView::Message],
        Inbound::GlobalUserState { user_id, display_name, color, emote_sets, global_badges } => {
            let identity = Identity {
                user_id,
                name: client.name.unwrap(),
                display_name,
                color,
                emote_sets,
                global_badges,
            };
            let flushed = send_all(
                frames_of_all(client.queue@.take(flush_count(client.queue@))),
            );
            if has_quit(client.queue@) {
                seq![EffectView::Connected(identity)] + flushed
            } else {
                seq![EffectView::Connected(identity)] + flushed + seq![EffectView::Message]
            }
        },
        Inbound::Join { user, channel } => if name_view(client.name) == Some(user@) {
            seq![EffectView::Joined(channel), EffectView::Message]
        } else {
            seq![EffectView::Message]
        },
        Inbound::Part { user, channel } => if name_view(client.name) == Some(user@) {
            seq![EffectView::Parted(channel), EffectView::Message]
        } else {
            seq![EffectView::Message]
        },
        Inbound::Privmsg(message) => seq![EffectView::Privmsg(message), EffectView::Message],
        Inbound::Other => seq![EffectView::Message],
    }
}

/// The effects of an event.
pub open spec fn effects_of(client: Client, event: Event) -> Seq<EffectView> {
    match event {
        Event::Timeout => seq![EffectView::Send(ping_line(keepalive_token()))],
        Event::Message(inbound) => effects_of_message(client, inbound),
        Event::ReadFailed => Seq::empty(),
        Event::Write(kind) => if client.identified {
            send_all(frames_of(kind))
        } else {
            Seq::empty()
        },
        Event::WriterClosed => Seq::empty(),
    }
}

/// Whether the connection goes on after an event.
pub open spec fn flow_of(client: Client, event: Event) -> Flow {
    match event {
        Event::Timeout => Flow::Continue,
        Event::Message(Inbound::GlobalUserState { .. }) => if has_quit(client.queue@) {
            Flow::Finished
        } else {
            Flow::Continue
        },
        Event::Message(_) => Flow::Continue,
        Event::ReadFailed => Flow::Failed(Error::CannotRead),
        Event::Write(kind) => if client.identified && kind is Quit {
            Flow::Finished
        } else {
            Flow::Continue
        },
        Event::WriterClosed => Flow::Finished,
    }
}

/// The waiting writes after an event.
pub open spec fn queue_after(client: Client, event: Event) -> Seq<WriteKind> {
    match event {
        Event::Message(Inbound::GlobalUserState { .. }) => client.queue@.skip(
            flush_count(client.queue@),
        ),
        Event::Write(kind) => if client.identified {
            client.queue@
        } else {
            client.queue@.push(kind)
        },
        _ => client.queue@,
    }
}

/// The name of the bot after an event.
pub open spec fn name_after(client: Client, event: Event) -> Option<Seq<char>> {
    match event {
        Event::Message(Inbound::Ready { name }) => Some(name@),
        _ => name_view(client.name),
    }
}

/// Whether the identity is known after an event.
pub open spec fn identified_after(client: Client, event: Event) -> bool {
    match event {
        Event::Message(Inbound::GlobalUserState { .. }) => true,
        _ => client.identified,
    }
}

/// The tracker after an event at `now`: a message that was read is data
/// seen.
pub open spec fn tracker_after(client: Client, event: Event, now: u64) -> PingTracker {
    match event {
        Event::Message(_) => PingTracker { last_seen: Some(now), ..client.tracker },
        _ => client.tracker,
    }
}

impl Client {
    /// A client that has joined no channel and holds no write.
    pub fn new(config: Config) -> (r: Client)
        ensures
            r.config == config,
            r.channels@.len() == 0,
            r.queue@.len() == 0,
            r.name is None,
            !r.identified,
            r.tracker == (PingTracker {
                interval: config.ping_delay,
                last_seen: None,
                last_sent: None,
            }),
    {
        let tracker = PingTracker::new(config.ping_delay);
        Client {
            config,
            channels: Vec::new(),
            queue: Vec::new(),
            name: None,
            identified: false,
            tracker,
        }
    }

    /// The lines that register the bot on a new connection.
    pub fn registration(&self) -> (lines: String)
        ensures
            lines@ == register_lines(self.config.name@, self.config.token@),
    {
        registration(self.config.name.as_str(), self.config.token.as_str())
    }

    /// The time without an event after which the caller reports a
    /// timeout, in milliseconds.
    pub fn timeout(&self) -> (r: u64)
        ensures
            r == self.config.ping_delay,
    {
        self.config.ping_delay
    }

    /// Takes in the writes that were asked for while there was no
    /// connection. A request to join or leave a channel changes the
    /// channels; any other request waits in the queue.
    pub fn drain_pending_writes(&mut self, pending: Vec<WriteKind>)
        ensures
            string_views(final(self).channels@) == drained_channels(
                string_views(old(self).channels@),
                pending@,
            ),
            final(self).queue@ == old(self).queue@ + drained_queue(pending@),
            final(self).config == old(self).config,
            final(self).name == old(self).name,
            final(self).identified == old(self).identified,
            final(self).tracker == old(self).tracker,
    {
        let ghost all = pending@;
        let ghost channels0 = string_views(self.channels@);
        let ghost queue0 = self.queue@;
        assert(all.take(0) =~= Seq::<WriteKind>::empty());
        assert(queue0 + drained_queue(all.take(0)) =~= queue0);
        for kind in it: pending
            invariant
                it.seq() == all,
                string_views(self.channels@) == drained_channels(
                    channels0,
                    all.take(it.index() as int),
                ),
                self.queue@ == queue0 + drained_queue(all.take(it.index() as int)),
                self.config == old(self).config,
                self.name == old(self).name,
                self.identified == old(self).identified,
                self.tracker == old(self).tracker,
        {
            proof {
                let i = it.index() as int;
                assert(all.take(i + 1).drop_last() =~= all.take(i));
                assert(all.take(i + 1).last() == kind);
            }
            let ghost before = drained_queue(all.take(it.index() as int));
            match kind {
                WriteKind::Join { channel } => {
                    if !list_contains(&self.channels, channel.as_str()) {
                        assert(string_views(self.channels@.push(channel)) =~= string_views(
                            self.channels@,
                        ).push(channel@));
                        self.channels.push(channel);
                    }
                },
                WriteKind::Part { channel } => {
                    self.channels = list_without(&self.channels, channel.as_str());
                },
                other => {
                    assert(queue0 + before.push(other) =~= (queue0 + before).push(other));
                    self.queue.push(other);
                },
            }
        }
        assert(all.take(all.len() as int) =~= all);
    }

    /// Begins a session on a new connection: the bot is not yet named.
    /// Hands back the lines that ask to join each channel the bot had
    /// joined, in their order; they are written before anything else.
    pub fn start_session(&mut self) -> (lines: Vec<String>)
        ensures
            string_views(lines@) == join_lines(string_views(old(self).channels@)),
            final(self).name is None,
            !final(self).identified,
            final(self).channels == old(self).channels,
            final(self).queue == old(self).queue,
            final(self).config == old(self).config,
            final(self).tracker == (PingTracker {
                interval: old(self).config.ping_delay,
                last_seen: None,
                last_sent: None,
            }),
    {
        self.name = None;
        self.identified = false;
        self.tracker = PingTracker::new(self.config.ping_delay);
        let mut lines: Vec<String> = Vec::new();
        let mut i: usize = 0;
        let ghost all = join_lines(string_views(self.channels@));
        assert(string_views(lines@) =~= all.take(0));
        while i < self.channels.len()
            invariant
                i <= self.channels.len(),
                all == join_lines(string_views(self.channels@)),
                string_views(lines@) == all.take(i as int),
            decreases self.channels.len() - i,
        {
            let line = WriteKind::Join { channel: self.channels[i].clone() }.to_line();
            proof {
                assert(all[i as int] == line@);
                assert(string_views(lines@.push(line)) =~= string_views(lines@).push(line@));
                assert(all.take(i as int + 1) =~= all.take(i as int).push(all[i as int]));
            }
            lines.push(line);
            i = i + 1;
        }
        assert(all.take(i as int) =~= all);
        lines
    }

    /// The answer to write now, if a keepalive is due at `now`.
    pub fn pong_due(&mut self, now: u64) -> (line: Option<String>)
        ensures
            match line {
                Some(l) => old(self).tracker.due(now) && l@ == pong_line(pong_token()),
                None => !old(self).tracker.due(now),
            },
            final(self).tracker == (PingTracker {
                last_sent: if old(self).tracker.due(now) {
                    Some(now)
                } else {
                    old(self).tracker.last_sent
                },
                ..old(self).tracker
            }),
            final(self).config == old(self).config,
            final(self).channels == old(self).channels,
            final(self).queue == old(self).queue,
            final(self).name == old(self).name,
            final(self).identified == old(self).identified,
    {
        if self.tracker.should_pong(now) {
            Some(keepalive_pong())
        } else {
            None
        }
    }

    /// Writes out the queue, up to and with the first request that ends
    /// the session, and tells whether there was one.
    fn flush(&mut self, effects: &mut Vec<Effect>) -> (quit: bool)
        ensures
            quit == has_quit(old(self).queue@),
            effect_views(final(effects)@) == effect_views(old(effects)@) + send_all(
                frames_of_all(old(self).queue@.take(flush_count(old(self).queue@))),
            ),
            final(self).queue@ == old(self).queue@.skip(flush_count(old(self).queue@)),
            final(self).config == old(self).config,
            final(self).channels == old(self).channels,
            final(self).name == old(self).name,
            final(self).identified == old(self).identified,
            final(self).tracker == old(self).tracker,
    {
        let ghost queue = self.queue@;
        let ghost before = effect_views(effects@);
        let mut i: usize = 0;
        let mut quit: bool = false;
        proof {
            assert(queue.take(0) =~= Seq::<WriteKind>::empty());
            assert(before + send_all(frames_of_all(queue.take(0))) =~= before);
        }
        while i < self.queue.len() && !quit
            invariant
                i <= queue.len(),
                *self == *old(self),
                queue == self.queue@,
                !quit ==> quit_index(queue, 0) == quit_index(queue, i as int),
                quit ==> i >= 1 && quit_index(queue, 0) == i - 1,
                effect_views(effects@) == before + send_all(frames_of_all(queue.take(i as int))),
            decreases queue.len() - i + (if quit { 0int } else { 1int }),
        {
            let lines = self.queue[i].frames();
            proof {
                assert(queue.take(i as int + 1).drop_last() =~= queue.take(i as int));
                let done = frames_of_all(queue.take(i as int));
                assert(send_all(done + string_views(lines@)) =~= send_all(done) + send_all(
                    string_views(lines@),
                ));
                assert(before + (send_all(done) + send_all(string_views(lines@))) =~= (before
                    + send_all(done)) + send_all(string_views(lines@)));
            }
            push_sends(effects, lines);
            quit = self.queue[i].is_quit();
            i = i + 1;
        }
        assert(i == flush_count(queue));
        let rest = self.queue.split_off(i);
        self.queue = rest;
        assert(self.queue@ =~= queue.skip(i as int));
        assert(queue.subrange(0, i as int) =~= queue.take(i as int));
        quit
    }

    /// Takes one event at the time `now`, and tells the caller what to do.
    ///
    /// A message that tells the account of the bot must come after the
    /// message that names the bot.
    pub fn step(&mut self, event: Event, now: u64) -> (r: Step)
        requires
            event matches Event::Message(Inbound::GlobalUserState { .. }) ==> old(self).name
                is Some,
        ensures
            effect_views(r.effects@) == effects_of(*old(self), event),
            r.flow == flow_of(*old(self), event),
            final(self).queue@ == queue_after(*old(self), event),
            name_view(final(self).name) == name_after(*old(self), event),
            final(self).identified == identified_after(*old(self), event),
            final(self).tracker == tracker_after(*old(self), event, now),
            final(self).channels == old(self).channels,
            final(self).config == old(self).config,
    {
        let mut effects: Vec<Effect> = Vec::new();
        assert(effect_views(effects@) =~= Seq::<EffectView>::empty());
        match event {
            Event::Timeout => {
                let line = keepalive_ping();
                effects.push(Effect::Send(line));
                assert(effect_views(effects@) =~= seq![EffectView::Send(line@)]);
                Step { effects, flow: Flow::Continue }
            },
            Event::ReadFailed => Step { effects, flow: Flow::Failed(Error::CannotRead) },
            Event::WriterClosed => Step { effects, flow: Flow::Finished },
            Event::Write(kind) => {
                if self.identified {
                    let lines = kind.frames();
                    push_sends(&mut effects, lines);
                    assert(effect_views(effects@) =~= send_all(frames_of(kind)));
                    let flow = if kind.is_quit() {
                        Flow::Finished
                    } else {
                        Flow::Continue
                    };
                    Step { effects, flow }
                } else {
                    self.queue.push(kind);
                    Step { effects, flow: Flow::Continue }
                }
            },
            Event::Message(inbound) => {
                self.tracker.update(now);
                match inbound {
                    Inbound::Ready { name } => {
                        self.name = Some(name);
                        effects.push(Effect::Message);
                        assert(effect_views(effects@) =~= seq![EffectView::Message]);
                        Step { effects, flow: Flow::Continue }
                    },
                    Inbound::GlobalUserState {
                        user_id,
                        display_name,
                        color,
                        emote_sets,
                        global_badges,
                    } => {
                        let name = match &self.name {
                            Some(n) => n.clone(),
                            None => String::new(),
                        };
                        let identity = Identity {
                            user_id,
                            name,
                            display_name,
                            color,
                            emote_sets,
                            global_badges,
                        };
                        self.identified = true;
                        effects.push(Effect::Connected(identity));
                        assert(effect_views(effects@) =~= seq![EffectView::Connected(identity)]);
                        let quit = self.flush(&mut effects);
                        if quit {
                            Step { effects, flow: Flow::Finished }
                        } else {
                            let ghost before = effect_views(effects@);
                            effects.push(Effect::Message);
                            assert(effect_views(effects@) =~= before + seq![EffectView::Message]);
                            Step { effects, flow: Flow::Continue }
                        }
                    },
                    Inbound::Join { user, channel } => {
                        let own = match &self.name {
                            Some(n) => *n == user,
                            None => false,
                        };
                        if own {
                            effects.push(Effect::Joined(channel));
                            effects.push(Effect::Message);
                            assert(effect_views(effects@) =~= seq![
                                EffectView::Joined(channel),
                                EffectView::Message,
                            ]);
                        } else {
                            effects.push(Effect::Message);
                            assert(effect_views(effects@) =~= seq![EffectView::Message]);
                        }
                        Step { effects, flow: Flow::Continue }
                    },
                    Inbound::Part { user, channel } => {
                        let own = match &self.name {
                            Some(n) => *n == user,
                            None => false,
                        };
                        if own {
                            effects.push(Effect::Parted(channel));
                            effects.push(Effect::Message);
                            assert(effect_views(effects@) =~= seq![
                                EffectView::Parted(channel),
                                EffectView::Message,
                            ]);
                        } else {
                            effects.push(Effect::Message);
                            assert(effect_views(effects@) =~= seq![EffectView::Message]);
                        }
                        Step { effects, flow: Flow::Continue }
                    },
                    Inbound::Privmsg(message) => {
                        effects.push(Effect::Privmsg(message));
                        effects.push(Effect::Message);
                        assert(effect_views(effects@) =~= seq![
                            EffectView::Privmsg(message),
                            EffectView::Message,
                        ]);
                        Step { effects, flow: Flow::Continue }
                    },
                    Inbound::Other => {
                        effects.push(Effect::Message);
                        assert(effect_views(effects@) =~= seq![EffectView::Message]);
                        Step { effects, flow: Flow::Continue }
                    },
                }
            },
        }
    }
}

/// The channels are a set: where each stands once, each stands once after
/// any requests are drained.
pub proof fn law_channels_stay_distinct(channels: Seq<Seq<char>>, pending: Seq<WriteKind>)
    requires
        distinct(channels),
    ensures
        distinct(drained_channels(channels, pending)),
    decreases pending.len(),
{
    if pending.len() > 0 {
        law_channels_stay_distinct(channels, pending.drop_last());
        let before = drained_channels(channels, pending.drop_last());
        match pending.last() {
            WriteKind::Join { channel } => {
                lemma_with_once(before, channel@);
            },
            WriteKind::Part { channel } => {
                lemma_without(before, channel@);
            },
            _ => {},
        }
    }
}

/// A new session asks to join every channel, in the order of the
/// channels: the line at an index is that of the channel at this index.
pub proof fn law_rejoin_in_order(channels: Seq<Seq<char>>, index: int)
    requires
        0 <= index < channels.len(),
    ensures
        join_lines(channels).len() == channels.len(),
        join_lines(channels)[index] == join_line(channels[index]),
{
}

/// Nothing that was asked to be written reaches the socket before the
/// identity of the bot is known: until then a write request has no effect
/// but to wait in the queue.
pub proof fn law_writes_wait_for_identity(client: Client, kind: WriteKind)
    requires
        !client.identified,
    ensures
        effects_of(client, Event::Write(kind)).len() == 0,
        queue_after(client, Event::Write(kind)) == client.queue@.push(kind),
        flow_of(client, Event::Write(kind)) == Flow::Continue,
{
}

/// A timeout sends exactly one keepalive probe, and changes nothing: as
/// many probes are sent as intervals pass without traffic.
pub proof fn law_one_ping_per_timeout(client: Client, now: u64)
    ensures
        effects_of(client, Event::Timeout) == seq![
            EffectView::Send(ping_line(keepalive_token())),
        ],
        flow_of(client, Event::Timeout) == Flow::Continue,
        queue_after(client, Event::Timeout) == client.queue@,
        name_after(client, Event::Timeout) == name_view(client.name),
        identified_after(client, Event::Timeout) == client.identified,
        tracker_after(client, Event::Timeout, now) == client.tracker,
{
}

} // verus!
