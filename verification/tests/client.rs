use twitch_bot::client::{next_attempt, DEFAULT_RECONNECT_DELAY};
use twitch_bot::config::DEFAULT_PING_DELAY;
use twitch_bot::writer::{keepalive_ping, keepalive_pong, registration};
use twitch_bot::{
    Badge, ChatMessage, Client, Color, Config, Effect, Error, Event, Flow, Inbound, PingTracker,
    Reconnect, WriteKind,
};

fn message(data: &str) -> ChatMessage {
    ChatMessage {
        channel: String::from("#museun"),
        sender: String::from("test_user"),
        data: String::from(data),
        user_id: Some(String::from("12345")),
        msg_id: Some(String::from("test_msg_id")),
        moderator: false,
        broadcaster: false,
        subscriber: false,
        vip: false,
    }
}

fn sent(effects: &[Effect]) -> Vec<&str> {
    effects
        .iter()
        .filter_map(|e| match e {
            Effect::Send(line) => Some(line.as_str()),
            _ => None,
        })
        .collect()
}

fn global_user_state() -> Inbound {
    Inbound::GlobalUserState {
        user_id: String::from("1"),
        display_name: Some(String::from("Bot")),
        color: Some(Color(1, 2, 3)),
        emote_sets: vec![String::from("0")],
        global_badges: vec![Badge { name: String::from("b"), version: String::from("1") }],
    }
}

#[test]
fn requests_are_encoded_as_the_codec_does() {
    let lines = |kind: WriteKind| kind.frames();
    assert_eq!(lines(WriteKind::join_channel("museun")), vec!["JOIN #museun\r\n"]);
    assert_eq!(lines(WriteKind::join_channel("#museun")), vec!["JOIN #museun\r\n"]);
    assert_eq!(lines(WriteKind::part_channel("museun")), vec!["PART #museun\r\n"]);
    assert_eq!(lines(WriteKind::send_raw("hello world")), vec!["hello world\r\n"]);
    assert_eq!(
        lines(WriteKind::privmsg(&message("x"), "hello, world")),
        vec!["PRIVMSG #museun :hello, world\r\n"]
    );
    assert_eq!(
        lines(WriteKind::reply(&message("x"), "Kappa")),
        vec!["@reply-parent-msg-id=test_msg_id PRIVMSG #museun :Kappa\r\n"]
    );
    assert_eq!(lines(WriteKind::quit()), vec!["QUIT\r\n"]);
    assert_eq!(keepalive_ping(), "PING twitch_bot+0.1.0\r\n");
    assert_eq!(keepalive_pong(), "PONG :tmi.twitch.tv\r\n");
    assert_eq!(
        registration("shaken_bot", "hunter2"),
        "CAP REQ twitch.tv/commands\r\nCAP REQ twitch.tv/membership\r\nCAP REQ twitch.tv/tags\r\nPASS hunter2\r\nNICK shaken_bot\r\n"
    );
}

#[test]
fn what_is_encoded_is_what_the_codec_reads() {
    let line = WriteKind::reply(&message("x"), "hello there").to_line();
    let parsed = twitch_message::parse(&line).unwrap().message;
    assert_eq!(parsed.tags.get("reply-parent-msg-id"), Some("test_msg_id"));
    assert_eq!(parsed.args.first().map(|a| a.as_ref()), Some("#museun"));
    assert_eq!(parsed.data.as_deref(), Some("hello there"));
    let line = WriteKind::privmsg(&message("x"), "plain").to_line();
    let parsed = twitch_message::parse(&line).unwrap().message;
    assert_eq!(parsed.tags.get("reply-parent-msg-id"), None);
    assert_eq!(parsed.data.as_deref(), Some("plain"));
}

#[test]
fn a_text_of_several_lines_is_sent_line_by_line() {
    let say = WriteKind::privmsg(&message("x"), "  one \n two\n\n three  ");
    assert_eq!(
        say.frames(),
        vec![
            "PRIVMSG #museun :one\r\n",
            "PRIVMSG #museun :two\r\n",
            "PRIVMSG #museun :\r\n",
            "PRIVMSG #museun :three\r\n"
        ]
    );
    assert_eq!(say.to_line(), "PRIVMSG #museun :  one \n two\n\n three  \r\n");
    let reply = WriteKind::reply(&message("x"), "a\nb");
    assert_eq!(
        reply.frames(),
        vec![
            "@reply-parent-msg-id=test_msg_id PRIVMSG #museun :a\r\n",
            "@reply-parent-msg-id=test_msg_id PRIVMSG #museun :b\r\n"
        ]
    );
    assert_eq!(WriteKind::privmsg(&message("x"), "").frames(), vec!["PRIVMSG #museun :\r\n"]);
    assert!(WriteKind::quit().is_quit());
    assert!(!say.is_quit());
}

#[test]
fn config_defaults() {
    let config = Config::new("name", "token");
    assert_eq!(config.name, "name");
    assert_eq!(config.token, "token");
    assert_eq!(config.ping_delay, 30_000);
    assert_eq!(DEFAULT_PING_DELAY, 30_000);
    let config = config.with_ping_delay(5);
    assert_eq!((config.name.as_str(), config.token.as_str(), config.ping_delay), ("name", "token", 5));
    let client = Client::new(config);
    assert_eq!(client.timeout(), 5);
    assert_eq!(
        client.registration(),
        "CAP REQ twitch.tv/commands\r\nCAP REQ twitch.tv/membership\r\nCAP REQ twitch.tv/tags\r\nPASS token\r\nNICK name\r\n"
    );
}

#[test]
fn pending_writes_are_drained() {
    let mut client = Client::new(Config::new("bot", "token"));
    client.drain_pending_writes(vec![
        WriteKind::join_channel("a"),
        WriteKind::send_raw("x"),
        WriteKind::join_channel("b"),
        WriteKind::join_channel("a"),
        WriteKind::privmsg(&message("m"), "hi"),
        WriteKind::part_channel("c"),
    ]);
    assert_eq!(client.channels, vec!["a", "b"]);
    assert_eq!(client.queue.len(), 2);
    assert!(matches!(&client.queue[0], WriteKind::Raw { raw } if raw == "x"));
    assert!(matches!(&client.queue[1], WriteKind::Privmsg { data, .. } if data == "hi"));
    client.drain_pending_writes(vec![WriteKind::part_channel("a"), WriteKind::quit()]);
    assert_eq!(client.channels, vec!["b"]);
    assert_eq!(client.queue.len(), 3);
    client.drain_pending_writes(Vec::new());
    assert_eq!(client.channels, vec!["b"]);
    assert_eq!(client.queue.len(), 3);
}

#[test]
fn channels_are_rejoined_before_anything_is_flushed() {
    let mut client = Client::new(Config::new("bot", "token"));
    client.drain_pending_writes(vec![
        WriteKind::join_channel("first"),
        WriteKind::send_raw("queued"),
        WriteKind::join_channel("#second"),
    ]);
    assert_eq!(client.start_session(), vec!["JOIN #first\r\n", "JOIN #second\r\n"]);
    let step = client.step(Event::Message(Inbound::Ready { name: String::from("bot") }), 1);
    assert!(sent(&step.effects).is_empty());
    let step = client.step(Event::Message(global_user_state()), 2);
    assert_eq!(sent(&step.effects), vec!["queued\r\n"]);
    let step = client.step(Event::ReadFailed, 3);
    assert!(matches!(step.flow, Flow::Failed(Error::CannotRead)));
    client.drain_pending_writes(vec![WriteKind::send_raw("later")]);
    assert_eq!(client.start_session(), vec!["JOIN #first\r\n", "JOIN #second\r\n"]);
    assert!(client.name.is_none());
    assert!(!client.identified);
    assert_eq!(client.queue.len(), 1);
}

#[test]
fn a_timeout_sends_one_ping() {
    let mut client = Client::new(Config::new("bot", "token"));
    client.start_session();
    for now in 0..5 {
        let step = client.step(Event::Timeout, now);
        assert_eq!(step.effects.len(), 1);
        assert_eq!(sent(&step.effects), vec!["PING twitch_bot+0.1.0\r\n"]);
        assert!(matches!(step.flow, Flow::Continue));
    }
    assert!(client.queue.is_empty());
    assert!(client.tracker.last_seen.is_none());
}

#[test]
fn writes_wait_for_the_identity() {
    let mut client = Client::new(Config::new("bot", "token"));
    client.start_session();
    let step = client.step(Event::Write(WriteKind::send_raw("one")), 0);
    assert!(step.effects.is_empty());
    client.step(Event::Message(Inbound::Ready { name: String::from("bot") }), 1);
    let step = client.step(Event::Write(WriteKind::join_channel("chan")), 2);
    assert!(step.effects.is_empty());
    assert_eq!(client.queue.len(), 2);
    let step = client.step(Event::Message(global_user_state()), 3);
    assert_eq!(step.effects.len(), 4);
    match &step.effects[0] {
        Effect::Connected(identity) => {
            assert_eq!(identity.user_id, "1");
            assert_eq!(identity.name, "bot");
            assert_eq!(identity.display_name.as_deref(), Some("Bot"));
            assert_eq!(identity.color, Some(Color(1, 2, 3)));
            assert_eq!(identity.emote_sets, vec!["0"]);
            assert_eq!(identity.global_badges.len(), 1);
        }
        other => panic!("{other:?}"),
    }
    assert_eq!(sent(&step.effects), vec!["one\r\n", "JOIN #chan\r\n"]);
    assert!(matches!(step.effects[3], Effect::Message));
    assert!(matches!(step.flow, Flow::Continue));
    assert!(client.identified);
    assert!(client.queue.is_empty());
    let step = client.step(Event::Write(WriteKind::send_raw("two")), 4);
    assert_eq!(sent(&step.effects), vec!["two\r\n"]);
    assert!(matches!(step.flow, Flow::Continue));
    let step = client.step(Event::Write(WriteKind::quit()), 5);
    assert_eq!(sent(&step.effects), vec!["QUIT\r\n"]);
    assert!(matches!(step.flow, Flow::Finished));
}

#[test]
fn a_queued_quit_ends_the_session_once_flushed() {
    let mut client = Client::new(Config::new("bot", "token"));
    client.drain_pending_writes(vec![
        WriteKind::send_raw("a"),
        WriteKind::quit(),
        WriteKind::send_raw("b"),
    ]);
    client.start_session();
    client.step(Event::Message(Inbound::Ready { name: String::from("bot") }), 1);
    let step = client.step(Event::Message(global_user_state()), 2);
    assert_eq!(step.effects.len(), 3);
    assert!(matches!(step.effects[0], Effect::Connected(_)));
    assert_eq!(sent(&step.effects), vec!["a\r\n", "QUIT\r\n"]);
    assert!(matches!(step.flow, Flow::Finished));
    assert_eq!(client.queue.len(), 1);
}

#[test]
fn messages_are_handed_on() {
    let mut client = Client::new(Config::new("bot", "token"));
    client.start_session();
    let join = |user: &str| Inbound::Join { user: String::from(user), channel: String::from("#c") };
    let part = |user: &str| Inbound::Part { user: String::from(user), channel: String::from("#c") };
    let step = client.step(Event::Message(join("bot")), 1);
    assert_eq!(step.effects.len(), 1);
    assert!(matches!(step.effects[0], Effect::Message));
    client.step(Event::Message(Inbound::Ready { name: String::from("bot") }), 2);
    let step = client.step(Event::Message(join("bot")), 3);
    assert!(matches!(&step.effects[..], [Effect::Joined(c), Effect::Message] if c == "#c"));
    let step = client.step(Event::Message(join("other")), 4);
    assert!(matches!(&step.effects[..], [Effect::Message]));
    let step = client.step(Event::Message(part("bot")), 5);
    assert!(matches!(&step.effects[..], [Effect::Parted(c), Effect::Message] if c == "#c"));
    let step = client.step(Event::Message(part("other")), 6);
    assert!(matches!(&step.effects[..], [Effect::Message]));
    let step = client.step(Event::Message(Inbound::Privmsg(message("hi"))), 7);
    assert!(matches!(&step.effects[..], [Effect::Privmsg(m), Effect::Message] if m.data == "hi"));
    let step = client.step(Event::Message(Inbound::Other), 8);
    assert!(matches!(&step.effects[..], [Effect::Message]));
    assert_eq!(client.tracker.last_seen, Some(8));
    let step = client.step(Event::WriterClosed, 9);
    assert!(step.effects.is_empty());
    assert!(matches!(step.flow, Flow::Finished));
}

#[test]
fn keepalives_do_not_come_in_a_burst() {
    let mut tracker = PingTracker::new(100);
    assert_eq!(tracker.threshold(), 100);
    assert!(!tracker.should_pong(1_000));
    tracker.update(1_000);
    assert!(!tracker.should_pong(1_099));
    assert!(tracker.should_pong(1_100));
    assert!(!tracker.should_pong(1_100));
    assert!(!tracker.should_pong(1_199));
    assert!(tracker.should_pong(1_200));
    tracker.update(1_250);
    assert!(!tracker.should_pong(1_300));
    assert!(!tracker.should_pong(900));
    assert!(tracker.should_pong(1_350));
    let mut client = Client::new(Config::new("bot", "token").with_ping_delay(100));
    client.start_session();
    assert_eq!(client.pong_due(50), None);
    client.step(Event::Message(Inbound::Other), 50);
    assert_eq!(client.pong_due(149), None);
    assert_eq!(client.pong_due(150).as_deref(), Some("PONG :tmi.twitch.tv\r\n"));
    assert_eq!(client.pong_due(151), None);
}

#[test]
fn reconnect_policy() {
    assert_eq!(Reconnect::Never.delay(), None);
    assert_eq!(Reconnect::Always.delay(), Some(10_000));
    assert_eq!(Reconnect::After(250).delay(), Some(250));
    assert_eq!(DEFAULT_RECONNECT_DELAY, 10_000);
    assert_eq!(next_attempt(Ok(())), None);
    assert_eq!(next_attempt(Err(Reconnect::Never)), None);
    assert_eq!(next_attempt(Err(Reconnect::Always)), Some(10_000));
    assert_eq!(next_attempt(Err(Reconnect::After(7))), Some(7));
}

#[test]
fn errors_say_what_is_wrong() {
    assert_eq!(Error::CannotWrite.to_string(), "Cannot write to the socket");
    assert_eq!(Error::CannotRegister.to_string(), "Cannot register with the IRC server");
    assert_eq!(Error::CannotRead.to_string(), "Cannot read from the socket");
    assert_eq!(
        Error::CannotInit { error: String::from("no") }.to_string(),
        "Cannot initialize handler: no"
    );
}
