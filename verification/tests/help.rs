use twitch_bot::{Access, ChatMessage, Command, ExampleArgs, Help, HelpRegistry, TextMap};

fn message(user_id: &str) -> ChatMessage {
    ChatMessage {
        channel: String::from("#test"),
        sender: String::from("test_user"),
        data: String::from("!help"),
        user_id: Some(String::from(user_id)),
        msg_id: Some(String::from("test_msg_id")),
        moderator: false,
        broadcaster: false,
        subscriber: false,
        vip: false,
    }
}

fn command(id: &str, name: &str, usage: &str, aliases: &[&str]) -> Command {
    let mut builder = Command::builder(id, name, &format!("does {name}"));
    if !usage.is_empty() {
        builder = builder.args(ExampleArgs::parse(usage).unwrap());
    }
    for alias in aliases {
        builder = builder.alias(alias);
    }
    builder.build().unwrap()
}

fn registry() -> HelpRegistry {
    let mut registry = HelpRegistry::new();
    registry.register(&command("c", "!zeta", "<a> <b?>", &[]));
    registry.register(&command("a", "!beta", "", &["!b"]));
    registry.register(&command("b", "!alpha", "<x..>", &["!a", "!al"]));
    let secret = Command::builder("d", "!secret", "for one user")
        .allow(Access::UserId { id: String::from("42") })
        .build()
        .unwrap();
    registry.register(&secret);
    registry
}

fn asked(name: Option<&str>) -> TextMap<String> {
    let mut map = TextMap::new();
    if let Some(name) = name {
        map.insert(String::from("command"), String::from(name));
    }
    map
}

#[test]
fn the_registry_is_kept_in_the_order_of_the_ids() {
    let registry = registry();
    let names: Vec<&str> = registry.get_all().iter().map(|(name, _)| *name).collect();
    assert_eq!(names, vec!["!beta", "!alpha", "!zeta", "!secret"]);
    let helps: Vec<&str> = registry.get_all().iter().map(|(_, help)| help.usage.as_str()).collect();
    assert_eq!(helps, vec!["", "<x..>", "<a> <b?>", ""]);
}

#[test]
fn register_overwrites_and_remove_deletes() {
    let mut registry = registry();
    registry.register(&command("a", "!gamma", "", &[]));
    assert_eq!(registry.get_all().len(), 4);
    assert!(registry.lookup("!beta").is_none());
    assert_eq!(registry.lookup("!gamma").map(|h| h.description.as_str()), Some("does !gamma"));
    registry.remove("a");
    assert_eq!(registry.get_all().len(), 3);
    assert!(registry.lookup("!gamma").is_none());
    registry.remove("missing");
    assert_eq!(registry.get_all().len(), 3);
}

#[test]
fn lookup_goes_by_name_and_alias() {
    let registry = registry();
    assert_eq!(registry.lookup("!alpha").map(|h| h.command.as_str()), Some("!alpha"));
    assert_eq!(registry.lookup("!al").map(|h| h.command.as_str()), Some("!alpha"));
    assert_eq!(registry.lookup("!b").map(|h| h.command.as_str()), Some("!beta"));
    assert!(registry.lookup("b").is_none());
    let mut twice = HelpRegistry::default();
    twice.register(&command("2", "!x", "", &[]));
    twice.register(&command("1", "!y", "", &["!x"]));
    assert_eq!(twice.lookup("!x").map(|h| h.command.as_str()), Some("!y"));
}

#[test]
fn the_help_of_a_command_is_what_it_publishes() {
    let cmd = command("b", "!alpha", "<x..>", &["!a", "!al"]);
    let help = Help::of(&cmd);
    assert_eq!(help.command, "!alpha");
    assert_eq!(help.aliases, vec!["!a", "!al"]);
    assert_eq!(help.description, "does !alpha");
    assert_eq!(help.usage, "<x..>");
    assert!(help.access.is_empty());
    assert!(help.is_named("!al"));
    assert!(!help.is_named("!alp"));
    assert_eq!(help.duplicate().usage, "<x..>");
}

#[test]
fn help_about_one_command() {
    let registry = registry();
    let someone = message("7");
    assert_eq!(
        registry.help_reply(&asked(Some("!zeta")), &someone),
        "!zeta <a> <b?>: does !zeta"
    );
    assert_eq!(
        registry.help_reply(&asked(Some("!b")), &someone),
        "!beta: does !beta\navailable alias: !b"
    );
    assert_eq!(
        registry.help_reply(&asked(Some("!alpha")), &someone),
        "!alpha <x..>: does !alpha\navailable aliases: !a, !al"
    );
}

#[test]
fn help_does_not_tell_of_what_the_sender_may_not_use() {
    let registry = registry();
    assert_eq!(
        registry.help_reply(&asked(Some("!secret")), &message("7")),
        "unknown command: !secret"
    );
    assert_eq!(
        registry.help_reply(&asked(Some("!nothing")), &message("7")),
        "unknown command: !nothing"
    );
    assert_eq!(
        registry.help_reply(&asked(Some("!secret")), &message("42")),
        "!secret: for one user"
    );
}

#[test]
fn help_about_nothing_lists_the_commands() {
    let registry = registry();
    assert_eq!(
        registry.help_reply(&asked(None), &message("7")),
        "!beta (alias: !b) !alpha (aliases: !a, !al) !zeta"
    );
    assert_eq!(
        registry.help_reply(&asked(None), &message("42")),
        "!beta (alias: !b) !alpha (aliases: !a, !al) !zeta !secret"
    );
    assert_eq!(HelpRegistry::new().help_reply(&asked(None), &message("7")), "");
}

#[test]
fn help_lists_ten_commands_to_a_line() {
    let mut registry = HelpRegistry::new();
    for n in 0..12 {
        registry.register(&command(&format!("id{n:02}"), &format!("!c{n}"), "", &[]));
    }
    assert_eq!(
        registry.help_reply(&asked(None), &message("7")),
        "!c0 !c1 !c2 !c3 !c4 !c5 !c6 !c7 !c8 !c9\n !c10 !c11"
    );
}
