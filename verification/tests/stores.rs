use twitch_bot::{
    Access, ChatMessage, Command, CommandFile, CommandFileError, Context, ExampleArgs,
    HelpRegistry, Arguments, Response, ResponseBuilder, TextMap, UserCommand, UserDefined,
    UserDefinedError, WriteKind,
};

fn message(user_id: Option<&str>, data: &str) -> ChatMessage {
    ChatMessage {
        channel: String::from("#test"),
        sender: String::from("test_user"),
        data: String::from(data),
        user_id: user_id.map(String::from),
        msg_id: Some(String::from("test_msg_id")),
        moderator: false,
        broadcaster: false,
        subscriber: false,
        vip: false,
    }
}

fn command(name: &str) -> Command {
    Command::builder("given", name, &format!("does {name}")).build().unwrap()
}

fn published(help: &HelpRegistry) -> Vec<String> {
    help.get_all().iter().map(|(name, _)| String::from(*name)).collect()
}

#[test]
fn text_map_keeps_its_keys_in_order() {
    let mut map: TextMap<u32> = TextMap::new();
    assert_eq!(map.len(), 0);
    assert_eq!(map.insert(String::from("b"), 2), None);
    assert_eq!(map.insert(String::from("a"), 1), None);
    assert_eq!(map.insert(String::from("c"), 3), None);
    assert_eq!(map.insert(String::from("b"), 20), Some(2));
    assert_eq!(map.len(), 3);
    let keys: Vec<&str> = (0..map.len()).map(|i| map.key_at(i).as_str()).collect();
    assert_eq!(keys, vec!["a", "b", "c"]);
    let values: Vec<u32> = (0..map.len()).map(|i| *map.value_at(i)).collect();
    assert_eq!(values, vec![1, 20, 3]);
    assert_eq!(map.get("b"), Some(&20));
    assert_eq!(map.get("d"), None);
    assert!(map.contains_key("a"));
    assert!(!map.contains_key("ab"));
    if let Some(value) = map.get_mut("c") {
        *value += 1;
    }
    assert!(map.get_mut("zz").is_none());
    assert_eq!(map.get("c"), Some(&4));
    assert_eq!(map.remove("a"), Some(1));
    assert_eq!(map.remove("a"), None);
    assert_eq!(map.len(), 2);
    assert_eq!(TextMap::<u32>::default().len(), 0);
}

#[test]
fn a_store_that_was_never_loaded() {
    let mut store = CommandFile::new();
    assert!(matches!(store.lookup("x"), Err(CommandFileError::NotInitialized)));
    assert!(matches!(store.get_ref("x"), Err(CommandFileError::NotInitialized)));
    assert!(matches!(store.add(&command("!x")), Err(CommandFileError::NotInitialized)));
    assert_eq!(CommandFileError::NotInitialized.to_string(), "CommandFile is not initialized");
}

#[test]
fn loading_replaces_the_definitions_and_their_help() {
    let mut store = CommandFile::new();
    let mut help = HelpRegistry::new();
    help.register(&Command::builder("other", "!other", "stays").build().unwrap());
    let first = |_: &str| {
        Ok(vec![
            (String::from("one"), command("!one")),
            (String::from("two"), command("!two")),
            (String::from("one"), command("!uno")),
        ])
    };
    assert!(store.load_from_str("text", first, &mut help).is_ok());
    assert!(store.initialized);
    assert_eq!(store.lookup("one").map(|c| (c.id, c.command)).unwrap(), (String::from("one"), String::from("!uno")));
    assert_eq!(store.get_ref("two").map(|c| c.id.as_str()).unwrap(), "two");
    assert_eq!(published(&help), vec!["!uno", "!other", "!two"]);
    let second = |_: &str| Ok(vec![(String::from("two"), command("!zwei"))]);
    assert!(store.load_from_str("text", second, &mut help).is_ok());
    assert_eq!(published(&help), vec!["!other", "!zwei"]);
    match store.lookup("one") {
        Err(CommandFileError::IdNotFound { id }) => assert_eq!(id, "one"),
        other => panic!("{other:?}"),
    }
    let broken = |_: &str| Err(String::from("bad text"));
    match store.load_from_str("text", broken, &mut help) {
        Err(e) => assert_eq!(e.to_string(), "Cannot deserialize file: bad text"),
        Ok(()) => panic!("the text is bad"),
    }
    assert_eq!(published(&help), vec!["!other", "!zwei"]);
    assert!(store.lookup("two").is_ok());
    let gone = store.add(&Command::builder("two", "!dos", "d").build().unwrap()).unwrap();
    assert_eq!(gone.map(|c| c.command).as_deref(), Some("!zwei"));
    assert!(store.add(&Command::builder("new", "!new", "d").build().unwrap()).unwrap().is_none());
    assert_eq!(
        CommandFileError::IdNotFound { id: String::from("x") }.to_string(),
        "Command id 'x' not found"
    );
    assert_eq!(
        CommandFileError::CannotReadFile { error: String::from("e") }.to_string(),
        "Cannot read file: e"
    );
}

#[test]
fn user_defined_commands_are_added_changed_and_removed() {
    let mut help = HelpRegistry::new();
    let mut commands = UserDefined::default();
    let ok = |_: &UserDefined| Ok(());
    assert!(commands.add("!hi", "hello!", ok, &mut help).is_ok());
    assert!(commands.add("!bye", "goodbye!", ok, &mut help).is_ok());
    match commands.add("!hi", "again", ok, &mut help) {
        Err(e) => assert_eq!(e.to_string(), "command already exists: !hi"),
        Ok(()) => panic!("the command exists"),
    }
    assert_eq!(commands.get_all_names(), vec!["!bye", "!hi"]);
    assert_eq!(commands.find("!hi").map(|c| c.body.as_str()), Some("hello!"));
    assert!(commands.find("!no").is_none());
    assert!(commands.find_mut("!no").is_none());
    if let Some(command) = commands.find_mut("!bye") {
        command.body.push_str(" see you");
    }
    assert_eq!(commands.find("!bye").map(|c| c.body.as_str()), Some("goodbye! see you"));
    assert_eq!(help.lookup("!bye").map(|h| h.description.as_str()), Some("goodbye!"));
    assert_eq!(published(&help), vec!["!bye", "!hi"]);
    assert_eq!(help.lookup("!hi").map(|h| h.description.as_str()), Some("hello!"));
    let restrict = |mut c: UserCommand| {
        c.body = String::from("hello, you");
        c.allowed.push(Access::UserId { id: String::from("42") });
        c
    };
    assert!(commands.update("!hi", restrict, ok, &mut help).is_ok());
    assert_eq!(help.lookup("!hi").map(|h| h.description.as_str()), Some("hello, you"));
    assert_eq!(help.lookup("!hi").map(|h| h.access.len()), Some(1));
    match commands.update("!no", |c| c, ok, &mut help) {
        Err(e) => assert_eq!(e.to_string(), "command does not exist: !no"),
        Ok(()) => panic!("there is no such command"),
    }
    let full = |_: &UserDefined| Err(String::from("disk full"));
    match commands.add("!new", "n", full, &mut help) {
        Err(UserDefinedError::SaveError { error }) => assert_eq!(error, "disk full"),
        other => panic!("{other:?}"),
    }
    assert!(commands.find("!new").is_some());
    assert_eq!(commands.remove("!new", ok, &mut help).map(|c| c.body).unwrap(), "n");
    assert!(matches!(
        commands.remove("!new", ok, &mut help),
        Err(UserDefinedError::CommandDoesNotExist { .. })
    ));
    assert_eq!(published(&help), vec!["!bye", "!hi"]);
    assert_eq!(UserDefinedError::SaveError { error: String::from("e") }.to_string(), "cannot save: e");
    assert_eq!(UserDefinedError::LoadError { error: String::from("e") }.to_string(), "cannot load: e");
}

#[test]
fn user_defined_commands_answer() {
    let mut help = HelpRegistry::new();
    let mut commands = UserDefined::default();
    let ok = |_: &UserDefined| Ok(());
    commands.add("!hi", "hello!", ok, &mut help).unwrap();
    commands
        .update("!hi", |mut c| { c.allowed.push(Access::UserId { id: String::from("42") }); c }, ok, &mut help)
        .unwrap();
    match commands.dispatch(&message(Some("42"), "!hi")) {
        Some(WriteKind::Privmsg { target, data }) => {
            assert_eq!(target, "#test");
            assert_eq!(data, "hello!");
        }
        other => panic!("{other:?}"),
    }
    assert!(commands.dispatch(&message(Some("7"), "!hi")).is_none());
    assert!(commands.dispatch(&message(Some("42"), "!hi there")).is_none());
    assert!(commands.dispatch(&message(None, "!hi")).is_some());
}

#[test]
fn user_defined_commands_are_loaded() {
    let mut help = HelpRegistry::new();
    let load = |_: &str| {
        let mut commands = UserDefined::default();
        commands.commands.insert(String::from("!b"), UserCommand { body: String::from("B"), allowed: Vec::new() });
        commands.commands.insert(String::from("!a"), UserCommand::default());
        Ok(commands)
    };
    let commands = UserDefined::load_from_str("text", load, &mut help).unwrap();
    assert_eq!(commands.get_all_names(), vec!["!a", "!b"]);
    assert_eq!(published(&help), vec!["!a", "!b"]);
    assert_eq!(help.lookup("!b").map(|h| h.description.as_str()), Some("B"));
    match UserDefined::load_from_str("text", |_| Err(String::from("bad")), &mut help) {
        Err(e) => assert_eq!(e.to_string(), "cannot load: bad"),
        Ok(_) => panic!("the text is bad"),
    }
    assert_eq!(UserDefined::fake_command_id("!x"), "__user_defined_!x");
    let fake = UserDefined::fake_command("!x", "body", vec![Access::Vip]);
    assert_eq!(fake.id, "__user_defined_!x");
    assert_eq!(fake.command, "!x");
    assert_eq!(fake.description, "body");
    assert_eq!(fake.allowed, vec![Access::Vip]);
    assert_eq!(fake.arguments, ExampleArgs::default());
    assert!(fake.aliases.is_empty());
}

#[test]
fn responses_are_built() {
    assert_eq!(
        Response::new(Some("id"), "#c", "text"),
        Response {
            reply_parent_msg_id: Some(String::from("id")),
            channel: String::from("#c"),
            data: String::from("text")
        }
    );
    assert_eq!(Response::new(None, "#c", "text").reply_parent_msg_id, None);
    assert_eq!(Response::builder("text").build(), Response::new(None, "#test", "text"));
    assert_eq!(
        Response::builder("text").reply_parent_msg_id("id").channel("#c").data("other").build(),
        Response::new(Some("id"), "#c", "other")
    );
    assert_eq!(ResponseBuilder::default().build(), Response::new(None, "#test", ""));
}

#[test]
fn a_context_answers_the_message() {
    let context = Context {
        msg: std::sync::Arc::new(message(Some("42"), "!hi")),
        arguments: Arguments::default(),
    };
    assert_eq!(context.sender(), "test_user");
    assert_eq!(context.channel(), "#test");
    assert_eq!(context.user_id(), "42");
    assert_eq!(context.message_id(), "test_msg_id");
    assert_eq!(context.reply("r").to_line(), "@reply-parent-msg-id=test_msg_id PRIVMSG #test :r\r\n");
    assert_eq!(context.say("s").to_line(), "PRIVMSG #test :s\r\n");
}
