use twitch_bot::command::{copy_access, is_granted};
use twitch_bot::{
    Access, ChatMessage, Command, CommandBuilderError, ExampleArgs, PrivmsgAccess,
};

fn message(sender: &str, user_id: Option<&str>, data: &str) -> ChatMessage {
    ChatMessage {
        channel: String::from("#test"),
        sender: String::from(sender),
        data: String::from(data),
        user_id: user_id.map(String::from),
        msg_id: Some(String::from("test_msg_id")),
        moderator: false,
        broadcaster: false,
        subscriber: false,
        vip: false,
    }
}

fn hello() -> Command {
    Command::builder("hello_id", "hello", "says hello")
        .alias("hi")
        .args(ExampleArgs::parse("<name?>").unwrap())
        .build()
        .unwrap()
}

#[test]
fn an_alias_matches_as_the_name_does() {
    let cmd = hello();
    assert_eq!(cmd.tail("hi world"), Some("world"));
    assert_eq!(cmd.tail("hello world"), Some("world"));
    assert_eq!(cmd.tail("hi world"), cmd.tail("hello world"));
    assert_eq!(cmd.tail("hi"), cmd.tail("hello"));
    assert!(cmd.is_command_match("hi"));
    assert!(cmd.is_command_match("hello"));
    assert!(!cmd.is_command_match("hi world"));
}

#[test]
fn tail_follows_the_first_name_that_starts_the_text() {
    let cmd = hello();
    assert_eq!(cmd.tail("hello"), Some(""));
    assert_eq!(cmd.tail("hello   a  b  "), Some("a  b"));
    assert_eq!(cmd.tail("helloworld"), Some("world"));
    assert_eq!(cmd.tail("hell"), None);
    assert_eq!(cmd.tail(""), None);
    assert_eq!(cmd.tail(" hello"), None);
    let short = Command::builder("id", "h", "d").alias("hi").build().unwrap();
    assert_eq!(short.tail("hi world"), Some("i world"));
    let wide = Command::builder("id", "é", "d").build().unwrap();
    assert_eq!(wide.tail("a€"), None);
    assert_eq!(wide.tail("é x"), Some("x"));
}

#[test]
fn possible_commands_are_the_name_then_the_aliases() {
    let cmd = Command::builder("id", "a", "d").alias("b").alias("c").build().unwrap();
    assert_eq!(cmd.possible_commands(), vec!["a", "b", "c"]);
    assert_eq!(cmd.aliases, vec!["b", "c"]);
}

#[test]
fn a_duplicate_alias_is_refused_when_the_command_is_built() {
    let twice = Command::builder("id", "a", "d").alias("b").alias("c").alias("b");
    assert_eq!(twice.aliases, vec!["b", "c"]);
    assert_eq!(twice.duplicate.as_deref(), Some("b"));
    assert_eq!(
        twice.build(),
        Err(CommandBuilderError::DuplicateAlias { alias: String::from("b") })
    );
    let first = Command::builder("id", "a", "d").alias("x").alias("y").alias("y").alias("x").alias("z");
    assert_eq!(first.aliases, vec!["x", "y", "z"]);
    assert_eq!(
        first.allow(Access::Vip).args(ExampleArgs::default()).build(),
        Err(CommandBuilderError::DuplicateAlias { alias: String::from("y") })
    );
    assert_eq!(
        Command::builder("id", "a", " ").alias("b").alias("b").build(),
        Err(CommandBuilderError::MissingDescription)
    );
    assert_eq!(
        Command::builder("", "a", "d").alias("b").alias("b").build(),
        Err(CommandBuilderError::MissingId)
    );
    assert!(Command::builder("id", "a", "d").alias("b").alias("B").build().is_ok());
    assert_eq!(
        CommandBuilderError::DuplicateAlias { alias: String::from("b") }.to_string(),
        "Duplicate alias: b"
    );
}

#[test]
fn builder_trims_and_refuses_what_is_empty() {
    let cmd = Command::builder("  id ", " name\t", "\n what it does ")
        .allow(Access::Moderator)
        .allow(Access::Vip)
        .build()
        .unwrap();
    assert_eq!(cmd.id, "id");
    assert_eq!(cmd.command, "name");
    assert_eq!(cmd.description, "what it does");
    assert_eq!(cmd.allowed, vec![Access::Moderator, Access::Vip]);
    assert_eq!(cmd.arguments, ExampleArgs::default());
    assert!(cmd.aliases.is_empty());
    assert_eq!(Command::builder(" ", "", "").build(), Err(CommandBuilderError::MissingId));
    assert_eq!(Command::builder("id", " ", "").build(), Err(CommandBuilderError::MissingCommand));
    assert_eq!(
        Command::builder("id", "c", " \t").build(),
        Err(CommandBuilderError::MissingDescription)
    );
    assert_eq!(CommandBuilderError::MissingId.to_string(), "Missing id");
    assert_eq!(CommandBuilderError::MissingCommand.to_string(), "Missing command");
    assert_eq!(CommandBuilderError::MissingDescription.to_string(), "Missing description");
}

#[test]
fn an_empty_access_list_allows_any_sender() {
    assert!(message("someone", Some("1"), "x").is_allowed(&[]));
    assert!(message("someone", None, "x").is_allowed(&[]));
    assert!(hello().is_allowed(&message("someone", Some("1"), "x")));
}

#[test]
fn a_user_id_allows_that_sender_only() {
    let list = [Access::UserId { id: String::from("42") }];
    assert!(message("a", Some("42"), "x").is_allowed(&list));
    assert!(!message("a", Some("43"), "x").is_allowed(&list));
    assert!(!message("a", Some("4"), "x").is_allowed(&list));
    assert!(!message("42", Some(""), "x").is_allowed(&list));
    let cmd = Command::builder("id", "c", "d")
        .allow(Access::UserId { id: String::from("42") })
        .build()
        .unwrap();
    assert!(cmd.is_allowed(&message("a", Some("42"), "x")));
    assert!(!cmd.is_allowed(&message("a", Some("7"), "x")));
}

#[test]
fn a_sender_without_an_id_is_allowed() {
    let list = [Access::UserId { id: String::from("42") }, Access::Moderator];
    assert!(message("a", None, "x").is_allowed(&list));
}

#[test]
fn any_condition_that_holds_allows() {
    let mut moderator = message("mod", Some("1"), "x");
    moderator.moderator = true;
    let mut broadcaster = message("owner", Some("2"), "x");
    broadcaster.broadcaster = true;
    let mut subscriber = message("sub", Some("3"), "x");
    subscriber.subscriber = true;
    let mut vip = message("vip", Some("4"), "x");
    vip.vip = true;
    let plain = message("Plain", Some("5"), "x");
    assert!(is_granted(&Access::Moderator, &moderator));
    assert!(!is_granted(&Access::Moderator, &plain));
    assert!(is_granted(&Access::Broadcaster, &broadcaster));
    assert!(!is_granted(&Access::Broadcaster, &moderator));
    assert!(is_granted(&Access::Subscriber, &subscriber));
    assert!(!is_granted(&Access::Subscriber, &vip));
    assert!(is_granted(&Access::Vip, &vip));
    assert!(!is_granted(&Access::Vip, &subscriber));
    assert!(is_granted(&Access::User { name: String::from("plain") }, &plain));
    assert!(!is_granted(&Access::User { name: String::from("plain2") }, &plain));
    assert!(is_granted(&Access::All, &plain));
    let list = [Access::Moderator, Access::User { name: String::from("PLAIN") }];
    assert!(plain.is_allowed(&list));
    assert!(moderator.is_allowed(&list));
    assert!(!vip.is_allowed(&list));
    assert!(vip.is_allowed(&[Access::Subscriber, Access::All]));
}

#[test]
fn access_is_copied() {
    let list = vec![Access::Vip, Access::User { name: String::from("n") }, Access::default()];
    assert_eq!(copy_access(&list), list);
    assert_eq!(Access::default(), Access::All);
    assert_eq!(list[1].clone(), list[1]);
    assert_eq!(hello().clone(), hello());
}
