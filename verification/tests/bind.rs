use twitch_bot::{
    Access, BindOptions, Binding, Bound, ChatMessage, Command, CommandFile, Decision, Dispatch,
    Dispatcher, ExampleArgs, Outcome,
};

fn message(user_id: &str, data: &str) -> ChatMessage {
    ChatMessage {
        channel: String::from("#test"),
        sender: String::from("test_user"),
        data: String::from(data),
        user_id: Some(String::from(user_id)),
        msg_id: Some(String::from("test_msg_id")),
        moderator: false,
        broadcaster: false,
        subscriber: false,
        vip: false,
    }
}

fn hello() -> Command {
    Command::builder("hello_id", "!hello", "says hello")
        .alias("!hi")
        .args(ExampleArgs::parse("<name> <rest..>").unwrap())
        .allow(Access::UserId { id: String::from("42") })
        .build()
        .unwrap()
}

fn options(usage: bool, error: bool, access: bool) -> BindOptions {
    let mut options = BindOptions::default();
    options.report_invalid_usage = usage;
    options.report_command_error = error;
    options.report_access_error = access;
    options
}

fn invoked(decision: &Decision, key: &str) -> Option<String> {
    match decision {
        Decision::Invoke(arguments) => arguments.get(key).map(String::from),
        _ => None,
    }
}

#[test]
fn default_options() {
    let options = BindOptions::default();
    assert!(options.report_invalid_usage);
    assert!(options.report_command_error);
    assert!(!options.report_access_error);
    assert!(!options.use_command_file);
}

#[test]
fn extract_args_of_a_command() {
    let cmd = hello();
    let found = Binding::extract_args(&cmd, &message("42", "!hi a b c")).unwrap().unwrap();
    assert_eq!(found.get("name"), Some("a"));
    assert_eq!(found.get("rest"), Some("b c"));
    assert_eq!(
        Binding::extract_args(&cmd, &message("42", "!hello")).unwrap_err(),
        "usage: !hello <name> <rest..>"
    );
    assert!(Binding::extract_args(&cmd, &message("42", "hello a")).unwrap().is_none());
    let bare = Command::builder("id", "!ping", "pongs").build().unwrap();
    assert!(Binding::extract_args(&bare, &message("1", "!ping")).unwrap().is_some());
    assert!(Binding::extract_args(&bare, &message("1", "!ping now")).unwrap().is_none());
    assert!(Binding::extract_args(&bare, &message("1", "!pin")).unwrap().is_none());
}

#[test]
fn a_sender_who_may_use_the_command_calls_the_handler() {
    let decision = Binding::check_cmd_access(&hello(), &message("42", "!hello a b"), BindOptions::default());
    assert_eq!(invoked(&decision, "name").as_deref(), Some("a"));
    assert_eq!(invoked(&decision, "rest").as_deref(), Some("b"));
}

#[test]
fn bad_usage_is_reported_if_asked_for() {
    let cmd = hello();
    let msg = message("42", "!hello");
    match Binding::check_cmd_access(&cmd, &msg, options(true, true, false)) {
        Decision::Reply(text) => assert_eq!(text, "usage: !hello <name> <rest..>"),
        other => panic!("{other:?}"),
    }
    assert!(matches!(
        Binding::check_cmd_access(&cmd, &msg, options(false, true, true)),
        Decision::Ignore
    ));
}

#[test]
fn refusal_is_reported_if_asked_for() {
    let cmd = hello();
    for data in ["!hello a", "!hello"] {
        let msg = message("7", data);
        match Binding::check_cmd_access(&cmd, &msg, options(true, true, true)) {
            Decision::Reply(text) => assert_eq!(text, "you cannot use that command"),
            other => panic!("{other:?}"),
        }
        assert!(matches!(
            Binding::check_cmd_access(&cmd, &msg, options(true, true, false)),
            Decision::Ignore
        ));
    }
    assert!(matches!(
        Binding::check_cmd_access(&cmd, &message("7", "other"), options(true, true, true)),
        Decision::Ignore
    ));
}

#[test]
fn the_error_of_a_handler_is_reported_if_asked_for() {
    let loud = Binding::new(hello(), options(true, true, false));
    let quiet = Binding::new(hello(), options(true, false, false));
    assert_eq!(loud.report(Some(String::from("boom"))).as_deref(), Some("boom"));
    assert_eq!(loud.report(None), None);
    assert_eq!(quiet.report(Some(String::from("boom"))), None);
    assert_eq!(().as_error(), None);
    assert_eq!(Ok::<(), String>(()).as_error(), None);
    assert_eq!(Err::<(), String>(String::from("boom")).as_error().as_deref(), Some("boom"));
}

#[test]
fn a_binding_goes_by_the_store_if_it_uses_it() {
    let mut store = CommandFile::new();
    let mut help = twitch_bot::HelpRegistry::new();
    let changed = Command::builder("x", "!hallo", "sagt hallo").build().unwrap();
    store
        .load_from_str("", |_| Ok(vec![(String::from("hello_id"), changed)]), &mut help)
        .unwrap();
    let mut uses = BindOptions::default();
    uses.use_command_file = true;
    let live = Binding::new(hello(), uses);
    let fixed = Binding::new(hello(), BindOptions::default());
    let msg = message("7", "!hallo");
    assert!(matches!(live.decide(&msg, &store), Decision::Invoke(_)));
    assert!(matches!(fixed.decide(&msg, &store), Decision::Ignore));
    let empty = CommandFile::new();
    assert!(matches!(live.decide(&msg, &empty), Decision::Ignore));
    assert!(matches!(live.decide(&message("42", "!hello a"), &empty), Decision::Invoke(_)));
}

fn dispatcher() -> Dispatcher {
    Dispatcher::builder()
        .with_help("!help", "tells what the commands do")
        .bind(hello(), options(true, true, true))
        .listen(BindOptions::default())
        .bind(Command::builder("ping_id", "!ping", "pongs").build().unwrap(), BindOptions::default())
        .into_dispatcher()
}

#[test]
fn the_help_command_answers_and_no_handler_runs() {
    let dispatcher = dispatcher();
    match dispatcher.dispatch(&message("7", "!help")) {
        Dispatch::Help(text) => assert_eq!(text, "!help !ping"),
        other => panic!("{other:?}"),
    }
    match dispatcher.dispatch(&message("42", "!help !hi")) {
        Dispatch::Help(text) => {
            assert_eq!(text, "!hello <name> <rest..>: says hello\navailable alias: !hi")
        }
        other => panic!("{other:?}"),
    }
    match dispatcher.dispatch(&message("7", "!help !hi")) {
        Dispatch::Help(text) => assert_eq!(text, "unknown command: !hi"),
        other => panic!("{other:?}"),
    }
    let help = dispatcher.help_cmd.as_ref().unwrap();
    assert_eq!(help.id, "__twitch_bot@0.1.0_help_command");
    assert_eq!(help.command, "!help");
    assert_eq!(help.arguments.usage, "<command?>");
}

#[test]
fn every_handler_gets_its_own_decision() {
    let dispatcher = dispatcher();
    assert_eq!(dispatcher.bound.len(), 3);
    assert!(matches!(dispatcher.bound[1], Bound::Listener(_)));
    match dispatcher.dispatch(&message("42", "!hello a")) {
        Dispatch::Handlers(decisions) => {
            assert_eq!(decisions.len(), 3);
            assert_eq!(invoked(&decisions[0], "name").as_deref(), Some("a"));
            assert!(matches!(decisions[1], Decision::Listen));
            assert!(matches!(decisions[2], Decision::Ignore));
        }
        other => panic!("{other:?}"),
    }
    match dispatcher.dispatch(&message("7", "!ping")) {
        Dispatch::Handlers(decisions) => {
            assert!(matches!(decisions[0], Decision::Ignore));
            assert!(matches!(decisions[1], Decision::Listen));
            assert!(matches!(decisions[2], Decision::Invoke(_)));
        }
        other => panic!("{other:?}"),
    }
}

#[test]
fn a_handler_that_fails_does_not_stop_the_others() {
    let ping = || Command::builder("ping_id", "!ping", "pongs").build().unwrap();
    let dispatcher = Dispatcher::builder()
        .bind(ping(), BindOptions::default())
        .bind(ping(), BindOptions::default())
        .bind(ping(), BindOptions::default())
        .into_dispatcher();
    let msg = message("7", "!ping");
    let decisions = match dispatcher.dispatch(&msg) {
        Dispatch::Handlers(decisions) => decisions,
        other => panic!("{other:?}"),
    };
    let handlers: [fn() -> Result<(), String>; 3] =
        [|| Ok(()), || Err(String::from("the second failed")), || Ok(())];
    let mut ran = Vec::new();
    let mut replies = Vec::new();
    for (index, decision) in decisions.iter().enumerate() {
        assert!(matches!(decision, Decision::Invoke(_)));
        let outcome = handlers[index]();
        ran.push(index);
        replies.push(format!("reply of {index}"));
        if let Some(text) = dispatcher.report(index, outcome.as_error()) {
            replies.push(text);
        }
    }
    assert_eq!(ran, vec![0, 1, 2]);
    assert_eq!(replies, vec!["reply of 0", "reply of 1", "the second failed", "reply of 2"]);
}

#[test]
fn help_is_registered_and_removed() {
    let mut dispatcher = dispatcher();
    let names = |d: &Dispatcher| -> Vec<String> {
        d.registry.get_all().iter().map(|(name, _)| String::from(*name)).collect()
    };
    assert_eq!(names(&dispatcher), vec!["!help", "!hello", "!ping"]);
    let extra = Command::builder("extra", "!extra", "more").build().unwrap();
    dispatcher.help_register(&extra);
    assert_eq!(names(&dispatcher), vec!["!help", "!extra", "!hello", "!ping"]);
    dispatcher.help_remove(&extra);
    assert_eq!(names(&dispatcher), vec!["!help", "!hello", "!ping"]);
}
