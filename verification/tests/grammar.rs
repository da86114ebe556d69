use twitch_bot::args::{ArgKind, ArgType, Arguments, ExampleArgs, ExampleError, Match};
use twitch_bot::dispatcher::help_grammar;

fn text(m: &Match, key: &str) -> Option<String> {
    match m {
        Match::Match(map) => map.get(key).cloned(),
        _ => None,
    }
}

#[test]
fn example_args_good_input() {
    for input in [
        "!hello",
        "!hello world",
        "!hello <world>",
        "!hello <world?>",
        "!hello <world..>",
        "!hello <world> <test?>",
        "!hello <world> <test?> <rest..>",
    ] {
        let _: ExampleArgs = input.parse().unwrap();
    }
}

#[test]
fn example_args_bad_input() {
    let bad_inputs = [
        ("", ExampleError::EmptyInput),
        (
            "<a?> <b>",
            ExampleError::OptionalBeforeRequired {
                key: String::from("a"),
            },
        ),
        (
            "<a> <b?> <c>",
            ExampleError::OptionalBeforeRequired {
                key: String::from("b"),
            },
        ),
        (
            "<a> <b..> <c?>",
            ExampleError::VariadicNotInTail {
                key: String::from("b"),
            },
        ),
        (
            "<a> <b..> <c..>",
            ExampleError::MultipleVariadic {
                keys: vec![String::from("b"), String::from("c")],
            },
        ),
        (
            "<a> <a..>",
            ExampleError::Duplicate {
                key: String::from("a"),
            },
        ),
    ];

    for (input, error) in bad_inputs {
        let err = input
            .parse::<ExampleArgs>()
            .expect_err("this is a bad input");
        assert_eq!(err, error)
    }
}

#[test]
fn compile_keeps_slots_in_order() {
    let g = ExampleArgs::parse("  !hello <world> <test?> <rest..>  ").unwrap();
    assert_eq!(g.usage, "!hello <world> <test?> <rest..>");
    let slots: Vec<(&str, ArgKind)> = g.args.iter().map(|a| (a.key.as_str(), a.kind)).collect();
    assert_eq!(
        slots,
        vec![
            ("world", ArgKind::Required),
            ("test", ArgKind::Optional),
            ("rest", ArgKind::Variadic)
        ]
    );
}

#[test]
fn compile_refuses_bad_keys() {
    assert_eq!(
        ExampleArgs::parse("<a b>").map(|g| g.args.len()),
        Ok(0),
    );
    assert_eq!(
        ExampleArgs::parse("<a!>"),
        Err(ExampleError::InvalidKey { key: String::from("a!") })
    );
    assert_eq!(
        ExampleArgs::parse("<>"),
        Err(ExampleError::InvalidKey { key: String::new() })
    );
    assert_eq!(
        ExampleArgs::parse("<a> <a!..>").map(|g| g.args.len()),
        Err(ExampleError::InvalidKey { key: String::from("a!") })
    );
    assert_eq!(
        ExampleArgs::parse("<a-b_C9?>").map(|g| g.args.len()),
        Ok(1)
    );
}

#[test]
fn extract_three_slots() {
    let g = ExampleArgs::parse("<a> <b?> <c..>").unwrap();
    let m = g.extract("x y z w");
    assert_eq!(text(&m, "a").as_deref(), Some("x"));
    assert_eq!(text(&m, "b").as_deref(), Some("y"));
    assert_eq!(text(&m, "c").as_deref(), Some("z w"));
    match m {
        Match::Match(map) => assert_eq!(map.len(), 3),
        _ => panic!("the text fits the grammar"),
    }
}

#[test]
fn extract_required_without_text() {
    let g = ExampleArgs::parse("<a>").unwrap();
    assert!(matches!(g.extract(""), Match::Required));
}

#[test]
fn extract_edge_cases() {
    let none = ExampleArgs::default();
    assert!(matches!(none.extract("x"), Match::NoMatch));
    match none.extract("") {
        Match::Match(map) => assert_eq!(map.len(), 0),
        _ => panic!("no text fits no slots"),
    }
    let opt = ExampleArgs::parse("<a?> <b..>").unwrap();
    match opt.extract("") {
        Match::Match(map) => assert_eq!(map.len(), 0),
        _ => panic!("optional slots may be left out"),
    }
    let m = opt.extract("one");
    assert_eq!(text(&m, "a").as_deref(), Some("one"));
    assert_eq!(text(&m, "b"), None);
    let m = opt.extract("one   two  three");
    assert_eq!(text(&m, "a").as_deref(), Some("one"));
    assert_eq!(text(&m, "b").as_deref(), Some("two  three"));
    let two = ExampleArgs::parse("<a> <b>").unwrap();
    let m = two.extract("x y z");
    assert_eq!(text(&m, "a").as_deref(), Some("x"));
    assert_eq!(text(&m, "b").as_deref(), Some("y"));
}

#[test]
fn a_variadic_slot_is_accepted_only_last_and_once() {
    assert!(ExampleArgs::parse("<a> <b?> <c..>").is_ok());
    assert!(ExampleArgs::parse("<c..>").is_ok());
    assert_eq!(
        ExampleArgs::parse("<c..> <a>"),
        Err(ExampleError::VariadicNotInTail { key: String::from("c") })
    );
    assert_eq!(
        ExampleArgs::parse("<a..> <b> <c..>"),
        Err(ExampleError::MultipleVariadic { keys: vec![String::from("a"), String::from("c")] })
    );
    assert_eq!(
        ExampleArgs::parse("<o?> <r> <v..> <x>"),
        Err(ExampleError::OptionalBeforeRequired { key: String::from("o") })
    );
}

#[test]
fn no_optional_slot_before_a_required_one() {
    assert!(ExampleArgs::parse("<a> <b> <c?> <d?>").is_ok());
    assert_eq!(
        ExampleArgs::parse("<a> <b?> <c?> <d>"),
        Err(ExampleError::OptionalBeforeRequired { key: String::from("c") })
    );
    let slots = [
        ArgType { key: String::from("a"), kind: ArgKind::Optional },
        ArgType { key: String::from("b"), kind: ArgKind::Required },
    ];
    assert_eq!(
        ExampleArgs::validate(&slots),
        Err(ExampleError::OptionalBeforeRequired { key: String::from("a") })
    );
    assert_eq!(ExampleArgs::validate(&[]), Ok(()));
}

#[test]
fn usage_round_trip() {
    for usage in ["<a>", "!hello <world> <test?> <rest..>", "plain words", "<a-b> <c_d?>"] {
        let g = ExampleArgs::parse(usage).unwrap();
        assert_eq!(g.usage, usage);
        assert_eq!(ExampleArgs::parse(&g.usage), Ok(g));
    }
    let g = ExampleArgs::parse(" \t<a>  <b?> \n").unwrap();
    assert_eq!(g.usage, "<a>  <b?>");
    assert_eq!(ExampleArgs::parse(&g.usage), Ok(g));
}

#[test]
fn the_help_grammar_is_what_its_usage_compiles_to() {
    assert_eq!(ExampleArgs::parse("<command?>"), Ok(help_grammar()));
}

#[test]
fn grammar_errors_say_what_is_wrong() {
    let key = String::from("k");
    assert_eq!(ExampleError::Duplicate { key: key.clone() }.to_string(), "duplicate key: k");
    assert_eq!(
        ExampleError::MultipleVariadic { keys: vec![String::from("a"), String::from("b")] }.to_string(),
        "multiple variadics: a, b"
    );
    assert_eq!(
        ExampleError::VariadicNotInTail { key: key.clone() }.to_string(),
        "variadic 'k' not in tail position"
    );
    assert_eq!(
        ExampleError::InvalidKey { key: key.clone() }.to_string(),
        "invalid key: 'k'. only A-Za-z0-9 and - and _ are allowed"
    );
    assert_eq!(
        ExampleError::OptionalBeforeRequired { key }.to_string(),
        "optional used before a required key: k"
    );
    assert_eq!(ExampleError::EmptyInput.to_string(), "argument input was empty");
    assert_eq!(
        ExampleError::InvalidCommand { input: String::from("x") }.to_string(),
        "cannot parse 'x' as a command"
    );
}

#[test]
fn contains_tells_the_kinds() {
    let g = ExampleArgs::parse("<a> <b..>").unwrap();
    assert!(g.contains(&ArgKind::Required));
    assert!(!g.contains(&ArgKind::Optional));
    assert!(g.contains(&ArgKind::Variadic));
    assert!(!ExampleArgs::default().contains(&ArgKind::Required));
}

fn arguments(usage: &str, text: &str) -> Arguments {
    match ExampleArgs::parse(usage).unwrap().extract(text) {
        Match::Match(map) => Arguments { map },
        _ => panic!("the text fits the grammar"),
    }
}

#[test]
fn arguments_are_read_and_taken() {
    let mut args = arguments("<n> <list..>", "42 a b  c");
    assert_eq!(args.get("n"), Some("42"));
    assert_eq!(args.get("missing"), None);
    assert_eq!(args.get_parsed("n", |t| t.parse::<u32>()), Some(Ok(42)));
    assert!(args.get_parsed("missing", |t| t.parse::<u32>()).is_none());
    assert!(matches!(args.get_parsed("list", |t| t.parse::<u32>()), Some(Err(_))));
    assert_eq!(args.get_many("list"), vec!["a", "b", "", "c"]);
    assert_eq!(args.get_many_by("list", "b"), vec!["a ", "  c"]);
    assert_eq!(args.get_many("missing"), Vec::<&str>::new());
    assert_eq!(args.take_parsed("n", |t| t.parse::<u32>()), Ok(42));
    assert_eq!(args.get("n"), None);
    assert_eq!(args.take_many("list"), vec!["a", "b", "", "c"]);
    assert_eq!(args.take_many("list"), Vec::<String>::new());
    let mut args = arguments("<a> <b>", "x y");
    assert_eq!(args.take("a"), "x");
    assert_eq!(args.get("a"), None);
    assert_eq!(args.take_many_by("b", ","), vec!["y"]);
    assert_eq!(Arguments::default().get("a"), None);
}
