use basalt_server::commands::{
    Command, gamemode_name, parse_command, parse_gamemode, split_words, tp_coordinates, trim,
};

fn chars(s: &str) -> Vec<char> {
    s.chars().collect()
}

fn text(v: &[char]) -> String {
    v.iter().collect()
}

#[test]
fn commands_split_at_first_space() {
    match parse_command(&chars("say hello world")) {
        Command::Say { message } => assert_eq!(text(&message), "hello world"),
        _ => panic!("expected say"),
    }
    match parse_command(&chars("tp 1 2 3")) {
        Command::Tp { args } => assert_eq!(text(&args), "1 2 3"),
        _ => panic!("expected tp"),
    }
    match parse_command(&chars("gamemode creative")) {
        Command::Gamemode { args } => assert_eq!(text(&args), "creative"),
        _ => panic!("expected gamemode"),
    }
    assert!(matches!(parse_command(&chars("help")), Command::Help));
    match parse_command(&chars("fly now")) {
        Command::Unknown { name } => assert_eq!(text(&name), "fly"),
        _ => panic!("expected unknown"),
    }
    match parse_command(&chars("say")) {
        Command::Say { message } => assert!(message.is_empty()),
        _ => panic!("expected say"),
    }
}

#[test]
fn help_with_arguments_is_still_help() {
    assert!(matches!(parse_command(&chars("help me")), Command::Help));
    assert!(matches!(parse_command(&chars("Help")), Command::Unknown { .. }));
}

#[test]
fn words_split_on_any_white_space() {
    let ws = split_words(&chars("  10\t-2  3.5 \n"));
    let ws: Vec<String> = ws.iter().map(|w| text(w)).collect();
    assert_eq!(ws, vec!["10", "-2", "3.5"]);
    assert!(split_words(&chars("   ")).is_empty());
}

#[test]
fn tp_needs_exactly_three_words() {
    let c = tp_coordinates(&chars("1 64 -3")).expect("three words");
    assert_eq!(text(&c[2]), "-3");
    assert!(tp_coordinates(&chars("1 64")).is_none());
    assert!(tp_coordinates(&chars("1 2 3 4")).is_none());
}

#[test]
fn gamemode_names_and_numbers() {
    assert_eq!(parse_gamemode(&chars("survival")), Some(0));
    assert_eq!(parse_gamemode(&chars(" 1 ")), Some(1));
    assert_eq!(parse_gamemode(&chars("adventure")), Some(2));
    assert_eq!(parse_gamemode(&chars("spectator")), Some(3));
    assert_eq!(parse_gamemode(&chars("3")), Some(3));
    assert_eq!(parse_gamemode(&chars("hardcore")), None);
    assert_eq!(parse_gamemode(&chars("")), None);
    assert_eq!(gamemode_name(0), "Survival");
    assert_eq!(gamemode_name(1), "Creative");
    assert_eq!(gamemode_name(2), "Adventure");
    assert_eq!(gamemode_name(3), "Spectator");
}

#[test]
fn trim_strips_both_ends() {
    assert_eq!(text(&trim(&chars("  creative \t"))), "creative");
    assert_eq!(text(&trim(&chars("\u{3000}a b\u{a0}"))), "a b");
    assert!(trim(&chars("   ")).is_empty());
}
