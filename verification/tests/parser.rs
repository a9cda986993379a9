use nemu::engine::parser::{command_from_words, parse_command, Command};

#[test]
fn test_parse_look_commands() {
    assert!(matches!(parse_command("look"), Command::Look));
    assert!(matches!(parse_command("l"), Command::Look));
    assert!(matches!(parse_command("examine"), Command::Look));
    assert!(matches!(parse_command("x"), Command::Look));
}

#[test]
fn test_parse_direction_commands() {
    assert!(matches!(parse_command("n"), Command::North));
    assert!(matches!(parse_command("north"), Command::North));
    assert!(matches!(parse_command("s"), Command::South));
    assert!(matches!(parse_command("south"), Command::South));
    assert!(matches!(parse_command("e"), Command::East));
    assert!(matches!(parse_command("east"), Command::East));
    assert!(matches!(parse_command("w"), Command::West));
    assert!(matches!(parse_command("west"), Command::West));
}

#[test]
fn test_parse_move_commands() {
    if let Command::Go(direction) = parse_command("go north") {
        assert_eq!(direction, "north");
    } else {
        panic!("Expected Go command");
    }

    if let Command::Go(direction) = parse_command("go east") {
        assert_eq!(direction, "east");
    } else {
        panic!("Expected Go command");
    }
}

#[test]
fn test_parse_take_commands() {
    if let Command::Take(item) = parse_command("take key") {
        assert_eq!(item, "key");
    } else {
        panic!("Expected Take command");
    }

    if let Command::Take(item) = parse_command("get sword") {
        assert_eq!(item, "sword");
    } else {
        panic!("Expected Take command");
    }

    if let Command::Take(item) = parse_command("pick up coin") {
        assert_eq!(item, "coin");
    } else {
        panic!("Expected Take command");
    }
}

#[test]
fn test_parse_drop_command() {
    if let Command::Drop(item) = parse_command("drop key") {
        assert_eq!(item, "key");
    } else {
        panic!("Expected Drop command");
    }
}

#[test]
fn test_parse_inventory_commands() {
    assert!(matches!(parse_command("inventory"), Command::Inventory));
    assert!(matches!(parse_command("i"), Command::Inventory));
    assert!(matches!(parse_command("inv"), Command::Inventory));
}

#[test]
fn test_parse_save_commands() {
    assert!(matches!(parse_command("save mygame.save"), Command::Unknown));
    assert!(matches!(parse_command("save"), Command::Unknown));
}

#[test]
fn test_parse_load_commands() {
    assert!(matches!(parse_command("load mygame.save"), Command::Unknown));
    assert!(matches!(parse_command("load"), Command::Unknown));
}

#[test]
fn test_parse_list_saves_command() {
    assert!(matches!(parse_command("saves"), Command::Unknown));
    assert!(matches!(parse_command("list"), Command::Unknown));
}

#[test]
fn test_parse_help_command() {
    assert!(matches!(parse_command("help"), Command::Help));
    assert!(matches!(parse_command("h"), Command::Help));
    assert!(matches!(parse_command("?"), Command::Help));
}

#[test]
fn test_parse_unknown_command() {
    assert!(matches!(parse_command("unknown"), Command::Unknown));
    assert!(matches!(parse_command(""), Command::Unknown));
    assert!(matches!(parse_command("xyz"), Command::Unknown));
}

#[test]
fn verbs_are_recognised_in_any_case() {
    assert!(matches!(parse_command("LOOK"), Command::Look));
    assert!(matches!(parse_command("Inventory"), Command::Inventory));
    assert!(matches!(parse_command("NoRtH"), Command::North));
    assert!(matches!(parse_command("HELP"), Command::Help));
}

#[test]
fn arguments_keep_their_case() {
    match parse_command("TAKE Brass") {
        Command::Take(item) => assert_eq!(item, "Brass"),
        other => panic!("expected Take, got {:?}", other),
    }
    match parse_command("Go NORTH") {
        Command::Go(direction) => assert_eq!(direction, "NORTH"),
        other => panic!("expected Go, got {:?}", other),
    }
    match parse_command("drop Key") {
        Command::Drop(item) => assert_eq!(item, "Key"),
        other => panic!("expected Drop, got {:?}", other),
    }
}

#[test]
fn verbs_without_their_argument_are_unknown() {
    assert!(matches!(parse_command("go"), Command::Unknown));
    assert!(matches!(parse_command("take"), Command::Unknown));
    assert!(matches!(parse_command("get"), Command::Unknown));
    assert!(matches!(parse_command("pick"), Command::Unknown));
    assert!(matches!(parse_command("drop"), Command::Unknown));
    assert!(matches!(parse_command("   "), Command::Unknown));
    assert!(matches!(parse_command("\t\n"), Command::Unknown));
}

#[test]
fn surrounding_and_repeated_whitespace_is_ignored() {
    match parse_command("   go \t  north  \n") {
        Command::Go(direction) => assert_eq!(direction, "north"),
        other => panic!("expected Go, got {:?}", other),
    }
    match parse_command("take\u{3000}key") {
        Command::Take(item) => assert_eq!(item, "key"),
        other => panic!("expected Take, got {:?}", other),
    }
    assert!(matches!(parse_command("  look  "), Command::Look));
}

#[test]
fn pick_up_takes_the_third_word() {
    match parse_command("pick up") {
        Command::Take(item) => assert_eq!(item, "up"),
        other => panic!("expected Take, got {:?}", other),
    }
    match parse_command("pick coin") {
        Command::Take(item) => assert_eq!(item, "coin"),
        other => panic!("expected Take, got {:?}", other),
    }
    match parse_command("pick UP coin") {
        Command::Take(item) => assert_eq!(item, "UP"),
        other => panic!("expected Take, got {:?}", other),
    }
    match parse_command("take up coin") {
        Command::Take(item) => assert_eq!(item, "up"),
        other => panic!("expected Take, got {:?}", other),
    }
    match parse_command("take brass key") {
        Command::Take(item) => assert_eq!(item, "brass"),
        other => panic!("expected Take, got {:?}", other),
    }
}

#[test]
fn parsing_the_same_line_twice_gives_the_same_command() {
    let lines = ["look", "go north", "take Key", "pick up coin", "frobnicate", "", "save a", "Q"];
    for line in lines {
        let first = format!("{:?}", parse_command(line));
        let second = format!("{:?}", parse_command(line));
        assert_eq!(first, second);
    }
}

#[test]
fn a_verb_is_matched_as_given() {
    let words = vec!["LOOK".to_string()];
    assert!(matches!(command_from_words("look", &words), Command::Look));
    assert!(matches!(command_from_words("LOOK", &words), Command::Unknown));
    let words = vec!["go".to_string(), "West".to_string()];
    match command_from_words("go", &words) {
        Command::Go(direction) => assert_eq!(direction, "West"),
        other => panic!("expected Go, got {:?}", other),
    }
    let none: Vec<String> = Vec::new();
    assert!(matches!(command_from_words("go", &none), Command::Unknown));
    assert!(matches!(command_from_words("frobnicate", &none), Command::Unknown));
    let save = vec!["save".to_string(), "mygame.save".to_string()];
    assert!(matches!(command_from_words("save", &save), Command::Unknown));
    assert!(matches!(command_from_words("load", &save), Command::Unknown));
    assert!(matches!(command_from_words("saves", &save), Command::Unknown));
    assert!(matches!(command_from_words("list", &save), Command::Unknown));
}

#[test]
fn unknown_word_is_unknown() {
    assert!(matches!(parse_command("frobnicate"), Command::Unknown));
    assert!(matches!(parse_command("looking"), Command::Unknown));
    assert!(matches!(parse_command("quit"), Command::Unknown));
}
