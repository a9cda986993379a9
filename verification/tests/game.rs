use nemu::engine::game::{first_match, Game, GameError, LoopState};
use nemu::engine::inventory::Inventory;
use nemu::engine::item::Item;
use nemu::engine::parser::{parse_command, Command};
use nemu::engine::room::Room;
use nemu::story::loader::{Story, StoryInfo};
use nemu::table::Table;

fn room(title: &str, description: &str, exits: &[(&str, &str)], items: &[&str]) -> Room {
    let mut table = Table::new();
    for (direction, target) in exits {
        table.insert(direction.to_string(), target.to_string());
    }
    Room {
        title: title.to_string(),
        description: description.to_string(),
        exits: table,
        items: items.iter().map(|id| id.to_string()).collect(),
    }
}

fn item(name: &str, description: &str) -> Item {
    Item { name: name.to_string(), description: description.to_string() }
}

fn house() -> Story {
    let mut rooms = Table::new();
    rooms.insert(
        "entrance".to_string(),
        room(
            "Front Door",
            "A wooden door stands before you.",
            &[("north", "living_room")],
            &["key"],
        ),
    );
    rooms.insert(
        "living_room".to_string(),
        room("Living Room", "A cozy room with a fireplace.", &[("south", "entrance")], &["book"]),
    );
    let mut items = Table::new();
    items.insert("key".to_string(), item("brass key", "An old brass key."));
    items.insert(
        "book".to_string(),
        item("leather-bound book", "A book with strange symbols on its cover."),
    );
    Story {
        story: StoryInfo { title: "House".to_string(), start_room: "entrance".to_string() },
        rooms,
        items,
    }
}

fn items_of(game: &Game, room_id: &str) -> Vec<String> {
    game.story().rooms.get(room_id).unwrap().items.clone()
}

#[test]
fn a_new_game_starts_in_the_start_room_with_empty_hands() {
    let game = Game::new(house()).unwrap();
    assert_eq!(game.current_room(), "entrance");
    assert!(game.inventory().is_empty());
    assert_eq!(game.story().story.title, "House");
    assert_eq!(game.get_current_room().unwrap().title, "Front Door");
}

#[test]
fn walk_through_the_house() {
    let mut game = Game::new(house()).unwrap();

    let seen = game.apply(&parse_command("look")).unwrap();
    assert!(seen.contains("key"));
    assert_eq!(
        seen,
        "\nFront Door\nA wooden door stands before you.\n\nYou see: brass key\n\nExits: north"
    );

    assert_eq!(game.apply(&parse_command("go north")), Ok("You go north.".to_string()));
    assert_eq!(game.current_room(), "living_room");

    assert_eq!(
        game.apply(&parse_command("take book")),
        Ok("You take the leather-bound book.".to_string())
    );
    assert_eq!(game.inventory(), &vec!["book".to_string()]);
    assert!(!items_of(&game, "living_room").contains(&"book".to_string()));

    assert_eq!(game.apply(&parse_command("go south")), Ok("You go south.".to_string()));
    assert_eq!(game.current_room(), "entrance");

    let carried = game.apply(&parse_command("inventory")).unwrap();
    assert!(carried.contains("leather-bound book"));
    assert_eq!(carried, "You are carrying:\n- leather-bound book");
}

#[test]
fn going_where_there_is_no_exit_is_no_error() {
    let mut game = Game::new(house()).unwrap();
    for direction in ["south", "east", "west", "up", "North", ""] {
        assert_eq!(game.go(direction), Ok("You can't go that way.".to_string()));
        assert_eq!(game.current_room(), "entrance");
        assert!(game.inventory().is_empty());
    }
}

#[test]
fn going_through_an_exit_moves_to_its_room() {
    let mut game = Game::new(house()).unwrap();
    assert_eq!(game.go("north"), Ok("You go north.".to_string()));
    assert_eq!(game.current_room(), "living_room");
    assert_eq!(game.go("south"), Ok("You go south.".to_string()));
    assert_eq!(game.current_room(), "entrance");
}

fn hub() -> Story {
    let mut rooms = Table::new();
    rooms.insert(
        "hub".to_string(),
        room(
            "Hub",
            "Four doors.",
            &[("north", "n"), ("south", "s"), ("east", "e"), ("west", "w")],
            &[],
        ),
    );
    for id in ["n", "s", "e", "w"] {
        rooms.insert(id.to_string(), room(id, "A door.", &[], &[]));
    }
    Story {
        story: StoryInfo { title: "Hub".to_string(), start_room: "hub".to_string() },
        rooms,
        items: Table::new(),
    }
}

#[test]
fn the_four_short_directions_go_by_their_names() {
    let cases = [
        (Command::North, "n", "You go north."),
        (Command::South, "s", "You go south."),
        (Command::East, "e", "You go east."),
        (Command::West, "w", "You go west."),
    ];
    for (command, target, text) in cases {
        let mut game = Game::new(hub()).unwrap();
        assert_eq!(game.apply(&command), Ok(text.to_string()));
        assert_eq!(game.current_room(), target);
    }
}

#[test]
fn an_exit_to_a_missing_room_is_room_not_found() {
    let mut story = house();
    story.rooms.insert(
        "cellar".to_string(),
        room("Cellar", "Dark.", &[("down", "nowhere")], &[]),
    );
    story.story.start_room = "cellar".to_string();
    let mut game = Game::new(story).unwrap();
    assert_eq!(game.go("down"), Err(GameError::RoomNotFound));
    assert_eq!(game.current_room(), "cellar");
}

#[test]
fn a_game_in_a_missing_room_reports_invalid_room() {
    let mut story = house();
    story.story.start_room = "attic".to_string();
    let mut game = Game::new(story).unwrap();
    assert_eq!(game.look(), Err(GameError::InvalidRoom));
    assert_eq!(game.go("north"), Err(GameError::InvalidRoom));
    assert_eq!(game.take("key"), Err(GameError::InvalidRoom));
    assert_eq!(game.drop("key"), Err(GameError::ItemNotFound));
    assert!(game.get_current_room().is_err());
    assert_eq!(game.current_room(), "attic");
    assert_eq!(game.show_inventory(), Ok("Your inventory is empty. :0".to_string()));
}

#[test]
fn take_nonexistent_is_item_not_found() {
    let mut game = Game::new(house()).unwrap();
    assert_eq!(game.take("nonexistent"), Err(GameError::ItemNotFound));
    assert_eq!(game.apply(&parse_command("take nonexistent")), Err(GameError::ItemNotFound));
    assert_eq!(items_of(&game, "entrance"), vec!["key".to_string()]);
    assert!(game.inventory().is_empty());
    assert_eq!(game.take("book"), Err(GameError::ItemNotFound));
}

#[test]
fn drop_of_something_not_carried_is_item_not_found() {
    let mut game = Game::new(house()).unwrap();
    assert_eq!(game.drop("key"), Err(GameError::ItemNotFound));
    assert_eq!(items_of(&game, "entrance"), vec!["key".to_string()]);
}

#[test]
fn take_matches_part_of_the_name_in_any_case() {
    let mut game = Game::new(house()).unwrap();
    assert_eq!(game.take("BRASS"), Ok("You take the brass key.".to_string()));
    assert_eq!(game.inventory(), &vec!["key".to_string()]);
    assert!(items_of(&game, "entrance").is_empty());
    assert_eq!(game.drop("s K"), Ok("You drop the brass key.".to_string()));
    assert!(game.inventory().is_empty());
}

#[test]
fn take_goes_by_the_name_and_not_by_the_identifier() {
    let mut story = house();
    story.items.insert("key".to_string(), item("Rusty Thing", "Hard to name."));
    let mut game = Game::new(story).unwrap();
    assert_eq!(game.take("key"), Err(GameError::ItemNotFound));
    assert_eq!(game.take("thing"), Ok("You take the Rusty Thing.".to_string()));
}

#[test]
fn the_first_match_in_the_room_wins() {
    let mut story = house();
    story.rooms.insert(
        "entrance".to_string(),
        room("Front Door", "A door.", &[], &["ghost", "silver", "key"]),
    );
    story.items.insert("silver".to_string(), item("silver key", "Shiny."));
    let mut game = Game::new(story).unwrap();
    assert_eq!(game.take("key"), Ok("You take the silver key.".to_string()));
    assert_eq!(items_of(&game, "entrance"), vec!["ghost".to_string(), "key".to_string()]);
    assert_eq!(game.take("key"), Ok("You take the brass key.".to_string()));
    assert_eq!(game.inventory(), &vec!["silver".to_string(), "key".to_string()]);
    assert_eq!(game.drop("key"), Ok("You drop the silver key.".to_string()));
    assert_eq!(game.inventory(), &vec!["key".to_string()]);
    assert_eq!(items_of(&game, "entrance"), vec!["ghost".to_string(), "silver".to_string()]);
}

#[test]
fn take_then_drop_puts_the_item_back_in_the_room() {
    let mut story = house();
    story.rooms.insert(
        "entrance".to_string(),
        room("Front Door", "A door.", &[], &["key", "book"]),
    );
    let mut game = Game::new(story).unwrap();
    let before = items_of(&game, "entrance");
    assert!(game.take("key").is_ok());
    assert!(game.drop("key").is_ok());
    let after = items_of(&game, "entrance");
    assert_eq!(after, vec!["book".to_string(), "key".to_string()]);
    let mut sorted_before = before.clone();
    sorted_before.sort();
    let mut sorted_after = after.clone();
    sorted_after.sort();
    assert_eq!(sorted_before, sorted_after);
    assert!(game.inventory().is_empty());
}

#[test]
fn look_twice_gives_the_same_text() {
    let mut game = Game::new(house()).unwrap();
    let first = game.look();
    let second = game.look();
    assert_eq!(first, second);
    let third = game.apply(&Command::Look);
    game.apply(&Command::Help).unwrap();
    game.apply(&Command::Inventory).unwrap();
    game.apply(&Command::Unknown).unwrap();
    assert_eq!(game.apply(&Command::Look), third);
    assert_eq!(third, first);
}

#[test]
fn look_passes_over_items_the_world_does_not_know() {
    let mut story = house();
    story.rooms.insert(
        "entrance".to_string(),
        room("Front Door", "A door.", &[("north", "living_room"), ("east", "garden")], &["ghost", "key", "phantom", "book"]),
    );
    let game = Game::new(story).unwrap();
    assert_eq!(
        game.look(),
        Ok("\nFront Door\nA door.\n\nYou see: brass key, leather-bound book\n\nExits: north, east"
            .to_string())
    );
}

#[test]
fn look_in_a_bare_room_shows_title_and_description_only() {
    let mut story = house();
    story.rooms.insert("void".to_string(), room("Void", "Nothing.", &[], &[]));
    story.story.start_room = "void".to_string();
    let game = Game::new(story).unwrap();
    assert_eq!(game.look(), Ok("\nVoid\nNothing.".to_string()));
}

#[test]
fn look_in_a_room_with_only_unknown_items_shows_an_empty_list() {
    let mut story = house();
    story.rooms.insert("void".to_string(), room("Void", "Nothing.", &[], &["ghost"]));
    story.story.start_room = "void".to_string();
    let game = Game::new(story).unwrap();
    assert_eq!(game.look(), Ok("\nVoid\nNothing.\n\nYou see: ".to_string()));
}

#[test]
fn inventory_lists_in_the_order_of_taking() {
    let mut story = house();
    story.rooms.insert(
        "entrance".to_string(),
        room("Front Door", "A door.", &[], &["book", "key"]),
    );
    let mut game = Game::new(story).unwrap();
    assert_eq!(game.show_inventory(), Ok("Your inventory is empty. :0".to_string()));
    game.take("key").unwrap();
    game.take("book").unwrap();
    assert_eq!(
        game.show_inventory(),
        Ok("You are carrying:\n- brass key\n- leather-bound book".to_string())
    );
}

#[test]
fn an_item_listed_in_two_rooms_is_carried_once() {
    let mut story = house();
    story.rooms.insert(
        "living_room".to_string(),
        room("Living Room", "Cozy.", &[("south", "entrance")], &["key", "book", "key"]),
    );
    let mut game = Game::new(story).unwrap();
    game.take("brass").unwrap();
    game.go("north").unwrap();
    game.take("brass").unwrap();
    assert_eq!(game.inventory(), &vec!["key".to_string()]);
    assert_eq!(items_of(&game, "living_room"), vec!["book".to_string()]);
}

#[test]
fn help_and_unknown_have_fixed_texts() {
    let mut game = Game::new(house()).unwrap();
    let help = game.help();
    assert!(help.starts_with("Available commands:\n- look: Look around the current room\n"));
    assert!(help.ends_with("Example: 'go north' or 'take key' :D"));
    assert_eq!(game.apply(&Command::Help), Ok(help));
    let unknown =
        "I don't understand that command. Type 'help' for available commands. :0".to_string();
    assert_eq!(game.apply(&Command::Unknown), Ok(unknown.clone()));
    assert_eq!(game.apply(&Command::ListSaves), Ok(unknown.clone()));
    assert_eq!(game.apply(&Command::Save("a".to_string())), Ok(unknown.clone()));
    assert_eq!(game.apply(&Command::Load("a".to_string())), Ok(unknown));
}

#[test]
fn process_command_parses_and_applies() {
    let mut game = Game::new(house()).unwrap();
    assert_eq!(game.process_command("  GO   north "), Ok("You go north.".to_string()));
    assert_eq!(game.current_room(), "living_room");
    assert_eq!(game.process_command("n"), Ok("You can't go that way.".to_string()));
    assert_eq!(game.process_command("pick up BOOK"), Ok("You take the leather-bound book.".to_string()));
    assert_eq!(game.process_command("take"), Ok(
        "I don't understand that command. Type 'help' for available commands. :0".to_string()
    ));
}

#[test]
fn errors_have_their_messages() {
    assert_eq!(GameError::InvalidRoom.to_string(), "Invalid room");
    assert_eq!(GameError::ItemNotFound.to_string(), "Item not found");
    assert_eq!(GameError::RoomNotFound.to_string(), "Room not found");
}

#[test]
fn frobnicate_is_answered_and_changes_nothing() {
    let mut game = Game::new(house()).unwrap();
    assert!(matches!(parse_command("frobnicate"), Command::Unknown));
    let turn = game.turn("frobnicate");
    assert_eq!(turn.state, LoopState::Playing);
    assert_eq!(
        turn.output,
        "I don't understand that command. Type 'help' for available commands. :0"
    );
    assert!(!turn.redraw);
    assert_eq!(game.current_room(), "entrance");
    assert!(game.inventory().is_empty());
    assert_eq!(items_of(&game, "entrance"), vec!["key".to_string()]);
}

#[test]
fn quit_words_end_the_loop_in_any_case() {
    for line in ["quit", "exit", "q", "QUIT", "Exit", "Q", "  quit \n", "\tEXIT"] {
        let mut game = Game::new(house()).unwrap();
        let turn = game.turn(line);
        assert_eq!(turn.state, LoopState::Terminated);
        assert_eq!(turn.output, "Thanks for playing! :D");
        assert!(!turn.redraw);
        assert_eq!(game.current_room(), "entrance");
        assert!(game.inventory().is_empty());
        assert_eq!(items_of(&game, "entrance"), vec!["key".to_string()]);
    }
}

#[test]
fn words_that_only_start_like_quit_do_not_end_the_loop() {
    let mut game = Game::new(house()).unwrap();
    for line in ["quit now", "quitter", "qq", "exit door"] {
        assert_eq!(game.turn(line).state, LoopState::Playing);
    }
}

#[test]
fn the_room_is_shown_again_after_any_movement_command() {
    let mut game = Game::new(house()).unwrap();
    let moved = game.turn("go north");
    assert_eq!(moved.output, "You go north.");
    assert!(moved.redraw);
    let stuck = game.turn("west");
    assert_eq!(stuck.output, "You can't go that way.");
    assert!(stuck.redraw);
    assert!(game.turn("N").redraw);
    assert!(game.turn("Go South").redraw);
    assert!(!game.turn("look").redraw);
    assert!(!game.turn("take book").redraw);
    assert!(!game.turn("go").redraw);
    assert!(!game.turn("").redraw);
}

#[test]
fn a_turn_prints_errors_behind_a_label_and_goes_on() {
    let mut game = Game::new(house()).unwrap();
    let turn = game.turn("take nonexistent");
    assert_eq!(turn.state, LoopState::Playing);
    assert_eq!(turn.output, "Error: Item not found");
    assert!(!turn.redraw);
    let mut story = house();
    story.rooms.insert("cellar".to_string(), room("Cellar", "Dark.", &[("down", "nowhere")], &[]));
    story.story.start_room = "cellar".to_string();
    let mut game = Game::new(story).unwrap();
    let turn = game.turn("go down");
    assert_eq!(turn.output, "Error: Room not found");
    assert!(turn.redraw);
    assert_eq!(turn.state, LoopState::Playing);
}

#[test]
fn a_turn_reads_the_whole_line_in_lower_case() {
    let mut game = Game::new(house()).unwrap();
    assert_eq!(game.turn("GO NORTH").output, "You go north.");
    assert_eq!(game.current_room(), "living_room");
    assert_eq!(game.step("go SOUTH").output, "You can't go that way.");
    assert_eq!(game.step("QUIT").state, LoopState::Playing);
    assert_eq!(game.step("quit").state, LoopState::Terminated);
}

#[test]
fn an_empty_line_is_unknown() {
    let mut game = Game::new(house()).unwrap();
    let turn = game.turn("   ");
    assert_eq!(turn.state, LoopState::Playing);
    assert_eq!(
        turn.output,
        "I don't understand that command. Type 'help' for available commands. :0"
    );
}

fn places_of(game: &Game, id: &str) -> usize {
    let mut places = game.inventory().iter().filter(|held| held.as_str() == id).count();
    for room_id in game.story().rooms.keys() {
        let room = game.story().rooms.get(&room_id).unwrap();
        places += room.items.iter().filter(|held| held.as_str() == id).count();
    }
    places
}

#[test]
fn every_item_stays_in_one_place_and_the_player_in_a_room() {
    let mut game = Game::new(house()).unwrap();
    let lines = [
        "look", "take key", "take key", "n", "drop book", "take book", "drop key", "go west",
        "s", "inventory", "drop leather", "take book", "go north", "take brass", "frobnicate",
        "drop", "drop e", "drop e", "drop e", "south", "help",
    ];
    for line in lines {
        let turn = game.turn(line);
        assert_eq!(turn.state, LoopState::Playing);
        assert!(game.get_current_room().is_ok());
        assert_eq!(places_of(&game, "key"), 1);
        assert_eq!(places_of(&game, "book"), 1);
        assert_eq!(game.story().rooms.len(), 2);
        assert_eq!(game.story().items.len(), 2);
    }
    assert_eq!(game.current_room(), "entrance");
}

#[test]
fn a_failed_command_changes_nothing() {
    let mut game = Game::new(house()).unwrap();
    game.take("key").unwrap();
    for command in [
        Command::Take("sword".to_string()),
        Command::Drop("sword".to_string()),
    ] {
        assert!(game.apply(&command).is_err());
        assert_eq!(game.current_room(), "entrance");
        assert_eq!(game.inventory(), &vec!["key".to_string()]);
        assert!(items_of(&game, "entrance").is_empty());
        assert_eq!(items_of(&game, "living_room"), vec!["book".to_string()]);
    }
}

#[test]
fn an_item_can_be_carried_to_another_room() {
    let mut rooms = Table::new();
    rooms.insert("cell".to_string(), room("Cell", "Bare.", &[("out", "yard")], &["key"]));
    rooms.insert("yard".to_string(), room("Yard", "Open.", &[], &[]));
    let mut items = Table::new();
    items.insert("key".to_string(), item("brass key", "An old brass key."));
    let story = Story {
        story: StoryInfo { title: "Cell".to_string(), start_room: "cell".to_string() },
        rooms,
        items,
    };
    let mut game = Game::new(story).unwrap();
    game.take("key").unwrap();
    game.go("out").unwrap();
    assert_eq!(game.drop("key"), Ok("You drop the brass key.".to_string()));
    assert_eq!(items_of(&game, "yard"), vec!["key".to_string()]);
    assert!(game.inventory().is_empty());
}

#[test]
fn the_cant_go_text_is_the_same_everywhere() {
    let mut game = Game::new(house()).unwrap();
    let here = game.go("up").unwrap();
    let long = game.go("widdershins").unwrap();
    game.go("north").unwrap();
    let there = game.go("north").unwrap();
    assert_eq!(here, "You can't go that way.");
    assert_eq!(long, here);
    assert_eq!(there, here);
}

#[test]
fn the_first_name_that_holds_the_query_is_the_match() {
    let names = vec![
        None,
        Some("silver ring".to_string()),
        Some("brass key".to_string()),
        None,
        Some("silver key".to_string()),
    ];
    assert_eq!(first_match(&names, "key"), Some(2));
    assert_eq!(first_match(&names, "silver"), Some(1));
    assert_eq!(first_match(&names, "silver k"), Some(4));
    assert_eq!(first_match(&names, ""), Some(1));
    assert_eq!(first_match(&names, "Key"), None);
    assert_eq!(first_match(&names, "gold"), None);
    assert_eq!(first_match(&vec![None, None], ""), None);
    assert_eq!(first_match(&Vec::new(), "key"), None);
}

#[test]
fn an_inventory_holds_each_identifier_once() {
    let mut inventory = Inventory::new();
    assert!(inventory.is_empty());
    assert_eq!(inventory.len(), 0);
    assert!(inventory.insert("key".to_string()));
    assert!(inventory.insert("book".to_string()));
    assert!(!inventory.insert("key".to_string()));
    assert!(inventory.insert("Key".to_string()));
    assert_eq!(inventory.len(), 3);
    assert!(!inventory.is_empty());
    assert_eq!(
        inventory.ids(),
        &vec!["key".to_string(), "book".to_string(), "Key".to_string()]
    );
    assert!(inventory.contains("book"));
    assert!(!inventory.contains("boo"));
    assert_eq!(inventory.remove(1), "book");
    assert_eq!(inventory.ids(), &vec!["key".to_string(), "Key".to_string()]);
    assert!(!inventory.contains("book"));
    assert_eq!(inventory.remove(0), "key");
    assert_eq!(inventory.remove(0), "Key");
    assert!(inventory.is_empty());
}

#[test]
fn look_names_each_exit_once() {
    let mut story = house();
    let mut exits = Table::new();
    exits.insert("north".to_string(), "living_room".to_string());
    exits.insert("east".to_string(), "garden".to_string());
    exits.insert("north".to_string(), "entrance".to_string());
    story.rooms.insert(
        "porch".to_string(),
        Room {
            title: "Porch".to_string(),
            description: "Open.".to_string(),
            exits,
            items: Vec::new(),
        },
    );
    story.story.start_room = "porch".to_string();
    let mut game = Game::new(story).unwrap();
    assert_eq!(game.look(), Ok("\nPorch\nOpen.\n\nExits: north, east".to_string()));
    assert_eq!(game.go("north"), Ok("You go north.".to_string()));
    assert_eq!(game.current_room(), "entrance");
}
