use text_adventure::command::{Command, InputManager};
use text_adventure::coordinate::{offset, Coordinate, Direction};
use text_adventure::error::GameError;
use text_adventure::game::{MyApplication, Reply, TextAdventure};
use text_adventure::location::{Location, LocationManager};
use text_adventure::text::{parse_key, split_words};

fn record(key: &str, name: &str, description: &str) -> (String, Location) {
    (
        key.to_string(),
        Location::new(name.to_string(), description.to_string()),
    )
}

fn world() -> LocationManager {
    LocationManager::new(vec![
        record("(-7, -7)", "Start", "..."),
        record("(-7,-6)", "Hall", "A long hall."),
        record("(-6, -7)", "Garden", "Green."),
    ])
    .unwrap()
}

fn app() -> MyApplication {
    let mut a = MyApplication::new(world());
    a.game.load_default_commands();
    a
}

fn words(v: &[&str]) -> Vec<String> {
    v.iter().map(|s| s.to_string()).collect()
}

#[test]
fn key_with_negative_numbers() {
    assert_eq!(parse_key("(-7, -7)"), Some(Coordinate { x: -7, y: -7 }));
}

#[test]
fn key_spacing_does_not_matter() {
    assert_eq!(parse_key("(3,4)"), Some(Coordinate { x: 3, y: 4 }));
    assert_eq!(parse_key("(3,4)"), parse_key("(3, 4)"));
    assert_eq!(parse_key("( 3 ,\t4 )"), Some(Coordinate { x: 3, y: 4 }));
    assert_eq!(parse_key("(+3,-0)"), Some(Coordinate { x: 3, y: 0 }));
}

#[test]
fn key_bounds_of_i32() {
    assert_eq!(
        parse_key("(-2147483648, 2147483647)"),
        Some(Coordinate { x: i32::MIN, y: i32::MAX })
    );
    assert_eq!(parse_key("(2147483648, 0)"), None);
    assert_eq!(parse_key("(0, -2147483649)"), None);
}

#[test]
fn malformed_keys() {
    assert_eq!(parse_key(""), None);
    assert_eq!(parse_key("()"), None);
    assert_eq!(parse_key("(3)"), None);
    assert_eq!(parse_key("3, 4"), None);
    assert_eq!(parse_key("(a, 4)"), None);
    assert_eq!(parse_key("(1, 2, 3)"), None);
    assert_eq!(parse_key("(1 2, 3)"), None);
    assert_eq!(parse_key("(-, 3)"), None);
}

#[test]
fn offset_steps() {
    let c = Coordinate { x: 2, y: 5 };
    assert_eq!(offset(c, "north"), Ok(Coordinate { x: 2, y: 6 }));
    assert_eq!(offset(c, "s"), Ok(Coordinate { x: 2, y: 4 }));
    assert_eq!(offset(c, "east"), Ok(Coordinate { x: 3, y: 5 }));
    assert_eq!(offset(c, "w"), Ok(Coordinate { x: 1, y: 5 }));
    assert_eq!(offset(c, "ne"), Ok(Coordinate { x: 3, y: 6 }));
    assert_eq!(offset(c, "northwest"), Ok(Coordinate { x: 1, y: 6 }));
    assert_eq!(offset(c, "se"), Ok(Coordinate { x: 3, y: 4 }));
    assert_eq!(offset(c, "southwest"), Ok(Coordinate { x: 1, y: 4 }));
}

#[test]
fn offset_opposites_cancel() {
    let c = Coordinate { x: -7, y: 3 };
    for d in ["north", "ne", "east", "se", "south", "sw", "west", "nw"] {
        let dir = Direction::parse(d).unwrap();
        let there = offset(c, d).unwrap();
        assert_eq!(offset(there, dir.opposite().name()), Ok(c));
    }
}

#[test]
fn offset_errors() {
    let c = Coordinate { x: 0, y: 0 };
    assert_eq!(offset(c, "xyzzy"), Err(GameError::InvalidDirection));
    assert_eq!(offset(c, "North"), Err(GameError::InvalidDirection));
    let edge = Coordinate { x: i32::MAX, y: 0 };
    assert_eq!(offset(edge, "east"), Err(GameError::UnknownLocation));
}

#[test]
fn world_loading() {
    let w = world();
    assert_eq!(w.current_position, Coordinate { x: -7, y: -7 });
    assert_eq!(w.get_current_location_name(), Ok("Start".to_string()));
    assert_eq!(w.get_current_location_description(), Ok("...".to_string()));
    assert_eq!(
        w.location_at(Coordinate { x: -7, y: -6 }).map(|l| l.name.clone()),
        Some("Hall".to_string())
    );
    assert!(w.location_at(Coordinate { x: 0, y: 0 }).is_none());
}

#[test]
fn world_later_record_wins() {
    let w = LocationManager::new(vec![
        record("(1, 1)", "Old", ""),
        record("(1,1)", "New", ""),
    ])
    .unwrap();
    assert_eq!(
        w.location_at(Coordinate { x: 1, y: 1 }).map(|l| l.name.clone()),
        Some("New".to_string())
    );
    assert_eq!(w.get_current_location_name(), Err(GameError::UnknownLocation));
}

#[test]
fn world_bad_key() {
    let r = LocationManager::new(vec![record("(1, 1)", "A", ""), record("(x, 1)", "B", "")]);
    assert!(matches!(r, Err(GameError::DataFormat)));
}

#[test]
fn registry_abbreviations_share_handler() {
    let a = app();
    let im = &a.game.input_manager;
    let pairs: [(&str, &[&str], Command); 8] = [
        ("look", &["l"], Command::LookAround),
        ("interact", &["i"], Command::Interact),
        ("inventory", &["inv"], Command::Inventory),
        ("status", &["stats"], Command::Status),
        ("save", &["s", "sv"], Command::Save),
        ("load", &["ld"], Command::Load),
        ("help", &["h", "?"], Command::Help),
        ("quit", &["q", "exit", "e"], Command::Quit),
    ];
    for (name, abbreviations, c) in pairs {
        assert_eq!(im.lookup(&name.to_string()), Some(c));
        for ab in abbreviations {
            assert_eq!(im.lookup(&ab.to_string()), Some(c));
        }
    }
}

#[test]
fn registry_collision_last_wins() {
    let a = app();
    let im = &a.game.input_manager;
    assert_eq!(im.lookup(&"move".to_string()), Some(Command::MoveCommand));
    assert_eq!(im.lookup(&"map".to_string()), Some(Command::MapView));
    assert_eq!(im.lookup(&"m".to_string()), Some(Command::MapView));
    assert_eq!(im.lookup(&"xyzzy".to_string()), None);
}

#[test]
fn registry_insert() {
    let mut im = InputManager::new();
    assert_eq!(im.lookup(&"go".to_string()), None);
    im.insert_command_and_abbreviations("go", Command::MoveCommand, vec!["north"], vec!["g", "walk"]);
    im.insert_command_and_abbreviations("grab", Command::Interact, vec![""], vec!["g"]);
    assert_eq!(im.lookup(&"go".to_string()), Some(Command::MoveCommand));
    assert_eq!(im.lookup(&"walk".to_string()), Some(Command::MoveCommand));
    assert_eq!(im.lookup(&"g".to_string()), Some(Command::Interact));
    assert_eq!(im.last_command, "");
}

#[test]
fn unknown_command_keeps_state() {
    let mut a = app();
    let r = a.game.dispatch(&words(&["xyzzy"]));
    assert!(matches!(r, Err(GameError::UnknownCommand)));
    assert!(a.game.play_loop);
    assert_eq!(a.game.location_manager.current_position, Coordinate { x: -7, y: -7 });
    assert_eq!(a.game.input_manager.last_command, "");
}

#[test]
fn quit_words_stop_the_session() {
    for w in ["quit", "q", "exit", "e"] {
        let mut a = app();
        assert!(a.game.play_loop);
        let r = a.game.dispatch(&words(&[w]));
        assert!(matches!(r, Ok(Reply::Silent)));
        assert!(!a.game.play_loop);
        assert_eq!(a.game.input_manager.last_command, w);
    }
}

#[test]
fn empty_input_does_nothing() {
    let mut a = app();
    let r = a.game.read_player_input("   ");
    assert!(matches!(r, Ok(Reply::Silent)));
    assert!(a.game.play_loop);
}

#[test]
fn look_here() {
    let mut a = app();
    match a.game.dispatch(&words(&["look"])) {
        Ok(Reply::Surroundings { name }) => assert_eq!(name, "Start"),
        other => panic!("unexpected {:?}", other),
    }
    assert_eq!(a.game.input_manager.last_command, "look");
}

#[test]
fn look_in_a_direction() {
    let mut a = app();
    match a.game.dispatch(&words(&["l", "n"])) {
        Ok(Reply::Sighted { direction, name }) => {
            assert_eq!(direction, "north");
            assert_eq!(name, "Hall");
        }
        other => panic!("unexpected {:?}", other),
    }
    match a.game.dispatch(&words(&["look", "east"])) {
        Ok(Reply::Sighted { direction, name }) => {
            assert_eq!(direction, "east");
            assert_eq!(name, "Garden");
        }
        other => panic!("unexpected {:?}", other),
    }
}

#[test]
fn look_at_unmapped_neighbour() {
    let mut a = MyApplication::new(
        LocationManager::new(vec![record("(-7, -7)", "Start", "...")]).unwrap(),
    );
    a.game.load_default_commands();
    let r = a.game.dispatch(&words(&["look", "north"]));
    assert!(matches!(r, Err(GameError::UnknownLocation)));
    assert!(a.game.play_loop);
    assert_eq!(a.game.location_manager.current_position, Coordinate { x: -7, y: -7 });
}

#[test]
fn look_with_bad_direction() {
    let mut a = app();
    let r = a.game.dispatch(&words(&["look", "up"]));
    assert!(matches!(r, Err(GameError::InvalidDirection)));
}

#[test]
fn look_where_nothing_is_mapped() {
    let mut g = TextAdventure::new(LocationManager::new(vec![]).unwrap());
    g.load_default_commands();
    let r = g.dispatch(&words(&["look"]));
    assert!(matches!(r, Err(GameError::UnknownLocation)));
}

#[test]
fn input_is_lowercased_and_split() {
    let mut a = app();
    match a.game.read_player_input("  LOOK   North ") {
        Ok(Reply::Sighted { direction, name }) => {
            assert_eq!(direction, "north");
            assert_eq!(name, "Hall");
        }
        other => panic!("unexpected {:?}", other),
    }
    assert_eq!(a.game.input_manager.last_command, "look");
}

#[test]
fn splitting_words() {
    assert_eq!(split_words("  look \t north\n"), vec!["look", "north"]);
    assert_eq!(split_words(""), Vec::<String>::new());
    assert_eq!(split_words(" \u{3000} "), Vec::<String>::new());
    assert_eq!(split_words("a"), vec!["a"]);
}

#[test]
fn abbreviations_expand() {
    let a = app();
    assert_eq!(a.game.expand_abbreviation("n"), "north");
    assert_eq!(a.game.expand_abbreviation("sw"), "southwest");
    assert_eq!(a.game.expand_abbreviation("east"), "east");
    assert_eq!(a.game.expand_abbreviation("xyzzy"), "xyzzy");
}

#[test]
fn no_op_handlers() {
    let mut a = app();
    for w in ["move", "m", "interact", "inventory", "inv", "status", "save", "ld", "help", "?"] {
        let r = a.game.dispatch(&words(&[w, "north"]));
        assert!(matches!(r, Ok(Reply::Silent)));
        assert!(a.game.play_loop);
        assert_eq!(a.game.location_manager.current_position, Coordinate { x: -7, y: -7 });
    }
}

#[test]
fn new_application_has_no_commands() {
    let a = MyApplication::new(world());
    assert!(a.game.play_loop);
    assert_eq!(a.game.location_manager.current_position, Coordinate { x: -7, y: -7 });
    assert_eq!(a.game.input_manager.lookup(&"quit".to_string()), None);
    assert_eq!(a.game.input_manager.lookup(&"I".to_string()), None);
}

#[test]
fn end_to_end_session() {
    let mut a = MyApplication::new(world());
    assert_eq!(a.game.location_manager.get_current_location_name(), Ok("Start".to_string()));
    let out = a.run(&words(&["look", "quit", "look"]));
    assert_eq!(out.len(), 2);
    match &out[0] {
        Ok(Reply::Surroundings { name }) => assert!(name.contains("Start")),
        other => panic!("unexpected {:?}", other),
    }
    assert!(matches!(out[1], Ok(Reply::Silent)));
    assert!(!a.game.play_loop);
    assert_eq!(a.game.input_manager.last_command, "quit");
}
