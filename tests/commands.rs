use command_parser::Parser;
use miou::alert::Alert;
use miou::alerts_map::AlertsMap;
use miou::command::{format_command_error, Command, CommandParsingError};
use miou::commands::{
    format_register_error, handle_alerts, handle_games, handle_help, handle_register,
    handle_unregister, search_player_name, validate_and_get_player, CommandContext,
    CommandParseError, Commander, RegisterError,
};
use miou::controller::AlertController;
use miou::id_map::IdMap;
use miou::loader::AlertLoader;
use miou::markdown_response::{
    format_game_not_found, format_invalid_delay, format_player_not_found,
    format_successful_register, format_successful_unregister,
};
use miou::tmars::{Game, GamesMap, Phase, Player};

fn create_parser() -> Parser {
    Parser::new('!', '-')
}

fn games_of(games: Vec<Game>) -> GamesMap {
    let mut m: GamesMap = IdMap::new();
    for g in games {
        m.insert(g.id.clone(), g);
    }
    m
}

fn create_context(games: Vec<Game>, alerts: Vec<(String, Vec<Alert>)>, room_id: &str, user_id: &str) -> CommandContext {
    let mut alerts_map = AlertsMap::new();
    for (game_id, alert_vec) in alerts {
        for alert in alert_vec {
            alerts_map.add(&game_id, &alert);
        }
    }
    CommandContext {
        games_map: games_of(games),
        alerts_map,
        room_id: room_id.to_string(),
        user_id: user_id.to_string(),
    }
}

fn create_game(id: &str, players: Vec<(&str, &str, &str)>, url: &str) -> Game {
    Game {
        id: id.to_string(),
        phase: Phase::Action,
        spectator_id: format!("spectator_{}", id),
        players: players
            .iter()
            .map(|(id, name, color)| Player {
                id: id.to_string(),
                name: name.to_string(),
                color: color.to_string(),
                url: url.to_string(),
            })
            .collect(),
        waited_players: Vec::new(),
    }
}

fn create_alert(room_id: &str, user_id: &str, player_id: &str, delay: u64) -> Alert {
    Alert {
        room_id: room_id.to_string(),
        user_id: user_id.to_string(),
        player_id: player_id.to_string(),
        player_url: "http://alice.example.com".to_string(),
        notified: false,
        delay,
    }
}

fn register_context(games: Vec<Game>) -> CommandContext {
    create_context(games, vec![], "!test_room:matrix.org", "@test_user:matrix.org")
}

#[test]
fn test_parse_help_command() {
    let parser = create_parser();
    assert!(matches!(Command::parse(&parser, "!miou help"), Ok(Command::Help)));
}

#[test]
fn test_parse_help_command_no_args() {
    let parser = create_parser();
    assert!(matches!(Command::parse(&parser, "!miou"), Ok(Command::Help)));
}

#[test]
fn test_parse_games_command() {
    let parser = create_parser();
    assert!(matches!(Command::parse(&parser, "!miou games"), Ok(Command::Games)));
}

#[test]
fn test_parse_alerts_command() {
    let parser = create_parser();
    assert!(matches!(Command::parse(&parser, "!miou alerts"), Ok(Command::Alerts)));
}

#[test]
fn test_parse_register_command() {
    let parser = create_parser();
    let result = Command::parse(&parser, "!miou register game123 Alice 60");
    assert!(matches!(
        result,
        Ok(Command::Register(game_id, player_name, delay))
        if game_id == "game123" && player_name == "Alice" && delay == 60
    ));
}

#[test]
fn test_parse_register_command_invalid_missing_args() {
    let parser = create_parser();
    let result = Command::parse(&parser, "!miou register game123");
    assert!(matches!(result, Err(CommandParsingError::InvalidRegister)));
}

#[test]
fn test_parse_register_command_invalid_delay() {
    let parser = create_parser();
    let result = Command::parse(&parser, "!miou register game123 Alice invalid");
    assert!(matches!(result, Err(CommandParsingError::InvalidRegister)));
}

#[test]
fn test_parse_unregister_command() {
    let parser = create_parser();
    let result = Command::parse(&parser, "!miou unregister game123");
    assert!(matches!(result, Ok(Command::Unregister(game_id)) if game_id == "game123"));
}

#[test]
fn test_parse_unregister_command_invalid_missing_args() {
    let parser = create_parser();
    let result = Command::parse(&parser, "!miou unregister");
    assert!(matches!(result, Err(CommandParsingError::InvalidUnRegister)));
}

#[test]
fn test_parse_unknown_command() {
    let parser = create_parser();
    assert!(matches!(Command::parse(&parser, "!miou unknown"), Err(CommandParsingError::Unknown)));
}

#[test]
fn test_parse_not_miou_command() {
    let parser = create_parser();
    assert!(matches!(Command::parse(&parser, "!other_bot help"), Err(CommandParsingError::NotMiou)));
}

#[test]
fn test_parse_unable_to_parse() {
    let parser = create_parser();
    assert!(matches!(
        Command::parse(&parser, "This is not a command"),
        Err(CommandParsingError::UnableToParse)
    ));
}

#[test]
fn parse_register_with_plus_sign_and_overflow() {
    let parser = create_parser();
    assert!(matches!(
        Command::parse(&parser, "!miou register g p +15"),
        Ok(Command::Register(_, _, 15))
    ));
    assert!(matches!(
        Command::parse(&parser, "!miou register g p 18446744073709551616"),
        Err(CommandParsingError::InvalidRegister)
    ));
    assert!(matches!(
        Command::parse(&parser, "!miou register g p 18446744073709551615"),
        Ok(Command::Register(_, _, 18446744073709551615))
    ));
}

#[test]
fn test_format_command_error_unknown() {
    let result = format_command_error(CommandParsingError::Unknown);
    assert!(result.is_some());
    assert!(result.unwrap().contains("Unknown command"));
}

#[test]
fn test_format_command_error_invalid_register() {
    let result = format_command_error(CommandParsingError::InvalidRegister);
    assert!(result.is_some());
    assert!(result.unwrap().contains("Invalid register"));
}

#[test]
fn test_format_command_error_invalid_unregister() {
    let result = format_command_error(CommandParsingError::InvalidUnRegister);
    assert!(result.is_some());
    assert!(result.unwrap().contains("Invalid unregister"));
}

#[test]
fn test_format_command_error_unable_to_parse() {
    assert!(format_command_error(CommandParsingError::UnableToParse).is_none());
}

#[test]
fn test_format_command_error_not_miou() {
    assert!(format_command_error(CommandParsingError::NotMiou).is_none());
}

#[test]
fn test_parse_valid_help_command() {
    let commander = Commander::new();
    let result = commander.parse("!miou help");
    assert!(result.is_ok());
    assert!(matches!(result.unwrap(), Command::Help));
}

#[test]
fn test_parse_valid_games_command() {
    let commander = Commander::new();
    let result = commander.parse("!miou games");
    assert!(matches!(result.unwrap(), Command::Games));
}

#[test]
fn test_parse_valid_alerts_command() {
    let commander = Commander::new();
    let result = commander.parse("!miou alerts");
    assert!(matches!(result.unwrap(), Command::Alerts));
}

#[test]
fn test_parse_valid_register_command() {
    let commander = Commander::new();
    match commander.parse("!miou register game123 Alice 60").unwrap() {
        Command::Register(game_id, player_name, delay) => {
            assert_eq!(game_id, "game123");
            assert_eq!(player_name, "Alice");
            assert_eq!(delay, 60);
        }
        _ => panic!("Expected Register command"),
    }
}

#[test]
fn test_parse_valid_unregister_command() {
    let commander = Commander::new();
    match commander.parse("!miou unregister game123").unwrap() {
        Command::Unregister(game_id) => assert_eq!(game_id, "game123"),
        _ => panic!("Expected Unregister command"),
    }
}

#[test]
fn test_parse_invalid_command_returns_error() {
    let commander = Commander::new();
    match commander.parse("!miou unknown_command").err().unwrap() {
        CommandParseError::InvalidCommand(msg) => assert!(msg.contains("Unknown command")),
        _ => panic!("Expected InvalidCommand error"),
    }
}

#[test]
fn test_parse_not_for_bot() {
    let commander = Commander::new();
    assert!(matches!(commander.parse("!other_bot help").err().unwrap(), CommandParseError::NotForBot));
}

#[test]
fn test_parse_not_a_command() {
    let commander = Commander::new();
    assert!(matches!(
        commander.parse("This is just a regular message").err().unwrap(),
        CommandParseError::NotForBot
    ));
}

#[test]
fn test_parse_invalid_register_missing_args() {
    let commander = Commander::new();
    match commander.parse("!miou register game123").err().unwrap() {
        CommandParseError::InvalidCommand(msg) => assert!(msg.contains("Invalid register")),
        _ => panic!("Expected InvalidCommand error"),
    }
}

#[test]
fn test_parse_invalid_register_bad_delay() {
    let commander = Commander::new();
    match commander.parse("!miou register game123 Alice invalid").err().unwrap() {
        CommandParseError::InvalidCommand(msg) => assert!(msg.contains("Invalid register")),
        _ => panic!("Expected InvalidCommand error"),
    }
}

#[test]
fn test_parse_invalid_unregister_missing_args() {
    let commander = Commander::new();
    match commander.parse("!miou unregister").err().unwrap() {
        CommandParseError::InvalidCommand(msg) => assert!(msg.contains("Invalid unregister")),
        _ => panic!("Expected InvalidCommand error"),
    }
}

#[test]
fn test_parse_empty_command() {
    let commander = Commander::new();
    assert!(matches!(commander.parse("!miou").unwrap(), Command::Help));
}

#[test]
fn test_parse_register_with_numeric_player_name() {
    let commander = Commander::new();
    match commander.parse("!miou register game123 123 60").unwrap() {
        Command::Register(game_id, player_name, delay) => {
            assert_eq!(game_id, "game123");
            assert_eq!(player_name, "123");
            assert_eq!(delay, 60);
        }
        _ => panic!("Expected Register command"),
    }
}

#[test]
fn test_parse_register_with_zero_delay() {
    let commander = Commander::new();
    match commander.parse("!miou register game123 Alice 0").unwrap() {
        Command::Register(_, _, delay) => assert_eq!(delay, 0),
        _ => panic!("Expected Register command"),
    }
}

#[test]
fn test_parse_register_with_large_delay() {
    let commander = Commander::new();
    match commander.parse("!miou register game123 Alice 999999").unwrap() {
        Command::Register(_, _, delay) => assert_eq!(delay, 999999),
        _ => panic!("Expected Register command"),
    }
}

#[test]
fn test_parse_command_help() {
    let commander = Commander::new();
    let context = create_context(vec![], vec![], "!room:example.com", "@user:example.com");
    let result = commander.parse_command(&Command::Help, &context).unwrap();
    assert!(!result.response.is_empty());
    assert!(result.alert_to_add.is_none());
    assert!(result.alerts_to_remove.is_none());
}

#[test]
fn test_parse_command_games() {
    let commander = Commander::new();
    let game = create_game("game1", vec![("player1", "Alice", "red"), ("player2", "Bob", "blue")], "http://example.com/player1");
    let context = create_context(vec![game], vec![], "!room:example.com", "@user:example.com");
    let result = commander.parse_command(&Command::Games, &context).unwrap();
    assert!(!result.response.is_empty());
    assert!(result.alert_to_add.is_none());
    assert!(result.alerts_to_remove.is_none());
}

#[test]
fn test_parse_command_alerts() {
    let commander = Commander::new();
    let alert = create_alert("!room:example.com", "@user:example.com", "player1", 60);
    let context = create_context(vec![], vec![("game1".to_string(), vec![alert])], "!room:example.com", "@user:example.com");
    let result = commander.parse_command(&Command::Alerts, &context).unwrap();
    assert!(!result.response.is_empty());
    assert!(result.alert_to_add.is_none());
    assert!(result.alerts_to_remove.is_none());
}

#[test]
fn test_parse_command_register_game_not_found() {
    let commander = Commander::new();
    let context = create_context(vec![], vec![], "!room:example.com", "@user:example.com");
    let command = Command::Register("nonexistent".to_string(), "Alice".to_string(), 60);
    let result = commander.parse_command(&command, &context).unwrap();
    assert!(!result.response.is_empty());
    assert!(result.alert_to_add.is_none());
    assert!(result.alerts_to_remove.is_none());
}

#[test]
fn test_parse_command_unregister_no_alerts() {
    let commander = Commander::new();
    let context = create_context(vec![], vec![], "!room:example.com", "@user:example.com");
    let result = commander.parse_command(&Command::Unregister("game123".to_string()), &context).unwrap();
    assert!(!result.response.is_empty());
    assert!(result.alert_to_add.is_none());
    assert!(result.alerts_to_remove.is_some());
}

#[test]
fn test_get_player_turn_message() {
    assert_eq!(
        Commander::get_player_turn_message("@alice:example.com", "http://example.com/player1"),
        "@alice:example.com: it's your turn to play: [http://example.com/player1](http://example.com/player1)."
    )
}

#[test]
fn test_get_access_error_message() {
    assert_eq!(Commander::get_access_error_message(), "Error: unauthorized access to the terraforming mars API");
}

#[test]
fn test_handle_alerts() {
    let game1 = create_game("game1", vec![("player1", "Alice", "red"), ("player2", "Bob", "blue")], "http://alice.example.com");
    let game2 = create_game("game2", vec![("player3", "Charlie", "green")], "http://alice.example.com");
    let alert1 = create_alert("!room:matrix.org", "@alice:matrix.org", "player1", 60);
    let alert2 = create_alert("!room:matrix.org", "@charlie:matrix.org", "player3", 60);
    let context = create_context(
        vec![game1, game2],
        vec![("game1".to_string(), vec![alert1]), ("game2".to_string(), vec![alert2])],
        "!room:matrix.org",
        "@alice:matrix.org",
    );
    let result = handle_alerts(&context);
    assert!(result.alert_to_add.is_none());
    assert!(result.alerts_to_remove.is_none());
    assert!(result.response.contains("Alice"));
    assert!(!result.response.contains("Charlie"));
    assert!(!result.response.contains("Bob"));
}

#[test]
fn handle_alerts_exact_listing() {
    let game1 = create_game("game1", vec![("player1", "Alice", "red"), ("player2", "Bob", "blue")], "u");
    let context = create_context(
        vec![game1],
        vec![(
            "game1".to_string(),
            vec![
                create_alert("!room", "@me", "player1", 60),
                create_alert("!room", "@me", "player2", 60),
                create_alert("!other", "@me", "player2", 60),
                create_alert("!room", "@me", "ghost", 60),
            ],
        )],
        "!room",
        "@me",
    );
    assert_eq!(handle_alerts(&context).response, "Registered alerts:\n\n - game1: Alice, Bob");
    let empty = create_context(vec![], vec![], "!room", "@me");
    assert_eq!(handle_alerts(&empty).response, "No alerts found.");
}

#[test]
fn test_search_player_name() {
    let games_map = games_of(vec![create_game("game1", vec![("player1", "Alice", "red")], "u")]);
    assert_eq!(search_player_name(&games_map, "game1", "player1"), Some("Alice".to_string()));
}

#[test]
fn test_search_player_name_game_not_found() {
    let games_map = games_of(vec![create_game("game1", vec![("player1", "Alice", "red")], "u")]);
    assert_eq!(search_player_name(&games_map, "game999", "player1"), None);
}

#[test]
fn test_search_player_name_player_not_found() {
    let games_map = games_of(vec![create_game("game1", vec![("player1", "Alice", "red")], "u")]);
    assert_eq!(search_player_name(&games_map, "game1", "player999"), None);
}

#[test]
fn test_handle_games_empty_games_map() {
    let context = register_context(vec![]);
    let result = handle_games(&context);
    assert_eq!(result.response, "No ongoing games found.");
    assert!(result.alert_to_add.is_none());
    assert!(result.alerts_to_remove.is_none());
}

#[test]
fn test_handle_games_multiple_games() {
    let game1 = Game { phase: Phase::Action, ..create_game("game1", vec![("player1", "Alice", "red")], "u") };
    let game2 = Game { phase: Phase::Research, ..create_game("game2", vec![("player3", "Charlie", "green")], "u") };
    let context = register_context(vec![game1, game2]);
    let result = handle_games(&context);
    assert!(result.response.contains("game1"));
    assert!(result.response.contains("game2"));
    assert!(result.response.contains("Alice"));
    assert!(result.response.contains("Charlie"));
    assert!(result.alert_to_add.is_none());
    assert!(result.alerts_to_remove.is_none());
}

#[test]
fn test_handle_help() {
    let result = handle_help();
    assert!(result.alert_to_add.is_none());
    assert!(result.alerts_to_remove.is_none());
    assert!(!result.response.is_empty());
}

#[test]
fn test_format_register_error_invalid_delay() {
    assert_eq!(format_register_error(RegisterError::InvalidDelay, "game_id", "player_name"), format_invalid_delay());
}

#[test]
fn test_format_register_error_game_not_found() {
    assert_eq!(
        format_register_error(RegisterError::GameNotFound, "game_id", "player_name"),
        format_game_not_found("game_id")
    );
}

#[test]
fn test_format_register_error_player_not_found() {
    assert_eq!(
        format_register_error(RegisterError::PlayerNotFound, "game_id", "player_name"),
        format_player_not_found("player_name", "game_id")
    );
}

#[test]
fn test_validate_and_get_player_delay_0() {
    assert!(matches!(
        validate_and_get_player(("game_id".to_string(), "player_name".to_string(), 0), &IdMap::new()),
        Err(RegisterError::InvalidDelay)
    ));
}

#[test]
fn test_validate_and_get_player_delay_2_weeks() {
    let weeks = 2 * 7 * 24 * 60;
    assert!(matches!(
        validate_and_get_player(("game_id".to_string(), "player_name".to_string(), weeks), &IdMap::new()),
        Err(RegisterError::InvalidDelay)
    ));
}

#[test]
fn validate_delay_bounds() {
    let games = games_of(vec![create_game("g", vec![("id", "name", "red")], "url")]);
    assert!(validate_and_get_player(("g".to_string(), "name".to_string(), 1), &games).is_ok());
    assert!(validate_and_get_player(("g".to_string(), "name".to_string(), 10080), &games).is_ok());
    assert!(matches!(
        validate_and_get_player(("g".to_string(), "name".to_string(), 10081), &games),
        Err(RegisterError::InvalidDelay)
    ));
}

#[test]
fn test_validate_and_get_player_game_not_found() {
    assert!(matches!(
        validate_and_get_player(("game_id".to_string(), "player_name".to_string(), 1), &IdMap::new()),
        Err(RegisterError::GameNotFound)
    ));
}

#[test]
fn test_validate_and_get_player_player_not_found() {
    let game_id = "game_id".to_string();
    let game = Game {
        id: game_id.to_owned(),
        phase: Phase::Research,
        spectator_id: "spectator_id".to_string(),
        players: Vec::new(),
        waited_players: Vec::new(),
    };
    assert!(matches!(
        validate_and_get_player((game_id.to_owned(), "player_name".to_string(), 1), &games_of(vec![game])),
        Err(RegisterError::PlayerNotFound)
    ));
}

#[test]
fn test_validate_and_get_player() {
    let game_id = "game_id".to_string();
    let player_name = "player_name".to_string();
    let player_id = "player_id".to_string();
    let player = Player {
        id: player_id.to_owned(),
        color: "red".to_string(),
        name: player_name.to_owned(),
        url: "http://example.com/player".to_string(),
    };
    let game = Game {
        id: game_id.to_owned(),
        phase: Phase::Research,
        spectator_id: "spectator_id".to_string(),
        players: Vec::from([player]),
        waited_players: Vec::new(),
    };
    assert_eq!(
        validate_and_get_player((game_id.to_owned(), player_name, 1), &games_of(vec![game])).unwrap().0,
        player_id
    );
}

#[test]
fn test_handle_register_successful() {
    let context = register_context(vec![create_game("game1", vec![("player1", "Alice", "red")], "http://example.com/player")]);
    let command = Command::Register("game1".to_string(), "Alice".to_string(), 60);
    let result = handle_register(&context, &command).unwrap();
    assert_eq!(result.response, format_successful_register());
    assert!(result.alerts_to_remove.is_none());
    let (game_id, alert) = result.alert_to_add.unwrap();
    assert_eq!(game_id, "game1");
    assert_eq!(alert.player_id, "player1");
    assert_eq!(alert.user_id, "@test_user:matrix.org");
    assert_eq!(alert.room_id, "!test_room:matrix.org");
    assert_eq!(alert.delay, 60);
    assert_eq!(alert.player_url, "http://example.com/player");
    assert!(!alert.notified);
}

#[test]
fn test_handle_register_invalid_delay_zero() {
    let context = register_context(vec![create_game("game1", vec![("player1", "Alice", "red")], "u")]);
    let result = handle_register(&context, &Command::Register("game1".to_string(), "Alice".to_string(), 0)).unwrap();
    assert_eq!(result.response, format_invalid_delay());
    assert!(result.alert_to_add.is_none());
    assert!(result.alerts_to_remove.is_none());
}

#[test]
fn test_handle_register_game_not_found() {
    let context = register_context(vec![]);
    let result = handle_register(&context, &Command::Register("game999".to_string(), "Alice".to_string(), 60)).unwrap();
    assert_eq!(result.response, format_game_not_found("game999"));
    assert!(result.alert_to_add.is_none());
    assert!(result.alerts_to_remove.is_none());
}

#[test]
fn test_handle_register_player_not_found() {
    let context = register_context(vec![create_game("game1", vec![("player1", "Alice", "red")], "u")]);
    let result = handle_register(&context, &Command::Register("game1".to_string(), "Bob".to_string(), 60)).unwrap();
    assert_eq!(result.response, format_player_not_found("Bob", "game1"));
    assert!(result.alert_to_add.is_none());
    assert!(result.alerts_to_remove.is_none());
}

#[test]
fn test_handle_register_wrong_command_type() {
    let context = register_context(vec![create_game("game1", vec![("player1", "Alice", "red")], "u")]);
    assert!(handle_register(&context, &Command::Help).is_none());
}

#[test]
fn test_handle_unregister_successful() {
    let context = register_context(vec![]);
    let result = handle_unregister(&context, &Command::Unregister("game123".to_string())).unwrap();
    assert_eq!(result.response, format_successful_unregister());
    assert!(result.alert_to_add.is_none());
    let (game_id, room_id, user_id) = result.alerts_to_remove.unwrap();
    assert_eq!(game_id, "game123");
    assert_eq!(room_id, "!test_room:matrix.org");
    assert_eq!(user_id, "@test_user:matrix.org");
}

#[test]
fn test_handle_unregister_wrong_command_type_help() {
    let context = register_context(vec![]);
    assert!(handle_unregister(&context, &Command::Help).is_none());
}

#[test]
fn command_results_apply_to_controller() {
    let context = register_context(vec![create_game("game1", vec![("player1", "Alice", "red")], "u")]);
    let mut controller: AlertController<u8> =
        AlertController::new(AlertLoader::new("a".to_string()), AlertsMap::new());
    let added = handle_register(&context, &Command::Register("game1".to_string(), "Alice".to_string(), 60)).unwrap();
    controller.apply_command_result(&added);
    assert_eq!(controller.get_alerts_map().get("game1").unwrap().len(), 1);
    let removed = handle_unregister(&context, &Command::Unregister("game1".to_string())).unwrap();
    controller.apply_command_result(&removed);
    assert!(controller.get_alerts_map().get("game1").unwrap().is_empty());
}

#[test]
fn parse_register_rejects_sign_only_and_mixed_delays() {
    let parser = create_parser();
    for delay in ["-5", "+", "1a", "a1", "+-1"] {
        let body = format!("!miou register g p {}", delay);
        assert!(matches!(Command::parse(&parser, &body), Err(CommandParsingError::InvalidRegister)), "{}", delay);
    }
    assert!(matches!(Command::parse(&parser, "!miou register g p 007"), Ok(Command::Register(_, _, 7))));
}
