use miou::markdown_response::{
    format_access_error, format_alerts, format_game_not_found, format_games, format_help,
    format_invalid_delay, format_invalid_register, format_invalid_unregister,
    format_player_not_found, format_player_turn, format_successful_register,
    format_successful_unregister, format_unknown_command,
};
use miou::tmars::{Game, Phase, Player};

#[test]
fn test_format_help() {
    let help = format_help();
    assert!(help.contains("Commands:"));
    assert!(help.contains("games"));
    assert!(help.contains("alerts"));
    assert!(help.contains("register"));
    assert!(help.contains("unregister"));
    assert!(help.contains("help"));
}

#[test]
fn test_format_unknown_command() {
    assert_eq!(format_unknown_command(), "Unknown command. Type `!miou help` for more information.",);
}

#[test]
fn test_format_games_empty() {
    assert_eq!(format_games(&vec![]), "No ongoing games found.",);
}

#[test]
fn test_format_games() {
    let games = vec![
        Game {
            id: "game-id1".to_owned(),
            phase: Phase::Research,
            spectator_id: "spec-id1".to_owned(),
            players: vec![
                Player {
                    id: "player-id1".to_owned(),
                    color: "red".to_owned(),
                    name: "Alice".to_owned(),
                    url: "http://example.com/player-id1".to_owned(),
                },
                Player {
                    id: "player-id2".to_owned(),
                    color: "blue".to_owned(),
                    name: "Bob".to_owned(),
                    url: "http://example.com/player-id2".to_owned(),
                },
            ],
            waited_players: vec!["player-id2".to_owned()],
        },
        Game {
            id: "game-id2".to_owned(),
            phase: Phase::Research,
            spectator_id: "spec-id2".to_owned(),
            players: vec![Player {
                id: "player-id3".to_owned(),
                color: "red".to_owned(),
                name: "Alice".to_owned(),
                url: "http://example.com/player-id3".to_owned(),
            }],
            waited_players: vec![],
        },
    ];
    assert_eq!(
        format_games(&games),
        "Games: \n\n - **game-id1**(Research), **players**: Alice, Bob(⏳)\n- **game-id2**(Research), **players**: Alice",
    );
}

#[test]
fn test_format_invalid_register() {
    assert_eq!(
        format_invalid_register(),
        "Invalid register command. Usage: `!miou register <game_id> <player_name> <delay_in_minutes>`",
    );
}

#[test]
fn test_format_invalid_unregister() {
    assert_eq!(format_invalid_unregister(), "Invalid unregister command. Usage: `!miou unregister <game_id>`",);
}

#[test]
fn test_format_invalid_delay() {
    assert_eq!(format_invalid_delay(), "Invalid delay. Delay must be between 1 minutes and 1 week.",);
}

#[test]
fn test_format_game_not_found() {
    assert_eq!(format_game_not_found("game123"), "Game with id 'game123' not found.",);
}

#[test]
fn test_format_player_not_found() {
    assert_eq!(
        format_player_not_found("Alice", "game123"),
        "Player 'Alice' not found in game with id 'game123'.",
    );
}

#[test]
fn test_format_successful_register() {
    assert_eq!(format_successful_register(), "You have been registered successfully.",);
}

#[test]
fn test_format_alerts_empty() {
    assert_eq!(format_alerts(&vec![]), "No alerts found.",);
}

#[test]
fn test_format_alerts() {
    let alerts = vec![
        ("game-id1".to_owned(), vec!["Alice".to_owned(), "Bob".to_owned()]),
        ("game-id2".to_owned(), vec!["Charlie".to_owned()]),
    ];
    assert_eq!(format_alerts(&alerts), "Registered alerts:\n\n - game-id1: Alice, Bob\n- game-id2: Charlie",);
}

#[test]
fn test_format_player_turn() {
    assert_eq!(
        format_player_turn("@alice:example.com", "http://example.com/player-id1"),
        "@alice:example.com: it's your turn to play: [http://example.com/player-id1](http://example.com/player-id1)."
    )
}

#[test]
fn test_format_successful_unregister() {
    assert_eq!(format_successful_unregister(), "You have been unregistered successfully.",);
}

#[test]
fn test_format_access_error() {
    assert_eq!(format_access_error(), "Error: unauthorized access to the terraforming mars API",);
}
