use std::collections::hash_map::DefaultHasher;
use std::hash::{Hash, Hasher};

use miou::alert::Alert;
use miou::alerts_map::AlertsMap;
use miou::controller::AlertController;
use miou::id_map::IdMap;
use miou::loader::AlertLoader;
use miou::scheduler::{AlertKey, TaskTable};
use miou::tmars::{Game, GamesMap, Phase, Player};

fn calculate_hash<T: Hash>(t: &T) -> u64 {
    let mut s = DefaultHasher::new();
    t.hash(&mut s);
    s.finish()
}

fn create_test_alert(room_id: &str, player_id: &str, user_id: &str, delay: u64, notified: bool) -> Alert {
    Alert {
        room_id: room_id.to_string(),
        player_id: player_id.to_string(),
        user_id: user_id.to_string(),
        notified,
        delay,
        player_url: format!("https://example.com/player?id={}", player_id),
    }
}

fn create_test_game(id: &str, waited_players: Vec<&str>) -> Game {
    Game {
        id: id.to_string(),
        phase: Phase::Action,
        spectator_id: "spectator123".to_string(),
        players: vec![
            Player {
                id: "player1".to_string(),
                color: "red".to_string(),
                name: "Player One".to_string(),
                url: "https://example.com/player1".to_string(),
            },
            Player {
                id: "player2".to_string(),
                color: "blue".to_string(),
                name: "Player Two".to_string(),
                url: "https://example.com/player2".to_string(),
            },
        ],
        waited_players: waited_players.iter().map(|s| s.to_string()).collect(),
    }
}

fn games_of(games: Vec<Game>) -> GamesMap {
    let mut m: GamesMap = IdMap::new();
    for g in games {
        m.insert(g.id.clone(), g);
    }
    m
}

fn new_controller() -> AlertController<u32> {
    AlertController::new(AlertLoader::new("alerts.json".to_string()), AlertsMap::new())
}

#[test]
fn test_is_equal() {
    let al1 = Alert {
        room_id: "room1".to_string(),
        player_id: "player1".to_string(),
        user_id: "user1".to_string(),
        notified: false,
        delay: 10,
        player_url: "http://example.com/player1".to_string(),
    };
    let al2 = Alert {
        room_id: "room1".to_string(),
        player_id: "player1".to_string(),
        user_id: "user1".to_string(),
        notified: true,
        delay: 20,
        player_url: "http://example.com/player1".to_string(),
    };
    assert!(al1 == al2);
    assert!(calculate_hash(&al1) == calculate_hash(&al2))
}

#[test]
fn test_is_not_equal() {
    let al1 = Alert {
        room_id: "room1".to_string(),
        player_id: "player1".to_string(),
        user_id: "user1".to_string(),
        notified: false,
        delay: 10,
        player_url: "http://example.com/player1".to_string(),
    };
    let al2 = Alert {
        room_id: "room1".to_string(),
        player_id: "player2".to_string(),
        user_id: "user1".to_string(),
        notified: true,
        delay: 20,
        player_url: "http://example.com/player2".to_string(),
    };
    assert!(al1 != al2);
    assert!(calculate_hash(&al1) != calculate_hash(&al2))
}

#[test]
fn equality_ignores_url_and_differs_by_room() {
    let a = create_test_alert("r1", "pa", "u1", 60, false);
    let mut b = create_test_alert("r1", "pa", "u1", 5, true);
    b.player_url = "elsewhere".to_string();
    assert!(a == b);
    assert_eq!(calculate_hash(&a), calculate_hash(&b));
    let c = create_test_alert("r2", "pa", "u1", 60, false);
    assert!(a != c);
}

#[test]
fn test_new_creates_empty_controller() {
    let controller = new_controller();
    assert!(controller.get_alerts_map().is_empty());
}

#[test]
fn test_add_alert_creates_new_game_entry() {
    let mut controller = new_controller();
    let alert = create_test_alert("!room1:example.com", "player1", "@user1:example.com", 60, false);
    controller.add_alert("game1", &alert);
    let alerts_map = controller.get_alerts_map();
    assert_eq!(alerts_map.len(), 1);
    assert!(alerts_map.contains_key("game1"));
    assert_eq!(alerts_map.get("game1").unwrap().len(), 1);
}

#[test]
fn test_add_alert_adds_to_existing_game() {
    let mut controller = new_controller();
    controller.add_alert("game1", &create_test_alert("!room1:example.com", "player1", "@user1:example.com", 60, false));
    controller.add_alert("game1", &create_test_alert("!room1:example.com", "player2", "@user2:example.com", 120, false));
    let alerts_map = controller.get_alerts_map();
    assert_eq!(alerts_map.len(), 1);
    assert_eq!(alerts_map.get("game1").unwrap().len(), 2);
}

#[test]
fn test_add_alert_replaces_duplicate() {
    let mut controller = new_controller();
    controller.add_alert("game1", &create_test_alert("!room1:example.com", "player1", "@user1:example.com", 60, false));
    controller.add_alert("game1", &create_test_alert("!room1:example.com", "player1", "@user1:example.com", 120, false));
    let alerts_map = controller.get_alerts_map();
    let group = alerts_map.get("game1").unwrap();
    assert_eq!(group.len(), 1);
    // the first registration keeps its delay
    assert_eq!(group[0].delay, 60);
}

#[test]
fn test_remove_alerts_removes_matching_alerts() {
    let mut controller = new_controller();
    controller.add_alert("game1", &create_test_alert("!room1:example.com", "player1", "@user1:example.com", 60, false));
    controller.remove_alerts("game1", "!room1:example.com", "@user1:example.com");
    assert!(controller.get_alerts_map().get("game1").unwrap().is_empty());
}

#[test]
fn test_remove_alerts_keeps_different_users() {
    let mut controller = new_controller();
    controller.add_alert("game1", &create_test_alert("!room1:example.com", "player1", "@user1:example.com", 60, false));
    controller.add_alert("game1", &create_test_alert("!room1:example.com", "player2", "@user2:example.com", 60, false));
    controller.remove_alerts("game1", "!room1:example.com", "@user1:example.com");
    let alerts_map = controller.get_alerts_map();
    let group = alerts_map.get("game1").unwrap();
    assert_eq!(group.len(), 1);
    assert_eq!(group[0].user_id, "@user2:example.com");
}

#[test]
fn test_remove_alerts_keeps_different_rooms() {
    let mut controller = new_controller();
    controller.add_alert("game1", &create_test_alert("!room1:example.com", "player1", "@user1:example.com", 60, false));
    controller.add_alert("game1", &create_test_alert("!room2:example.com", "player1", "@user1:example.com", 60, false));
    controller.remove_alerts("game1", "!room1:example.com", "@user1:example.com");
    let alerts_map = controller.get_alerts_map();
    let group = alerts_map.get("game1").unwrap();
    assert_eq!(group.len(), 1);
    assert_eq!(group[0].room_id, "!room2:example.com");
}

#[test]
fn test_remove_alerts_nonexistent_game() {
    let mut controller = new_controller();
    controller.remove_alerts("nonexistent", "!room1:example.com", "@user1:example.com");
    assert!(controller.get_alerts_map().is_empty());
}

#[test]
fn test_clean_alerts_removes_nonexistent_games() {
    let mut controller = new_controller();
    controller.add_alert("game1", &create_test_alert("!room1:example.com", "player1", "@user1:example.com", 60, false));
    controller.add_alert("game2", &create_test_alert("!room1:example.com", "player2", "@user2:example.com", 60, false));
    let games_map = games_of(vec![create_test_game("game1", vec![])]);
    let aborted = controller.clean_alerts(&games_map);
    assert!(aborted.is_empty());
    let alerts_map = controller.get_alerts_map();
    assert_eq!(alerts_map.len(), 1);
    assert!(alerts_map.contains_key("game1"));
    assert!(!alerts_map.contains_key("game2"));
}

#[test]
fn test_clean_alerts_keeps_existing_games() {
    let mut controller = new_controller();
    controller.add_alert("game1", &create_test_alert("!room1:example.com", "player1", "@user1:example.com", 60, false));
    let games_map = games_of(vec![create_test_game("game1", vec![])]);
    controller.clean_alerts(&games_map);
    let alerts_map = controller.get_alerts_map();
    assert_eq!(alerts_map.len(), 1);
    assert!(alerts_map.contains_key("game1"));
}

#[test]
fn test_get_alerts_to_fire_triggers_for_waited_player() {
    let mut controller = new_controller();
    controller.add_alert("game1", &create_test_alert("!room1:example.com", "player1", "@user1:example.com", 60, false));
    let games_map = games_of(vec![create_test_game("game1", vec!["player1"])]);
    let (alerts_to_fire, _) = controller.get_alerts_to_fire(&games_map);
    assert_eq!(alerts_to_fire.len(), 1);
    assert_eq!(alerts_to_fire[0].0, "game1");
    assert_eq!(alerts_to_fire[0].1.player_id, "player1");
}

#[test]
fn test_get_alerts_to_fire_does_not_trigger_for_non_waited_player() {
    let mut controller = new_controller();
    controller.add_alert("game1", &create_test_alert("!room1:example.com", "player1", "@user1:example.com", 60, false));
    let games_map = games_of(vec![create_test_game("game1", vec!["player2"])]);
    let (alerts_to_fire, _) = controller.get_alerts_to_fire(&games_map);
    assert_eq!(alerts_to_fire.len(), 0);
}

#[test]
fn test_get_alerts_to_fire_does_not_trigger_already_notified() {
    let mut controller = new_controller();
    controller.add_alert("game1", &create_test_alert("!room1:example.com", "player1", "@user1:example.com", 60, true));
    let games_map = games_of(vec![create_test_game("game1", vec!["player1"])]);
    let (alerts_to_fire, _) = controller.get_alerts_to_fire(&games_map);
    assert_eq!(alerts_to_fire.len(), 0);
}

#[test]
fn test_get_alerts_to_fire_resets_notified_when_turn_ends() {
    let mut controller = new_controller();
    controller.add_alert("game1", &create_test_alert("!room1:example.com", "player1", "@user1:example.com", 60, true));
    let games_map = games_of(vec![create_test_game("game1", vec!["player2"])]);
    controller.get_alerts_to_fire(&games_map);
    let alerts_map = controller.get_alerts_map();
    assert!(!alerts_map.get("game1").unwrap()[0].notified);
}

#[test]
fn test_get_alerts_to_fire_marks_as_notified() {
    let mut controller = new_controller();
    controller.add_alert("game1", &create_test_alert("!room1:example.com", "player1", "@user1:example.com", 60, false));
    let games_map = games_of(vec![create_test_game("game1", vec!["player1"])]);
    controller.get_alerts_to_fire(&games_map);
    let alerts_map = controller.get_alerts_map();
    assert!(alerts_map.get("game1").unwrap()[0].notified);
}

#[test]
fn test_update_alerts_cleans_nonexistent_games() {
    let mut controller = new_controller();
    controller.add_alert("game1", &create_test_alert("!room1:example.com", "player1", "@user1:example.com", 60, false));
    controller.add_alert("game2", &create_test_alert("!room1:example.com", "player2", "@user2:example.com", 60, false));
    let games_map = games_of(vec![create_test_game("game1", vec![])]);
    controller.update_alerts(&games_map);
    let alerts_map = controller.get_alerts_map();
    assert_eq!(alerts_map.len(), 1);
    assert!(alerts_map.contains_key("game1"));
}

#[test]
fn test_fire_alert_aborts_existing_task() {
    let mut controller = new_controller();
    let alert = create_test_alert("!room1:example.com", "player1", "@user1:example.com", 10, false);
    assert_eq!(controller.schedule_alert("game1", &alert, 1), None);
    // scheduling again hands back the first task, to be aborted
    assert_eq!(controller.schedule_alert("game1", &alert, 2), Some(1));
    assert!(controller.is_scheduled("game1", &alert));
}

// Scenario: empty registry, one alert added, the game holds one alert.
#[test]
fn scenario_add_to_empty_registry() {
    let mut controller = new_controller();
    controller.add_alert("g1", &create_test_alert("r", "pa", "u1", 60, false));
    assert_eq!(controller.get_alerts_map().get("g1").unwrap().len(), 1);
}

// Scenario: the player becomes active; the alert fires once and is armed.
#[test]
fn scenario_reconcile_arms_alert() {
    let mut controller = new_controller();
    let alert = create_test_alert("r", "pa", "u1", 60, false);
    controller.add_alert("g1", &alert);
    let games = games_of(vec![create_test_game("g1", vec!["pa"])]);
    let update = controller.update_alerts(&games);
    assert_eq!(update.alerts_to_fire.len(), 1);
    assert_eq!(update.alerts_to_fire[0].0, "g1");
    assert!(update.alerts_to_fire[0].1 == alert);
    assert!(update.alerts_to_fire[0].1.notified);
    assert!(update.tasks_to_abort.is_empty());
    for (game_id, a) in &update.alerts_to_fire {
        assert_eq!(controller.schedule_alert(game_id, a, 7), None);
    }
    assert!(controller.get_alerts_map().get("g1").unwrap()[0].notified);
    assert!(controller.is_scheduled("g1", &alert));
}

// Scenario: the turn ends before the delay; the task is cancelled and the
// alert disarmed.
#[test]
fn scenario_turn_ends_before_delay() {
    let mut controller = new_controller();
    let alert = create_test_alert("r", "pa", "u1", 60, false);
    controller.add_alert("g1", &alert);
    let update = controller.update_alerts(&games_of(vec![create_test_game("g1", vec!["pa"])]));
    for (game_id, a) in &update.alerts_to_fire {
        controller.schedule_alert(game_id, a, 7);
    }
    let update = controller.update_alerts(&games_of(vec![create_test_game("g1", vec![])]));
    assert!(update.alerts_to_fire.is_empty());
    assert_eq!(update.tasks_to_abort, vec![7]);
    assert!(!controller.get_alerts_map().get("g1").unwrap()[0].notified);
    assert!(!controller.is_scheduled("g1", &alert));
}

// Scenario: the delay elapses; the task reports it fired and leaves the table.
#[test]
fn scenario_task_fires_once() {
    let mut controller = new_controller();
    let alert = create_test_alert("r", "pa", "u1", 60, false);
    controller.add_alert("g1", &alert);
    let update = controller.update_alerts(&games_of(vec![create_test_game("g1", vec!["pa"])]));
    let ticket = controller.next_ticket();
    controller.schedule_alert("g1", &update.alerts_to_fire[0].1, 7);
    // a second pass while still waited does not fire again
    let again = controller.update_alerts(&games_of(vec![create_test_game("g1", vec!["pa"])]));
    assert!(again.alerts_to_fire.is_empty());
    controller.finish_alert("g1", &alert, ticket);
    assert!(!controller.is_scheduled("g1", &alert));
}

// A stale ticket does not drop the task that replaced it.
#[test]
fn finish_with_stale_ticket_keeps_newer_task() {
    let mut controller = new_controller();
    let alert = create_test_alert("r", "pa", "u1", 60, false);
    let first = controller.next_ticket();
    controller.schedule_alert("g1", &alert, 1);
    controller.schedule_alert("g1", &alert, 2);
    controller.finish_alert("g1", &alert, first);
    assert!(controller.is_scheduled("g1", &alert));
}

// Scenario: removing one observer's alerts leaves the others.
#[test]
fn scenario_remove_only_matching_observer() {
    let mut controller = new_controller();
    controller.add_alert("g1", &create_test_alert("room", "pa", "u1", 60, false));
    controller.add_alert("g1", &create_test_alert("room", "pa", "u2", 60, false));
    controller.remove_alerts("g1", "room", "u1");
    let map = controller.get_alerts_map();
    let group = map.get("g1").unwrap();
    assert_eq!(group.len(), 1);
    assert_eq!(group[0].user_id, "u2");
}

// Prune: a game that disappears takes its alerts and its pending tasks.
#[test]
fn prune_cancels_tasks_of_removed_game() {
    let mut controller = new_controller();
    let a = create_test_alert("r", "pa", "u1", 60, false);
    let b = create_test_alert("r", "pb", "u1", 60, false);
    controller.add_alert("g1", &a);
    controller.add_alert("g2", &b);
    controller.schedule_alert("g1", &a, 10);
    controller.schedule_alert("g2", &b, 20);
    let update = controller.update_alerts(&games_of(vec![create_test_game("g2", vec!["pb"])]));
    assert_eq!(update.tasks_to_abort, vec![10]);
    assert!(!controller.get_alerts_map().contains_key("g1"));
    assert!(!controller.is_scheduled("g1", &a));
    assert!(controller.is_scheduled("g2", &b));
}

#[test]
fn task_table_schedule_and_cancel() {
    let mut table: TaskTable<&str> = TaskTable::new();
    let alert = create_test_alert("r", "pa", "u1", 60, false);
    let key = AlertKey::new("g", &alert);
    assert_eq!(table.schedule(key.clone(), "first"), None);
    assert_eq!(table.schedule(key.clone(), "second"), Some("first"));
    assert_eq!(table.cancel(&key), Some("second"));
    assert_eq!(table.cancel(&key), None);
    assert!(!table.is_pending(&key));
}

#[test]
fn test_load_nonexistent_file_returns_empty_map() {
    let loader = AlertLoader::new("nonexistent_file.json".to_string());
    assert!(loader.decode_alerts_map(None).is_empty());
}

#[test]
fn test_persist_and_load_empty_map() {
    let loader = AlertLoader::new("alerts.json".to_string());
    let text = loader.encode_alerts_map(&AlertsMap::new()).unwrap();
    assert!(loader.decode_alerts_map(Some(&text)).is_empty());
}

#[test]
fn test_persist_and_load_single_alert() {
    let loader = AlertLoader::new("alerts.json".to_string());
    let mut alerts_map = AlertsMap::new();
    alerts_map.add("game1", &create_test_alert("!room1:example.com", "player1", "@user1:example.com", 60, false));
    let text = loader.encode_alerts_map(&alerts_map).unwrap();
    let loaded = loader.decode_alerts_map(Some(&text));
    assert_eq!(loaded.len(), 1);
    assert!(loaded.contains_key("game1"));
    assert_eq!(loaded.get("game1").unwrap().len(), 1);
}

#[test]
fn test_load_preserves_alert_properties() {
    let loader = AlertLoader::new("alerts.json".to_string());
    let mut alerts_map = AlertsMap::new();
    alerts_map.add(
        "game1",
        &Alert {
            room_id: "!room1:example.com".to_string(),
            player_id: "player1".to_string(),
            user_id: "@user1:example.com".to_string(),
            notified: true,
            delay: 120,
            player_url: "https://example.com/player?id=player1".to_string(),
        },
    );
    let text = loader.encode_alerts_map(&alerts_map).unwrap();
    let loaded = loader.decode_alerts_map(Some(&text));
    let loaded_alert = &loaded.get("game1").unwrap()[0];
    assert_eq!(loaded_alert.room_id, "!room1:example.com");
    assert_eq!(loaded_alert.player_id, "player1");
    assert_eq!(loaded_alert.user_id, "@user1:example.com");
    assert!(loaded_alert.notified);
    assert_eq!(loaded_alert.delay, 120);
    assert_eq!(loaded_alert.player_url, "https://example.com/player?id=player1");
}

#[test]
fn test_load_corrupted_json_returns_empty_map() {
    let loader = AlertLoader::new("alerts.json".to_string());
    assert!(loader.decode_alerts_map(Some("{ this is not valid json ")).is_empty());
}

#[test]
fn persist_round_trip_several_games() {
    let loader = AlertLoader::new("alerts.json".to_string());
    let mut alerts_map = AlertsMap::new();
    alerts_map.add("g1", &create_test_alert("r1", "pa", "u1", 60, true));
    alerts_map.add("g1", &create_test_alert("r1", "pb", "u2", 5, false));
    alerts_map.add("g2", &create_test_alert("r2", "pc", "u3", 7, false));
    let text = loader.encode_alerts_map(&alerts_map).unwrap();
    assert!(text.contains("g1") && text.contains("pc"));
    let loaded = loader.decode_alerts_map(Some(&text));
    assert_eq!(loaded.len(), 2);
    let g1 = loaded.get("g1").unwrap();
    assert_eq!(g1.len(), 2);
    assert!(g1[0].notified && g1[0].delay == 60);
    assert!(!g1[1].notified && g1[1].delay == 5);
    assert_eq!(loaded.get("g2").unwrap()[0].delay, 7);
}

#[test]
fn load_text_of_another_shape_gives_empty_registry() {
    let loader = AlertLoader::new("alerts.json".to_string());
    assert!(loader.decode_alerts_map(Some("{\"game1\": []}")).is_empty());
    assert!(loader.decode_alerts_map(Some("")).is_empty());
}

#[test]
fn loader_keeps_its_path() {
    let loader = AlertLoader::new("/data/alerts".to_string());
    assert_eq!(loader.path(), "/data/alerts");
}

#[test]
fn replace_alert_swaps_notified_flag() {
    let mut alerts_map = AlertsMap::new();
    alerts_map.add("g1", &create_test_alert("r", "pa", "u1", 60, false));
    alerts_map.add("g1", &create_test_alert("r", "pb", "u1", 60, false));
    alerts_map.replace_alert("g1", &create_test_alert("r", "pb", "u1", 60, true));
    let group = alerts_map.get("g1").unwrap();
    assert!(!group[0].notified);
    assert!(group[1].notified);
    alerts_map.replace_alert("missing", &create_test_alert("r", "pb", "u1", 60, true));
    assert!(!alerts_map.contains_key("missing"));
}

#[test]
fn encoding_always_gives_text() {
    let loader = AlertLoader::new("alerts.json".to_string());
    let mut alerts_map = AlertsMap::new();
    alerts_map.add("g\"1", &create_test_alert("r\\", "pa", "u\n1", u64::MAX, true));
    let text = loader.encode_alerts_map(&alerts_map).unwrap();
    let loaded = loader.decode_alerts_map(Some(&text));
    assert_eq!(loaded.get("g\"1").unwrap()[0].delay, u64::MAX);
    assert_eq!(loaded.get("g\"1").unwrap()[0].user_id, "u\n1");
}
