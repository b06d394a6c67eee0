//! Markdown answers of the bot.

use vstd::prelude::*;
use vstd::string::StringExecFns;
use crate::text::{join, join_strings, views};
use crate::tmars::{Game, GameView, PlayerView, phase_name, waits_for};

verus! {

pub open spec fn help_text() -> Seq<char> {
    "Commands:\n- `games`: list all the ongoing games\n- `alerts`: list your registered alerts\n- `register <game_id> <player_name> <delay_in_minutes>`: register a new alert\n- `unregister <game_id>`: unregister an alert\n- `help`: show this help message\n\nAlert sends a mention to the registered user when their turn to play arrives, following the delay set in the register argument.\n> *miou* is a free open source terraforming mars bot. Source code is available on [Github](https://github.com/florianduros/miou)."@
}

/// The help message listing the commands.
pub fn format_help() -> (r: String)
    ensures
        r@ == help_text(),
{
    "Commands:\n- `games`: list all the ongoing games\n- `alerts`: list your registered alerts\n- `register <game_id> <player_name> <delay_in_minutes>`: register a new alert\n- `unregister <game_id>`: unregister an alert\n- `help`: show this help message\n\nAlert sends a mention to the registered user when their turn to play arrives, following the delay set in the register argument.\n> *miou* is a free open source terraforming mars bot. Source code is available on [Github](https://github.com/florianduros/miou).".to_owned()
}

/// The answer to a command that does not exist.
pub fn format_unknown_command() -> (r: String)
    ensures
        r@ == "Unknown command. Type `!miou help` for more information."@,
{
    "Unknown command. Type `!miou help` for more information.".to_owned()
}

/// How a player appears in the games list: an hourglass marks a player the
/// game waits for.
pub open spec fn player_label(game: GameView, p: PlayerView) -> Seq<char> {
    if waits_for(game, p.id) {
        p.name + "(⏳)"@
    } else {
        p.name
    }
}

/// One line of the games list.
pub open spec fn game_line(game: GameView) -> Seq<char> {
    "- **"@ + game.id + "**("@ + phase_name(game.phase) + "), **players**: "@ + join(
        game.players.map_values(|p: PlayerView| player_label(game, p)),
        ", "@,
    )
}

/// The games list.
pub open spec fn games_text(games: Seq<GameView>) -> Seq<char> {
    if games.len() == 0 {
        "No ongoing games found."@
    } else {
        "Games: \n\n "@ + join(games.map_values(|g: GameView| game_line(g)), "\n"@)
    }
}

fn format_game_line(game: &Game) -> (r: String)
    ensures
        r@ == game_line(game@),
{
    let mut labels: Vec<String> = Vec::new();
    let mut i: usize = 0;
    while i < game.players.len()
        invariant
            i <= game.players.len(),
            labels.len() == i,
            forall|j: int|
                0 <= j < i ==> #[trigger] labels@[j]@ == player_label(game@, game.players@[j]@),
        decreases game.players.len() - i,
    {
        let p = &game.players[i];
        let mut label = p.name.clone();
        if game.is_waited(p.id.as_str()) {
            label.append("(⏳)");
        }
        labels.push(label);
        i += 1;
    }
    proof {
        assert(views(labels@) =~= game@.players.map_values(|p: PlayerView| player_label(game@, p)));
    }
    let mut r = "- **".to_owned();
    r.append(game.id.as_str());
    r.append("**(");
    r.append(game.phase.name().as_str());
    r.append("), **players**: ");
    r.append(join_strings(&labels, ", ").as_str());
    r
}

/// The list of ongoing games, their phase and players.
pub fn format_games(games: &Vec<Game>) -> (r: String)
    ensures
        r@ == games_text(games@.map_values(|g: Game| g@)),
{
    if games.len() == 0 {
        return "No ongoing games found.".to_owned();
    }
    let mut lines: Vec<String> = Vec::new();
    let mut i: usize = 0;
    while i < games.len()
        invariant
            i <= games.len(),
            lines.len() == i,
            forall|j: int| 0 <= j < i ==> #[trigger] lines@[j]@ == game_line(games@[j]@),
        decreases games.len() - i,
    {
        lines.push(format_game_line(&games[i]));
        i += 1;
    }
    proof {
        assert(views(lines@) =~= games@.map_values(|g: Game| g@).map_values(
            |g: GameView| game_line(g),
        ));
    }
    let mut r = "Games: \n\n ".to_owned();
    r.append(join_strings(&lines, "\n").as_str());
    r
}

/// The answer to a malformed register command.
pub fn format_invalid_register() -> (r: String)
    ensures
        r@
            == "Invalid register command. Usage: `!miou register <game_id> <player_name> <delay_in_minutes>`"@,
{
    "Invalid register command. Usage: `!miou register <game_id> <player_name> <delay_in_minutes>`".to_owned()
}

/// The answer to a malformed unregister command.
pub fn format_invalid_unregister() -> (r: String)
    ensures
        r@ == "Invalid unregister command. Usage: `!miou unregister <game_id>`"@,
{
    "Invalid unregister command. Usage: `!miou unregister <game_id>`".to_owned()
}

/// The answer to a delay outside one minute to one week.
pub fn format_invalid_delay() -> (r: String)
    ensures
        r@ == "Invalid delay. Delay must be between 1 minutes and 1 week."@,
{
    "Invalid delay. Delay must be between 1 minutes and 1 week.".to_owned()
}

/// The answer when game `game_id` does not exist.
pub fn format_game_not_found(game_id: &str) -> (r: String)
    ensures
        r@ == "Game with id '"@ + game_id@ + "' not found."@,
{
    let mut r = "Game with id '".to_owned();
    r.append(game_id);
    r.append("' not found.");
    r
}

/// The answer when no player of game `game_id` is named `player_name`.
pub fn format_player_not_found(player_name: &str, game_id: &str) -> (r: String)
    ensures
        r@ == "Player '"@ + player_name@ + "' not found in game with id '"@ + game_id@ + "'."@,
{
    let mut r = "Player '".to_owned();
    r.append(player_name);
    r.append("' not found in game with id '");
    r.append(game_id);
    r.append("'.");
    r
}

/// The answer to a successful registration.
pub fn format_successful_register() -> (r: String)
    ensures
        r@ == "You have been registered successfully."@,
{
    "You have been registered successfully.".to_owned()
}

/// The answer to a successful unregistration.
pub fn format_successful_unregister() -> (r: String)
    ensures
        r@ == "You have been unregistered successfully."@,
{
    "You have been unregistered successfully.".to_owned()
}

/// The mention that tells `user_id` it is their turn, with the link.
pub fn format_player_turn(user_id: &str, player_url: &str) -> (r: String)
    ensures
        r@ == user_id@ + ": it's your turn to play: ["@ + player_url@ + "]("@ + player_url@
            + ")."@,
{
    let mut r = user_id.to_owned();
    r.append(": it's your turn to play: [");
    r.append(player_url);
    r.append("](");
    r.append(player_url);
    r.append(").");
    r
}

/// One line of the alerts list: a game and the names of its players.
pub open spec fn alert_line(entry: (Seq<char>, Seq<Seq<char>>)) -> Seq<char> {
    "- "@ + entry.0 + ": "@ + join(entry.1, ", "@)
}

/// The alerts list.
pub open spec fn alerts_text(alerts: Seq<(Seq<char>, Seq<Seq<char>>)>) -> Seq<char> {
    if alerts.len() == 0 {
        "No alerts found."@
    } else {
        "Registered alerts:\n\n "@ + join(
            alerts.map_values(|e: (Seq<char>, Seq<Seq<char>>)| alert_line(e)),
            "\n"@,
        )
    }
}

/// The model of an alerts list.
pub open spec fn alert_entries(alerts: Seq<(String, Vec<String>)>) -> Seq<
    (Seq<char>, Seq<Seq<char>>),
> {
    alerts.map_values(|e: (String, Vec<String>)| (e.0@, views(e.1@)))
}

/// The registered alerts: for each game, the players watched.
pub fn format_alerts(alerts: &Vec<(String, Vec<String>)>) -> (r: String)
    ensures
        r@ == alerts_text(alert_entries(alerts@)),
{
    if alerts.len() == 0 {
        return "No alerts found.".to_owned();
    }
    let mut lines: Vec<String> = Vec::new();
    let mut i: usize = 0;
    while i < alerts.len()
        invariant
            i <= alerts.len(),
            lines.len() == i,
            forall|j: int|
                0 <= j < i ==> #[trigger] lines@[j]@ == alert_line(alert_entries(alerts@)[j]),
        decreases alerts.len() - i,
    {
        let mut line = "- ".to_owned();
        line.append(alerts[i].0.as_str());
        line.append(": ");
        line.append(join_strings(&alerts[i].1, ", ").as_str());
        lines.push(line);
        i += 1;
    }
    proof {
        assert(views(lines@) =~= alert_entries(alerts@).map_values(
            |e: (Seq<char>, Seq<Seq<char>>)| alert_line(e),
        ));
    }
    let mut r = "Registered alerts:\n\n ".to_owned();
    r.append(join_strings(&lines, "\n").as_str());
    r
}

/// The answer when the game server refuses access.
pub fn format_access_error() -> (r: String)
    ensures
        r@ == "Error: unauthorized access to the terraforming mars API"@,
{
    "Error: unauthorized access to the terraforming mars API".to_owned()
}

} // verus!
