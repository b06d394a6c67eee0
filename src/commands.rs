//! Chat commands: what they are given, what they answer, and their handlers.
//!
//! Handlers do not change any state: they return the alert changes in their
//! [`CommandResult`], and the caller applies them.

use vstd::prelude::*;
use command_parser::Parser;
use crate::alert::{Alert, AlertView};
use crate::alerts_map::AlertsMap;
use crate::command::{Command, CommandParsingError, CommandView, command_error_text, command_from, format_command_error, padded, parse_view, parsed_command};
use crate::markdown_response::{
    alert_entries, alerts_text, format_access_error, format_alerts, format_game_not_found,
    format_games, format_help, format_invalid_delay, format_player_not_found, format_player_turn,
    format_successful_register, format_successful_unregister, games_text, help_text,
};
use crate::text::str_eq;
use crate::tmars::{GamesMap, Player, PlayerView, game_list, game_values};

verus! {

/// What a command is run against: the games, the alerts, and where and by
/// whom the command was sent.
#[derive(Debug)]
pub struct CommandContext {
    /// Ongoing games by identifier.
    pub games_map: GamesMap,
    /// Alerts by game.
    pub alerts_map: AlertsMap,
    /// Chat room of the command.
    pub room_id: String,
    /// Chat user who sent the command.
    pub user_id: String,
}

impl CommandContext {
    pub open spec fn wf(&self) -> bool {
        self.games_map.wf() && self.alerts_map.wf()
    }
}

/// The outcome of a command: the answer to post, and the alert changes that
/// the caller applies to the registry.
#[derive(Debug)]
pub struct CommandResult {
    /// Markdown answer.
    pub response: String,
    /// Alert to register, with its game.
    pub alert_to_add: Option<(String, Alert)>,
    /// Alerts to remove: game, room and user.
    pub alerts_to_remove: Option<(String, String, String)>,
}

/// Why a message gets no command: either it is not for the bot, and the bot
/// stays silent, or it is an invalid command, and the bot answers the text.
#[derive(Debug)]
pub enum CommandParseError {
    NotForBot,
    InvalidCommand(String),
}

/// The first player of `ps` whose identifier is `id`.
pub open spec fn player_with_id(ps: Seq<PlayerView>, id: Seq<char>) -> Option<PlayerView>
    decreases ps.len(),
{
    if ps.len() == 0 {
        None
    } else if ps[0].id == id {
        Some(ps[0])
    } else {
        player_with_id(ps.drop_first(), id)
    }
}

/// The first player of `ps` whose name is `name`.
pub open spec fn player_with_name(ps: Seq<PlayerView>, name: Seq<char>) -> Option<PlayerView>
    decreases ps.len(),
{
    if ps.len() == 0 {
        None
    } else if ps[0].name == name {
        Some(ps[0])
    } else {
        player_with_name(ps.drop_first(), name)
    }
}

/// The position of the first player of `players` with identifier `id`, or,
/// when `by_name`, with name `id`.
fn find_player(players: &Vec<Player>, key: &str, by_name: bool) -> (r: Option<usize>)
    ensures
        match r {
            Some(i) => i < players.len() && (if by_name {
                player_with_name(players@.map_values(|p: Player| p@), key@)
            } else {
                player_with_id(players@.map_values(|p: Player| p@), key@)
            }) == Some(players@[i as int]@),
            None => (if by_name {
                player_with_name(players@.map_values(|p: Player| p@), key@)
            } else {
                player_with_id(players@.map_values(|p: Player| p@), key@)
            }) is None,
        },
{
    let ghost ps = players@.map_values(|p: Player| p@);
    let mut i: usize = 0;
    proof {
        assert(ps.subrange(0, ps.len() as int) =~= ps);
    }
    while i < players.len()
        invariant
            ps == players@.map_values(|p: Player| p@),
            i <= players.len(),
            if by_name {
                player_with_name(ps.subrange(i as int, ps.len() as int), key@) == player_with_name(
                    ps,
                    key@,
                )
            } else {
                player_with_id(ps.subrange(i as int, ps.len() as int), key@) == player_with_id(
                    ps,
                    key@,
                )
            },
        decreases players.len() - i,
    {
        let p = &players[i];
        let found = if by_name {
            str_eq(p.name.as_str(), key)
        } else {
            str_eq(p.id.as_str(), key)
        };
        let ghost rest = ps.subrange(i as int, ps.len() as int);
        proof {
            assert(rest[0] == p@);
            assert(rest.drop_first() =~= ps.subrange(i + 1, ps.len() as int));
        }
        if found {
            return Some(i);
        }
        i += 1;
    }
    proof {
        assert(ps.subrange(i as int, ps.len() as int) =~= Seq::<PlayerView>::empty());
    }
    None
}

/// The name of the player `player_id` of game `game_id`.
pub open spec fn name_in_game(games: Map<Seq<char>, crate::tmars::Game>, game_id: Seq<char>, player_id: Seq<char>) -> Option<Seq<char>> {
    if games.contains_key(game_id) {
        match player_with_id(games[game_id]@.players, player_id) {
            Some(p) => Some(p.name),
            None => None,
        }
    } else {
        None
    }
}

/// The name of player `player_id` in game `game_id`, if both exist.
pub fn search_player_name(games_map: &GamesMap, game_id: &str, player_id: &str) -> (r: Option<String>)
    requires
        games_map.wf(),
    ensures
        match r {
            Some(n) => name_in_game(games_map@, game_id@, player_id@) == Some(n@),
            None => name_in_game(games_map@, game_id@, player_id@) is None,
        },
{
    match games_map.get(&game_id.to_owned()) {
        Some(game) => match find_player(&game.players, player_id, false) {
            Some(i) => Some(game.players[i].name.clone()),
            None => None,
        },
        None => None,
    }
}

/// The result of a command that only answers.
pub open spec fn answers_only(r: CommandResult, text: Seq<char>) -> bool {
    r.response@ == text && r.alert_to_add is None && r.alerts_to_remove is None
}

/// The help command.
pub fn handle_help() -> (r: CommandResult)
    ensures
        answers_only(r, help_text()),
{
    CommandResult { response: format_help(), alert_to_add: None, alerts_to_remove: None }
}

/// The games command: the list of ongoing games.
pub fn handle_games(context: &CommandContext) -> (r: CommandResult)
    requires
        context.wf(),
    ensures
        answers_only(r, games_text(game_list(context.games_map))),
{
    let games = game_values(&context.games_map);
    CommandResult { response: format_games(&games), alert_to_add: None, alerts_to_remove: None }
}

/// The name listed for alert `a` of game `g`: the alerts of `user` in `room`
/// whose player exists.
pub open spec fn listed_name(
    games: Map<Seq<char>, crate::tmars::Game>,
    g: Seq<char>,
    room: Seq<char>,
    user: Seq<char>,
    a: AlertView,
) -> Option<Seq<char>> {
    if a.user_id == user && a.room_id == room {
        name_in_game(games, g, a.player_id)
    } else {
        None
    }
}

/// The names listed for the alerts `s` of game `g`.
pub open spec fn listed_names(
    games: Map<Seq<char>, crate::tmars::Game>,
    g: Seq<char>,
    room: Seq<char>,
    user: Seq<char>,
    s: Seq<AlertView>,
) -> Seq<Seq<char>> {
    s.filter_map(|a: AlertView| listed_name(games, g, room, user, a))
}

/// The alerts list of `user` in `room`: for each game with at least one
/// listed name, the game and its names.
pub open spec fn alert_listing(
    games: Map<Seq<char>, crate::tmars::Game>,
    reg: Map<Seq<char>, Seq<AlertView>>,
    gs: Seq<Seq<char>>,
    room: Seq<char>,
    user: Seq<char>,
) -> Seq<(Seq<char>, Seq<Seq<char>>)> {
    gs.filter_map(
        |g: Seq<char>|
            if listed_names(games, g, room, user, reg[g]).len() > 0 {
                Some((g, listed_names(games, g, room, user, reg[g])))
            } else {
                None
            },
    )
}

/// The alerts command: the alerts of the sender in the current room.
pub fn handle_alerts(context: &CommandContext) -> (r: CommandResult)
    requires
        context.wf(),
    ensures
        answers_only(
            r,
            alerts_text(
                alert_listing(
                    context.games_map@,
                    context.alerts_map@,
                    context.alerts_map.game_seq(),
                    context.room_id@,
                    context.user_id@,
                ),
            ),
        ),
{
    let ghost games = context.games_map@;
    let ghost reg = context.alerts_map@;
    let ghost room = context.room_id@;
    let ghost user = context.user_id@;
    let ghost gs = context.alerts_map.game_seq();
    let ghost fg = |g: Seq<char>|
        if listed_names(games, g, room, user, reg[g]).len() > 0 {
            Some((g, listed_names(games, g, room, user, reg[g])))
        } else {
            None
        };
    let ids = context.alerts_map.game_ids();
    proof {
        context.alerts_map.lemma_game_seq();
    }
    let mut filtered: Vec<(String, Vec<String>)> = Vec::new();
    let mut i: usize = 0;
    while i < ids.len()
        invariant
            context.wf(),
            games == context.games_map@,
            reg == context.alerts_map@,
            room == context.room_id@,
            user == context.user_id@,
            gs == context.alerts_map.game_seq(),
            fg == (|g: Seq<char>|
                if listed_names(games, g, room, user, reg[g]).len() > 0 {
                    Some((g, listed_names(games, g, room, user, reg[g])))
                } else {
                    None
                }),
            ids@.map_values(|x: String| x@) == gs,
            forall|g: Seq<char>| reg.contains_key(g) <==> gs.contains(g),
            i <= ids.len(),
            alert_entries(filtered@) == gs.take(i as int).filter_map(fg),
        decreases ids.len() - i,
    {
        let g = &ids[i];
        assert(g@ == gs[i as int]);
        assert(gs.contains(g@));
        let alerts = match context.alerts_map.get(g.as_str()) {
            Some(v) => v,
            None => {
                assert(false);
                return CommandResult {
                    response: format_alerts(&filtered),
                    alert_to_add: None,
                    alerts_to_remove: None,
                };
            },
        };
        let ghost s = reg[g@];
        let ghost fa = |a: AlertView| listed_name(games, g@, room, user, a);
        let mut names: Vec<String> = Vec::new();
        let mut j: usize = 0;
        while j < alerts.len()
            invariant
                context.wf(),
                games == context.games_map@,
                s == crate::alerts_map::alert_views(alerts@),
                room == context.room_id@,
                user == context.user_id@,
                fa == (|a: AlertView| listed_name(games, g@, room, user, a)),
                j <= alerts.len(),
                crate::text::views(names@) == s.take(j as int).filter_map(fa),
            decreases alerts.len() - j,
        {
            let a = &alerts[j];
            let ghost before = names@;
            proof {
                s.lemma_filter_map_take_succ(fa, j as int);
                assert(s[j as int] == a@);
            }
            if str_eq(a.user_id.as_str(), context.user_id.as_str()) && str_eq(
                a.room_id.as_str(),
                context.room_id.as_str(),
            ) {
                match search_player_name(&context.games_map, g.as_str(), a.player_id.as_str()) {
                    Some(name) => {
                        names.push(name);
                        proof {
                            assert(crate::text::views(names@) =~= crate::text::views(before).push(names@.last()@));
                        }
                    },
                    None => {},
                }
            }
            j += 1;
        }
        proof {
            assert(s.take(j as int) =~= s);
            gs.lemma_filter_map_take_succ(fg, i as int);
        }
        let ghost prev = filtered@;
        if names.len() > 0 {
            filtered.push((g.clone(), names));
            proof {
                assert(alert_entries(filtered@) =~= alert_entries(prev).push(alert_entries(filtered@).last()));
            }
        }
        i += 1;
    }
    proof {
        assert(gs.take(i as int) =~= gs);
    }
    CommandResult { response: format_alerts(&filtered), alert_to_add: None, alerts_to_remove: None }
}

/// Why a registration is refused.
#[derive(Debug, PartialEq, Eq, Structural)]
pub enum RegisterError {
    /// The delay is not between one minute and one week.
    InvalidDelay,
    /// The game does not exist.
    GameNotFound,
    /// No player of the game has that name.
    PlayerNotFound,
}

/// Minutes in a week, the longest delay.
pub const WEEK_MINUTES: u64 = 10080;

/// The outcome of validating a registration: the identifier and URL of the
/// player, or why it is refused. Checks come in that order: delay, game,
/// player name.
pub open spec fn validation(
    games: Map<Seq<char>, crate::tmars::Game>,
    game_id: Seq<char>,
    player_name: Seq<char>,
    delay: u64,
) -> Result<(Seq<char>, Seq<char>), RegisterError> {
    if delay == 0 || delay > WEEK_MINUTES {
        Err(RegisterError::InvalidDelay)
    } else if !games.contains_key(game_id) {
        Err(RegisterError::GameNotFound)
    } else {
        match player_with_name(games[game_id]@.players, player_name) {
            Some(p) => Ok((p.id, p.url)),
            None => Err(RegisterError::PlayerNotFound),
        }
    }
}

/// Checks a registration and gives the identifier and URL of the player.
pub fn validate_and_get_player(request: (String, String, u64), games: &GamesMap) -> (r: Result<
    (String, String),
    RegisterError,
>)
    requires
        games.wf(),
    ensures
        match r {
            Ok(p) => validation(games@, request.0@, request.1@, request.2) == Ok::<
                (Seq<char>, Seq<char>),
                RegisterError,
            >((p.0@, p.1@)),
            Err(e) => validation(games@, request.0@, request.1@, request.2) == Err::<
                (Seq<char>, Seq<char>),
                RegisterError,
            >(e),
        },
{
    let (game_id, player_name, delay) = request;
    if delay == 0 || delay > WEEK_MINUTES {
        return Err(RegisterError::InvalidDelay);
    }
    let game = match games.get(&game_id) {
        None => {
            return Err(RegisterError::GameNotFound);
        },
        Some(g) => g,
    };
    match find_player(&game.players, player_name.as_str(), true) {
        None => Err(RegisterError::PlayerNotFound),
        Some(i) => Ok((game.players[i].id.clone(), game.players[i].url.clone())),
    }
}

/// The answer for a refused registration.
pub open spec fn register_error_text(error: RegisterError, game_id: Seq<char>, player_name: Seq<char>) -> Seq<char> {
    match error {
        RegisterError::InvalidDelay => "Invalid delay. Delay must be between 1 minutes and 1 week."@,
        RegisterError::GameNotFound => "Game with id '"@ + game_id + "' not found."@,
        RegisterError::PlayerNotFound => "Player '"@ + player_name + "' not found in game with id '"@
            + game_id + "'."@,
    }
}

/// The answer for a refused registration.
pub fn format_register_error(error: RegisterError, game_id: &str, player_name: &str) -> (r: String)
    ensures
        r@ == register_error_text(error, game_id@, player_name@),
{
    match error {
        RegisterError::InvalidDelay => format_invalid_delay(),
        RegisterError::GameNotFound => format_game_not_found(game_id),
        RegisterError::PlayerNotFound => format_player_not_found(player_name, game_id),
    }
}

/// `res` is the answer to a registration of player `name` of game `g` with
/// `delay`: the refusal, or the confirmation with the alert to add, not
/// notified.
pub open spec fn register_result(
    context: CommandContext,
    g: Seq<char>,
    name: Seq<char>,
    delay: u64,
    res: CommandResult,
) -> bool {
    match validation(context.games_map@, g, name, delay) {
        Err(e) => answers_only(res, register_error_text(e, g, name)),
        Ok(p) => {
            &&& res.response@ == "You have been registered successfully."@
            &&& res.alerts_to_remove is None
            &&& res.alert_to_add matches Some(added) && added.0@ == g && added.1@ == AlertView {
                room_id: context.room_id@,
                player_id: p.0,
                user_id: context.user_id@,
                notified: false,
                delay,
                player_url: p.1,
            }
        },
    }
}

/// `res` confirms the removal of the sender's alerts of game `g` in the
/// current room.
pub open spec fn unregister_result(context: CommandContext, g: Seq<char>, res: CommandResult) -> bool {
    &&& res.response@ == "You have been unregistered successfully."@
    &&& res.alert_to_add is None
    &&& res.alerts_to_remove matches Some(t) && t.0@ == g && t.1@ == context.room_id@ && t.2@
        == context.user_id@
}

/// The register command: `None` for another command.
pub fn handle_register(context: &CommandContext, command: &Command) -> (r: Option<CommandResult>)
    requires
        context.wf(),
    ensures
        match command@ {
            CommandView::Register(g, name, delay) => r matches Some(res) && register_result(
                *context,
                g,
                name,
                delay,
                res,
            ),
            _ => r is None,
        },
{
    let (game_id, player_name, delay) = match command {
        Command::Register(g, p, d) => (g.clone(), p.clone(), *d),
        _ => {
            return None;
        },
    };
    match validate_and_get_player((game_id.clone(), player_name.clone(), delay), &context.games_map) {
        Err(e) => Some(
            CommandResult {
                response: format_register_error(e, game_id.as_str(), player_name.as_str()),
                alert_to_add: None,
                alerts_to_remove: None,
            },
        ),
        Ok((player_id, player_url)) => Some(
            CommandResult {
                response: format_successful_register(),
                alert_to_add: Some(
                    (
                        game_id,
                        Alert {
                            room_id: context.room_id.clone(),
                            player_id,
                            user_id: context.user_id.clone(),
                            notified: false,
                            delay,
                            player_url,
                        },
                    ),
                ),
                alerts_to_remove: None,
            },
        ),
    }
}

/// The unregister command: `None` for another command.
pub fn handle_unregister(context: &CommandContext, command: &Command) -> (r: Option<CommandResult>)
    ensures
        match command@ {
            CommandView::Unregister(g) => r matches Some(res) && unregister_result(*context, g, res),
            _ => r is None,
        },
{
    let game_id = match command {
        Command::Unregister(g) => g.clone(),
        _ => {
            return None;
        },
    };
    Some(
        CommandResult {
            response: format_successful_unregister(),
            alert_to_add: None,
            alerts_to_remove: Some((game_id, context.room_id.clone(), context.user_id.clone())),
        },
    )
}

/// The outcome of `Commander::parse` for a parse outcome `p` of the command.
pub open spec fn commander_outcome(p: Result<CommandView, CommandParsingError>, r: Result<Command, CommandParseError>) -> bool {
    match p {
        Ok(c) => r matches Ok(rc) && rc@ == c,
        Err(e) => match command_error_text(e) {
            Some(t) => r matches Err(CommandParseError::InvalidCommand(m)) && m@ == t,
            None => r matches Err(CommandParseError::NotForBot),
        },
    }
}

/// Parses messages into commands and runs them.
pub struct Commander {
    parser: Parser,
}

impl Commander {
    /// The command prefix, `!`, and the option prefix, `-`.
    pub closed spec fn prefixes(&self) -> (char, char) {
        (self.parser.prefix, self.parser.option_prefix)
    }

    /// A commander for commands written `!miou ...`.
    pub fn new() -> (r: Commander)
        ensures
            r.prefixes() == ('!', '-'),
    {
        Commander { parser: Parser { prefix: '!', option_prefix: '-' } }
    }

    /// The command in message `body`. Messages that are not commands of the
    /// bot give `NotForBot`; invalid commands give the answer to post.
    pub fn parse(&self, body: &str) -> (r: Result<Command, CommandParseError>)
        ensures
            commander_outcome(
                command_from(parsed_command(self.prefixes().0, self.prefixes().1, padded(body@))),
                r,
            ),
    {
        match Command::parse(&self.parser, body) {
            Ok(c) => Ok(c),
            Err(e) => match format_command_error(e) {
                Some(message) => Err(CommandParseError::InvalidCommand(message)),
                None => Err(CommandParseError::NotForBot),
            },
        }
    }

    /// Runs `command` against `context`.
    pub fn parse_command(&self, command: &Command, context: &CommandContext) -> (r: Option<CommandResult>)
        requires
            context.wf(),
        ensures
            r is Some,
            match command@ {
                CommandView::Help => answers_only(r->Some_0, help_text()),
                CommandView::Games => answers_only(
                    r->Some_0,
                    games_text(game_list(context.games_map)),
                ),
                CommandView::Alerts => answers_only(
                    r->Some_0,
                    alerts_text(
                        alert_listing(
                            context.games_map@,
                            context.alerts_map@,
                            context.alerts_map.game_seq(),
                            context.room_id@,
                            context.user_id@,
                        ),
                    ),
                ),
                CommandView::Register(g, name, delay) => register_result(
                    *context,
                    g,
                    name,
                    delay,
                    r->Some_0,
                ),
                CommandView::Unregister(g) => unregister_result(*context, g, r->Some_0),
            },
    {
        let result = match command {
            Command::Help => handle_help(),
            Command::Register(_, _, _) => match handle_register(context, command) {
                Some(result) => result,
                None => {
                    return None;
                },
            },
            Command::Unregister(_) => match handle_unregister(context, command) {
                Some(result) => result,
                None => {
                    return None;
                },
            },
            Command::Games => handle_games(context),
            Command::Alerts => handle_alerts(context),
        };
        Some(result)
    }

    /// The mention that tells `user_id` it is their turn.
    pub fn get_player_turn_message(user_id: &str, player_url: &str) -> (r: String)
        ensures
            r@ == user_id@ + ": it's your turn to play: ["@ + player_url@ + "]("@ + player_url@
                + ")."@,
    {
        format_player_turn(user_id, player_url)
    }

    /// The answer when the game server refuses access.
    pub fn get_access_error_message() -> (r: String)
        ensures
            r@ == "Error: unauthorized access to the terraforming mars API"@,
    {
        format_access_error()
    }
}

} // verus!
