//! Game state as seen from the game server: games, players and phases, and the
//! answers of the server's API.

use vstd::prelude::*;
use vstd::string::StringExecFns;
use crate::id_map::IdMap;
use crate::text::{debug_str, debug_str_of, join, join_strings, views};

verus! {

/// Phases of a Terraforming Mars game.
#[derive(Debug, Clone, Copy, PartialEq, Eq, Structural)]
pub enum Phase {
    /// Initial drafting of project and prelude cards.
    InitialDrafting,
    /// Each player plays their preludes.
    Preludes,
    /// Each player plays their CEOs.
    Ceos,
    /// Players choose the cards to keep.
    Research,
    /// Standard drafting phase.
    Drafting,
    /// Action phase of the rulebook.
    Action,
    /// Production phase of the rulebook.
    Production,
    /// Solar phase of the rulebook.
    Solar,
    /// Cleanup and turn order phase.
    Intergeneration,
    /// The game is over.
    End,
}

/// The name of a phase, as `{:?}` prints it.
pub open spec fn phase_name(p: Phase) -> Seq<char> {
    match p {
        Phase::InitialDrafting => "InitialDrafting"@,
        Phase::Preludes => "Preludes"@,
        Phase::Ceos => "Ceos"@,
        Phase::Research => "Research"@,
        Phase::Drafting => "Drafting"@,
        Phase::Action => "Action"@,
        Phase::Production => "Production"@,
        Phase::Solar => "Solar"@,
        Phase::Intergeneration => "Intergeneration"@,
        Phase::End => "End"@,
    }
}

impl Phase {
    /// The name of the phase, as `{:?}` prints it.
    pub fn name(&self) -> (r: String)
        ensures
            r@ == phase_name(*self),
    {
        match self {
            Phase::InitialDrafting => "InitialDrafting".to_owned(),
            Phase::Preludes => "Preludes".to_owned(),
            Phase::Ceos => "Ceos".to_owned(),
            Phase::Research => "Research".to_owned(),
            Phase::Drafting => "Drafting".to_owned(),
            Phase::Action => "Action".to_owned(),
            Phase::Production => "Production".to_owned(),
            Phase::Solar => "Solar".to_owned(),
            Phase::Intergeneration => "Intergeneration".to_owned(),
            Phase::End => "End".to_owned(),
        }
    }
}

/// Model of a [`Player`].
pub struct PlayerView {
    pub id: Seq<char>,
    pub color: Seq<char>,
    pub name: Seq<char>,
    pub url: Seq<char>,
}

/// A player of a game.
#[derive(Debug, Clone, PartialEq, Eq)]
pub struct Player {
    /// Identifier of the player.
    pub id: String,
    /// Color of the player, which the waiting-for answers use to name players.
    pub color: String,
    /// Display name.
    pub name: String,
    /// Link to the player's page on the game server.
    pub url: String,
}

impl View for Player {
    type V = PlayerView;

    open spec fn view(&self) -> PlayerView {
        PlayerView { id: self.id@, color: self.color@, name: self.name@, url: self.url@ }
    }
}

/// `Player { id: .., color: .., name: .., url: .. }`, as `{:?}` prints it.
pub open spec fn player_debug(p: PlayerView) -> Seq<char> {
    "Player { id: "@ + debug_str_of(p.id) + ", color: "@ + debug_str_of(p.color) + ", name: "@
        + debug_str_of(p.name) + ", url: "@ + debug_str_of(p.url) + " }"@
}

/// `id=.., name= .., color=..`.
pub open spec fn player_display(p: PlayerView) -> Seq<char> {
    "id="@ + p.id + ", name= "@ + p.name + ", color="@ + p.color
}

impl Player {
    /// The one-line description `id=.., name= .., color=..`.
    pub fn to_string(&self) -> (r: String)
        ensures
            r@ == player_display(self@),
    {
        let mut r = "id=".to_owned();
        r.append(self.id.as_str());
        r.append(", name= ");
        r.append(self.name.as_str());
        r.append(", color=");
        r.append(self.color.as_str());
        r
    }

    /// The text that `{:?}` prints for the player.
    pub fn debug_string(&self) -> (r: String)
        ensures
            r@ == player_debug(self@),
    {
        let mut r = "Player { id: ".to_owned();
        r.append(debug_str(self.id.as_str()).as_str());
        r.append(", color: ");
        r.append(debug_str(self.color.as_str()).as_str());
        r.append(", name: ");
        r.append(debug_str(self.name.as_str()).as_str());
        r.append(", url: ");
        r.append(debug_str(self.url.as_str()).as_str());
        r.append(" }");
        r
    }

    /// A field-by-field copy.
    pub fn duplicate(&self) -> (r: Player)
        ensures
            r@ == self@,
    {
        Player {
            id: self.id.clone(),
            color: self.color.clone(),
            name: self.name.clone(),
            url: self.url.clone(),
        }
    }
}

/// Model of a [`Game`].
pub struct GameView {
    pub id: Seq<char>,
    pub phase: Phase,
    pub spectator_id: Seq<char>,
    pub players: Seq<PlayerView>,
    pub waited_players: Seq<Seq<char>>,
}

/// A game and the players whose turn it is.
#[derive(Debug, Clone, PartialEq, Eq)]
pub struct Game {
    /// Identifier of the game.
    pub id: String,
    /// Current phase.
    pub phase: Phase,
    /// Identifier used to watch the game as a spectator.
    pub spectator_id: String,
    /// Players of the game, in the server's order.
    pub players: Vec<Player>,
    /// Identifiers of the players the game is waiting for.
    pub waited_players: Vec<String>,
}

impl View for Game {
    type V = GameView;

    open spec fn view(&self) -> GameView {
        GameView {
            id: self.id@,
            phase: self.phase,
            spectator_id: self.spectator_id@,
            players: self.players@.map_values(|p: Player| p@),
            waited_players: views(self.waited_players@),
        }
    }
}

/// Whether the game `g` waits for the player `player_id`.
pub open spec fn waits_for(g: GameView, player_id: Seq<char>) -> bool {
    g.waited_players.contains(player_id)
}

/// `{"a", "b"}`: the waited players, as `{:?}` prints a set of strings.
pub open spec fn waited_debug(ids: Seq<Seq<char>>) -> Seq<char> {
    "{"@ + join(ids.map_values(|s: Seq<char>| debug_str_of(s)), ", "@) + "}"@
}

/// `[Player { .. }, ..]`: the players, as `{:?}` prints a vector.
pub open spec fn players_debug(ps: Seq<PlayerView>) -> Seq<char> {
    "["@ + join(ps.map_values(|p: PlayerView| player_debug(p)), ", "@) + "]"@
}

/// `id=.., phase=.., spectator_id=.., players=[..], waited_players={..}`.
pub open spec fn game_display(g: GameView) -> Seq<char> {
    "id="@ + g.id + ", phase="@ + phase_name(g.phase) + ", spectator_id="@ + g.spectator_id
        + ", players="@ + players_debug(g.players) + ", waited_players="@ + waited_debug(
        g.waited_players,
    )
}

/// The `{:?}` text of each string.
pub fn debug_strings(items: &Vec<String>) -> (r: Vec<String>)
    ensures
        views(r@) == views(items@).map_values(|s: Seq<char>| debug_str_of(s)),
{
    let mut r: Vec<String> = Vec::new();
    let mut i: usize = 0;
    while i < items.len()
        invariant
            i <= items.len(),
            r.len() == i,
            forall|j: int| 0 <= j < i ==> #[trigger] r@[j]@ == debug_str_of(items@[j]@),
        decreases items.len() - i,
    {
        r.push(debug_str(items[i].as_str()));
        i += 1;
    }
    proof {
        assert(views(r@) =~= views(items@).map_values(|s: Seq<char>| debug_str_of(s)));
    }
    r
}

/// `[` then the items separated by `, ` then `]`.
fn bracketed(items: &Vec<String>, open: &str, close: &str) -> (r: String)
    ensures
        r@ == open@ + join(views(items@), ", "@) + close@,
{
    let mut r = open.to_owned();
    r.append(join_strings(items, ", ").as_str());
    r.append(close);
    r
}

impl Game {
    /// Whether the game waits for the player `player_id`.
    pub fn is_waited(&self, player_id: &str) -> (r: bool)
        ensures
            r == waits_for(self@, player_id@),
    {
        let r = crate::text::contains_str(&self.waited_players, player_id);
        proof {
            if r {
                let i = choose|i: int|
                    0 <= i < self.waited_players.len() && self.waited_players@[i]@ == player_id@;
                assert(self@.waited_players[i] == player_id@);
            }
            if waits_for(self@, player_id@) {
                let i = choose|i: int|
                    0 <= i < self@.waited_players.len() && self@.waited_players[i] == player_id@;
                assert(self.waited_players@[i]@ == player_id@);
            }
        }
        r
    }

    /// A deep copy.
    pub fn duplicate(&self) -> (r: Game)
        ensures
            r@ == self@,
    {
        let mut players: Vec<Player> = Vec::new();
        let mut i: usize = 0;
        while i < self.players.len()
            invariant
                i <= self.players.len(),
                players.len() == i,
                forall|j: int| 0 <= j < i ==> #[trigger] players@[j]@ == self.players@[j]@,
            decreases self.players.len() - i,
        {
            players.push(self.players[i].duplicate());
            i += 1;
        }
        let mut waited: Vec<String> = Vec::new();
        let mut j: usize = 0;
        while j < self.waited_players.len()
            invariant
                j <= self.waited_players.len(),
                waited.len() == j,
                forall|x: int| 0 <= x < j ==> #[trigger] waited@[x]@ == self.waited_players@[x]@,
            decreases self.waited_players.len() - j,
        {
            waited.push(self.waited_players[j].clone());
            j += 1;
        }
        let r = Game {
            id: self.id.clone(),
            phase: self.phase,
            spectator_id: self.spectator_id.clone(),
            players,
            waited_players: waited,
        };
        proof {
            assert(r@.players =~= self@.players);
            assert(r@.waited_players =~= self@.waited_players);
        }
        r
    }

    /// The one-line description of the game.
    pub fn to_string(&self) -> (r: String)
        ensures
            r@ == game_display(self@),
    {
        let mut player_texts: Vec<String> = Vec::new();
        let mut i: usize = 0;
        while i < self.players.len()
            invariant
                i <= self.players.len(),
                player_texts.len() == i,
                forall|j: int|
                    0 <= j < i ==> #[trigger] player_texts@[j]@ == player_debug(self.players@[j]@),
            decreases self.players.len() - i,
        {
            player_texts.push(self.players[i].debug_string());
            i += 1;
        }
        proof {
            assert(views(player_texts@) =~= self@.players.map_values(
                |p: PlayerView| player_debug(p),
            ));
        }
        let waited = debug_strings(&self.waited_players);
        let mut r = "id=".to_owned();
        r.append(self.id.as_str());
        r.append(", phase=");
        r.append(self.phase.name().as_str());
        r.append(", spectator_id=");
        r.append(self.spectator_id.as_str());
        r.append(", players=");
        r.append(bracketed(&player_texts, "[", "]").as_str());
        r.append(", waited_players=");
        r.append(bracketed(&waited, "{", "}").as_str());
        r
    }
}

/// Games indexed by their identifier.
pub type GamesMap = IdMap<String, Game>;

/// The models of the games of a map.
pub open spec fn games_view(m: Map<Seq<char>, Game>) -> Map<Seq<char>, GameView> {
    m.map_values(|g: Game| g@)
}

/// The games of `m`, in the map's order.
pub open spec fn game_list(m: GamesMap) -> Seq<GameView> {
    m.key_seq().map_values(|k: Seq<char>| m@[k]@)
}

/// Copies of the games of `m`, in the map's order.
pub fn game_values(m: &GamesMap) -> (r: Vec<Game>)
    requires
        m.wf(),
    ensures
        r@.map_values(|g: Game| g@) == game_list(*m),
{
    let mut r: Vec<Game> = Vec::new();
    let n = m.len();
    let mut i: usize = 0;
    while i < n
        invariant
            m.wf(),
            n == m.key_seq().len(),
            i <= n,
            r.len() == i,
            forall|j: int| 0 <= j < i ==> #[trigger] r@[j]@ == m@[m.key_seq()[j]]@,
        decreases n - i,
    {
        r.push(m.value_at(i).duplicate());
        i += 1;
    }
    proof {
        assert(r@.map_values(|g: Game| g@) =~= game_list(*m));
    }
    r
}

/// A deep copy of a games map.
pub fn copy_games(m: &GamesMap) -> (r: GamesMap)
    requires
        m.wf(),
    ensures
        r.wf(),
        games_view(r@) == games_view(m@),
{
    let mut r: GamesMap = IdMap::new();
    let n = m.len();
    let mut i: usize = 0;
    proof {
        m.lemma_key_seq();
    }
    while i < n
        invariant
            m.wf(),
            n == m.key_seq().len(),
            i <= n,
            r.wf(),
            m.key_seq().no_duplicates(),
            forall|g: Seq<char>| m@.contains_key(g) <==> m.key_seq().contains(g),
            forall|g: Seq<char>| #[trigger]
                r@.contains_key(g) <==> m.key_seq().take(i as int).contains(g),
            forall|g: Seq<char>| #[trigger] r@.contains_key(g) ==> r@[g]@ == m@[g]@,
        decreases n - i,
    {
        let k = m.key_at(i);
        let v = m.value_at(i);
        let ghost before = r@;
        r.insert(k.clone(), v.duplicate());
        proof {
            let ks = m.key_seq();
            assert(ks.take(i + 1) =~= ks.take(i as int).push(ks[i as int]));
            assert forall|g: Seq<char>| #[trigger] r@.contains_key(g) <==> ks.take(i + 1).contains(g) by {
                if ks.take(i + 1).contains(g) && g != k@ {
                    let j = choose|j: int| 0 <= j < i + 1 && #[trigger] ks.take(i + 1)[j] == g;
                    assert(ks.take(i as int)[j] == g);
                }
                if r@.contains_key(g) {
                    if g == k@ {
                        assert(ks.take(i + 1)[i as int] == g);
                    } else {
                        assert(before.contains_key(g));
                        let j = choose|j: int| 0 <= j < i && #[trigger] ks.take(i as int)[j] == g;
                        assert(ks.take(i + 1)[j] == g);
                    }
                }
            }
            assert forall|g: Seq<char>| #[trigger] r@.contains_key(g) implies r@[g]@ == m@[g]@ by {
                if g != k@ {
                    assert(before.contains_key(g));
                }
            }
        }
        i += 1;
    }
    proof {
        assert(m.key_seq().take(n as int) =~= m.key_seq());
        assert(games_view(r@) =~= games_view(m@));
    }
    r
}

} // verus!

verus! {

/// A game of the `/api/games` answer.
#[derive(Debug)]
pub struct GameResponse {
    /// Identifier of the game.
    pub game_id: String,
}

impl GameResponse {
    /// `game-id=..`.
    pub fn to_string(&self) -> (r: String)
        ensures
            r@ == "game-id="@ + self.game_id@,
    {
        let mut r = "game-id=".to_owned();
        r.append(self.game_id.as_str());
        r
    }
}

/// A player of the `/api/game` answer.
#[derive(Debug)]
pub struct PlayerDetail {
    /// Identifier of the player.
    pub id: String,
    /// Display name.
    pub name: String,
    /// Color of the player.
    pub color: String,
}

/// `PlayerDetail { id: .., name: .., color: .. }`, as `{:?}` prints it.
pub open spec fn player_detail_debug(p: PlayerDetail) -> Seq<char> {
    "PlayerDetail { id: "@ + debug_str_of(p.id@) + ", name: "@ + debug_str_of(p.name@)
        + ", color: "@ + debug_str_of(p.color@) + " }"@
}

impl PlayerDetail {
    /// `id=.., name=.., color=..`.
    pub fn to_string(&self) -> (r: String)
        ensures
            r@ == "id="@ + self.id@ + ", name="@ + self.name@ + ", color="@ + self.color@,
    {
        let mut r = "id=".to_owned();
        r.append(self.id.as_str());
        r.append(", name=");
        r.append(self.name.as_str());
        r.append(", color=");
        r.append(self.color.as_str());
        r
    }

    /// The text that `{:?}` prints for the player.
    pub fn debug_string(&self) -> (r: String)
        ensures
            r@ == player_detail_debug(*self),
    {
        let mut r = "PlayerDetail { id: ".to_owned();
        r.append(debug_str(self.id.as_str()).as_str());
        r.append(", name: ");
        r.append(debug_str(self.name.as_str()).as_str());
        r.append(", color: ");
        r.append(debug_str(self.color.as_str()).as_str());
        r.append(" }");
        r
    }
}

/// The `/api/game` answer: a game and its players.
#[derive(Debug)]
pub struct GameDetail {
    /// Identifier of the game.
    pub id: String,
    /// Phase, as the server names it.
    pub phase: String,
    /// Identifier used to watch the game as a spectator.
    pub spectator_id: String,
    /// Players of the game.
    pub players: Vec<PlayerDetail>,
}

impl GameDetail {
    /// `id=.., phase=.., spectator_id=.., players=[..]`.
    pub fn to_string(&self) -> (r: String)
        ensures
            r@ == "id="@ + self.id@ + ", phase="@ + self.phase@ + ", spectator_id="@
                + self.spectator_id@ + ", players="@ + "["@ + join(
                self.players@.map_values(|p: PlayerDetail| player_detail_debug(p)),
                ", "@,
            ) + "]"@,
    {
        let mut texts: Vec<String> = Vec::new();
        let mut i: usize = 0;
        while i < self.players.len()
            invariant
                i <= self.players.len(),
                texts.len() == i,
                forall|j: int|
                    0 <= j < i ==> #[trigger] texts@[j]@ == player_detail_debug(self.players@[j]),
            decreases self.players.len() - i,
        {
            texts.push(self.players[i].debug_string());
            i += 1;
        }
        proof {
            assert(views(texts@) =~= self.players@.map_values(
                |p: PlayerDetail| player_detail_debug(p),
            ));
        }
        let mut r = "id=".to_owned();
        r.append(self.id.as_str());
        r.append(", phase=");
        r.append(self.phase.as_str());
        r.append(", spectator_id=");
        r.append(self.spectator_id.as_str());
        r.append(", players=");
        r.append(bracketed(&texts, "[", "]").as_str());
        r
    }
}

/// The `/api/waitingfor` answer: the colors of the players the game waits for.
#[derive(Debug)]
pub struct WaitingForResponse {
    /// Colors of the players the game waits for.
    pub waiting_for: Vec<String>,
}

impl WaitingForResponse {
    /// `waiting_for=[..]`.
    pub fn to_string(&self) -> (r: String)
        ensures
            r@ == "waiting_for="@ + "["@ + join(
                views(self.waiting_for@).map_values(|s: Seq<char>| debug_str_of(s)),
                ", "@,
            ) + "]"@,
    {
        let texts = debug_strings(&self.waiting_for);
        let mut r = "waiting_for=".to_owned();
        r.append(bracketed(&texts, "[", "]").as_str());
        r
    }
}

/// Errors of the game server.
#[derive(Debug)]
pub enum SyncError {
    /// The server refused access (HTTP 401 or 403).
    AccessError,
}

} // verus!
