//! The games known from the game server, and how its answers update them.
//!
//! The requests themselves are made outside the library; their answers are
//! handed to [`TMarsSync`].

use vstd::prelude::*;
use vstd::string::StringExecFns;
use crate::id_map::IdMap;
use crate::text::{contains_str, holds, str_eq, views};
use crate::tmars::{
    Game, GameDetail, GameView, GamesMap, Phase, Player, PlayerDetail, PlayerView, copy_games,
    games_view,
};

verus! {

/// The URL of the page of player `id` on the server at `server_url`.
pub open spec fn player_url_of(server_url: Seq<char>, id: Seq<char>) -> Seq<char> {
    server_url + "/player?id="@ + id
}

/// The URL of the page of player `player_id` on the server at `server_url`.
pub fn player_url(server_url: &str, player_id: &str) -> (r: String)
    ensures
        r@ == player_url_of(server_url@, player_id@),
{
    let mut r = server_url.to_owned();
    r.append("/player?id=");
    r.append(player_id);
    r
}

/// The phase that the server's name stands for; unknown names count as the
/// research phase.
pub open spec fn phase_from(s: Seq<char>) -> Phase {
    if s == "initialDrafting"@ {
        Phase::InitialDrafting
    } else if s == "preludes"@ {
        Phase::Preludes
    } else if s == "ceos"@ {
        Phase::Ceos
    } else if s == "research"@ {
        Phase::Research
    } else if s == "drafting"@ {
        Phase::Drafting
    } else if s == "action"@ {
        Phase::Action
    } else if s == "production"@ {
        Phase::Production
    } else if s == "solar"@ {
        Phase::Solar
    } else if s == "intergeneration"@ {
        Phase::Intergeneration
    } else if s == "end"@ {
        Phase::End
    } else {
        Phase::Research
    }
}

/// The player that a player of the server's answer becomes.
pub open spec fn player_from(server_url: Seq<char>, p: PlayerDetail) -> PlayerView {
    PlayerView { id: p.id@, color: p.color@, name: p.name@, url: player_url_of(server_url, p.id@) }
}

/// The game that a game of the server's answer becomes, before its waited
/// players are known.
pub open spec fn game_from(server_url: Seq<char>, d: GameDetail) -> GameView {
    GameView {
        id: d.id@,
        phase: phase_from(d.phase@),
        spectator_id: d.spectator_id@,
        players: d.players@.map_values(|p: PlayerDetail| player_from(server_url, p)),
        waited_players: Seq::empty(),
    }
}

/// The games that a list of game answers gives: ended games are left out,
/// and a later answer for the same game wins.
pub open spec fn synced_games(server_url: Seq<char>, ds: Seq<GameDetail>) -> Map<Seq<char>, GameView>
    decreases ds.len(),
{
    if ds.len() == 0 {
        Map::empty()
    } else {
        let m = synced_games(server_url, ds.drop_last());
        if ds.last().phase@ == "end"@ {
            m
        } else {
            m.insert(ds.last().id@, game_from(server_url, ds.last()))
        }
    }
}

/// The identifiers of the players whose color is among `colors`, in the
/// order of the players.
pub open spec fn waited_ids(players: Seq<PlayerView>, colors: Seq<Seq<char>>) -> Seq<Seq<char>> {
    players.filter(|p: PlayerView| colors.contains(p.color)).map_values(|p: PlayerView| p.id)
}

/// The games known from the game server.
pub struct TMarsSync {
    server_url: String,
    games: GamesMap,
}

impl TMarsSync {
    pub closed spec fn wf(&self) -> bool {
        self.games.wf()
    }

    /// The known games.
    pub closed spec fn games(&self) -> Map<Seq<char>, GameView> {
        games_view(self.games@)
    }

    /// The known games, in the order in which they are kept.
    pub closed spec fn game_order(&self) -> Seq<Seq<char>> {
        self.games.key_seq()
    }

    /// The URL of the server.
    pub closed spec fn server(&self) -> Seq<char> {
        self.server_url@
    }

    /// No game is known yet.
    pub fn new(server_url: &str) -> (r: TMarsSync)
        ensures
            r.wf(),
            r.games() == Map::<Seq<char>, GameView>::empty(),
            r.server() == server_url@,
    {
        let r = TMarsSync { server_url: server_url.to_owned(), games: IdMap::new() };
        proof {
            assert(r.games() =~= Map::<Seq<char>, GameView>::empty());
        }
        r
    }

    /// The phase that the server's name stands for.
    pub fn convert_phase(&self, phase: &str) -> (r: Phase)
        ensures
            r == phase_from(phase@),
    {
        if str_eq(phase, "initialDrafting") {
            Phase::InitialDrafting
        } else if str_eq(phase, "preludes") {
            Phase::Preludes
        } else if str_eq(phase, "ceos") {
            Phase::Ceos
        } else if str_eq(phase, "research") {
            Phase::Research
        } else if str_eq(phase, "drafting") {
            Phase::Drafting
        } else if str_eq(phase, "action") {
            Phase::Action
        } else if str_eq(phase, "production") {
            Phase::Production
        } else if str_eq(phase, "solar") {
            Phase::Solar
        } else if str_eq(phase, "intergeneration") {
            Phase::Intergeneration
        } else if str_eq(phase, "end") {
            Phase::End
        } else {
            Phase::Research
        }
    }

    /// The players of a game answer, with the URLs of their pages.
    pub fn convert_players(&self, players: &Vec<PlayerDetail>) -> (r: Vec<Player>)
        ensures
            r@.map_values(|p: Player| p@) == players@.map_values(
                |p: PlayerDetail| player_from(self.server(), p),
            ),
    {
        let mut r: Vec<Player> = Vec::new();
        let mut i: usize = 0;
        while i < players.len()
            invariant
                i <= players.len(),
                r.len() == i,
                forall|j: int|
                    0 <= j < i ==> #[trigger] r@[j]@ == player_from(self.server(), players@[j]),
            decreases players.len() - i,
        {
            let p = &players[i];
            r.push(
                Player {
                    id: p.id.clone(),
                    color: p.color.clone(),
                    name: p.name.clone(),
                    url: player_url(self.server_url.as_str(), p.id.as_str()),
                },
            );
            i += 1;
        }
        proof {
            assert(r@.map_values(|p: Player| p@) =~= players@.map_values(
                |p: PlayerDetail| player_from(self.server(), p),
            ));
        }
        r
    }

    /// Replaces the known games by those of the answers; ended games are left
    /// out and no player is waited for yet.
    pub fn pool_games(&mut self, game_details: &Vec<GameDetail>)
        requires
            old(self).wf(),
        ensures
            final(self).wf(),
            final(self).server() == old(self).server(),
            final(self).games() == synced_games(old(self).server(), game_details@),
    {
        let mut games: GamesMap = IdMap::new();
        let mut i: usize = 0;
        proof {
            assert(games_view(games@) =~= synced_games(self.server(), game_details@.take(0)));
        }
        while i < game_details.len()
            invariant
                i <= game_details.len(),
                games.wf(),
                games_view(games@) == synced_games(self.server(), game_details@.take(i as int)),
            decreases game_details.len() - i,
        {
            let d = &game_details[i];
            let ghost before = games@;
            proof {
                let t = game_details@.take(i + 1);
                assert(t.drop_last() =~= game_details@.take(i as int));
                assert(t.last() == *d);
            }
            if !str_eq(d.phase.as_str(), "end") {
                let players = self.convert_players(&d.players);
                let phase = self.convert_phase(d.phase.as_str());
                let game = Game {
                    id: d.id.clone(),
                    phase,
                    spectator_id: d.spectator_id.clone(),
                    players,
                    waited_players: Vec::new(),
                };
                proof {
                    assert(game@.waited_players =~= Seq::<Seq<char>>::empty());
                    assert(game@ == game_from(self.server(), *d));
                }
                games.insert(d.id.clone(), game);
                proof {
                    assert(games_view(games@) =~= games_view(before).insert(
                        d.id@,
                        game_from(self.server(), *d),
                    ));
                }
            }
            i += 1;
        }
        proof {
            assert(game_details@.take(i as int) =~= game_details@);
        }
        self.games = games;
    }

    /// The games and their spectator identifiers, in the order of the map:
    /// what the waiting-for requests are made with.
    pub fn spectators(&self) -> (r: Vec<(String, String)>)
        requires
            self.wf(),
        ensures
            r.len() == self.game_order().len(),
            forall|i: int|
                0 <= i < r.len() ==> #[trigger] r@[i].0@ == self.game_order()[i]
                    && self.games().contains_key(r@[i].0@) && r@[i].1@ == self.games()[r@[i].0@].spectator_id,
    {
        let mut r: Vec<(String, String)> = Vec::new();
        let n = self.games.len();
        let mut i: usize = 0;
        proof {
            self.games.lemma_key_seq();
        }
        while i < n
            invariant
                self.wf(),
                n == self.games.key_seq().len(),
                i <= n,
                r.len() == i,
                forall|j: int|
                    0 <= j < i ==> #[trigger] r@[j].0@ == self.games.key_seq()[j]
                        && self.games().contains_key(r@[j].0@) && r@[j].1@ == self.games()[r@[j].0@].spectator_id,
            decreases n - i,
        {
            let k = self.games.key_at(i);
            let g = self.games.value_at(i);
            r.push((k.clone(), g.spectator_id.clone()));
            i += 1;
        }
        r
    }

    /// Sets the players that game `game_id` waits for: those whose color is
    /// among `colors`. Nothing happens for an unknown game.
    pub fn set_waited_players(&mut self, game_id: &str, colors: &Vec<String>)
        requires
            old(self).wf(),
        ensures
            final(self).wf(),
            final(self).server() == old(self).server(),
            final(self).games() == if old(self).games().contains_key(game_id@) {
                old(self).games().insert(
                    game_id@,
                    GameView {
                        waited_players: waited_ids(
                            old(self).games()[game_id@].players,
                            views(colors@),
                        ),
                        ..old(self).games()[game_id@]
                    },
                )
            } else {
                old(self).games()
            },
    {
        let key = game_id.to_owned();
        let mut game = match self.games.get(&key) {
            Some(g) => g.duplicate(),
            None => {
                return ;
            },
        };
        let ghost ps = game@.players;
        let ghost cs = views(colors@);
        let ghost pred = |p: PlayerView| cs.contains(p.color);
        let mut waited: Vec<String> = Vec::new();
        let mut i: usize = 0;
        proof {
            reveal(Seq::filter);
            assert(ps.take(0) =~= Seq::<PlayerView>::empty());
        }
        while i < game.players.len()
            invariant
                ps == game@.players,
                cs == views(colors@),
                pred == (|p: PlayerView| cs.contains(p.color)),
                i <= game.players.len(),
                views(waited@) == ps.take(i as int).filter(pred).map_values(|p: PlayerView| p.id),
            decreases game.players.len() - i,
        {
            let p = &game.players[i];
            let ghost before = waited@;
            proof {
                assert(ps.take(i + 1) =~= ps.take(i as int).push(ps[i as int]));
                ps.take(i as int).lemma_filter_push(ps[i as int], pred);
                assert(ps[i as int] == p@);
            }
            let selected = contains_str(colors, p.color.as_str());
            proof {
                if selected {
                    let j = choose|j: int| 0 <= j < colors.len() && colors@[j]@ == p.color@;
                    assert(cs[j] == p.color@);
                }
                if cs.contains(p.color@) {
                    let j = choose|j: int| 0 <= j < cs.len() && cs[j] == p.color@;
                    assert(colors@[j]@ == p.color@);
                }
            }
            if selected {
                waited.push(p.id.clone());
                proof {
                    assert(views(waited@) =~= views(before).push(p.id@));
                }
            }
            i += 1;
        }
        proof {
            assert(ps.take(i as int) =~= ps);
        }
        game.waited_players = waited;
        let ghost gv = game@;
        self.games.insert(key, game);
        proof {
            assert(self.games() =~= old(self).games().insert(game_id@, gv));
        }
    }

    /// A deep copy of the known games.
    pub fn get_games(&self) -> (r: GamesMap)
        requires
            self.wf(),
        ensures
            r.wf(),
            games_view(r@) == self.games(),
    {
        copy_games(&self.games)
    }
}

} // verus!
