//! The alert controller: the registry, the pending notification tasks, and the
//! reconciliation of both against the observed state of the games.
//!
//! Timers and notifications run outside the library. A reconciliation returns
//! the alerts to schedule and the task handles to abort; the caller starts a
//! task per alert, records it with [`AlertController::schedule_alert`], and
//! aborts the handles it is given back.

use vstd::prelude::*;
use crate::alert::{Alert, AlertView, same_subscription, with_notified};
use crate::alerts_map::{
    AlertsMap, added, alert_views, distinct_subscriptions, group_of, removed_for,
};
use crate::commands::CommandResult;
use crate::loader::AlertLoader;
use crate::scheduler::{AlertKey, KeyView, PendingTask, TaskTable, key_of, next_ticket_after};
use crate::tmars::{Game, GameView, GamesMap, waits_for};

verus! {

/// The alert `a` arms a notification: its player is waited for and it has
/// not been notified yet.
pub open spec fn fires_now(a: AlertView, game: GameView) -> bool {
    waits_for(game, a.player_id) && !a.notified
}

/// The alert `a` is disarmed: its player is no longer waited for although it
/// was notified.
pub open spec fn resets_now(a: AlertView, game: GameView) -> bool {
    !waits_for(game, a.player_id) && a.notified
}

/// The alerts of a game after reconciliation: each is notified exactly when
/// its player is waited for.
pub open spec fn reconciled_group(s: Seq<AlertView>, game: GameView) -> Seq<AlertView> {
    s.map_values(|a: AlertView| with_notified(a, waits_for(game, a.player_id)))
}

/// The registry after reconciliation against `games`: the alerts of the games
/// that are observed are reconciled, the others stay as they are.
pub open spec fn reconciled(
    reg: Map<Seq<char>, Seq<AlertView>>,
    games: Map<Seq<char>, Game>,
) -> Map<Seq<char>, Seq<AlertView>> {
    Map::new(
        |g: Seq<char>| reg.contains_key(g),
        |g: Seq<char>|
            if games.contains_key(g) {
                reconciled_group(reg[g], games[g]@)
            } else {
                reg[g]
            },
    )
}

/// The registry without the games that are not observed.
pub open spec fn pruned(
    reg: Map<Seq<char>, Seq<AlertView>>,
    games: Map<Seq<char>, Game>,
) -> Map<Seq<char>, Seq<AlertView>> {
    Map::new(|g: Seq<char>| reg.contains_key(g) && games.contains_key(g), |g: Seq<char>| reg[g])
}

/// `(g, b)` is a notification to schedule: `b` is an alert of the observed
/// game `g` that arms now, with its notified flag set.
pub open spec fn is_fire(
    reg: Map<Seq<char>, Seq<AlertView>>,
    games: Map<Seq<char>, Game>,
    g: Seq<char>,
    b: AlertView,
) -> bool {
    &&& reg.contains_key(g)
    &&& games.contains_key(g)
    &&& exists|j: int|
        0 <= j < reg[g].len() && fires_now(reg[g][j], games[g]@) && b == with_notified(
            reg[g][j],
            true,
        )
}

/// `k` is the key of an alert of an observed game that is disarmed now.
pub open spec fn is_reset_key(
    reg: Map<Seq<char>, Seq<AlertView>>,
    games: Map<Seq<char>, Game>,
    k: KeyView,
) -> bool {
    &&& reg.contains_key(k.0)
    &&& games.contains_key(k.0)
    &&& exists|j: int|
        0 <= j < reg[k.0].len() && key_of(k.0, reg[k.0][j]) == k && resets_now(
            reg[k.0][j],
            games[k.0]@,
        )
}

/// `k` is the key of a task of a game that the prune step removes.
pub open spec fn is_pruned_key(
    reg: Map<Seq<char>, Seq<AlertView>>,
    games: Map<Seq<char>, Game>,
    k: KeyView,
) -> bool {
    reg.contains_key(k.0) && !games.contains_key(k.0)
}

/// The pairs of a fire list, as models.
pub open spec fn fire_views(v: Seq<(String, Alert)>) -> Seq<(Seq<char>, AlertView)> {
    v.map_values(|p: (String, Alert)| (p.0@, p.1@))
}

/// What a reconciliation asks the caller to do.
pub struct AlertUpdate<H> {
    /// Alerts to schedule, with their game: after the alert's delay, the
    /// player's turn is announced.
    pub alerts_to_fire: Vec<(String, Alert)>,
    /// Handles of pending tasks that were cancelled and must be aborted.
    pub tasks_to_abort: Vec<H>,
}

/// `b` is an alert of `s` that arms now, with its notified flag set.
pub open spec fn fired_from(s: Seq<AlertView>, game: GameView, b: AlertView) -> bool {
    exists|y: int| 0 <= y < s.len() && fires_now(s[y], game) && b == with_notified(s[y], true)
}

/// `b` is an alert among the first `j` of `s` that arms now, with its
/// notified flag set.
pub open spec fn fired_before(s: Seq<AlertView>, game: GameView, b: AlertView, j: int) -> bool {
    exists|y: int| 0 <= y < j && fires_now(s[y], game) && b == with_notified(s[y], true)
}

/// No two entries of the fire list are the same subscription of the same game.
pub open spec fn distinct_fires(v: Seq<(String, Alert)>) -> bool {
    forall|x1: int, x2: int|
        0 <= x1 < x2 < v.len() ==> v[x1].0@ != v[x2].0@ || !same_subscription(
            #[trigger] v[x1].1@,
            #[trigger] v[x2].1@,
        )
}

/// The notification of alert `a` of game `g` is in the fire list `v`.
pub open spec fn listed(v: Seq<(String, Alert)>, g: Seq<char>, a: AlertView) -> bool {
    exists|x: int| 0 <= x < v.len() && v[x].0@ == g && v[x].1@ == with_notified(a, true)
}

/// The reconciled alerts of one game and the notifications they arm.
fn reconcile_group(game_id: &str, alerts: &Vec<Alert>, game: &Game) -> (r: (
    Vec<Alert>,
    Vec<(String, Alert)>,
))
    requires
        distinct_subscriptions(alert_views(alerts@)),
    ensures
        alert_views(r.0@) == reconciled_group(alert_views(alerts@), game@),
        distinct_subscriptions(alert_views(r.0@)),
        forall|x: int|
            0 <= x < r.1.len() ==> (#[trigger] r.1@[x]).0@ == game_id@ && fired_from(
                alert_views(alerts@),
                game@,
                r.1@[x].1@,
            ),
        forall|j: int|
            0 <= j < alerts.len() && fires_now(#[trigger] alerts@[j]@, game@) ==> listed(
                r.1@,
                game_id@,
                alerts@[j]@,
            ),
        distinct_fires(r.1@),
{
    let ghost s = alert_views(alerts@);
    let mut next: Vec<Alert> = Vec::new();
    let mut fires: Vec<(String, Alert)> = Vec::new();
    let mut j: usize = 0;
    while j < alerts.len()
        invariant
            s == alert_views(alerts@),
            j <= alerts.len(),
            next.len() == j,
            forall|x: int|
                0 <= x < j ==> #[trigger] next@[x]@ == with_notified(
                    alerts@[x]@,
                    waits_for(game@, alerts@[x]@.player_id),
                ),
            distinct_subscriptions(s),
            forall|x: int|
                0 <= x < fires.len() ==> (#[trigger] fires@[x]).0@ == game_id@ && fired_before(
                    s,
                    game@,
                    fires@[x].1@,
                    j as int,
                ),
            distinct_fires(fires@),
            forall|y: int|
                0 <= y < j && fires_now(#[trigger] alerts@[y]@, game@) ==> listed(
                    fires@,
                    game_id@,
                    alerts@[y]@,
                ),
        decreases alerts.len() - j,
    {
        let a = &alerts[j];
        let waited = game.is_waited(a.player_id.as_str());
        if waited && !a.notified {
            let ghost prev = fires@;
            fires.push((game_id.to_owned(), a.with_notified(true)));
            proof {
                assert(s[j as int] == alerts@[j as int]@);
                assert forall|x: int| 0 <= x < fires.len() implies (#[trigger] fires@[x]).0@
                    == game_id@ && fired_before(s, game@, fires@[x].1@, j + 1) by {
                    if x < prev.len() {
                        assert(fires@[x] == prev[x]);
                        let y = choose|y: int|
                            0 <= y < j && fires_now(s[y], game@) && prev[x].1@ == with_notified(
                                s[y],
                                true,
                            );
                        assert(0 <= y < j + 1 && fires_now(s[y], game@) && fires@[x].1@ == with_notified(s[y], true));
                    } else {
                        assert(fires_now(s[j as int], game@) && fires@[x].1@ == with_notified(s[j as int], true));
                    }
                }
                assert forall|x1: int, x2: int|
                    0 <= x1 < x2 < fires@.len() implies fires@[x1].0@ != fires@[x2].0@ || !same_subscription(
                        #[trigger] fires@[x1].1@,
                        #[trigger] fires@[x2].1@,
                    ) by {
                    if x2 == prev.len() {
                        assert(fires@[x1] == prev[x1]);
                        let y = choose|y: int|
                            0 <= y < j && fires_now(s[y], game@) && prev[x1].1@ == with_notified(
                                s[y],
                                true,
                            );
                        assert(!same_subscription(s[y], s[j as int]));
                    } else {
                        assert(fires@[x1] == prev[x1]);
                        assert(fires@[x2] == prev[x2]);
                    }
                }
                assert forall|y: int|
                    0 <= y < j + 1 && fires_now(#[trigger] alerts@[y]@, game@) implies listed(
                    fires@,
                    game_id@,
                    alerts@[y]@,
                ) by {
                    if y < j {
                        let x = choose|x: int|
                            0 <= x < prev.len() && prev[x].0@ == game_id@ && prev[x].1@
                                == with_notified(alerts@[y]@, true);
                        assert(fires@[x] == prev[x]);
                    } else {
                        assert(fires@[prev.len() as int].1@ == with_notified(alerts@[y]@, true));
                    }
                }
            }
        }
        next.push(a.with_notified(waited));
        j += 1;
    }
    proof {
        assert forall|x: int| 0 <= x < fires.len() implies (#[trigger] fires@[x]).0@ == game_id@
            && fired_from(s, game@, fires@[x].1@) by {
            assert(fired_before(s, game@, fires@[x].1@, j as int));
        }
        assert(alert_views(next@) =~= reconciled_group(s, game@));
        assert forall|p: int, q: int|
            0 <= p < alert_views(next@).len() && 0 <= q < alert_views(next@).len() && p
                != q implies !same_subscription(alert_views(next@)[p], alert_views(next@)[q]) by {
            assert(next@[p]@ == alert_views(next@)[p]);
            assert(next@[q]@ == alert_views(next@)[q]);
            assert(!same_subscription(s[p], s[q]));
        }
    }
    (next, fires)
}

/// `k` is the key of an alert of `s`, the alerts of game `g`, that is
/// disarmed now.
pub open spec fn resets_key_in(s: Seq<AlertView>, game: GameView, g: Seq<char>, k: KeyView) -> bool {
    exists|j: int| 0 <= j < s.len() && key_of(g, s[j]) == k && resets_now(s[j], game)
}

/// `h` is among the handles `v`.
pub open spec fn handed_back<H>(v: Seq<H>, h: H) -> bool {
    exists|i: int| 0 <= i < v.len() && v[i] == h
}

/// `h` is the handle of a pending task that the reconciliation disarms.
pub open spec fn reset_handle<H>(
    p: Map<KeyView, PendingTask<H>>,
    reg: Map<Seq<char>, Seq<AlertView>>,
    games: Map<Seq<char>, Game>,
    h: H,
) -> bool {
    exists|k: KeyView| #[trigger] p.contains_key(k) && is_reset_key(reg, games, k) && h == p[k].handle
}

/// `h` is the handle of a pending task of a game that the prune step removes.
pub open spec fn pruned_handle<H>(
    p: Map<KeyView, PendingTask<H>>,
    reg: Map<Seq<char>, Seq<AlertView>>,
    games: Map<Seq<char>, Game>,
    h: H,
) -> bool {
    exists|k: KeyView| #[trigger] p.contains_key(k) && is_pruned_key(reg, games, k) && h == p[k].handle
}

/// `h` is the handle of a task of `t` that belongs to game `g` and that is
/// disarmed among the alerts `s`.
pub open spec fn group_reset_handle<H>(
    t: Map<KeyView, PendingTask<H>>,
    s: Seq<AlertView>,
    game: GameView,
    g: Seq<char>,
    h: H,
) -> bool {
    exists|k: KeyView| #[trigger]
        t.contains_key(k) && k.0 == g && resets_key_in(s, game, g, k) && h == t[k].handle
}

/// Cancels the pending task of each alert of `alerts` (game `game_id`) that
/// is disarmed now, and appends the handles to `aborts`.
fn cancel_resets<H>(
    tasks: &mut TaskTable<H>,
    game_id: &str,
    alerts: &Vec<Alert>,
    game: &Game,
    aborts: &mut Vec<H>,
)
    requires
        old(tasks).wf(),
        distinct_subscriptions(alert_views(alerts@)),
    ensures
        final(tasks).wf(),
        final(tasks).spec_next_ticket() == old(tasks).spec_next_ticket(),
        forall|k: KeyView| #[trigger]
            final(tasks)@.contains_key(k) <==> (old(tasks)@.contains_key(k) && !(k.0 == game_id@
                && resets_key_in(alert_views(alerts@), game@, game_id@, k))),
        forall|k: KeyView| #[trigger]
            final(tasks)@.contains_key(k) ==> final(tasks)@[k] == old(tasks)@[k],
        final(aborts)@.len() >= old(aborts)@.len(),
        forall|i: int| 0 <= i < old(aborts)@.len() ==> final(aborts)@[i] == old(aborts)@[i],
        forall|i: int|
            old(aborts)@.len() <= i < final(aborts)@.len() ==> group_reset_handle(
                old(tasks)@,
                alert_views(alerts@),
                game@,
                game_id@,
                #[trigger] final(aborts)@[i],
            ),
        forall|k: KeyView| #[trigger]
            old(tasks)@.contains_key(k) && k.0 == game_id@ && resets_key_in(
                alert_views(alerts@),
                game@,
                game_id@,
                k,
            ) ==> handed_back(final(aborts)@, old(tasks)@[k].handle),
{
    let ghost s = alert_views(alerts@);
    let ghost t0 = tasks@;
    let ghost a0 = aborts@;
    let mut j: usize = 0;
    while j < alerts.len()
        invariant
            s == alert_views(alerts@),
            distinct_subscriptions(s),
            j <= alerts.len(),
            tasks.wf(),
            tasks.spec_next_ticket() == old(tasks).spec_next_ticket(),
            t0 == old(tasks)@,
            a0 == old(aborts)@,
            forall|k: KeyView| #[trigger]
                tasks@.contains_key(k) <==> (t0.contains_key(k) && !(k.0 == game_id@
                    && resets_key_in(s, game@, game_id@, k) && exists|x: int|
                    0 <= x < j && key_of(game_id@, s[x]) == k)),
            forall|k: KeyView| #[trigger] tasks@.contains_key(k) ==> tasks@[k] == t0[k],
            aborts@.len() >= a0.len(),
            forall|i: int| 0 <= i < a0.len() ==> aborts@[i] == a0[i],
            forall|i: int|
                a0.len() <= i < aborts@.len() ==> group_reset_handle(
                    t0,
                    s,
                    game@,
                    game_id@,
                    #[trigger] aborts@[i],
                ),
            forall|k: KeyView| #[trigger]
                t0.contains_key(k) && k.0 == game_id@ && resets_key_in(s, game@, game_id@, k)
                    && (exists|x: int| 0 <= x < j && key_of(game_id@, s[x]) == k) ==> handed_back(
                    aborts@,
                    t0[k].handle,
                ),
        decreases alerts.len() - j,
    {
        let a = &alerts[j];
        let key = AlertKey::new(game_id, a);
        let ghost kj = key@;
        let ghost before = tasks@;
        let ghost prev = aborts@;
        let waited = game.is_waited(a.player_id.as_str());
        proof {
            assert(s[j as int] == a@);
            assert(kj == key_of(game_id@, s[j as int]));
        }
        if !waited && a.notified {
            proof {
                assert(resets_key_in(s, game@, game_id@, kj));
            }
            match tasks.cancel(&key) {
                Some(h) => {
                    aborts.push(h);
                },
                None => {},
            }
        } else {
            proof {
                assert(!resets_key_in(s, game@, game_id@, kj)) by {
                    if resets_key_in(s, game@, game_id@, kj) {
                        let y = choose|y: int|
                            0 <= y < s.len() && key_of(game_id@, s[y]) == kj && resets_now(s[y], game@);
                        assert(same_subscription(s[y], s[j as int]));
                    }
                }
            }
        }
        proof {
            assert forall|k: KeyView| #[trigger]
                tasks@.contains_key(k) <==> (t0.contains_key(k) && !(k.0 == game_id@
                    && resets_key_in(s, game@, game_id@, k) && exists|x: int|
                    0 <= x < j + 1 && key_of(game_id@, s[x]) == k)) by {
                assert(before.contains_key(k) <==> (t0.contains_key(k) && !(k.0 == game_id@
                    && resets_key_in(s, game@, game_id@, k) && exists|x: int|
                    0 <= x < j && key_of(game_id@, s[x]) == k)));
                if k == kj {
                    assert(key_of(game_id@, s[j as int]) == k);
                }
                if exists|x: int| 0 <= x < j + 1 && key_of(game_id@, s[x]) == k {
                    if k != kj {
                        let x = choose|x: int| 0 <= x < j + 1 && key_of(game_id@, s[x]) == k;
                        assert(x < j);
                    }
                }
            }
            assert forall|i: int|
                a0.len() <= i < aborts@.len() implies group_reset_handle(
                    t0,
                    s,
                    game@,
                    game_id@,
                    #[trigger] aborts@[i],
                ) by {
                if i >= prev.len() {
                    assert(before.contains_key(kj));
                    assert(t0.contains_key(kj) && kj.0 == game_id@ && resets_key_in(s, game@, game_id@, kj) && aborts@[i] == t0[kj].handle);
                } else {
                    assert(aborts@[i] == prev[i]);
                }
            }
            assert forall|k: KeyView| #[trigger]
                t0.contains_key(k) && k.0 == game_id@ && resets_key_in(s, game@, game_id@, k)
                    && (exists|x: int| 0 <= x < j + 1 && key_of(game_id@, s[x]) == k) implies handed_back(
                    aborts@,
                    t0[k].handle,
                ) by {
                if k == kj {
                    assert(before.contains_key(kj) == t0.contains_key(kj) && !(exists|x: int| 0 <= x < j && key_of(game_id@, s[x]) == kj)) by {
                        if exists|x: int| 0 <= x < j && key_of(game_id@, s[x]) == kj {
                            let x = choose|x: int| 0 <= x < j && key_of(game_id@, s[x]) == kj;
                            assert(same_subscription(s[x], s[j as int]));
                        }
                    }
                    assert(aborts@[prev.len() as int] == t0[k].handle);
                } else {
                    let x = choose|x: int| 0 <= x < j + 1 && key_of(game_id@, s[x]) == k;
                    assert(x < j);
                    let i = choose|i: int| 0 <= i < prev.len() && prev[i] == t0[k].handle;
                    assert(aborts@[i] == prev[i]);
                }
            }
        }
        j += 1;
    }
    proof {
        assert forall|k: KeyView| k.0 == game_id@ && resets_key_in(s, game@, game_id@, k) implies exists|x: int|
            0 <= x < j && key_of(game_id@, s[x]) == k by {
            let y = choose|y: int| 0 <= y < s.len() && key_of(game_id@, s[y]) == k && resets_now(s[y], game@);
        }
    }
}

/// The registry of alerts, where it is stored, and the pending notification
/// tasks, whose handles have type `H`.
pub struct AlertController<H> {
    alerts_map: AlertsMap,
    alert_loader: AlertLoader,
    thread_handles_map: TaskTable<H>,
}

impl<H> AlertController<H> {
    pub closed spec fn wf(&self) -> bool {
        self.alerts_map.wf() && self.thread_handles_map.wf()
    }

    /// The registry: for each game, its alerts.
    pub closed spec fn registry(&self) -> Map<Seq<char>, Seq<AlertView>> {
        self.alerts_map@
    }

    /// The pending notification tasks.
    pub closed spec fn pending(&self) -> Map<KeyView, PendingTask<H>> {
        self.thread_handles_map@
    }

    /// The ticket the next scheduled task gets.
    pub closed spec fn ticket(&self) -> u64 {
        self.thread_handles_map.spec_next_ticket()
    }

    /// The games of the registry, in its order.
    pub closed spec fn game_seq(&self) -> Seq<Seq<char>> {
        self.alerts_map.game_seq()
    }

    pub closed spec fn loader(&self) -> AlertLoader {
        self.alert_loader
    }

    /// A controller over `alerts_map`, as loaded from `alert_loader`'s file,
    /// with no pending task.
    pub fn new(alert_loader: AlertLoader, alerts_map: AlertsMap) -> (r: AlertController<H>)
        requires
            alerts_map.wf(),
        ensures
            r.wf(),
            r.registry() == alerts_map@,
            r.pending() == Map::<KeyView, PendingTask<H>>::empty(),
            r.loader() == alert_loader,
    {
        AlertController { alerts_map, alert_loader, thread_handles_map: TaskTable::new() }
    }

    /// Where the registry is stored.
    pub fn alert_loader(&self) -> (r: &AlertLoader)
        ensures
            *r == self.loader(),
    {
        &self.alert_loader
    }

    /// A deep, independent copy of the registry.
    pub fn get_alerts_map(&self) -> (r: AlertsMap)
        requires
            self.wf(),
        ensures
            r.wf(),
            r@ == self.registry(),
    {
        self.alerts_map.snapshot()
    }

    /// Whether a notification task is pending for `alert` of game `game_id`.
    pub fn is_scheduled(&self, game_id: &str, alert: &Alert) -> (r: bool)
        requires
            self.wf(),
        ensures
            r == self.pending().contains_key(key_of(game_id@, alert@)),
    {
        self.thread_handles_map.is_pending(&AlertKey::new(game_id, alert))
    }

    /// Registers `alert` for game `game_id`. An alert that is already
    /// subscribed keeps its notified flag and delay.
    pub fn add_alert(&mut self, game_id: &str, alert: &Alert)
        requires
            old(self).wf(),
        ensures
            final(self).wf(),
            final(self).registry() == old(self).registry().insert(
                game_id@,
                added(group_of(old(self).registry(), game_id@), alert@),
            ),
            final(self).pending() == old(self).pending(),
            final(self).ticket() == old(self).ticket(),
            final(self).loader() == old(self).loader(),
    {
        self.alerts_map.add(game_id, alert);
    }

    /// Removes the alerts of `user_id` in `room_id` for game `game_id`.
    /// Pending tasks are left alone: the next reconciliation settles them.
    pub fn remove_alerts(&mut self, game_id: &str, room_id: &str, user_id: &str)
        requires
            old(self).wf(),
        ensures
            final(self).wf(),
            final(self).registry() == if old(self).registry().contains_key(game_id@) {
                old(self).registry().insert(
                    game_id@,
                    removed_for(old(self).registry()[game_id@], room_id@, user_id@),
                )
            } else {
                old(self).registry()
            },
            final(self).pending() == old(self).pending(),
            final(self).ticket() == old(self).ticket(),
            final(self).loader() == old(self).loader(),
    {
        self.alerts_map.remove_matching(game_id, room_id, user_id);
    }

    /// Applies the alert changes that a command asks for: first the alert to
    /// add, then the alerts to remove.
    pub fn apply_command_result(&mut self, result: &CommandResult)
        requires
            old(self).wf(),
        ensures
            final(self).wf(),
            ({
                let reg1 = match result.alert_to_add {
                    Some(p) => old(self).registry().insert(
                        p.0@,
                        added(group_of(old(self).registry(), p.0@), p.1@),
                    ),
                    None => old(self).registry(),
                };
                final(self).registry() == match result.alerts_to_remove {
                    Some(t) => if reg1.contains_key(t.0@) {
                        reg1.insert(t.0@, removed_for(reg1[t.0@], t.1@, t.2@))
                    } else {
                        reg1
                    },
                    None => reg1,
                }
            }),
            final(self).pending() == old(self).pending(),
            final(self).ticket() == old(self).ticket(),
            final(self).loader() == old(self).loader(),
    {
        match &result.alert_to_add {
            Some(p) => self.add_alert(p.0.as_str(), &p.1),
            None => {},
        }
        match &result.alerts_to_remove {
            Some(t) => self.remove_alerts(t.0.as_str(), t.1.as_str(), t.2.as_str()),
            None => {},
        }
    }

    /// Removes the games that `games_map` does not hold, and cancels every
    /// pending task of those games. Returns the handles to abort.
    pub fn clean_alerts(&mut self, games_map: &GamesMap) -> (r: Vec<H>)
        requires
            old(self).wf(),
            games_map.wf(),
        ensures
            final(self).wf(),
            final(self).registry() == pruned(old(self).registry(), games_map@),
            forall|k: KeyView| #[trigger]
                final(self).pending().contains_key(k) <==> (old(self).pending().contains_key(k)
                    && !is_pruned_key(old(self).registry(), games_map@, k)),
            forall|k: KeyView| #[trigger]
                final(self).pending().contains_key(k) ==> final(self).pending()[k] == old(
                    self,
                ).pending()[k],
            forall|i: int|
                0 <= i < r.len() ==> pruned_handle(
                    old(self).pending(),
                    old(self).registry(),
                    games_map@,
                    #[trigger] r@[i],
                ),
            forall|k: KeyView| #[trigger]
                old(self).pending().contains_key(k) && is_pruned_key(
                    old(self).registry(),
                    games_map@,
                    k,
                ) ==> handed_back(r@, old(self).pending()[k].handle),
            final(self).ticket() == old(self).ticket(),
            final(self).loader() == old(self).loader(),
    {
        let ghost reg = self.alerts_map@;
        let ghost tasks0 = self.thread_handles_map@;
        let ids = self.alerts_map.game_ids();
        proof {
            self.alerts_map.lemma_game_seq();
        }
        let ghost gs = self.alerts_map.game_seq();
        let mut r: Vec<H> = Vec::new();
        let mut i: usize = 0;
        while i < ids.len()
            invariant
                self.wf(),
                games_map.wf(),
                reg == old(self).registry(),
                tasks0 == old(self).pending(),
                self.ticket() == old(self).ticket(),
                self.alert_loader == old(self).alert_loader,
                ids@.map_values(|x: String| x@) == gs,
                gs.no_duplicates(),
                forall|g: Seq<char>| reg.contains_key(g) <==> gs.contains(g),
                i <= ids.len(),
                self.alerts_map@ == Map::new(
                    |g: Seq<char>|
                        reg.contains_key(g) && !(gs.take(i as int).contains(g)
                            && !games_map@.contains_key(g)),
                    |g: Seq<char>| reg[g],
                ),
                forall|k: KeyView| #[trigger]
                    self.thread_handles_map@.contains_key(k) <==> (tasks0.contains_key(k) && !(
                    is_pruned_key(reg, games_map@, k) && gs.take(i as int).contains(k.0))),
                forall|k: KeyView| #[trigger]
                    self.thread_handles_map@.contains_key(k) ==> self.thread_handles_map@[k]
                        == tasks0[k],
                forall|j: int|
                    0 <= j < r.len() ==> pruned_handle(tasks0, reg, games_map@, #[trigger] r@[j]),
                forall|k: KeyView| #[trigger]
                    tasks0.contains_key(k) && is_pruned_key(reg, games_map@, k) && gs.take(
                        i as int,
                    ).contains(k.0) ==> handed_back(r@, tasks0[k].handle),
            decreases ids.len() - i,
        {
            let g = &ids[i];
            let ghost gv = g@;
            proof {
                assert(gv == gs[i as int]);
                assert(gs.take(i + 1) =~= gs.take(i as int).push(gv));
                assert(gs.contains(gv));
                assert(!gs.take(i as int).contains(gv)) by {
                    if gs.take(i as int).contains(gv) {
                        let j = choose|j: int| 0 <= j < i && #[trigger] gs.take(i as int)[j] == gv;
                        assert(gs[j] == gs[i as int]);
                    }
                }
            }
            let ghost before_map = self.alerts_map@;
            let ghost before_tasks = self.thread_handles_map@;
            let ghost prev = r@;
            let observed = games_map.contains_key(g);
            if !observed {
                let _ = self.alerts_map.remove_group(g.as_str());
                let mut handles = self.thread_handles_map.cancel_game(g.as_str());
                proof {
                    assert forall|x: int| 0 <= x < handles.len() implies pruned_handle(
                        tasks0,
                        reg,
                        games_map@,
                        #[trigger] handles@[x],
                    ) by {
                        assert(crate::scheduler::handle_of_game(before_tasks, gv, handles@[x]));
                        let k = choose|k: KeyView| #[trigger]
                            before_tasks.contains_key(k) && k.0 == gv && handles@[x]
                                == before_tasks[k].handle;
                        assert(tasks0.contains_key(k) && is_pruned_key(reg, games_map@, k));
                    }
                }
                let ghost hs = handles@;
                r.append(&mut handles);
                proof {
                    assert forall|j: int| 0 <= j < r.len() implies pruned_handle(
                        tasks0,
                        reg,
                        games_map@,
                        #[trigger] r@[j],
                    ) by {
                        if j < prev.len() {
                            assert(r@[j] == prev[j]);
                        } else {
                            assert(r@[j] == hs[j - prev.len()]);
                        }
                    }
                    assert forall|k: KeyView| #[trigger]
                        tasks0.contains_key(k) && is_pruned_key(reg, games_map@, k) && gs.take(
                            i + 1,
                        ).contains(k.0) implies handed_back(r@, tasks0[k].handle) by {
                        if k.0 == gv {
                            assert(before_tasks.contains_key(k));
                            let x = choose|x: int| 0 <= x < hs.len() && hs[x] == before_tasks[k].handle;
                            assert(r@[prev.len() + x] == hs[x]);
                        } else {
                            let x = choose|x: int| 0 <= x < i + 1 && #[trigger] gs.take(i + 1)[x] == k.0;
                            assert(gs.take(i as int)[x] == k.0);
                            let y = choose|y: int| 0 <= y < prev.len() && prev[y] == tasks0[k].handle;
                            assert(r@[y] == prev[y]);
                        }
                    }
                }
            }
            proof {
                assert(self.alerts_map@ =~= Map::new(
                    |q: Seq<char>|
                        reg.contains_key(q) && !(gs.take(i + 1).contains(q)
                            && !games_map@.contains_key(q)),
                    |q: Seq<char>| reg[q],
                )) by {
                    assert forall|q: Seq<char>| gs.take(i + 1).contains(q) == (gs.take(
                        i as int,
                    ).contains(q) || q == gv) by {
                        if gs.take(i + 1).contains(q) && q != gv {
                            let x = choose|x: int| 0 <= x < i + 1 && #[trigger] gs.take(i + 1)[x] == q;
                            assert(gs.take(i as int)[x] == q);
                        }
                        if gs.take(i as int).contains(q) {
                            let x = choose|x: int| 0 <= x < i && #[trigger] gs.take(i as int)[x] == q;
                            assert(gs.take(i + 1)[x] == q);
                        }
                        if q == gv {
                            assert(gs.take(i + 1)[i as int] == q);
                        }
                    }
                }
                assert forall|k: KeyView| #[trigger]
                    self.thread_handles_map@.contains_key(k) <==> (tasks0.contains_key(k) && !(
                    is_pruned_key(reg, games_map@, k) && gs.take(i + 1).contains(k.0))) by {
                    assert(before_tasks.contains_key(k) <==> (tasks0.contains_key(k) && !(
                        is_pruned_key(reg, games_map@, k) && gs.take(i as int).contains(k.0))));
                    if gs.take(i + 1).contains(k.0) && k.0 != gv {
                        let x = choose|x: int| 0 <= x < i + 1 && #[trigger] gs.take(i + 1)[x] == k.0;
                        assert(gs.take(i as int)[x] == k.0);
                    }
                    if gs.take(i as int).contains(k.0) {
                        let x = choose|x: int| 0 <= x < i && #[trigger] gs.take(i as int)[x] == k.0;
                        assert(gs.take(i + 1)[x] == k.0);
                    }
                    if k.0 == gv {
                        assert(gs.take(i + 1)[i as int] == k.0);
                    }
                }
            }
            i += 1;
        }
        proof {
            assert(gs.take(i as int) =~= gs);
            assert(self.alerts_map@ =~= pruned(reg, games_map@));
        }
        r
    }

    /// Reconciles the registry against `games_map`. In each observed game,
    /// an alert whose player is now waited for and that was not notified is
    /// marked notified and listed to fire; an alert that was notified and whose
    /// player is no longer waited for is marked not notified, and its pending
    /// task is cancelled. Returns the fire list and the handles to abort.
    pub fn get_alerts_to_fire(&mut self, games_map: &GamesMap) -> (r: (
        Vec<(String, Alert)>,
        Vec<H>,
    ))
        requires
            old(self).wf(),
            games_map.wf(),
        ensures
            final(self).wf(),
            final(self).registry() == reconciled(old(self).registry(), games_map@),
            forall|x: int|
                0 <= x < r.0.len() ==> is_fire(
                    old(self).registry(),
                    games_map@,
                    (#[trigger] r.0@[x]).0@,
                    r.0@[x].1@,
                ),
            forall|g: Seq<char>, j: int|
                old(self).registry().contains_key(g) && games_map@.contains_key(g) && 0 <= j < old(
                    self,
                ).registry()[g].len() && fires_now(
                    #[trigger] old(self).registry()[g][j],
                    games_map@[g]@,
                ) ==> listed(r.0@, g, old(self).registry()[g][j]),
            distinct_fires(r.0@),
            forall|k: KeyView| #[trigger]
                final(self).pending().contains_key(k) <==> (old(self).pending().contains_key(k)
                    && !is_reset_key(old(self).registry(), games_map@, k)),
            forall|k: KeyView| #[trigger]
                final(self).pending().contains_key(k) ==> final(self).pending()[k] == old(
                    self,
                ).pending()[k],
            forall|i: int|
                0 <= i < r.1.len() ==> reset_handle(
                    old(self).pending(),
                    old(self).registry(),
                    games_map@,
                    #[trigger] r.1@[i],
                ),
            forall|k: KeyView| #[trigger]
                old(self).pending().contains_key(k) && is_reset_key(
                    old(self).registry(),
                    games_map@,
                    k,
                ) ==> handed_back(r.1@, old(self).pending()[k].handle),
            final(self).ticket() == old(self).ticket(),
            final(self).loader() == old(self).loader(),
    {
        let ghost reg = self.alerts_map@;
        let ghost tasks0 = self.thread_handles_map@;
        let ids = self.alerts_map.game_ids();
        proof {
            self.alerts_map.lemma_game_seq();
        }
        let ghost gs = self.alerts_map.game_seq();
        let mut fires: Vec<(String, Alert)> = Vec::new();
        let mut aborts: Vec<H> = Vec::new();
        let mut i: usize = 0;
        while i < ids.len()
            invariant
                self.wf(),
                games_map.wf(),
                reg == old(self).registry(),
                tasks0 == old(self).pending(),
                self.ticket() == old(self).ticket(),
                self.alert_loader == old(self).alert_loader,
                ids@.map_values(|x: String| x@) == gs,
                gs.no_duplicates(),
                forall|g: Seq<char>| reg.contains_key(g) <==> gs.contains(g),
                i <= ids.len(),
                self.alerts_map@ == Map::new(
                    |g: Seq<char>| reg.contains_key(g),
                    |g: Seq<char>|
                        if gs.take(i as int).contains(g) && games_map@.contains_key(g) {
                            reconciled_group(reg[g], games_map@[g]@)
                        } else {
                            reg[g]
                        },
                ),
                forall|x: int|
                    0 <= x < fires.len() ==> is_fire(
                        reg,
                        games_map@,
                        (#[trigger] fires@[x]).0@,
                        fires@[x].1@,
                    ),
                distinct_fires(fires@),
                forall|x: int|
                    0 <= x < fires.len() ==> gs.take(i as int).contains((#[trigger] fires@[x]).0@),
                forall|g: Seq<char>, j: int|
                    gs.take(i as int).contains(g) && reg.contains_key(g) && games_map@.contains_key(
                        g,
                    ) && 0 <= j < reg[g].len() && fires_now(
                        #[trigger] reg[g][j],
                        games_map@[g]@,
                    ) ==> listed(fires@, g, reg[g][j]),
                forall|k: KeyView| #[trigger]
                    self.thread_handles_map@.contains_key(k) <==> (tasks0.contains_key(k) && !(
                    is_reset_key(reg, games_map@, k) && gs.take(i as int).contains(k.0))),
                forall|k: KeyView| #[trigger]
                    self.thread_handles_map@.contains_key(k) ==> self.thread_handles_map@[k]
                        == tasks0[k],
                forall|j: int|
                    0 <= j < aborts.len() ==> reset_handle(
                        tasks0,
                        reg,
                        games_map@,
                        #[trigger] aborts@[j],
                    ),
                forall|k: KeyView| #[trigger]
                    tasks0.contains_key(k) && is_reset_key(reg, games_map@, k) && gs.take(
                        i as int,
                    ).contains(k.0) ==> handed_back(aborts@, tasks0[k].handle),
            decreases ids.len() - i,
        {
            let g = &ids[i];
            let ghost gv = g@;
            proof {
                assert(gv == gs[i as int]);
                assert(gs.take(i + 1) =~= gs.take(i as int).push(gv));
                assert(gs.contains(gv));
                assert(!gs.take(i as int).contains(gv)) by {
                    if gs.take(i as int).contains(gv) {
                        let j = choose|j: int| 0 <= j < i && #[trigger] gs.take(i as int)[j] == gv;
                        assert(gs[j] == gs[i as int]);
                    }
                }
                assert forall|q: Seq<char>| gs.take(i + 1).contains(q) == (gs.take(
                    i as int,
                ).contains(q) || q == gv) by {
                    if gs.take(i + 1).contains(q) && q != gv {
                        let x = choose|x: int| 0 <= x < i + 1 && #[trigger] gs.take(i + 1)[x] == q;
                        assert(gs.take(i as int)[x] == q);
                    }
                    if gs.take(i as int).contains(q) {
                        let x = choose|x: int| 0 <= x < i && #[trigger] gs.take(i as int)[x] == q;
                        assert(gs.take(i + 1)[x] == q);
                    }
                    if q == gv {
                        assert(gs.take(i + 1)[i as int] == q);
                    }
                }
            }
            let ghost before_map = self.alerts_map@;
            let ghost before_tasks = self.thread_handles_map@;
            let ghost prev_fires = fires@;
            let ghost prev_aborts = aborts@;
            match games_map.get(g) {
                None => {},
                Some(game) => {
                    let alerts = match self.alerts_map.get(g.as_str()) {
                        Some(v) => v,
                        None => {
                            assert(false);
                            return (fires, aborts);
                        },
                    };
                    proof {
                        assert(alert_views(alerts@) == reg[gv]);
                        self.alerts_map.lemma_distinct(gv);
                    }
                    let (next, mut group_fires) = reconcile_group(g.as_str(), alerts, game);
                    cancel_resets(&mut self.thread_handles_map, g.as_str(), alerts, game, &mut aborts);
                    let ghost gf = group_fires@;
                    fires.append(&mut group_fires);
                    self.alerts_map.set_group(g.as_str(), next);
                    proof {
                        assert forall|x: int|
                            0 <= x < fires.len() implies gs.take(i + 1).contains(
                            (#[trigger] fires@[x]).0@,
                        ) by {
                            if x < prev_fires.len() {
                                assert(fires@[x] == prev_fires[x]);
                            } else {
                                assert(fires@[x] == gf[x - prev_fires.len()]);
                            }
                        }
                        assert forall|x1: int, x2: int|
                            0 <= x1 < x2 < fires@.len() implies fires@[x1].0@ != fires@[x2].0@
                            || !same_subscription(
                                #[trigger] fires@[x1].1@,
                                #[trigger] fires@[x2].1@,
                            ) by {
                            if x2 < prev_fires.len() {
                                assert(fires@[x1] == prev_fires[x1]);
                                assert(fires@[x2] == prev_fires[x2]);
                            } else if x1 < prev_fires.len() {
                                assert(fires@[x1] == prev_fires[x1]);
                                assert(fires@[x2] == gf[x2 - prev_fires.len()]);
                                assert(gs.take(i as int).contains(prev_fires[x1].0@));
                            } else {
                                assert(fires@[x1] == gf[x1 - prev_fires.len()]);
                                assert(fires@[x2] == gf[x2 - prev_fires.len()]);
                            }
                        }
                        assert forall|x: int| 0 <= x < fires.len() implies is_fire(
                            reg,
                            games_map@,
                            (#[trigger] fires@[x]).0@,
                            fires@[x].1@,
                        ) by {
                            if x < prev_fires.len() {
                                assert(fires@[x] == prev_fires[x]);
                            } else {
                                assert(fires@[x] == gf[x - prev_fires.len()]);
                                let y = choose|y: int|
                                    0 <= y < reg[gv].len() && fires_now(reg[gv][y], game@) && fires@[x].1@
                                        == with_notified(reg[gv][y], true);
                            }
                        }
                        assert forall|q: Seq<char>, j: int|
                            gs.take(i + 1).contains(q) && reg.contains_key(q)
                                && games_map@.contains_key(q) && 0 <= j < reg[q].len() && fires_now(
                                #[trigger] reg[q][j],
                                games_map@[q]@,
                            ) implies listed(fires@, q, reg[q][j]) by {
                            if q == gv {
                                assert(alerts@[j]@ == reg[q][j]);
                                assert(listed(gf, q, reg[q][j]));
                                let x = choose|x: int|
                                    0 <= x < gf.len() && gf[x].0@ == q && gf[x].1@ == with_notified(
                                        reg[q][j],
                                        true,
                                    );
                                assert(fires@[prev_fires.len() + x] == gf[x]);
                            } else {
                                let x = choose|x: int|
                                    0 <= x < prev_fires.len() && prev_fires[x].0@ == q
                                        && prev_fires[x].1@ == with_notified(reg[q][j], true);
                                assert(fires@[x] == prev_fires[x]);
                            }
                        }
                        assert forall|j: int| 0 <= j < aborts.len() implies reset_handle(
                            tasks0,
                            reg,
                            games_map@,
                            #[trigger] aborts@[j],
                        ) by {
                            if j >= prev_aborts.len() {
                                assert(group_reset_handle(
                                    before_tasks,
                                    reg[gv],
                                    game@,
                                    gv,
                                    aborts@[j],
                                ));
                                let k = choose|k: KeyView| #[trigger]
                                    before_tasks.contains_key(k) && k.0 == gv && resets_key_in(
                                        reg[gv],
                                        game@,
                                        gv,
                                        k,
                                    ) && aborts@[j] == before_tasks[k].handle;
                                assert(tasks0.contains_key(k) && is_reset_key(reg, games_map@, k));
                            }
                        }
                        assert forall|k: KeyView| #[trigger]
                            tasks0.contains_key(k) && is_reset_key(reg, games_map@, k) && gs.take(
                                i + 1,
                            ).contains(k.0) implies handed_back(aborts@, tasks0[k].handle) by {
                            if k.0 == gv {
                                assert(before_tasks.contains_key(k));
                            } else {
                                let y = choose|y: int|
                                    0 <= y < prev_aborts.len() && prev_aborts[y] == tasks0[k].handle;
                                assert(aborts@[y] == prev_aborts[y]);
                            }
                        }
                        assert forall|k: KeyView| #[trigger]
                            self.thread_handles_map@.contains_key(k) <==> (tasks0.contains_key(k) && !(
                            is_reset_key(reg, games_map@, k) && gs.take(i + 1).contains(k.0))) by {
                            assert(before_tasks.contains_key(k) <==> (tasks0.contains_key(k) && !(
                                is_reset_key(reg, games_map@, k) && gs.take(i as int).contains(k.0))));
                        }
                    }
                },
            }
            proof {
                assert forall|x: int|
                    0 <= x < fires.len() implies gs.take(i + 1).contains(
                    (#[trigger] fires@[x]).0@,
                ) by {
                    if x < prev_fires.len() {
                        assert(fires@[x] == prev_fires[x]);
                    }
                }
                assert(self.alerts_map@ =~= Map::new(
                    |q: Seq<char>| reg.contains_key(q),
                    |q: Seq<char>|
                        if gs.take(i + 1).contains(q) && games_map@.contains_key(q) {
                            reconciled_group(reg[q], games_map@[q]@)
                        } else {
                            reg[q]
                        },
                ));
                assert forall|k: KeyView| #[trigger]
                    self.thread_handles_map@.contains_key(k) <==> (tasks0.contains_key(k) && !(
                    is_reset_key(reg, games_map@, k) && gs.take(i + 1).contains(k.0))) by {
                    assert(before_tasks.contains_key(k) <==> (tasks0.contains_key(k) && !(
                        is_reset_key(reg, games_map@, k) && gs.take(i as int).contains(k.0))));
                }
            }
            i += 1;
        }
        proof {
            assert(gs.take(i as int) =~= gs);
            assert(self.alerts_map@ =~= reconciled(reg, games_map@));
        }
        (fires, aborts)
    }

    /// One reconciliation pass against the observed games: first the games
    /// that are no longer observed are removed with all their pending tasks,
    /// then the alerts of the observed games are reconciled. Returns the
    /// alerts to schedule and the task handles to abort.
    pub fn update_alerts(&mut self, games_map: &GamesMap) -> (r: AlertUpdate<H>)
        requires
            old(self).wf(),
            games_map.wf(),
        ensures
            final(self).wf(),
            final(self).registry() == reconciled(
                pruned(old(self).registry(), games_map@),
                games_map@,
            ),
            forall|x: int|
                0 <= x < r.alerts_to_fire.len() ==> is_fire(
                    old(self).registry(),
                    games_map@,
                    (#[trigger] r.alerts_to_fire@[x]).0@,
                    r.alerts_to_fire@[x].1@,
                ),
            forall|g: Seq<char>, j: int|
                old(self).registry().contains_key(g) && games_map@.contains_key(g) && 0 <= j < old(
                    self,
                ).registry()[g].len() && fires_now(
                    #[trigger] old(self).registry()[g][j],
                    games_map@[g]@,
                ) ==> listed(r.alerts_to_fire@, g, old(self).registry()[g][j]),
            distinct_fires(r.alerts_to_fire@),
            forall|k: KeyView| #[trigger]
                final(self).pending().contains_key(k) <==> (old(self).pending().contains_key(k)
                    && !is_pruned_key(old(self).registry(), games_map@, k) && !is_reset_key(
                    old(self).registry(),
                    games_map@,
                    k,
                )),
            forall|k: KeyView| #[trigger]
                final(self).pending().contains_key(k) ==> final(self).pending()[k] == old(
                    self,
                ).pending()[k],
            forall|i: int|
                0 <= i < r.tasks_to_abort.len() ==> pruned_handle(
                    old(self).pending(),
                    old(self).registry(),
                    games_map@,
                    #[trigger] r.tasks_to_abort@[i],
                ) || reset_handle(
                    old(self).pending(),
                    old(self).registry(),
                    games_map@,
                    r.tasks_to_abort@[i],
                ),
            forall|k: KeyView| #[trigger]
                old(self).pending().contains_key(k) && (is_pruned_key(
                    old(self).registry(),
                    games_map@,
                    k,
                ) || is_reset_key(old(self).registry(), games_map@, k)) ==> handed_back(
                    r.tasks_to_abort@,
                    old(self).pending()[k].handle,
                ),
            final(self).ticket() == old(self).ticket(),
            final(self).loader() == old(self).loader(),
    {
        let ghost reg = self.registry();
        let ghost tasks0 = self.pending();
        let mut tasks_to_abort = self.clean_alerts(games_map);
        let ghost reg1 = self.registry();
        let ghost tasks1 = self.pending();
        let ghost cleaned = tasks_to_abort@;
        let (alerts_to_fire, mut reset) = self.get_alerts_to_fire(games_map);
        let ghost resets = reset@;
        tasks_to_abort.append(&mut reset);
        proof {
            assert(tasks_to_abort@ =~= cleaned + resets);
            assert forall|k: KeyView| is_reset_key(reg1, games_map@, k) == is_reset_key(
                reg,
                games_map@,
                k,
            ) by {
                if games_map@.contains_key(k.0) && reg.contains_key(k.0) {
                    assert(reg1.contains_key(k.0));
                    assert(reg1[k.0] == reg[k.0]);
                }
            }
            assert forall|x: int|
                0 <= x < alerts_to_fire.len() implies is_fire(
                reg,
                games_map@,
                (#[trigger] alerts_to_fire@[x]).0@,
                alerts_to_fire@[x].1@,
            ) by {
                assert(is_fire(reg1, games_map@, alerts_to_fire@[x].0@, alerts_to_fire@[x].1@));
                assert(reg1[alerts_to_fire@[x].0@] == reg[alerts_to_fire@[x].0@]);
            }
            assert forall|g: Seq<char>, j: int|
                reg.contains_key(g) && games_map@.contains_key(g) && 0 <= j < reg[g].len()
                    && fires_now(#[trigger] reg[g][j], games_map@[g]@) implies listed(
                alerts_to_fire@,
                g,
                reg[g][j],
            ) by {
                assert(reg1.contains_key(g) && reg1[g] == reg[g]);
                assert(fires_now(reg1[g][j], games_map@[g]@));
            }
            assert forall|i: int|
                0 <= i < tasks_to_abort.len() implies pruned_handle(
                tasks0,
                reg,
                games_map@,
                #[trigger] tasks_to_abort@[i],
            ) || reset_handle(tasks0, reg, games_map@, tasks_to_abort@[i]) by {
                if i < cleaned.len() {
                    assert(tasks_to_abort@[i] == cleaned[i]);
                } else {
                    assert(tasks_to_abort@[i] == resets[i - cleaned.len()]);
                    assert(reset_handle(tasks1, reg1, games_map@, resets[i - cleaned.len()]));
                    let k = choose|k: KeyView| #[trigger]
                        tasks1.contains_key(k) && is_reset_key(reg1, games_map@, k)
                            && resets[i - cleaned.len()] == tasks1[k].handle;
                    assert(tasks0.contains_key(k) && tasks1[k] == tasks0[k]);
                }
            }
            assert forall|k: KeyView| #[trigger]
                tasks0.contains_key(k) && (is_pruned_key(reg, games_map@, k) || is_reset_key(
                    reg,
                    games_map@,
                    k,
                )) implies handed_back(tasks_to_abort@, tasks0[k].handle) by {
                if is_pruned_key(reg, games_map@, k) {
                    let y = choose|y: int| 0 <= y < cleaned.len() && cleaned[y] == tasks0[k].handle;
                    assert(tasks_to_abort@[y] == cleaned[y]);
                } else {
                    assert(tasks1.contains_key(k));
                    assert(is_reset_key(reg1, games_map@, k));
                    let y = choose|y: int| 0 <= y < resets.len() && resets[y] == tasks1[k].handle;
                    assert(tasks_to_abort@[cleaned.len() + y] == resets[y]);
                }
            }
        }
        AlertUpdate { alerts_to_fire, tasks_to_abort }
    }

    /// Records `handle` as the pending task that notifies `alert` of game
    /// `game_id`, under ticket `ticket()`. The task it supersedes, if any, is
    /// returned to be aborted: re-arming an alert restarts its wait.
    pub fn schedule_alert(&mut self, game_id: &str, alert: &Alert, handle: H) -> (r: Option<H>)
        requires
            old(self).wf(),
        ensures
            final(self).wf(),
            final(self).registry() == old(self).registry(),
            final(self).pending() == old(self).pending().insert(
                key_of(game_id@, alert@),
                PendingTask { ticket: old(self).ticket(), handle },
            ),
            final(self).ticket() == next_ticket_after(old(self).ticket()),
            final(self).loader() == old(self).loader(),
            match r {
                Some(h) => old(self).pending().contains_key(key_of(game_id@, alert@)) && h == old(
                    self,
                ).pending()[key_of(game_id@, alert@)].handle,
                None => !old(self).pending().contains_key(key_of(game_id@, alert@)),
            },
    {
        self.thread_handles_map.schedule(AlertKey::new(game_id, alert), handle)
    }

    /// The ticket that the next scheduled task gets.
    pub fn next_ticket(&self) -> (r: u64)
        ensures
            r == self.ticket(),
    {
        self.thread_handles_map.next_ticket()
    }

    /// Drops the task of `alert` of game `game_id` once it has fired, unless a
    /// newer task has replaced it.
    pub fn finish_alert(&mut self, game_id: &str, alert: &Alert, ticket: u64)
        requires
            old(self).wf(),
        ensures
            final(self).wf(),
            final(self).registry() == old(self).registry(),
            final(self).ticket() == old(self).ticket(),
            final(self).loader() == old(self).loader(),
            final(self).pending() == if old(self).pending().contains_key(key_of(game_id@, alert@))
                && old(self).pending()[key_of(game_id@, alert@)].ticket == ticket {
                old(self).pending().remove(key_of(game_id@, alert@))
            } else {
                old(self).pending()
            },
    {
        let _ = self.thread_handles_map.finish(&AlertKey::new(game_id, alert), ticket);
    }
}

/// Within one reconciliation, an alert of an observed game that was notified
/// and whose player is no longer waited for becomes not notified, and its key
/// is among those whose pending task is cancelled.
pub proof fn lemma_reset_on_turn_end(
    reg: Map<Seq<char>, Seq<AlertView>>,
    games: Map<Seq<char>, Game>,
    g: Seq<char>,
    j: int,
)
    requires
        reg.contains_key(g),
        games.contains_key(g),
        0 <= j < reg[g].len(),
        reg[g][j].notified,
        !waits_for(games[g]@, reg[g][j].player_id),
    ensures
        reconciled(pruned(reg, games), games).contains_key(g),
        reconciled(pruned(reg, games), games)[g][j] == with_notified(reg[g][j], false),
        is_reset_key(reg, games, key_of(g, reg[g][j])),
        !is_pruned_key(reg, games, key_of(g, reg[g][j])),
{
    assert(resets_now(reg[g][j], games[g]@));
}

/// After a reconciliation against games that lack game `g`, the registry has
/// no entry for `g`, and every key of an alert `g` had is among those whose
/// pending task is cancelled.
pub proof fn lemma_prune_complete(
    reg: Map<Seq<char>, Seq<AlertView>>,
    games: Map<Seq<char>, Game>,
    g: Seq<char>,
)
    requires
        !games.contains_key(g),
    ensures
        !reconciled(pruned(reg, games), games).contains_key(g),
        forall|j: int|
            reg.contains_key(g) && 0 <= j < reg[g].len() ==> is_pruned_key(
                reg,
                games,
                #[trigger] key_of(g, reg[g][j]),
            ),
{
}

/// Reconciling twice against the same games changes nothing more, and the
/// second pass arms no alert: an armed alert is announced once per turn.
pub proof fn lemma_second_pass_is_quiet(
    reg: Map<Seq<char>, Seq<AlertView>>,
    games: Map<Seq<char>, Game>,
)
    ensures
        ({
            let once = reconciled(pruned(reg, games), games);
            &&& reconciled(pruned(once, games), games) == once
            &&& forall|g: Seq<char>, j: int|
                once.contains_key(g) && games.contains_key(g) && 0 <= j < once[g].len()
                    ==> !fires_now(#[trigger] once[g][j], games[g]@)
        }),
{
    let once = reconciled(pruned(reg, games), games);
    let twice = reconciled(pruned(once, games), games);
    assert forall|g: Seq<char>| #[trigger] once.contains_key(g) implies twice.contains_key(g)
        && twice[g] == once[g] by {
        assert(games.contains_key(g));
        assert(twice[g] =~= once[g]);
    }
    assert(twice =~= once);
}

} // verus!
