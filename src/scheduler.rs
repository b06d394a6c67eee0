//! The table of pending notification tasks: at most one per alert.
//!
//! The tasks themselves (a timer, then the notification) run outside the
//! library; the table only keeps their handles, keyed by alert, and hands back
//! the handles that must be aborted.

use vstd::prelude::*;
use crate::alert::{Alert, AlertView};
use crate::id_map::{IdMap, MapKey};

verus! {

/// Model of an [`AlertKey`]: game, room, player and user.
pub type KeyView = (Seq<char>, Seq<char>, Seq<char>, Seq<char>);

/// The key of alert `a` of game `g`.
pub open spec fn key_of(g: Seq<char>, a: AlertView) -> KeyView {
    (g, a.room_id, a.player_id, a.user_id)
}

/// Identifies one alert of one game.
#[derive(Debug, Clone)]
pub struct AlertKey {
    pub game_id: String,
    pub room_id: String,
    pub player_id: String,
    pub user_id: String,
}

impl View for AlertKey {
    type V = KeyView;

    open spec fn view(&self) -> KeyView {
        (self.game_id@, self.room_id@, self.player_id@, self.user_id@)
    }
}

impl MapKey for AlertKey {
    fn same_key(&self, other: &AlertKey) -> (r: bool) {
        self.game_id == other.game_id && self.room_id == other.room_id && self.player_id
            == other.player_id && self.user_id == other.user_id
    }

    fn copy_key(&self) -> (r: AlertKey) {
        AlertKey {
            game_id: self.game_id.clone(),
            room_id: self.room_id.clone(),
            player_id: self.player_id.clone(),
            user_id: self.user_id.clone(),
        }
    }
}

impl AlertKey {
    /// The key of `alert` in game `game_id`.
    pub fn new(game_id: &str, alert: &Alert) -> (r: AlertKey)
        ensures
            r@ == key_of(game_id@, alert@),
    {
        AlertKey {
            game_id: game_id.to_owned(),
            room_id: alert.room_id.clone(),
            player_id: alert.player_id.clone(),
            user_id: alert.user_id.clone(),
        }
    }
}

/// A pending task: the ticket it was scheduled under and its handle.
pub struct PendingTask<H> {
    pub ticket: u64,
    pub handle: H,
}

/// The ticket that follows `t`.
pub open spec fn next_ticket_after(t: u64) -> u64 {
    if t == u64::MAX {
        0
    } else {
        (t + 1) as u64
    }
}

/// Whether `h` is the handle of a task of game `g` in `t`.
pub open spec fn handle_of_game<H>(t: Map<KeyView, PendingTask<H>>, g: Seq<char>, h: H) -> bool {
    exists|k: KeyView| #[trigger] t.contains_key(k) && k.0 == g && h == t[k].handle
}

/// Pending tasks keyed by alert. A key has at most one pending task.
pub struct TaskTable<H> {
    tasks: IdMap<AlertKey, PendingTask<H>>,
    next_ticket: u64,
}

impl<H> View for TaskTable<H> {
    type V = Map<KeyView, PendingTask<H>>;

    closed spec fn view(&self) -> Map<KeyView, PendingTask<H>> {
        self.tasks@
    }
}

impl<H> TaskTable<H> {
    pub closed spec fn wf(&self) -> bool {
        self.tasks.wf()
    }

    /// The ticket the next scheduled task gets.
    pub closed spec fn spec_next_ticket(&self) -> u64 {
        self.next_ticket
    }

    /// The empty table.
    pub fn new() -> (r: TaskTable<H>)
        ensures
            r.wf(),
            r@ == Map::<KeyView, PendingTask<H>>::empty(),
            r.spec_next_ticket() == 0,
    {
        TaskTable { tasks: IdMap::new(), next_ticket: 0 }
    }

    /// The ticket the next scheduled task gets.
    pub fn next_ticket(&self) -> (r: u64)
        ensures
            r == self.spec_next_ticket(),
    {
        self.next_ticket
    }

    /// Whether a task is pending for `key`.
    pub fn is_pending(&self, key: &AlertKey) -> (r: bool)
        requires
            self.wf(),
        ensures
            r == self@.contains_key(key@),
    {
        self.tasks.contains_key(key)
    }

    /// Records `handle` as the pending task of `key`, under the next ticket.
    /// The task it supersedes, if any, is taken out of the table and returned:
    /// the caller aborts it, so that the latest scheduling wins.
    pub fn schedule(&mut self, key: AlertKey, handle: H) -> (r: Option<H>)
        requires
            old(self).wf(),
        ensures
            final(self).wf(),
            final(self)@ == old(self)@.insert(
                key@,
                PendingTask { ticket: old(self).spec_next_ticket(), handle },
            ),
            final(self).spec_next_ticket() == next_ticket_after(old(self).spec_next_ticket()),
            match r {
                Some(h) => old(self)@.contains_key(key@) && h == old(self)@[key@].handle,
                None => !old(self)@.contains_key(key@),
            },
    {
        let ticket = self.next_ticket;
        let previous = self.tasks.remove(&key);
        self.tasks.insert(key, PendingTask { ticket, handle });
        self.next_ticket = if self.next_ticket == u64::MAX {
            0
        } else {
            self.next_ticket + 1
        };
        proof {
            assert(self@ =~= old(self)@.insert(key@, PendingTask { ticket, handle }));
        }
        match previous {
            Some(t) => Some(t.handle),
            None => None,
        }
    }

    /// Takes the pending task of `key` out of the table, if any, and returns
    /// its handle for the caller to abort. Cancelling twice does nothing more.
    pub fn cancel(&mut self, key: &AlertKey) -> (r: Option<H>)
        requires
            old(self).wf(),
        ensures
            final(self).wf(),
            final(self)@ == old(self)@.remove(key@),
            final(self).spec_next_ticket() == old(self).spec_next_ticket(),
            match r {
                Some(h) => old(self)@.contains_key(key@) && h == old(self)@[key@].handle,
                None => !old(self)@.contains_key(key@),
            },
    {
        match self.tasks.remove(key) {
            Some(t) => Some(t.handle),
            None => None,
        }
    }

    /// Drops the entry of `key` once its task has fired, unless a newer task
    /// (with another ticket) has replaced it meanwhile.
    pub fn finish(&mut self, key: &AlertKey, ticket: u64) -> (r: Option<H>)
        requires
            old(self).wf(),
        ensures
            final(self).wf(),
            final(self).spec_next_ticket() == old(self).spec_next_ticket(),
            final(self)@ == if old(self)@.contains_key(key@) && old(self)@[key@].ticket == ticket {
                old(self)@.remove(key@)
            } else {
                old(self)@
            },
            match r {
                Some(h) => old(self)@.contains_key(key@) && old(self)@[key@].ticket == ticket && h
                    == old(self)@[key@].handle,
                None => !(old(self)@.contains_key(key@) && old(self)@[key@].ticket == ticket),
            },
    {
        let current = match self.tasks.get(key) {
            Some(t) => t.ticket == ticket,
            None => false,
        };
        if current {
            self.cancel(key)
        } else {
            None
        }
    }

    /// Takes out of the table every task of game `game_id` and returns their
    /// handles for the caller to abort.
    pub fn cancel_game(&mut self, game_id: &str) -> (r: Vec<H>)
        requires
            old(self).wf(),
        ensures
            final(self).wf(),
            final(self).spec_next_ticket() == old(self).spec_next_ticket(),
            forall|k: KeyView| #[trigger]
                final(self)@.contains_key(k) <==> (old(self)@.contains_key(k) && k.0 != game_id@),
            forall|k: KeyView| #[trigger]
                final(self)@.contains_key(k) ==> final(self)@[k] == old(self)@[k],
            forall|i: int|
                0 <= i < r.len() ==> #[trigger] handle_of_game(old(self)@, game_id@, r@[i]),
            forall|k: KeyView| #[trigger]
                old(self)@.contains_key(k) && k.0 == game_id@ ==> exists|i: int|
                    0 <= i < r.len() && r@[i] == old(self)@[k].handle,
    {
        let keys = self.tasks.keys();
        proof {
            self.tasks.lemma_key_seq();
        }
        let ghost ks = self.tasks.key_seq();
        let mut r: Vec<H> = Vec::new();
        let mut i: usize = 0;
        while i < keys.len()
            invariant
                self.wf(),
                self.next_ticket == old(self).next_ticket,
                keys@.map_values(|k: AlertKey| k@) == ks,
                ks.no_duplicates(),
                forall|k: KeyView| old(self)@.contains_key(k) <==> ks.contains(k),
                i <= keys.len(),
                forall|k: KeyView| #[trigger]
                    self@.contains_key(k) <==> (old(self)@.contains_key(k) && !(k.0 == game_id@
                        && ks.take(i as int).contains(k))),
                forall|k: KeyView| #[trigger] self@.contains_key(k) ==> self@[k] == old(self)@[k],
                forall|j: int|
                    0 <= j < r.len() ==> #[trigger] handle_of_game(old(self)@, game_id@, r@[j]),
                forall|k: KeyView| #[trigger]
                    old(self)@.contains_key(k) && k.0 == game_id@ && ks.take(i as int).contains(k)
                        ==> exists|j: int| 0 <= j < r.len() && r@[j] == old(self)@[k].handle,
            decreases keys.len() - i,
        {
            let key = &keys[i];
            let ghost kv = key@;
            let ghost before = self@;
            let matches = crate::text::str_eq(key.game_id.as_str(), game_id);
            assert(kv == ks[i as int]);
            assert(ks.take(i + 1) =~= ks.take(i as int).push(kv));
            if matches {
                let ghost prev = r@;
                assert(ks.contains(kv));
                assert(!ks.take(i as int).contains(kv)) by {
                    if ks.take(i as int).contains(kv) {
                        let j = choose|j: int| 0 <= j < i && #[trigger] ks.take(i as int)[j] == kv;
                        assert(ks[j] == ks[i as int]);
                    }
                }
                match self.cancel(key) {
                    Some(h) => {
                        r.push(h);
                        proof {
                            assert forall|j: int| 0 <= j < r.len() implies #[trigger] handle_of_game(old(self)@, game_id@, r@[j]) by {
                                if j < prev.len() {
                                    assert(r@[j] == prev[j]);
                                } else {
                                    assert(old(self)@.contains_key(kv));
                                }
                            }
                            assert forall|k: KeyView| #[trigger]
                                old(self)@.contains_key(k) && k.0 == game_id@ && ks.take(
                                    i + 1,
                                ).contains(k) implies exists|j: int|
                                0 <= j < r.len() && r@[j] == old(self)@[k].handle by {
                                if k == kv {
                                    assert(r@[prev.len() as int] == old(self)@[k].handle);
                                } else {
                                    let x = choose|x: int|
                                        0 <= x < i + 1 && #[trigger] ks.take(i + 1)[x] == k;
                                    assert(ks.take(i as int)[x] == k);
                                    let j = choose|j: int|
                                        0 <= j < prev.len() && prev[j] == old(self)@[k].handle;
                                    assert(r@[j] == prev[j]);
                                }
                            }
                        }
                    },
                    None => {
                        assert(false);
                    },
                }
                assert(self@ == before.remove(kv));
            } else {
                assert(self@ == before);
            }
            proof {
                assert forall|k: KeyView| #[trigger]
                    self@.contains_key(k) <==> (old(self)@.contains_key(k) && !(k.0 == game_id@
                        && ks.take(i + 1).contains(k))) by {
                    assert(before.contains_key(k) <==> (old(self)@.contains_key(k) && !(k.0
                        == game_id@ && ks.take(i as int).contains(k))));
                    assert(ks.take(i + 1)[i as int] == kv);
                    assert(matches == (kv.0 == game_id@));
                    if matches {
                        assert(self@.contains_key(k) <==> (before.contains_key(k) && k != kv));
                    }
                    if ks.take(i + 1).contains(k) && k != kv {
                        let x = choose|x: int| 0 <= x < i + 1 && #[trigger] ks.take(i + 1)[x] == k;
                        assert(ks.take(i as int)[x] == k);
                    }
                    if ks.take(i as int).contains(k) {
                        let x = choose|x: int| 0 <= x < i && #[trigger] ks.take(i as int)[x] == k;
                        assert(ks.take(i + 1)[x] == k);
                    }
                }
            }
            i += 1;
        }
        proof {
            assert(ks.take(i as int) =~= ks);
        }
        r
    }
}

/// Scheduling twice for the same alert leaves exactly one pending task, the
/// second; the second scheduling hands back the first task to be aborted.
pub proof fn lemma_debounce<H>(
    t0: Map<KeyView, PendingTask<H>>,
    k: KeyView,
    first: PendingTask<H>,
    second: PendingTask<H>,
)
    ensures
        ({
            let t1 = t0.insert(k, first);
            let t2 = t1.insert(k, second);
            &&& t1.contains_key(k) && t1[k].handle == first.handle
            &&& t2 == t0.insert(k, second)
            &&& t2.dom() == t0.dom().insert(k)
            &&& t2[k] == second
        }),
{
    let t1 = t0.insert(k, first);
    let t2 = t1.insert(k, second);
    assert(t2 =~= t0.insert(k, second));
}

} // verus!
